//! Events: what the adapters report and what subscribers are told of.

use crate::json::{Json, JsonValue};
use vstd::prelude::*;

verus! {

/// Where an event comes from.
#[derive(Debug)]
pub enum AdapterSource {
    Hyprland,
    Udev,
    Power,
    Network,
    Bluetooth,
    Terminal,
    Git,
    Filesystem,
    Systemd,
    Podman,
    Remote,
    App(String),
    Manual,
    System,
}

/// What a source stands for.
pub enum Source {
    Hyprland,
    Udev,
    Power,
    Network,
    Bluetooth,
    Terminal,
    Git,
    Filesystem,
    Systemd,
    Podman,
    Remote,
    App(Seq<char>),
    Manual,
    System,
}

impl View for AdapterSource {
    type V = Source;

    open spec fn view(&self) -> Source {
        match self {
            AdapterSource::Hyprland => Source::Hyprland,
            AdapterSource::Udev => Source::Udev,
            AdapterSource::Power => Source::Power,
            AdapterSource::Network => Source::Network,
            AdapterSource::Bluetooth => Source::Bluetooth,
            AdapterSource::Terminal => Source::Terminal,
            AdapterSource::Git => Source::Git,
            AdapterSource::Filesystem => Source::Filesystem,
            AdapterSource::Systemd => Source::Systemd,
            AdapterSource::Podman => Source::Podman,
            AdapterSource::Remote => Source::Remote,
            AdapterSource::App(id) => Source::App(id@),
            AdapterSource::Manual => Source::Manual,
            AdapterSource::System => Source::System,
        }
    }
}

impl AdapterSource {
    /// A source that stands for the same.
    pub fn duplicate(&self) -> (r: AdapterSource)
        ensures
            r@ == self@,
    {
        match self {
            AdapterSource::Hyprland => AdapterSource::Hyprland,
            AdapterSource::Udev => AdapterSource::Udev,
            AdapterSource::Power => AdapterSource::Power,
            AdapterSource::Network => AdapterSource::Network,
            AdapterSource::Bluetooth => AdapterSource::Bluetooth,
            AdapterSource::Terminal => AdapterSource::Terminal,
            AdapterSource::Git => AdapterSource::Git,
            AdapterSource::Filesystem => AdapterSource::Filesystem,
            AdapterSource::Systemd => AdapterSource::Systemd,
            AdapterSource::Podman => AdapterSource::Podman,
            AdapterSource::Remote => AdapterSource::Remote,
            AdapterSource::App(id) => AdapterSource::App(id.clone()),
            AdapterSource::Manual => AdapterSource::Manual,
            AdapterSource::System => AdapterSource::System,
        }
    }
}

/// What an adapter reports, before it has a name in the event namespace.
#[derive(Debug)]
pub struct RawEvent {
    pub source: AdapterSource,
    pub kind: String,
    pub payload: JsonValue,
    pub timestamp: u64,
}

/// What a raw event stands for.
#[verifier::ext_equal]
pub struct RawView {
    pub source: Source,
    pub kind: Seq<char>,
    pub payload: Json,
    pub timestamp: u64,
}

impl DeepView for RawEvent {
    type V = RawView;

    open spec fn deep_view(&self) -> RawView {
        RawView {
            source: self.source@,
            kind: self.kind@,
            payload: self.payload@,
            timestamp: self.timestamp,
        }
    }
}

/// An event that subscribers are told of.
#[derive(Debug)]
pub struct BreadEvent {
    pub event: String,
    pub timestamp: u64,
    pub source: AdapterSource,
    pub data: JsonValue,
}

/// What an event stands for.
#[verifier::ext_equal]
pub struct EventView {
    pub event: Seq<char>,
    pub timestamp: u64,
    pub source: Source,
    pub data: Json,
}

impl DeepView for BreadEvent {
    type V = EventView;

    open spec fn deep_view(&self) -> EventView {
        EventView {
            event: self.event@,
            timestamp: self.timestamp,
            source: self.source@,
            data: self.data@,
        }
    }
}

impl BreadEvent {
    /// An event of the given name, stamped with the time `now`.
    pub fn new(event: &str, source: AdapterSource, data: JsonValue, now: u64) -> (r: BreadEvent)
        ensures
            r.deep_view() == (EventView {
                event: event@,
                timestamp: now,
                source: source@,
                data: data@,
            }),
    {
        BreadEvent { event: event.to_owned(), timestamp: now, source, data }
    }

    /// An event that stands for the same.
    pub fn duplicate(&self) -> (r: BreadEvent)
        ensures
            r.deep_view() == self.deep_view(),
    {
        BreadEvent {
            event: self.event.clone(),
            timestamp: self.timestamp,
            source: self.source.duplicate(),
            data: self.data.duplicate(),
        }
    }
}

} // verus!
