//! From what adapters report to the events that subscribers are told of.

use crate::apps;
use crate::events::{AdapterSource, BreadEvent, EventView, RawEvent, RawView, Source};
use crate::json::{Json, JsonValue, Numeral};
use crate::recency::{self, Recency};
use crate::state_engine;
use crate::text;
use crate::types::RuntimeView;
use crate::wire;
use vstd::prelude::*;

verus! {

/// Names events, and drops those that repeat one within a window of time.
#[derive(Debug)]
pub struct EventNormalizer {
    dedup_window_ms: u64,
    recent: Recency,
    /// When each physical device last came or went, so that the events of its
    /// child nodes are dropped.
    seen_devices: Recency,
    legacy_hyprland_event_names: bool,
}

/// What a normalizer stands for.
#[verifier::ext_equal]
pub struct NormalizerView {
    pub window: u64,
    pub recent: Map<Seq<Seq<char>>, u64>,
    pub seen: Map<Seq<Seq<char>>, u64>,
    pub legacy: bool,
}

impl View for EventNormalizer {
    type V = NormalizerView;

    closed spec fn view(&self) -> NormalizerView {
        NormalizerView {
            window: self.dedup_window_ms,
            recent: self.recent@,
            seen: self.seen_devices@,
            legacy: self.legacy_hyprland_event_names,
        }
    }
}

/// The event of the given name, source and data that a report leads to.
pub open spec fn named(raw: RawView, name: Seq<char>, source: Source, data: Json) -> EventView {
    EventView { event: name, timestamp: raw.timestamp, source, data }
}

/// The pieces of a Hyprland message; the empty message has none.
pub open spec fn hyprland_fields(data: Seq<char>) -> Seq<Seq<char>> {
    if data.len() == 0 {
        Seq::empty()
    } else {
        text::split_by(data, ">>"@)
    }
}

/// The piece at position `i`, or the empty text where there is none.
pub open spec fn piece(fields: Seq<Seq<char>>, i: int) -> Seq<char> {
    if i < fields.len() {
        fields[i]
    } else {
        ""@
    }
}

/// The pieces of a Hyprland message; the empty message has none.
pub fn split_hyprland_fields(data: &str) -> (r: Vec<String>)
    ensures
        r.deep_view() == hyprland_fields(data@),
{
    if data.is_empty() {
        let r: Vec<String> = Vec::new();
        assert(r.deep_view() =~= Seq::empty());
        return r;
    }
    proof {
        reveal_strlit(">>");
    }
    text::split_on_text(data, ">>")
}

fn piece_value(fields: &Vec<String>, i: usize) -> (r: JsonValue)
    ensures
        r@ == Json::Text(piece(fields.deep_view(), i as int)),
{
    if i < fields.len() {
        JsonValue::of_text(fields[i].as_str())
    } else {
        JsonValue::of_text("")
    }
}

/// The flat name of the event that a kind of Hyprland message stands for.
pub open spec fn hyprland_name(kind: Seq<char>) -> Option<Seq<char>> {
    if kind == "workspace"@ || kind == "workspacev2"@ {
        Some("bread.workspace.changed"@)
    } else if kind == "createworkspace"@ {
        Some("bread.workspace.created"@)
    } else if kind == "destroyworkspace"@ {
        Some("bread.workspace.destroyed"@)
    } else if kind == "monitoradded"@ {
        Some("bread.monitor.connected"@)
    } else if kind == "monitorremoved"@ {
        Some("bread.monitor.disconnected"@)
    } else if kind == "activewindow"@ {
        Some("bread.window.focus.changed"@)
    } else if kind == "activewindowv2"@ {
        Some("bread.window.focused"@)
    } else if kind == "openwindow"@ {
        Some("bread.window.opened"@)
    } else if kind == "closewindow"@ {
        Some("bread.window.closed"@)
    } else if kind == "movewindow"@ {
        Some("bread.window.moved"@)
    } else {
        None
    }
}

/// The data of the event that a kind of Hyprland message stands for.
pub open spec fn hyprland_data(kind: Seq<char>, data: Seq<char>, payload: Json) -> Json {
    let fields = hyprland_fields(data);
    if kind == "createworkspace"@ || kind == "destroyworkspace"@ {
        Json::empty().with("workspace"@, Json::Text(data))
    } else if kind == "monitoradded"@ || kind == "monitorremoved"@ {
        Json::empty().with("name"@, Json::Text(data))
    } else if kind == "activewindowv2"@ || kind == "closewindow"@ {
        Json::empty().with("address"@, Json::Text(piece(fields, 0)))
    } else if kind == "openwindow"@ {
        Json::empty().with("address"@, Json::Text(piece(fields, 0))).with(
            "workspace"@,
            Json::Text(piece(fields, 1)),
        ).with("class"@, Json::Text(piece(fields, 2))).with("title"@, Json::Text(piece(fields, 3)))
    } else if kind == "movewindow"@ {
        Json::empty().with("address"@, Json::Text(piece(fields, 0))).with(
            "workspace"@,
            Json::Text(piece(fields, 1)),
        )
    } else {
        payload
    }
}

/// The name below `bread.hyprland.` that goes with a flat name.
pub open spec fn namespaced(legacy: Seq<char>) -> Seq<char> {
    "bread.hyprland."@ + if text::has_prefix(legacy, "bread."@) {
        legacy.subrange("bread."@.len() as int, legacy.len() as int)
    } else {
        legacy
    }
}

/// The event under its namespaced name and, where the flat names are still in
/// use, before it under its flat name.
pub open spec fn dual(raw: RawView, legacy_names: bool, name: Seq<char>, data: Json) -> Seq<
    EventView,
> {
    let own = named(raw, namespaced(name), Source::Hyprland, data);
    if legacy_names {
        seq![named(raw, name, Source::Hyprland, data), own]
    } else {
        seq![own]
    }
}

/// The events that a Hyprland message stands for.
pub open spec fn hyprland_events(raw: RawView, legacy_names: bool) -> Seq<EventView> {
    let kind = raw.payload.text_or("kind"@, "unknown"@);
    let data = raw.payload.text_or("data"@, ""@);
    match hyprland_name(kind) {
        Some(name) => dual(raw, legacy_names, name, hyprland_data(kind, data, raw.payload)),
        None => seq![named(raw, "bread.hyprland.event"@, Source::Hyprland, raw.payload)],
    }
}

fn hyprland_flat_name(kind: &str) -> (r: Option<&'static str>)
    ensures
        match r {
            Some(name) => hyprland_name(kind@) == Some(name@),
            None => hyprland_name(kind@) is None,
        },
{
    if text::same(kind, "workspace") || text::same(kind, "workspacev2") {
        Some("bread.workspace.changed")
    } else if text::same(kind, "createworkspace") {
        Some("bread.workspace.created")
    } else if text::same(kind, "destroyworkspace") {
        Some("bread.workspace.destroyed")
    } else if text::same(kind, "monitoradded") {
        Some("bread.monitor.connected")
    } else if text::same(kind, "monitorremoved") {
        Some("bread.monitor.disconnected")
    } else if text::same(kind, "activewindow") {
        Some("bread.window.focus.changed")
    } else if text::same(kind, "activewindowv2") {
        Some("bread.window.focused")
    } else if text::same(kind, "openwindow") {
        Some("bread.window.opened")
    } else if text::same(kind, "closewindow") {
        Some("bread.window.closed")
    } else if text::same(kind, "movewindow") {
        Some("bread.window.moved")
    } else {
        None
    }
}

fn hyprland_payload(kind: &str, data: &str, payload: &JsonValue) -> (r: JsonValue)
    ensures
        r@ == hyprland_data(kind@, data@, payload@),
{
    let fields = split_hyprland_fields(data);
    if text::same(kind, "createworkspace") || text::same(kind, "destroyworkspace") {
        JsonValue::empty().with("workspace", JsonValue::of_text(data))
    } else if text::same(kind, "monitoradded") || text::same(kind, "monitorremoved") {
        JsonValue::empty().with("name", JsonValue::of_text(data))
    } else if text::same(kind, "activewindowv2") || text::same(kind, "closewindow") {
        JsonValue::empty().with("address", piece_value(&fields, 0))
    } else if text::same(kind, "openwindow") {
        JsonValue::empty().with("address", piece_value(&fields, 0)).with(
            "workspace",
            piece_value(&fields, 1),
        ).with("class", piece_value(&fields, 2)).with("title", piece_value(&fields, 3))
    } else if text::same(kind, "movewindow") {
        JsonValue::empty().with("address", piece_value(&fields, 0)).with(
            "workspace",
            piece_value(&fields, 1),
        )
    } else {
        payload.duplicate()
    }
}

fn event_of(raw: &RawEvent, name: &str, source: AdapterSource, data: JsonValue) -> (r: BreadEvent)
    ensures
        r.deep_view() == named(raw.deep_view(), name@, source@, data@),
{
    BreadEvent::new(name, source, data, raw.timestamp)
}

fn one(event: BreadEvent) -> (r: Vec<BreadEvent>)
    ensures
        r.deep_view() == seq![event.deep_view()],
{
    let mut r: Vec<BreadEvent> = Vec::new();
    let ghost view = event.deep_view();
    r.push(event);
    assert(r.deep_view() =~= seq![view]);
    r
}

fn none() -> (r: Vec<BreadEvent>)
    ensures
        r.deep_view() == Seq::<EventView>::empty(),
{
    let r: Vec<BreadEvent> = Vec::new();
    assert(r.deep_view() =~= Seq::empty());
    r
}

impl EventNormalizer {
    /// A normalizer that drops what repeats within the given window of time,
    /// and keeps the flat names of Hyprland events in use.
    pub fn new(dedup_window_ms: u64) -> (r: Self)
        ensures
            r@ == (NormalizerView {
                window: dedup_window_ms,
                recent: Map::empty(),
                seen: Map::empty(),
                legacy: true,
            }),
    {
        EventNormalizer {
            dedup_window_ms,
            recent: Recency::new(),
            seen_devices: Recency::new(),
            legacy_hyprland_event_names: true,
        }
    }

    /// This normalizer with the flat names of Hyprland events in use or not.
    pub fn with_legacy_hyprland_event_names(self, enabled: bool) -> (r: Self)
        ensures
            r@ == (NormalizerView { legacy: enabled, ..self@ }),
    {
        EventNormalizer { legacy_hyprland_event_names: enabled, ..self }
    }

    fn emit_hyprland_dual(&self, legacy_event: &str, data: JsonValue, raw: &RawEvent) -> (r: Vec<
        BreadEvent,
    >)
        ensures
            r.deep_view() == dual(raw.deep_view(), self@.legacy, legacy_event@, data@),
    {
        let rest = match text::strip_prefix(legacy_event, "bread.") {
            Some(rest) => rest,
            None => legacy_event,
        };
        let name = text::concat("bread.hyprland.", rest);
        let mut out: Vec<BreadEvent> = Vec::new();
        if self.legacy_hyprland_event_names {
            out.push(event_of(raw, legacy_event, AdapterSource::Hyprland, data.duplicate()));
        }
        out.push(event_of(raw, name.as_str(), AdapterSource::Hyprland, data));
        assert(out.deep_view() =~= dual(raw.deep_view(), self@.legacy, legacy_event@, data@));
        out
    }

    fn normalize_hyprland(&self, raw: &RawEvent) -> (r: Vec<BreadEvent>)
        ensures
            r.deep_view() == hyprland_events(raw.deep_view(), self@.legacy),
    {
        let kind = raw.payload.text_or("kind", "unknown");
        let data = raw.payload.text_or("data", "");
        match hyprland_flat_name(kind.as_str()) {
            Some(name) => {
                let payload = hyprland_payload(kind.as_str(), data.as_str(), &raw.payload);
                self.emit_hyprland_dual(name, payload, raw)
            },
            None => one(
                event_of(
                    raw,
                    "bread.hyprland.event",
                    AdapterSource::Hyprland,
                    raw.payload.duplicate(),
                ),
            ),
        }
    }
}

/// The name of the event that a battery level calls for, if it calls for one.
pub open spec fn battery_event(level: u64) -> Option<Seq<char>> {
    if level <= 5 {
        Some("bread.power.battery.critical"@)
    } else if level <= 10 {
        Some("bread.power.battery.very_low"@)
    } else if level <= 20 {
        Some("bread.power.battery.low"@)
    } else if level >= 100 {
        Some("bread.power.battery.full"@)
    } else {
        None
    }
}

/// The events that a report on the power supply stands for.
pub open spec fn power_events(raw: RawView) -> Seq<EventView> {
    let ac = match raw.payload.flag("ac_connected"@) {
        Some(true) => seq![
            named(raw, "bread.power.ac.connected"@, Source::Power, raw.payload),
        ],
        Some(false) => seq![
            named(raw, "bread.power.ac.disconnected"@, Source::Power, raw.payload),
        ],
        None => Seq::empty(),
    };
    let battery = match raw.payload.unsigned("battery_percent"@) {
        Some(level) => match battery_event(level) {
            Some(name) => seq![named(raw, name, Source::Power, raw.payload)],
            None => Seq::empty(),
        },
        None => Seq::empty(),
    };
    if ac.len() + battery.len() == 0 {
        seq![named(raw, "bread.power.changed"@, Source::Power, raw.payload)]
    } else {
        ac + battery
    }
}

/// The property of that name that a report holds.
pub open spec fn property(payload: Json, name: Seq<char>) -> Option<Json> {
    match payload.get("properties"@) {
        Some(p) => p.get(name),
        None => None,
    }
}

/// The name of a Bluetooth device: its own, or else that among its properties.
pub open spec fn bluetooth_name(payload: Json) -> Seq<char> {
    match payload.text("name"@) {
        Some(name) => name,
        None => {
            let v = if property(payload, "Name"@) is Some {
                property(payload, "Name"@)
            } else {
                property(payload, "Alias"@)
            };
            match v {
                Some(Json::Text(name)) => name,
                _ => "unknown"@,
            }
        },
    }
}

/// The events that a Bluetooth report stands for.
pub open spec fn bluetooth_events(raw: RawView) -> Seq<EventView> {
    let id = Json::Text(raw.payload.text_or("path"@, "unknown"@));
    let address = Json::Text(raw.payload.text_or("address"@, "unknown"@));
    let name = Json::Text(bluetooth_name(raw.payload));
    let subsystem = Json::Text("bluetooth"@);
    let device = Json::empty().with("id"@, id).with("device"@, Json::Text("unknown"@)).with(
        "name"@,
        name,
    ).with("address"@, address).with("subsystem"@, subsystem).with("raw"@, raw.payload);
    if raw.kind == "bluetooth.enumerate"@ || raw.kind == "bluetooth.device.connected"@ {
        seq![named(raw, "bread.device.connected"@, Source::Bluetooth, device)]
    } else if raw.kind == "bluetooth.device.disconnected"@ {
        seq![named(raw, "bread.device.disconnected"@, Source::Bluetooth, device)]
    } else if raw.kind == "bluetooth.device.added"@ {
        seq![
            named(
                raw,
                "bread.bluetooth.device.paired"@,
                Source::Bluetooth,
                Json::empty().with("id"@, id).with("name"@, name).with("address"@, address).with(
                    "subsystem"@,
                    subsystem,
                ).with("raw"@, raw.payload),
            ),
        ]
    } else if raw.kind == "bluetooth.device.removed"@ {
        seq![
            named(
                raw,
                "bread.bluetooth.device.unpaired"@,
                Source::Bluetooth,
                Json::empty().with("id"@, id).with("address"@, address).with(
                    "subsystem"@,
                    subsystem,
                ).with("raw"@, raw.payload),
            ),
        ]
    } else {
        Seq::empty()
    }
}

/// Whether a network report says that the machine is online, if it tells.
pub open spec fn network_online(raw: RawView) -> Option<bool> {
    match raw.payload.flag("online"@) {
        Some(b) => Some(b),
        None => if raw.kind == "link.up"@ || raw.kind == "address.added"@ {
            Some(true)
        } else if raw.kind == "link.down"@ || raw.kind == "address.removed"@ {
            Some(false)
        } else if raw.kind == "route.default.changed"@ {
            Some(raw.payload.get("gateway"@) matches Some(v) && !(v is Null))
        } else {
            None
        },
    }
}

/// The events that a network report stands for.
pub open spec fn network_events(raw: RawView) -> Seq<EventView> {
    match network_online(raw) {
        Some(online) => seq![
            named(
                raw,
                if online {
                    "bread.network.connected"@
                } else {
                    "bread.network.disconnected"@
                },
                Source::Network,
                raw.payload.with("online"@, Json::Bool(online)),
            ),
        ],
        None => Seq::empty(),
    }
}

/// The name of the event that a report of a family of its own stands for.
pub open spec fn family_name(raw: RawView) -> Seq<char> {
    match raw.source {
        Source::Terminal => "bread.terminal."@ + raw.kind,
        Source::Remote => "bread.remote."@ + raw.kind,
        Source::Git => "bread.git."@ + raw.kind,
        Source::Filesystem => "bread.project."@ + raw.kind,
        Source::Systemd => "bread.service."@ + if text::has_prefix(raw.kind, "unit."@) {
            raw.kind.subrange("unit."@.len() as int, raw.kind.len() as int)
        } else {
            raw.kind
        },
        Source::Podman => if raw.kind == "container.health_status"@ {
            "bread.container.health.changed"@
        } else {
            "bread."@ + raw.kind
        },
        _ => raw.kind,
    }
}

/// The event that carries a report on unchanged, under the family's name.
pub open spec fn family_event(raw: RawView) -> EventView {
    named(raw, family_name(raw), raw.source, raw.payload)
}

impl EventNormalizer {
    fn normalize_power(&self, raw: &RawEvent) -> (r: Vec<BreadEvent>)
        ensures
            r.deep_view() == power_events(raw.deep_view()),
    {
        let mut events: Vec<BreadEvent> = Vec::new();
        if let Some(ac) = raw.payload.flag("ac_connected") {
            let name = if ac {
                "bread.power.ac.connected"
            } else {
                "bread.power.ac.disconnected"
            };
            events.push(event_of(raw, name, AdapterSource::Power, raw.payload.duplicate()));
        }
        if let Some(level) = raw.payload.unsigned("battery_percent") {
            let battery_event = if level <= 5 {
                Some("bread.power.battery.critical")
            } else if level <= 10 {
                Some("bread.power.battery.very_low")
            } else if level <= 20 {
                Some("bread.power.battery.low")
            } else if level >= 100 {
                Some("bread.power.battery.full")
            } else {
                None
            };
            if let Some(name) = battery_event {
                events.push(event_of(raw, name, AdapterSource::Power, raw.payload.duplicate()));
            }
        }
        if events.len() == 0 {
            events.push(
                event_of(
                    raw,
                    "bread.power.changed",
                    AdapterSource::Power,
                    raw.payload.duplicate(),
                ),
            );
        }
        assert(events.deep_view() =~= power_events(raw.deep_view()));
        events
    }

    fn bluetooth_device_name(payload: &JsonValue) -> (r: String)
        ensures
            r@ == bluetooth_name(payload@),
    {
        if let Some(name) = payload.text("name") {
            return name.to_owned();
        }
        let v = match payload.get("properties") {
            Some(properties) => match properties.get("Name") {
                Some(v) => Some(v),
                None => properties.get("Alias"),
            },
            None => None,
        };
        match v {
            Some(v) => match v.as_str() {
                Some(name) => name.to_owned(),
                None => "unknown".to_owned(),
            },
            None => "unknown".to_owned(),
        }
    }

    fn normalize_bluetooth(&self, raw: &RawEvent) -> (r: Vec<BreadEvent>)
        ensures
            r.deep_view() == bluetooth_events(raw.deep_view()),
    {
        let kind = raw.kind.as_str();
        let path = raw.payload.text_or("path", "unknown");
        let address = raw.payload.text_or("address", "unknown");
        let name = Self::bluetooth_device_name(&raw.payload);
        let id = JsonValue::of_text(path.as_str());
        let address = JsonValue::of_text(address.as_str());
        let name = JsonValue::of_text(name.as_str());
        let subsystem = JsonValue::of_text("bluetooth");
        let payload = raw.payload.duplicate();
        let connected = text::same(kind, "bluetooth.enumerate") || text::same(
            kind,
            "bluetooth.device.connected",
        );
        if connected || text::same(kind, "bluetooth.device.disconnected") {
            let device = JsonValue::empty().with("id", id).with(
                "device",
                JsonValue::of_text("unknown"),
            ).with("name", name).with("address", address).with("subsystem", subsystem).with(
                "raw",
                payload,
            );
            let event = if connected {
                "bread.device.connected"
            } else {
                "bread.device.disconnected"
            };
            one(event_of(raw, event, AdapterSource::Bluetooth, device))
        } else if text::same(kind, "bluetooth.device.added") {
            let data = JsonValue::empty().with("id", id).with("name", name).with(
                "address",
                address,
            ).with("subsystem", subsystem).with("raw", payload);
            one(event_of(raw, "bread.bluetooth.device.paired", AdapterSource::Bluetooth, data))
        } else if text::same(kind, "bluetooth.device.removed") {
            let data = JsonValue::empty().with("id", id).with("address", address).with(
                "subsystem",
                subsystem,
            ).with("raw", payload);
            one(event_of(raw, "bread.bluetooth.device.unpaired", AdapterSource::Bluetooth, data))
        } else {
            none()
        }
    }

    fn normalize_network(&self, raw: &RawEvent) -> (r: Vec<BreadEvent>)
        ensures
            r.deep_view() == network_events(raw.deep_view()),
    {
        let kind = raw.kind.as_str();
        let online = match raw.payload.flag("online") {
            Some(b) => b,
            None => if text::same(kind, "link.up") || text::same(kind, "address.added") {
                true
            } else if text::same(kind, "link.down") || text::same(kind, "address.removed") {
                false
            } else if text::same(kind, "route.default.changed") {
                match raw.payload.get("gateway") {
                    Some(JsonValue::Null) => false,
                    Some(_) => true,
                    None => false,
                }
            } else {
                return none();
            },
        };
        let name = if online {
            "bread.network.connected"
        } else {
            "bread.network.disconnected"
        };
        let data = raw.payload.duplicate().with("online", JsonValue::Bool(online));
        one(event_of(raw, name, AdapterSource::Network, data))
    }

    fn forward(raw: &RawEvent, name: &str) -> (r: Vec<BreadEvent>)
        ensures
            r.deep_view() == seq![
                named(raw.deep_view(), name@, raw.source@, raw.payload@),
            ],
    {
        one(event_of(raw, name, raw.source.duplicate(), raw.payload.duplicate()))
    }

    fn normalize_systemd(&self, raw: &RawEvent) -> (r: Vec<BreadEvent>)
        requires
            raw.source@ is Systemd,
        ensures
            r.deep_view() == seq![family_event(raw.deep_view())],
    {
        let suffix = match text::strip_prefix(raw.kind.as_str(), "unit.") {
            Some(rest) => rest,
            None => raw.kind.as_str(),
        };
        Self::forward(raw, text::concat("bread.service.", suffix).as_str())
    }

    fn normalize_podman(&self, raw: &RawEvent) -> (r: Vec<BreadEvent>)
        requires
            raw.source@ is Podman,
        ensures
            r.deep_view() == seq![family_event(raw.deep_view())],
    {
        if text::same(raw.kind.as_str(), "container.health_status") {
            Self::forward(raw, "bread.container.health.changed")
        } else {
            Self::forward(raw, text::concat("bread.", raw.kind.as_str()).as_str())
        }
    }
}

/// What a device did, by the action that udev reports.
pub open spec fn udev_verb(action: Seq<char>) -> Seq<char> {
    if action == "add"@ {
        "connected"@
    } else if action == "remove"@ {
        "disconnected"@
    } else {
        "changed"@
    }
}

/// A report that is no matter for automation: the binding of a driver, or an
/// interface without an identity.
pub open spec fn udev_ignored(payload: Json) -> bool {
    ||| payload.text_or("action"@, "change"@) == "bind"@
    ||| payload.text_or("name"@, "unknown"@) == "unknown"@ && payload.text_or(
        "id_vendor"@,
        ""@,
    ).len() == 0 && payload.text_or("vendor_id"@, ""@).len() == 0
}

/// The report tells of a physical device that comes or goes.
pub open spec fn udev_physical(payload: Json) -> bool {
    let action = payload.text_or("action"@, "change"@);
    &&& action == "add"@ || action == "remove"@
    &&& payload.text_or("vendor_id"@, ""@).len() > 0
    &&& payload.text_or("product_id"@, ""@).len() > 0
}

/// What is the same for the child nodes of one physical device.
pub open spec fn device_key(payload: Json) -> Seq<Seq<char>> {
    seq![
        udev_verb(payload.text_or("action"@, "change"@)) + ":"@ + payload.text_or(
            "vendor_id"@,
            ""@,
        ) + ":"@ + payload.text_or("product_id"@, ""@),
    ]
}

/// The event that a udev report stands for.
pub open spec fn udev_event(raw: RawView) -> EventView {
    let p = raw.payload;
    named(
        raw,
        "bread.device."@ + udev_verb(p.text_or("action"@, "change"@)),
        Source::Udev,
        Json::empty().with("id"@, Json::Text(p.text_or("id"@, "unknown"@))).with(
            "device"@,
            Json::Text("unknown"@),
        ).with("name"@, Json::Text(p.text_or("name"@, "unknown"@))).with(
            "vendor"@,
            Json::Text(p.text_or("id_vendor"@, ""@)),
        ).with("vendor_id"@, Json::Text(p.text_or("vendor_id"@, ""@))).with(
            "product_id"@,
            Json::Text(p.text_or("product_id"@, ""@)),
        ).with("subsystem"@, Json::Text(p.text_or("subsystem"@, ""@))).with("raw"@, p),
    )
}

/// The report is about a physical device of which another node was just
/// reported.
pub open spec fn udev_child(n: NormalizerView, raw: RawView) -> bool {
    udev_physical(raw.payload) && recency::repeated(
        n.seen,
        device_key(raw.payload),
        raw.timestamp,
        n.window,
    )
}

/// The events that a report stands for.
pub open spec fn translated(n: NormalizerView, raw: RawView) -> Seq<EventView> {
    match raw.source {
        Source::Udev => if udev_ignored(raw.payload) || udev_child(n, raw) {
            Seq::empty()
        } else {
            seq![udev_event(raw)]
        },
        Source::Hyprland => hyprland_events(raw, n.legacy),
        Source::Power => power_events(raw),
        Source::Network => network_events(raw),
        Source::Bluetooth => bluetooth_events(raw),
        Source::App(app) => if apps::in_namespace(app, raw.kind) {
            seq![family_event(raw)]
        } else {
            Seq::empty()
        },
        _ => seq![family_event(raw)],
    }
}

/// The physical devices that are remembered after a report.
pub open spec fn seen_after(n: NormalizerView, raw: RawView) -> Map<Seq<Seq<char>>, u64> {
    if raw.source is Udev && !udev_ignored(raw.payload) && udev_physical(raw.payload)
        && !udev_child(n, raw) {
        recency::noted(n.seen, device_key(raw.payload), raw.timestamp, n.window)
    } else {
        n.seen
    }
}

/// What two events have in common when one repeats the other: the name, and the
/// text of the data.
pub open spec fn event_key(event: EventView) -> Seq<Seq<char>> {
    seq![event.event, wire::json_text(event.data)]
}

/// The event passes: it repeats none within the window of time. Terminal
/// commands may repeat.
pub open spec fn passes(recent: Map<Seq<Seq<char>>, u64>, window: u64, event: EventView) -> bool {
    event.source is Terminal || !recency::repeated(
        recent,
        event_key(event),
        event.timestamp,
        window,
    )
}

/// The events that are remembered after one was looked at.
pub open spec fn recent_after(
    recent: Map<Seq<Seq<char>>, u64>,
    window: u64,
    event: EventView,
) -> Map<Seq<Seq<char>>, u64> {
    if event.source is Terminal || !passes(recent, window, event) {
        recent
    } else {
        recency::noted(recent, event_key(event), event.timestamp, window)
    }
}

/// The events that are remembered after each of `events` was looked at in turn.
pub open spec fn recent_after_all(
    recent: Map<Seq<Seq<char>>, u64>,
    window: u64,
    events: Seq<EventView>,
) -> Map<Seq<Seq<char>>, u64>
    decreases events.len(),
{
    if events.len() == 0 {
        recent
    } else {
        recent_after(
            recent_after_all(recent, window, events.drop_last()),
            window,
            events.last(),
        )
    }
}

/// Those of `events` that pass when they are looked at in turn.
pub open spec fn passing(
    recent: Map<Seq<Seq<char>>, u64>,
    window: u64,
    events: Seq<EventView>,
) -> Seq<EventView>
    decreases events.len(),
{
    if events.len() == 0 {
        Seq::empty()
    } else {
        let before = passing(recent, window, events.drop_last());
        if passes(
            recent_after_all(recent, window, events.drop_last()),
            window,
            events.last(),
        ) {
            before.push(events.last())
        } else {
            before
        }
    }
}

/// The events that a report leads to.
pub open spec fn normalized(n: NormalizerView, raw: RawView) -> Seq<EventView> {
    passing(n.recent, n.window, translated(n, raw))
}

/// The normalizer after a report.
pub open spec fn normalizer_after(n: NormalizerView, raw: RawView) -> NormalizerView {
    NormalizerView {
        recent: recent_after_all(n.recent, n.window, translated(n, raw)),
        seen: seen_after(n, raw),
        ..n
    }
}

/// What two events have in common when one repeats the other: the name, and
/// the text of the data.
pub fn dedup_key(event: &BreadEvent) -> (r: Vec<String>)
    ensures
        r.deep_view() == event_key(event.deep_view()),
{
    let mut r: Vec<String> = Vec::new();
    r.push(event.event.clone());
    r.push(wire::render(&event.data));
    assert(r.deep_view() =~= event_key(event.deep_view()));
    r
}

impl EventNormalizer {
    fn normalize_udev(&mut self, raw: &RawEvent) -> (r: Vec<BreadEvent>)
        requires
            raw.source@ is Udev,
        ensures
            r.deep_view() == translated(old(self)@, raw.deep_view()),
            final(self)@ == (NormalizerView {
                seen: seen_after(old(self)@, raw.deep_view()),
                ..old(self)@
            }),
    {
        let p = &raw.payload;
        let action = p.text_or("action", "change");
        if text::same(action.as_str(), "bind") {
            return none();
        }
        let name = p.text_or("name", "unknown");
        let vendor = p.text_or("id_vendor", "");
        let vendor_id = p.text_or("vendor_id", "");
        let product_id = p.text_or("product_id", "");
        let subsystem = p.text_or("subsystem", "");
        if text::same(name.as_str(), "unknown") && vendor.as_str().is_empty()
            && vendor_id.as_str().is_empty() {
            return none();
        }
        let comes = text::same(action.as_str(), "add");
        let goes = text::same(action.as_str(), "remove");
        let verb = if comes {
            "connected"
        } else if goes {
            "disconnected"
        } else {
            "changed"
        };
        if (comes || goes) && !vendor_id.as_str().is_empty() && !product_id.as_str().is_empty() {
            let mut node = text::concat3(verb, ":", vendor_id.as_str());
            node.append(":");
            node.append(product_id.as_str());
            let mut key: Vec<String> = Vec::new();
            key.push(node);
            assert(key.deep_view() =~= device_key(raw.payload@));
            if self.seen_devices.is_repeated(&key, raw.timestamp, self.dedup_window_ms) {
                return none();
            }
            let window: u64 = self.dedup_window_ms;
            self.seen_devices.note(&key, raw.timestamp, window);
        }
        let id = p.text_or("id", "unknown");
        let data = JsonValue::empty().with("id", JsonValue::of_text(id.as_str())).with(
            "device",
            JsonValue::of_text("unknown"),
        ).with("name", JsonValue::of_text(name.as_str())).with(
            "vendor",
            JsonValue::of_text(vendor.as_str()),
        ).with("vendor_id", JsonValue::of_text(vendor_id.as_str())).with(
            "product_id",
            JsonValue::of_text(product_id.as_str()),
        ).with("subsystem", JsonValue::of_text(subsystem.as_str())).with("raw", p.duplicate());
        let event = text::concat("bread.device.", verb);
        one(event_of(raw, event.as_str(), AdapterSource::Udev, data))
    }

    fn normalize_app(&self, raw: &RawEvent) -> (r: Vec<BreadEvent>)
        requires
            raw.source@ is App,
        ensures
            r.deep_view() == translated(self@, raw.deep_view()),
    {
        match &raw.source {
            AdapterSource::App(app) => {
                if apps::validate_app_namespace(app.as_str(), raw.kind.as_str()) {
                    Self::forward(raw, raw.kind.as_str())
                } else {
                    none()
                }
            },
            _ => none(),
        }
    }

    /// Whether an event with the given key passes at the time `now`; one that
    /// passes is remembered.
    pub fn admit_key(&mut self, key: &Vec<String>, now: u64) -> (r: bool)
        ensures
            r == !recency::repeated(old(self)@.recent, key.deep_view(), now, old(self)@.window),
            final(self)@ == (NormalizerView {
                recent: if r {
                    recency::noted(old(self)@.recent, key.deep_view(), now, old(self)@.window)
                } else {
                    old(self)@.recent
                },
                ..old(self)@
            }),
    {
        if self.recent.is_repeated(key, now, self.dedup_window_ms) {
            return false;
        }
        let window: u64 = self.dedup_window_ms;
        self.recent.note(key, now, window);
        true
    }

    /// Whether an event passes; one that passes is remembered.
    pub fn accept(&mut self, event: &BreadEvent) -> (r: bool)
        ensures
            r == passes(old(self)@.recent, old(self)@.window, event.deep_view()),
            final(self)@ == (NormalizerView {
                recent: recent_after(old(self)@.recent, old(self)@.window, event.deep_view()),
                ..old(self)@
            }),
    {
        if let AdapterSource::Terminal = event.source {
            return true;
        }
        let key = dedup_key(event);
        self.admit_key(&key, event.timestamp)
    }

    /// The events that a report leads to.
    pub fn normalize(&mut self, raw: &RawEvent) -> (r: Vec<BreadEvent>)
        ensures
            r.deep_view() == normalized(old(self)@, raw.deep_view()),
            final(self)@ == normalizer_after(old(self)@, raw.deep_view()),
    {
        let events = match &raw.source {
            AdapterSource::Udev => self.normalize_udev(raw),
            AdapterSource::Hyprland => self.normalize_hyprland(raw),
            AdapterSource::Power => self.normalize_power(raw),
            AdapterSource::Network => self.normalize_network(raw),
            AdapterSource::Bluetooth => self.normalize_bluetooth(raw),
            AdapterSource::Terminal => Self::forward(
                raw,
                text::concat("bread.terminal.", raw.kind.as_str()).as_str(),
            ),
            AdapterSource::Remote => Self::forward(
                raw,
                text::concat("bread.remote.", raw.kind.as_str()).as_str(),
            ),
            AdapterSource::Git => Self::forward(
                raw,
                text::concat("bread.git.", raw.kind.as_str()).as_str(),
            ),
            AdapterSource::Filesystem => Self::forward(
                raw,
                text::concat("bread.project.", raw.kind.as_str()).as_str(),
            ),
            AdapterSource::Systemd => self.normalize_systemd(raw),
            AdapterSource::Podman => self.normalize_podman(raw),
            AdapterSource::App(_) => self.normalize_app(raw),
            AdapterSource::Manual => Self::forward(raw, raw.kind.as_str()),
            AdapterSource::System => Self::forward(raw, raw.kind.as_str()),
        };
        let ghost all = events.deep_view();
        let ghost start = self@;
        assert(start == (NormalizerView {
            seen: seen_after(old(self)@, raw.deep_view()),
            ..old(self)@
        }));
        let mut out: Vec<BreadEvent> = Vec::new();
        assert(out.deep_view() =~= Seq::empty());
        assert(all.take(0) =~= Seq::empty());
        for event in it: events
            invariant
                it.seq().len() == all.len(),
                forall|i: int| 0 <= i < all.len() ==> (#[trigger] it.seq()[i]).deep_view() == all[i],
                self@ == (NormalizerView {
                    recent: recent_after_all(
                        start.recent,
                        start.window,
                        all.take(it.index() as int),
                    ),
                    ..start
                }),
                out.deep_view() == passing(
                    start.recent,
                    start.window,
                    all.take(it.index() as int),
                ),
        {
            let ghost n = it.index() as int;
            let ghost view = event.deep_view();
            let ghost before = out.deep_view();
            assert(all.take(n + 1).drop_last() =~= all.take(n));
            assert(all.take(n + 1).last() == view);
            if self.accept(&event) {
                out.push(event);
                assert(out.deep_view() =~= before.push(view));
            }
        }
        assert(all.take(all.len() as int) =~= all);
        out
    }
}

/// An event that repeats one which passed less than a window of time ago is
/// dropped; after the window it passes again.
pub proof fn law_repeats_within_window_are_dropped(
    recent: Map<Seq<Seq<char>>, u64>,
    window: u64,
    first: EventView,
    second: EventView,
)
    requires
        passes(recent, window, first),
        !(first.source is Terminal),
        !(second.source is Terminal),
        event_key(first) == event_key(second),
    ensures
        passes(recent_after(recent, window, first), window, second) <==> recency::less(
            second.timestamp,
            first.timestamp,
        ) >= window,
{
    recency::law_noted_is_known(recent, event_key(first), first.timestamp, window);
}

/// No event happened before one that precedes it.
pub open spec fn in_time_order(events: Seq<EventView>) -> bool {
    forall|i: int, j: int|
        0 <= i < j < events.len() ==> (#[trigger] events[i]).timestamp <= (
        #[trigger] events[j]).timestamp
}

/// When the last of the events happened that has the given name and text of the
/// data and does not come from a terminal.
pub open spec fn last_time(events: Seq<EventView>, name: Seq<char>, data: Seq<char>) -> Option<u64>
    decreases events.len(),
{
    if events.len() == 0 {
        None
    } else if !(events.last().source is Terminal) && events.last().event == name
        && wire::json_text(events.last().data) == data {
        Some(events.last().timestamp)
    } else {
        last_time(events.drop_last(), name, data)
    }
}

/// What would be remembered after each of `events` was looked at in turn, if
/// nothing were ever forgotten.
pub open spec fn all_noted(
    recent: Map<Seq<Seq<char>>, u64>,
    window: u64,
    events: Seq<EventView>,
) -> Map<Seq<Seq<char>>, u64>
    decreases events.len(),
{
    if events.len() == 0 {
        recent
    } else {
        let before = all_noted(recent, window, events.drop_last());
        let event = events.last();
        if event.source is Terminal || !passes(before, window, event) {
            before
        } else {
            before.insert(event_key(event), event.timestamp)
        }
    }
}

/// The times are those of the last events that passed.
spec fn last_times(all: Map<Seq<Seq<char>>, u64>, passed: Seq<EventView>) -> bool {
    forall|name: Seq<char>, data: Seq<char>| #[trigger]
        last_time(passed, name, data) == (if all.contains_key(seq![name, data]) {
            Some(all[seq![name, data]])
        } else {
            None
        })
}

proof fn lemma_last_times(all: Map<Seq<Seq<char>>, u64>, passed: Seq<EventView>, event: EventView)
    requires
        last_times(all, passed),
    ensures
        event.source is Terminal ==> last_times(all, passed.push(event)),
        !(event.source is Terminal) ==> last_times(
            all.insert(event_key(event), event.timestamp),
            passed.push(event),
        ),
{
    assert(passed.push(event).drop_last() =~= passed);
    assert forall|name: Seq<char>, data: Seq<char>|
        (event_key(event) == #[trigger] seq![name, data]) <==> (event.event == name
            && wire::json_text(event.data) == data) by {
        let key = event_key(event);
        let other = seq![name, data];
        assert(key[0] == event.event && key[1] == wire::json_text(event.data));
        assert(other[0] == name && other[1] == data);
        if event.event == name && wire::json_text(event.data) == data {
            assert(key =~= other);
        }
    }
    assert forall|name: Seq<char>, data: Seq<char>| !(event.source is Terminal) implies #[trigger]
        last_time(passed.push(event), name, data) == (if all.insert(
        event_key(event),
        event.timestamp,
    ).contains_key(seq![name, data]) {
        Some(all.insert(event_key(event), event.timestamp)[seq![name, data]])
    } else {
        None
    }) by {
        assert(last_time(passed, name, data) == (if all.contains_key(seq![name, data]) {
            Some(all[seq![name, data]])
        } else {
            None
        }));
    }
    assert forall|name: Seq<char>, data: Seq<char>| event.source is Terminal implies #[trigger]
        last_time(passed.push(event), name, data) == last_time(passed, name, data) by {}
}

proof fn lemma_history(window: u64, events: Seq<EventView>, now: u64)
    requires
        in_time_order(events),
        forall|i: int| 0 <= i < events.len() ==> (#[trigger] events[i]).timestamp <= now,
    ensures
        recency::recalls(
            recent_after_all(Map::empty(), window, events),
            all_noted(Map::empty(), window, events),
            window,
            now,
        ),
        last_times(
            all_noted(Map::empty(), window, events),
            passing(Map::empty(), window, events),
        ),
    decreases events.len(),
{
    if events.len() > 0 {
        let rest = events.drop_last();
        let event = events.last();
        assert(rest.push(event) =~= events);
        lemma_before(rest, event);
        lemma_history(window, rest, event.timestamp);
        let memory = recent_after_all(Map::empty(), window, rest);
        let all = all_noted(Map::empty(), window, rest);
        recency::lemma_recalls(
            memory,
            all,
            window,
            event.timestamp,
            event_key(event),
            event.timestamp,
        );
        lemma_last_times(all, passing(Map::empty(), window, rest), event);
        assert(events[events.len() - 1].timestamp <= now);
        recency::lemma_recalls(
            recent_after_all(Map::empty(), window, events),
            all_noted(Map::empty(), window, events),
            window,
            event.timestamp,
            event_key(event),
            now,
        );
    }
}

/// Of events that come in the order of their times, one is dropped exactly when
/// it does not come from a terminal and the last one that passed with the same
/// name and the same text of the data, and is not from a terminal either, is less
/// than a window of time older, whatever came between them.
pub proof fn law_last_passed_decides(window: u64, events: Seq<EventView>, event: EventView)
    requires
        in_time_order(events.push(event)),
    ensures
        !passes(recent_after_all(Map::empty(), window, events), window, event) <==> !(
        event.source is Terminal) && (last_time(
            passing(Map::empty(), window, events),
            event.event,
            wire::json_text(event.data),
        ) matches Some(t) && event.timestamp - t < window),
{
    lemma_before(events, event);
    lemma_history(window, events, event.timestamp);
    let all = all_noted(Map::empty(), window, events);
    recency::lemma_recalls(
        recent_after_all(Map::empty(), window, events),
        all,
        window,
        event.timestamp,
        event_key(event),
        event.timestamp,
    );
    assert(all.contains_key(event_key(event)) ==> all[event_key(event)] <= event.timestamp);
    assert(last_time(
        passing(Map::empty(), window, events),
        event.event,
        wire::json_text(event.data),
    ) == (if all.contains_key(event_key(event)) {
        Some(all[event_key(event)])
    } else {
        None
    }));
}

proof fn lemma_before(events: Seq<EventView>, event: EventView)
    requires
        in_time_order(events.push(event)),
    ensures
        in_time_order(events),
        forall|i: int|
            0 <= i < events.len() ==> (#[trigger] events[i]).timestamp <= event.timestamp,
{
    let all = events.push(event);
    assert(all[events.len() as int] == event);
    assert forall|i: int| 0 <= i < events.len() implies (#[trigger] events[i]).timestamp
        <= event.timestamp by {
        assert(all[i] == events[i]);
    }
    assert forall|i: int, j: int| 0 <= i < j < events.len() implies (#[trigger] events[i]).timestamp
        <= (#[trigger] events[j]).timestamp by {
        assert(all[i] == events[i]);
        assert(all[j] == events[j]);
    }
}

/// Of events that come in the order of their times, the same ones pass as would
/// if nothing were ever forgotten.
pub proof fn law_forgetting_changes_no_answer(window: u64, events: Seq<EventView>, event: EventView)
    requires
        in_time_order(events.push(event)),
    ensures
        passes(recent_after_all(Map::empty(), window, events), window, event) == passes(
            all_noted(Map::empty(), window, events),
            window,
            event,
        ),
{
    lemma_before(events, event);
    lemma_history(window, events, event.timestamp);
    recency::lemma_recalls(
        recent_after_all(Map::empty(), window, events),
        all_noted(Map::empty(), window, events),
        window,
        event.timestamp,
        event_key(event),
        event.timestamp,
    );
}

/// Whether events come in one report or in several makes no difference to which
/// of them pass.
pub proof fn law_reports_add_up(
    recent: Map<Seq<Seq<char>>, u64>,
    window: u64,
    first: Seq<EventView>,
    second: Seq<EventView>,
)
    ensures
        passing(recent, window, first + second) == passing(recent, window, first) + passing(
            recent_after_all(recent, window, first),
            window,
            second,
        ),
        recent_after_all(recent, window, first + second) == recent_after_all(
            recent_after_all(recent, window, first),
            window,
            second,
        ),
    decreases second.len(),
{
    if second.len() == 0 {
        assert(first + second =~= first);
        assert(passing(recent, window, first) + Seq::<EventView>::empty() =~= passing(
            recent,
            window,
            first,
        ));
    } else {
        law_reports_add_up(recent, window, first, second.drop_last());
        assert((first + second).drop_last() =~= first + second.drop_last());
        assert((first + second).last() == second.last());
        assert(passing(recent, window, first + second) =~= passing(recent, window, first)
            + passing(recent_after_all(recent, window, first), window, second));
    }
}

/// With a window of no length every event passes.
pub proof fn law_empty_window_passes_all(recent: Map<Seq<Seq<char>>, u64>, events: Seq<EventView>)
    ensures
        passing(recent, 0, events) == events,
    decreases events.len(),
{
    if events.len() > 0 {
        law_empty_window_passes_all(recent, events.drop_last());
        assert(events =~= events.drop_last().push(events.last()));
    } else {
        assert(events =~= Seq::empty());
    }
}

/// What terminals report always passes.
pub proof fn law_terminal_events_pass(n: NormalizerView, raw: RawView)
    requires
        raw.source is Terminal,
    ensures
        normalized(n, raw) == seq![family_event(raw)],
        normalizer_after(n, raw).recent == n.recent,
{
    let events = seq![family_event(raw)];
    assert(events.drop_last() =~= Seq::empty());
    reveal_with_fuel(passing, 2);
    reveal_with_fuel(recent_after_all, 2);
    assert(Seq::<EventView>::empty().push(family_event(raw)) =~= events);
}

/// A Hyprland message that has a name is told under the namespaced name whether
/// or not the flat names are in use. Under the flat name it is told exactly when
/// they are, with the same data, time and source.
pub proof fn law_hyprland_events_are_namespaced(n: NormalizerView, raw: RawView)
    requires
        raw.source is Hyprland,
        hyprland_name(raw.payload.text_or("kind"@, "unknown"@)) is Some,
    ensures
        ({
            let flat = hyprland_name(raw.payload.text_or("kind"@, "unknown"@))->0;
            let events = translated(n, raw);
            let own = events.last();
            &&& own.event == namespaced(flat)
            &&& n.legacy ==> events == seq![(EventView { event: flat, ..own }), own]
            &&& !n.legacy ==> events == seq![own]
        }),
{
    let flat = hyprland_name(raw.payload.text_or("kind"@, "unknown"@))->0;
    let events = translated(n, raw);
    assert(n.legacy ==> events =~= seq![(EventView { event: flat, ..events.last() }), events.last()]);
    assert(!n.legacy ==> events =~= seq![events.last()]);
}

proof fn lemma_passing_is_part(
    recent: Map<Seq<Seq<char>>, u64>,
    window: u64,
    events: Seq<EventView>,
    p: spec_fn(EventView) -> bool,
)
    requires
        forall|i: int| 0 <= i < events.len() ==> p(#[trigger] events[i]),
    ensures
        forall|i: int|
            0 <= i < passing(recent, window, events).len() ==> p(
                #[trigger] passing(recent, window, events)[i],
            ),
    decreases events.len(),
{
    if events.len() > 0 {
        let rest = events.drop_last();
        assert forall|i: int| 0 <= i < rest.len() implies p(#[trigger] rest[i]) by {
            assert(rest[i] == events[i]);
        }
        lemma_passing_is_part(recent, window, rest, p);
        let before = passing(recent, window, rest);
        let all = passing(recent, window, events);
        assert forall|i: int| 0 <= i < all.len() implies p(#[trigger] all[i]) by {
            if i < before.len() {
                assert(all[i] == before[i]);
            } else {
                assert(all[i] == events[events.len() - 1]);
            }
        }
    }
}

/// Every event has the time of the report that led to it.
pub proof fn law_events_keep_time(n: NormalizerView, raw: RawView)
    ensures
        forall|i: int|
            0 <= i < normalized(n, raw).len() ==> (#[trigger] normalized(n, raw)[i]).timestamp
                == raw.timestamp,
{
    lemma_passing_is_part(
        n.recent,
        n.window,
        translated(n, raw),
        |e: EventView| e.timestamp == raw.timestamp,
    );
}

/// Two reports on nodes of one physical device within the window of time lead
/// to one event only.
pub proof fn law_child_nodes_are_dropped(n: NormalizerView, first: RawView, second: RawView)
    requires
        first.source is Udev,
        second.source is Udev,
        !udev_ignored(first.payload),
        udev_physical(first.payload),
        udev_physical(second.payload),
        !udev_child(n, first),
        device_key(first.payload) == device_key(second.payload),
        recency::less(second.timestamp, first.timestamp) < n.window,
    ensures
        normalized(normalizer_after(n, first), second) == Seq::<EventView>::empty(),
{
    recency::law_noted_is_known(n.seen, device_key(first.payload), first.timestamp, n.window);
}

/// The normalizer after each of the reports in turn.
pub open spec fn after_reports(n: NormalizerView, raws: Seq<RawView>) -> NormalizerView
    decreases raws.len(),
{
    if raws.len() == 0 {
        n
    } else {
        normalizer_after(after_reports(n, raws.drop_last()), raws.last())
    }
}

/// The report tells of a node of a physical device that comes or goes.
pub open spec fn node_report(raw: RawView) -> bool {
    raw.source is Udev && !udev_ignored(raw.payload) && udev_physical(raw.payload)
}

/// The reports on nodes of physical devices that are let through.
pub open spec fn nodes_passed(n: NormalizerView, raws: Seq<RawView>) -> Seq<RawView>
    decreases raws.len(),
{
    if raws.len() == 0 {
        Seq::empty()
    } else {
        let before = nodes_passed(n, raws.drop_last());
        let raw = raws.last();
        if node_report(raw) && !udev_child(after_reports(n, raws.drop_last()), raw) {
            before.push(raw)
        } else {
            before
        }
    }
}

/// The time of the last report on a device with the given key.
pub open spec fn last_node(raws: Seq<RawView>, key: Seq<Seq<char>>) -> Option<u64>
    decreases raws.len(),
{
    if raws.len() == 0 {
        None
    } else if device_key(raws.last().payload) == key {
        Some(raws.last().timestamp)
    } else {
        last_node(raws.drop_last(), key)
    }
}

/// No report was made before one that precedes it.
pub open spec fn reports_in_time_order(raws: Seq<RawView>) -> bool {
    forall|i: int, j: int|
        0 <= i < j < raws.len() ==> (#[trigger] raws[i]).timestamp <= (
        #[trigger] raws[j]).timestamp
}

/// The times of the last reports on nodes that were let through.
spec fn node_times(passed: Seq<RawView>) -> Map<Seq<Seq<char>>, u64>
    decreases passed.len(),
{
    if passed.len() == 0 {
        Map::empty()
    } else {
        node_times(passed.drop_last()).insert(
            device_key(passed.last().payload),
            passed.last().timestamp,
        )
    }
}

proof fn lemma_node_times(passed: Seq<RawView>, key: Seq<Seq<char>>)
    ensures
        last_node(passed, key) == (if node_times(passed).contains_key(key) {
            Some(node_times(passed)[key])
        } else {
            None
        }),
    decreases passed.len(),
{
    if passed.len() > 0 {
        lemma_node_times(passed.drop_last(), key);
    }
}

proof fn lemma_reports_before(raws: Seq<RawView>, raw: RawView)
    requires
        reports_in_time_order(raws.push(raw)),
    ensures
        reports_in_time_order(raws),
        forall|i: int| 0 <= i < raws.len() ==> (#[trigger] raws[i]).timestamp <= raw.timestamp,
{
    let all = raws.push(raw);
    assert(all[raws.len() as int] == raw);
    assert forall|i: int| 0 <= i < raws.len() implies (#[trigger] raws[i]).timestamp
        <= raw.timestamp by {
        assert(all[i] == raws[i]);
    }
    assert forall|i: int, j: int| 0 <= i < j < raws.len() implies (#[trigger] raws[i]).timestamp
        <= (#[trigger] raws[j]).timestamp by {
        assert(all[i] == raws[i]);
        assert(all[j] == raws[j]);
    }
}

proof fn lemma_nodes(n: NormalizerView, raws: Seq<RawView>, now: u64)
    requires
        n.seen == Map::<Seq<Seq<char>>, u64>::empty(),
        reports_in_time_order(raws),
        forall|i: int| 0 <= i < raws.len() ==> (#[trigger] raws[i]).timestamp <= now,
    ensures
        after_reports(n, raws).window == n.window,
        recency::recalls(
            after_reports(n, raws).seen,
            node_times(nodes_passed(n, raws)),
            n.window,
            now,
        ),
    decreases raws.len(),
{
    if raws.len() > 0 {
        let rest = raws.drop_last();
        let raw = raws.last();
        assert(rest.push(raw) =~= raws);
        lemma_reports_before(rest, raw);
        lemma_nodes(n, rest, raw.timestamp);
        let passed = nodes_passed(n, rest);
        let key = device_key(raw.payload);
        recency::lemma_recalls(
            after_reports(n, rest).seen,
            node_times(passed),
            n.window,
            raw.timestamp,
            key,
            raw.timestamp,
        );
        assert(passed.push(raw).drop_last() =~= passed);
        assert(raws[raws.len() - 1].timestamp <= now);
        recency::lemma_recalls(
            after_reports(n, raws).seen,
            node_times(nodes_passed(n, raws)),
            n.window,
            raw.timestamp,
            key,
            now,
        );
    }
}

/// Of reports that come in the order of their times to a normalizer that has seen
/// no device, one on a node of a physical device is dropped exactly when the last
/// one on that device which was let through is less than a window of time older,
/// whatever came between them.
pub proof fn law_last_node_decides(n: NormalizerView, raws: Seq<RawView>, raw: RawView)
    requires
        n.seen == Map::<Seq<Seq<char>>, u64>::empty(),
        reports_in_time_order(raws.push(raw)),
        node_report(raw),
    ensures
        ({
            let quick = last_node(nodes_passed(n, raws), device_key(raw.payload)) matches Some(t)
                && raw.timestamp - t < n.window;
            let before = after_reports(n, raws);
            &&& quick ==> normalized(before, raw) == Seq::<EventView>::empty()
            &&& quick ==> normalizer_after(before, raw) == before
            &&& !quick ==> translated(before, raw) == seq![udev_event(raw)]
        }),
{
    lemma_reports_before(raws, raw);
    lemma_nodes(n, raws, raw.timestamp);
    let key = device_key(raw.payload);
    let times = node_times(nodes_passed(n, raws));
    recency::lemma_recalls(
        after_reports(n, raws).seen,
        times,
        n.window,
        raw.timestamp,
        key,
        raw.timestamp,
    );
    lemma_node_times(nodes_passed(n, raws), key);
    assert(times.contains_key(key) ==> times[key] <= raw.timestamp);
}

proof fn lemma_hyprland_names()
    ensures
        apps::reserved_event("bread.workspace.changed"@),
        apps::reserved_event("bread.workspace.created"@),
        apps::reserved_event("bread.workspace.destroyed"@),
        apps::reserved_event("bread.monitor.connected"@),
        apps::reserved_event("bread.monitor.disconnected"@),
        apps::reserved_event("bread.window.focus.changed"@),
        apps::reserved_event("bread.window.focused"@),
        apps::reserved_event("bread.window.opened"@),
        apps::reserved_event("bread.window.closed"@),
        apps::reserved_event("bread.window.moved"@),
{
    reveal_strlit("bread.");
    reveal_strlit(".");
    reveal_strlit("workspace");
    reveal_strlit("monitor");
    reveal_strlit("window");
    reveal_strlit("bread.workspace.changed");
    assert("bread.workspace.changed"@.subrange(0, 16) =~= "bread."@ + "workspace"@ + "."@);
    apps::lemma_reserved("bread.workspace.changed"@, "workspace"@);
    reveal_strlit("bread.workspace.created");
    assert("bread.workspace.created"@.subrange(0, 16) =~= "bread."@ + "workspace"@ + "."@);
    apps::lemma_reserved("bread.workspace.created"@, "workspace"@);
    reveal_strlit("bread.workspace.destroyed");
    assert("bread.workspace.destroyed"@.subrange(0, 16) =~= "bread."@ + "workspace"@ + "."@);
    apps::lemma_reserved("bread.workspace.destroyed"@, "workspace"@);
    reveal_strlit("bread.monitor.connected");
    assert("bread.monitor.connected"@.subrange(0, 14) =~= "bread."@ + "monitor"@ + "."@);
    apps::lemma_reserved("bread.monitor.connected"@, "monitor"@);
    reveal_strlit("bread.monitor.disconnected");
    assert("bread.monitor.disconnected"@.subrange(0, 14) =~= "bread."@ + "monitor"@ + "."@);
    apps::lemma_reserved("bread.monitor.disconnected"@, "monitor"@);
    reveal_strlit("bread.window.focus.changed");
    assert("bread.window.focus.changed"@.subrange(0, 13) =~= "bread."@ + "window"@ + "."@);
    apps::lemma_reserved("bread.window.focus.changed"@, "window"@);
    reveal_strlit("bread.window.focused");
    assert("bread.window.focused"@.subrange(0, 13) =~= "bread."@ + "window"@ + "."@);
    apps::lemma_reserved("bread.window.focused"@, "window"@);
    reveal_strlit("bread.window.opened");
    assert("bread.window.opened"@.subrange(0, 13) =~= "bread."@ + "window"@ + "."@);
    apps::lemma_reserved("bread.window.opened"@, "window"@);
    reveal_strlit("bread.window.closed");
    assert("bread.window.closed"@.subrange(0, 13) =~= "bread."@ + "window"@ + "."@);
    apps::lemma_reserved("bread.window.closed"@, "window"@);
    reveal_strlit("bread.window.moved");
    assert("bread.window.moved"@.subrange(0, 13) =~= "bread."@ + "window"@ + "."@);
    apps::lemma_reserved("bread.window.moved"@, "window"@);
}

proof fn lemma_power_names()
    ensures
        apps::reserved_event("bread.power.ac.connected"@),
        apps::reserved_event("bread.power.ac.disconnected"@),
        apps::reserved_event("bread.power.battery.critical"@),
        apps::reserved_event("bread.power.battery.very_low"@),
        apps::reserved_event("bread.power.battery.low"@),
        apps::reserved_event("bread.power.battery.full"@),
        apps::reserved_event("bread.power.changed"@),
{
    reveal_strlit("bread.");
    reveal_strlit(".");
    reveal_strlit("power");
    reveal_strlit("bread.power.ac.connected");
    assert("bread.power.ac.connected"@.subrange(0, 12) =~= "bread."@ + "power"@ + "."@);
    apps::lemma_reserved("bread.power.ac.connected"@, "power"@);
    reveal_strlit("bread.power.ac.disconnected");
    assert("bread.power.ac.disconnected"@.subrange(0, 12) =~= "bread."@ + "power"@ + "."@);
    apps::lemma_reserved("bread.power.ac.disconnected"@, "power"@);
    reveal_strlit("bread.power.battery.critical");
    assert("bread.power.battery.critical"@.subrange(0, 12) =~= "bread."@ + "power"@ + "."@);
    apps::lemma_reserved("bread.power.battery.critical"@, "power"@);
    reveal_strlit("bread.power.battery.very_low");
    assert("bread.power.battery.very_low"@.subrange(0, 12) =~= "bread."@ + "power"@ + "."@);
    apps::lemma_reserved("bread.power.battery.very_low"@, "power"@);
    reveal_strlit("bread.power.battery.low");
    assert("bread.power.battery.low"@.subrange(0, 12) =~= "bread."@ + "power"@ + "."@);
    apps::lemma_reserved("bread.power.battery.low"@, "power"@);
    reveal_strlit("bread.power.battery.full");
    assert("bread.power.battery.full"@.subrange(0, 12) =~= "bread."@ + "power"@ + "."@);
    apps::lemma_reserved("bread.power.battery.full"@, "power"@);
    reveal_strlit("bread.power.changed");
    assert("bread.power.changed"@.subrange(0, 12) =~= "bread."@ + "power"@ + "."@);
    apps::lemma_reserved("bread.power.changed"@, "power"@);
}

proof fn lemma_device_names()
    ensures
        apps::reserved_event("bread.device.connected"@),
        apps::reserved_event("bread.device.disconnected"@),
        apps::reserved_event("bread.bluetooth.device.paired"@),
        apps::reserved_event("bread.bluetooth.device.unpaired"@),
        apps::reserved_event("bread.network.connected"@),
        apps::reserved_event("bread.network.disconnected"@),
        apps::reserved_event("bread.hyprland.event"@),
        apps::reserved_event("bread.container.health.changed"@),
{
    reveal_strlit("bread.");
    reveal_strlit(".");
    reveal_strlit("device");
    reveal_strlit("bluetooth");
    reveal_strlit("network");
    reveal_strlit("hyprland");
    reveal_strlit("container");
    reveal_strlit("bread.device.connected");
    assert("bread.device.connected"@.subrange(0, 13) =~= "bread."@ + "device"@ + "."@);
    apps::lemma_reserved("bread.device.connected"@, "device"@);
    reveal_strlit("bread.device.disconnected");
    assert("bread.device.disconnected"@.subrange(0, 13) =~= "bread."@ + "device"@ + "."@);
    apps::lemma_reserved("bread.device.disconnected"@, "device"@);
    reveal_strlit("bread.bluetooth.device.paired");
    assert("bread.bluetooth.device.paired"@.subrange(0, 16) =~= "bread."@ + "bluetooth"@ + "."@);
    apps::lemma_reserved("bread.bluetooth.device.paired"@, "bluetooth"@);
    reveal_strlit("bread.bluetooth.device.unpaired");
    assert("bread.bluetooth.device.unpaired"@.subrange(0, 16) =~= "bread."@ + "bluetooth"@ + "."@);
    apps::lemma_reserved("bread.bluetooth.device.unpaired"@, "bluetooth"@);
    reveal_strlit("bread.network.connected");
    assert("bread.network.connected"@.subrange(0, 14) =~= "bread."@ + "network"@ + "."@);
    apps::lemma_reserved("bread.network.connected"@, "network"@);
    reveal_strlit("bread.network.disconnected");
    assert("bread.network.disconnected"@.subrange(0, 14) =~= "bread."@ + "network"@ + "."@);
    apps::lemma_reserved("bread.network.disconnected"@, "network"@);
    reveal_strlit("bread.hyprland.event");
    assert("bread.hyprland.event"@.subrange(0, 15) =~= "bread."@ + "hyprland"@ + "."@);
    apps::lemma_reserved("bread.hyprland.event"@, "hyprland"@);
    reveal_strlit("bread.container.health.changed");
    assert("bread.container.health.changed"@.subrange(0, 16) =~= "bread."@ + "container"@ + "."@);
    apps::lemma_reserved("bread.container.health.changed"@, "container"@);
}

/// The report comes from an adapter or a hook, and not from an app or the
/// daemon. Those of podman are about containers.
pub open spec fn from_outside(raw: RawView) -> bool {
    match raw.source {
        Source::App(app) => false,
        Source::Manual | Source::System => false,
        Source::Podman => text::has_prefix(raw.kind, "container."@),
        _ => true,
    }
}

/// What adapters and hooks report is told under names that clients cannot use:
/// every such event has a reserved name.
pub proof fn law_reported_names_are_reserved(n: NormalizerView, raw: RawView)
    requires
        from_outside(raw),
    ensures
        forall|i: int|
            0 <= i < normalized(n, raw).len() ==> apps::reserved_event(
                (#[trigger] normalized(n, raw)[i]).event,
            ),
{
    let events = translated(n, raw);
    reveal_strlit("bread.");
    reveal_strlit(".");
    if raw.source is Udev {
        reveal_strlit("bread.device.");
        reveal_strlit("device");
        assert("bread.device."@ =~= "bread."@ + "device"@ + "."@);
        apps::lemma_below(
            "bread.device."@,
            "device"@,
            udev_verb(raw.payload.text_or("action"@, "change"@)),
        );
    } else if raw.source is Hyprland {
        lemma_hyprland_names();
        lemma_device_names();
        reveal_strlit("bread.hyprland.");
        reveal_strlit("hyprland");
        assert("bread.hyprland."@ =~= "bread."@ + "hyprland"@ + "."@);
        if let Some(flat) = hyprland_name(raw.payload.text_or("kind"@, "unknown"@)) {
            let rest = if text::has_prefix(flat, "bread."@) {
                flat.subrange("bread."@.len() as int, flat.len() as int)
            } else {
                flat
            };
            apps::lemma_below("bread.hyprland."@, "hyprland"@, rest);
        }
    } else if raw.source is Power {
        lemma_power_names();
    } else if raw.source is Network || raw.source is Bluetooth {
        lemma_device_names();
    } else if raw.source is Terminal {
        reveal_strlit("bread.terminal.");
        reveal_strlit("terminal");
        assert("bread.terminal."@ =~= "bread."@ + "terminal"@ + "."@);
        apps::lemma_below("bread.terminal."@, "terminal"@, raw.kind);
    } else if raw.source is Remote {
        reveal_strlit("bread.remote.");
        reveal_strlit("remote");
        assert("bread.remote."@ =~= "bread."@ + "remote"@ + "."@);
        apps::lemma_below("bread.remote."@, "remote"@, raw.kind);
    } else if raw.source is Git {
        reveal_strlit("bread.git.");
        reveal_strlit("git");
        assert("bread.git."@ =~= "bread."@ + "git"@ + "."@);
        apps::lemma_below("bread.git."@, "git"@, raw.kind);
    } else if raw.source is Filesystem {
        reveal_strlit("bread.project.");
        reveal_strlit("project");
        assert("bread.project."@ =~= "bread."@ + "project"@ + "."@);
        apps::lemma_below("bread.project."@, "project"@, raw.kind);
    } else if raw.source is Systemd {
        reveal_strlit("bread.service.");
        reveal_strlit("service");
        assert("bread.service."@ =~= "bread."@ + "service"@ + "."@);
        let rest = if text::has_prefix(raw.kind, "unit."@) {
            raw.kind.subrange("unit."@.len() as int, raw.kind.len() as int)
        } else {
            raw.kind
        };
        apps::lemma_below("bread.service."@, "service"@, rest);
    } else {
        lemma_device_names();
        reveal_strlit("container.");
        reveal_strlit("container");
        let head = "bread."@ + "container"@ + "."@;
        let rest = raw.kind.subrange(10, raw.kind.len() as int);
        assert(raw.kind.subrange(0, 10) =~= "container."@);
        assert("bread."@ + raw.kind =~= head + rest) by {
            assert(raw.kind =~= raw.kind.subrange(0, 10) + rest);
            assert("container."@ =~= "container"@ + "."@);
        }
        apps::lemma_below(head, "container"@, rest);
    }
    assert forall|i: int| 0 <= i < events.len() implies apps::reserved_event(
        (#[trigger] events[i]).event,
    ) by {
    }
    lemma_passing_is_part(
        n.recent,
        n.window,
        events,
        |e: EventView| apps::reserved_event(e.event),
    );
}

proof fn lemma_network_kinds_differ()
    ensures
        "link.up"@ != "address.added"@,
        "link.up"@ != "link.down"@,
        "link.up"@ != "address.removed"@,
        "link.up"@ != "route.default.changed"@,
        "address.added"@ != "link.down"@,
        "address.added"@ != "address.removed"@,
        "address.added"@ != "route.default.changed"@,
        "link.down"@ != "address.removed"@,
        "link.down"@ != "route.default.changed"@,
        "address.removed"@ != "route.default.changed"@,
{
    reveal_strlit("link.up");
    reveal_strlit("address.added");
    reveal_strlit("link.down");
    reveal_strlit("address.removed");
    reveal_strlit("route.default.changed");
    assert("link.up"@.len() == 7);
    assert("address.added"@.len() == 13);
    assert("link.down"@.len() == 9);
    assert("address.removed"@.len() == 15);
    assert("route.default.changed"@.len() == 21);
}

/// A network report that says whether the machine is online leads to the event
/// that says the same. Where it does not say so, a link that is up or an address
/// that was added means that it is, and a link that is down or an address that was
/// removed that it is not; a default route does exactly when it has a gateway.
pub proof fn law_network_reports_say_what_happened(n: NormalizerView, raw: RawView)
    requires
        raw.source is Network,
    ensures
        ({
            let on = seq![
                EventView {
                    event: "bread.network.connected"@,
                    timestamp: raw.timestamp,
                    source: Source::Network,
                    data: raw.payload.with("online"@, Json::Bool(true)),
                },
            ];
            let off = seq![
                EventView {
                    event: "bread.network.disconnected"@,
                    timestamp: raw.timestamp,
                    source: Source::Network,
                    data: raw.payload.with("online"@, Json::Bool(false)),
                },
            ];
            let kind = raw.kind;
            let told = raw.payload.get("online"@);
            let silent = !(told matches Some(Json::Bool(_)));
            &&& told == Some(Json::Bool(true)) ==> translated(n, raw) == on
            &&& told == Some(Json::Bool(false)) ==> translated(n, raw) == off
            &&& silent && (kind == "link.up"@ || kind == "address.added"@) ==> translated(n, raw)
                == on
            &&& silent && (kind == "link.down"@ || kind == "address.removed"@) ==> translated(
                n,
                raw,
            ) == off
            &&& silent && kind == "route.default.changed"@ ==> translated(n, raw) == (match raw.payload.get(
                "gateway"@,
            ) {
                None => off,
                Some(Json::Null) => off,
                Some(_) => on,
            })
            &&& silent && kind != "link.up"@ && kind != "address.added"@ && kind != "link.down"@
                && kind != "address.removed"@ && kind != "route.default.changed"@ ==> translated(
                n,
                raw,
            ).len() == 0
        }),
{
    lemma_network_kinds_differ();
}

/// What a network report says of being online is what the state holds after the
/// event that it leads to.
pub proof fn law_network_reports_reach_the_state(n: NormalizerView, raw: RawView, s: RuntimeView)
    requires
        raw.source is Network,
        raw.payload is Object,
        translated(n, raw).len() > 0,
    ensures
        ({
            let event = translated(n, raw)[0];
            let online = state_engine::after_event(s, event.event, event.data).network.online;
            let told = raw.payload.get("online"@);
            &&& told matches Some(Json::Bool(b)) ==> online == b
            &&& !(told matches Some(Json::Bool(_))) && raw.kind == "link.up"@ ==> online
            &&& !(told matches Some(Json::Bool(_))) && raw.kind == "address.added"@ ==> online
            &&& !(told matches Some(Json::Bool(_))) && raw.kind == "link.down"@ ==> !online
            &&& !(told matches Some(Json::Bool(_))) && raw.kind == "address.removed"@ ==> !online
        }),
{
    law_network_reports_say_what_happened(n, raw);
    let event = translated(n, raw)[0];
    state_engine::law_network_events_are_taken_over(s, event.event, event.data);
}

/// A report on the power supply leads to an event that says whether the charger is
/// in, where the report says so, and then to one for a charge that is low or full:
/// critical up to five percent, very low up to ten, low up to twenty, and full from
/// a hundred on. Where it calls for neither, it leads to one that says that
/// something has changed. All of them carry the report.
pub proof fn law_power_reports_say_what_happened(n: NormalizerView, raw: RawView)
    requires
        raw.source is Power,
    ensures
        ({
            let events = translated(n, raw);
            let ac = raw.payload.get("ac_connected"@);
            let level = raw.payload.get("battery_percent"@);
            let tells_ac = ac matches Some(Json::Bool(_));
            let calls = level matches Some(Json::Num(Numeral::PosInt(p))) && (p <= 20 || p >= 100);
            &&& forall|i: int|
                0 <= i < events.len() ==> (#[trigger] events[i]).data == raw.payload
                    && events[i].timestamp == raw.timestamp && events[i].source == Source::Power
            &&& events.len() == (if tells_ac && calls {
                2int
            } else {
                1
            })
            &&& ac == Some(Json::Bool(true)) ==> events[0].event == "bread.power.ac.connected"@
            &&& ac == Some(Json::Bool(false)) ==> events[0].event
                == "bread.power.ac.disconnected"@
            &&& level matches Some(Json::Num(Numeral::PosInt(p))) ==> {
                &&& p <= 5 ==> events.last().event == "bread.power.battery.critical"@
                &&& 5 < p <= 10 ==> events.last().event == "bread.power.battery.very_low"@
                &&& 10 < p <= 20 ==> events.last().event == "bread.power.battery.low"@
                &&& p >= 100 ==> events.last().event == "bread.power.battery.full"@
            }
            &&& !tells_ac && !calls ==> events[0].event == "bread.power.changed"@
        }),
{
}

/// What a report on the power supply says is what the state holds after the first
/// event that it leads to.
pub proof fn law_power_reports_reach_the_state(n: NormalizerView, raw: RawView, s: RuntimeView)
    requires
        raw.source is Power,
    ensures
        ({
            let event = translated(n, raw)[0];
            let power = state_engine::after_event(s, event.event, event.data).power;
            &&& raw.payload.get("ac_connected"@) matches Some(Json::Bool(b)) ==> power.ac_connected
                == b
            &&& raw.payload.get("battery_percent"@) matches Some(Json::Num(Numeral::PosInt(p))) ==> (
            power.battery_percent matches Some(kept) && kept == vstd::math::min(p as int, 100))
        }),
{
    law_power_reports_say_what_happened(n, raw);
    let event = translated(n, raw)[0];
    state_engine::law_power_events_are_taken_over(s, event.event, event.data);
}

proof fn lemma_bluetooth_kinds_differ()
    ensures
        "bluetooth.enumerate"@ != "bluetooth.device.connected"@,
        "bluetooth.enumerate"@ != "bluetooth.device.disconnected"@,
        "bluetooth.enumerate"@ != "bluetooth.device.added"@,
        "bluetooth.enumerate"@ != "bluetooth.device.removed"@,
        "bluetooth.device.connected"@ != "bluetooth.device.disconnected"@,
        "bluetooth.device.connected"@ != "bluetooth.device.added"@,
        "bluetooth.device.connected"@ != "bluetooth.device.removed"@,
        "bluetooth.device.disconnected"@ != "bluetooth.device.added"@,
        "bluetooth.device.disconnected"@ != "bluetooth.device.removed"@,
        "bluetooth.device.added"@ != "bluetooth.device.removed"@,
{
    reveal_strlit("bluetooth.enumerate");
    reveal_strlit("bluetooth.device.connected");
    reveal_strlit("bluetooth.device.disconnected");
    reveal_strlit("bluetooth.device.added");
    reveal_strlit("bluetooth.device.removed");
    assert("bluetooth.enumerate"@.len() == 19);
    assert("bluetooth.device.connected"@.len() == 26);
    assert("bluetooth.device.disconnected"@.len() == 29);
    assert("bluetooth.device.added"@.len() == 22);
    assert("bluetooth.device.removed"@.len() == 24);
}

proof fn lemma_device_keys_differ()
    ensures
        "id"@ != "device"@,
        "id"@ != "name"@,
        "id"@ != "address"@,
        "id"@ != "subsystem"@,
        "id"@ != "raw"@,
        "id"@ != "vendor"@,
        "id"@ != "vendor_id"@,
        "id"@ != "product_id"@,
        "device"@ != "name"@,
        "device"@ != "address"@,
        "device"@ != "subsystem"@,
        "device"@ != "raw"@,
        "device"@ != "vendor"@,
        "device"@ != "vendor_id"@,
        "device"@ != "product_id"@,
        "name"@ != "address"@,
        "name"@ != "subsystem"@,
        "name"@ != "raw"@,
        "name"@ != "vendor"@,
        "name"@ != "vendor_id"@,
        "name"@ != "product_id"@,
        "address"@ != "subsystem"@,
        "address"@ != "raw"@,
        "address"@ != "vendor"@,
        "address"@ != "vendor_id"@,
        "address"@ != "product_id"@,
        "subsystem"@ != "raw"@,
        "subsystem"@ != "vendor"@,
        "subsystem"@ != "vendor_id"@,
        "subsystem"@ != "product_id"@,
        "raw"@ != "vendor"@,
        "raw"@ != "vendor_id"@,
        "raw"@ != "product_id"@,
        "vendor"@ != "vendor_id"@,
        "vendor"@ != "product_id"@,
        "vendor_id"@ != "product_id"@,
{
    reveal_strlit("id");
    reveal_strlit("device");
    reveal_strlit("name");
    reveal_strlit("address");
    reveal_strlit("subsystem");
    reveal_strlit("raw");
    reveal_strlit("vendor");
    reveal_strlit("vendor_id");
    reveal_strlit("product_id");
    assert("id"@.len() == 2);
    assert("device"@.len() == 6);
    assert("name"@.len() == 4);
    assert("address"@.len() == 7);
    assert("subsystem"@.len() == 9);
    assert("raw"@.len() == 3);
    assert("vendor"@.len() == 6);
    assert("vendor_id"@.len() == 9);
    assert("product_id"@.len() == 10);
    assert("device"@[0] != "vendor"@[0]);
    assert("subsystem"@[0] != "vendor_id"@[0]);
}

/// A Bluetooth report leads to the one event that its kind stands for, about the
/// device with the path, the address and the name that the report tells; other
/// kinds lead to none.
pub proof fn law_bluetooth_reports_say_what_happened(n: NormalizerView, raw: RawView)
    requires
        raw.source is Bluetooth,
    ensures
        ({
            let events = translated(n, raw);
            let text = |key: Seq<char>|
                match raw.payload.get(key) {
                    Some(Json::Text(t)) => Json::Text(t),
                    _ => Json::Text("unknown"@),
                };
            let kind = raw.kind;
            &&& kind == "bluetooth.enumerate"@ || kind == "bluetooth.device.connected"@ ==> events.len()
                == 1 && events[0].event == "bread.device.connected"@
            &&& kind == "bluetooth.device.disconnected"@ ==> events.len() == 1 && events[0].event
                == "bread.device.disconnected"@
            &&& kind == "bluetooth.device.added"@ ==> events.len() == 1 && events[0].event
                == "bread.bluetooth.device.paired"@
            &&& kind == "bluetooth.device.removed"@ ==> events.len() == 1 && events[0].event
                == "bread.bluetooth.device.unpaired"@
            &&& kind != "bluetooth.enumerate"@ && kind != "bluetooth.device.connected"@ && kind
                != "bluetooth.device.disconnected"@ && kind != "bluetooth.device.added"@ && kind
                != "bluetooth.device.removed"@ ==> events.len() == 0
            &&& events.len() > 0 ==> {
                let event = events[0];
                &&& event.timestamp == raw.timestamp && event.source == Source::Bluetooth
                &&& event.data.get("id"@) == Some(text("path"@))
                &&& event.data.get("address"@) == Some(text("address"@))
                &&& event.data.get("subsystem"@) == Some(Json::Text("bluetooth"@))
                &&& event.data.get("raw"@) == Some(raw.payload)
                &&& event.event == "bread.device.connected"@ || event.event
                    == "bread.device.disconnected"@ ==> event.data.get("device"@) == Some(
                    Json::Text("unknown"@),
                )
                &&& kind != "bluetooth.device.removed"@ ==> {
                    let own = raw.payload.get("name"@);
                    let props = raw.payload.get("properties"@);
                    &&& own matches Some(Json::Text(t)) ==> event.data.get("name"@) == own
                    &&& !(own matches Some(Json::Text(_))) ==> (props matches Some(p) ==> (p.get(
                        "Name"@,
                    ) matches Some(Json::Text(t)) ==> event.data.get("name"@) == Some(
                        Json::Text(t),
                    )))
                    &&& !(own matches Some(Json::Text(_))) ==> (props matches Some(p) ==> (p.get(
                        "Name"@,
                    ) is None ==> (p.get("Alias"@) matches Some(Json::Text(t)) ==> event.data.get(
                        "name"@,
                    ) == Some(Json::Text(t)))))
                    &&& !(own matches Some(Json::Text(_))) && props is None ==> event.data.get(
                        "name"@,
                    ) == Some(Json::Text("unknown"@))
                }
            }
        }),
{
    lemma_bluetooth_kinds_differ();
    lemma_device_keys_differ();
    reveal_strlit("bread.device.connected");
    reveal_strlit("bread.device.disconnected");
    reveal_strlit("bread.bluetooth.device.paired");
    reveal_strlit("bread.bluetooth.device.unpaired");
    assert("bread.device.connected"@.len() == 22);
    assert("bread.device.disconnected"@.len() == 25);
    assert("bread.bluetooth.device.paired"@.len() == 29);
    assert("bread.bluetooth.device.unpaired"@.len() == 31);
}

proof fn lemma_udev_words_differ()
    ensures
        "add"@ != "remove"@,
        "add"@ != "bind"@,
        "add"@ != "change"@,
        "add"@ != "unknown"@,
        "remove"@ != "bind"@,
        "remove"@ != "change"@,
        "remove"@ != "unknown"@,
        "bind"@ != "change"@,
        "bind"@ != "unknown"@,
        "change"@ != "unknown"@,
{
    reveal_strlit("add");
    reveal_strlit("remove");
    reveal_strlit("bind");
    reveal_strlit("change");
    reveal_strlit("unknown");
    assert("add"@.len() == 3);
    assert("remove"@.len() == 6);
    assert("bind"@.len() == 4);
    assert("change"@.len() == 6);
    assert("unknown"@.len() == 7);
    assert("remove"@[0] != "change"@[0]);
}

/// A udev report that is not dropped leads to the one event that its action stands
/// for, about the device that it tells of.
pub proof fn law_udev_reports_say_what_happened(n: NormalizerView, raw: RawView)
    requires
        raw.source is Udev,
    ensures
        ({
            let events = translated(n, raw);
            let p = raw.payload;
            let text = |key: Seq<char>, other: Seq<char>|
                match p.get(key) {
                    Some(Json::Text(t)) => t,
                    _ => other,
                };
            let action = text("action"@, "change"@);
            let nameless = text("name"@, "unknown"@) == "unknown"@ && text("id_vendor"@, ""@).len()
                == 0 && text("vendor_id"@, ""@).len() == 0;
            &&& action == "bind"@ || nameless ==> events.len() == 0
            &&& action != "bind"@ && !nameless && !udev_child(n, raw) ==> {
                &&& events.len() == 1
                &&& action == "add"@ ==> events[0].event == "bread.device.connected"@
                &&& action == "remove"@ ==> events[0].event == "bread.device.disconnected"@
                &&& action != "add"@ && action != "remove"@ ==> events[0].event
                    == "bread.device.changed"@
                &&& events[0].timestamp == raw.timestamp && events[0].source == Source::Udev
                &&& events[0].data.get("id"@) == Some(Json::Text(text("id"@, "unknown"@)))
                &&& events[0].data.get("name"@) == Some(Json::Text(text("name"@, "unknown"@)))
                &&& events[0].data.get("vendor"@) == Some(Json::Text(text("id_vendor"@, ""@)))
                &&& events[0].data.get("vendor_id"@) == Some(Json::Text(text("vendor_id"@, ""@)))
                &&& events[0].data.get("product_id"@) == Some(
                    Json::Text(text("product_id"@, ""@)),
                )
                &&& events[0].data.get("subsystem"@) == Some(Json::Text(text("subsystem"@, ""@)))
                &&& events[0].data.get("device"@) == Some(Json::Text("unknown"@))
                &&& events[0].data.get("raw"@) == Some(p)
            }
            &&& udev_child(n, raw) ==> (action == "add"@ || action == "remove"@) && text(
                "vendor_id"@,
                ""@,
            ).len() > 0 && text("product_id"@, ""@).len() > 0
        }),
{
    lemma_udev_words_differ();
    lemma_device_keys_differ();
    reveal_strlit("bread.device.");
    reveal_strlit("connected");
    reveal_strlit("disconnected");
    reveal_strlit("changed");
    reveal_strlit("bread.device.connected");
    reveal_strlit("bread.device.disconnected");
    reveal_strlit("bread.device.changed");
    assert("bread.device."@.len() == 13);
    assert("connected"@.len() == 9);
    assert("disconnected"@.len() == 12);
    assert("changed"@.len() == 7);
    assert("bread.device.connected"@.len() == 22);
    assert("bread.device.disconnected"@.len() == 25);
    assert("bread.device.changed"@.len() == 20);
    assert("bread.device."@ + "connected"@ =~= "bread.device.connected"@);
    assert("bread.device."@ + "disconnected"@ =~= "bread.device.disconnected"@);
    assert("bread.device."@ + "changed"@ =~= "bread.device.changed"@);
}

/// Two reports with the same action on the same vendor and product are of one
/// device, and those with another action, vendor or product are not, as long as the
/// identifiers hold no colon.
pub proof fn law_device_keys_tell_devices_apart(a: Json, b: Json)
    requires
        forall|i: int|
            0 <= i < a.text_or("vendor_id"@, ""@).len() ==> #[trigger] a.text_or("vendor_id"@, ""@)[i]
                != ':',
        forall|i: int|
            0 <= i < b.text_or("vendor_id"@, ""@).len() ==> #[trigger] b.text_or("vendor_id"@, ""@)[i]
                != ':',
        udev_physical(a),
        udev_physical(b),
    ensures
        device_key(a) == device_key(b) <==> a.get("action"@) == b.get("action"@) && a.get(
            "vendor_id"@,
        ) == b.get("vendor_id"@) && a.get("product_id"@) == b.get("product_id"@),
{
    lemma_udev_words_differ();
    reveal_strlit("");
    reveal_strlit(":");
    reveal_strlit("connected");
    reveal_strlit("disconnected");
    let va = udev_verb(a.text_or("action"@, "change"@));
    let vb = udev_verb(b.text_or("action"@, "change"@));
    let (ia, ib) = (a.text_or("vendor_id"@, ""@), b.text_or("vendor_id"@, ""@));
    let (pa, pb) = (a.text_or("product_id"@, ""@), b.text_or("product_id"@, ""@));
    let ka = va + ":"@ + ia + ":"@ + pa;
    let kb = vb + ":"@ + ib + ":"@ + pb;
    if device_key(a) == device_key(b) {
        assert(device_key(a)[0] == ka && device_key(b)[0] == kb);
        assert(ka == kb);
        assert("connected"@[0] == 'c' && "disconnected"@[0] == 'd');
        assert(ka[0] == va[0] && kb[0] == vb[0]);
        assert(va == vb);
        let at = va.len() as int + 1;
        assert(ka[at + ia.len()] == ':');
        assert(kb[at + ib.len()] == ':');
        if ia.len() < ib.len() {
            assert(kb[at + ia.len()] == ib[ia.len() as int]);
        }
        if ib.len() < ia.len() {
            assert(ka[at + ib.len()] == ia[ib.len() as int]);
        }
        assert(ia =~= ib) by {
            assert forall|i: int| 0 <= i < ia.len() implies ia[i] == ib[i] by {
                assert(ka[at + i] == ia[i]);
                assert(kb[at + i] == ib[i]);
            }
        }
        assert(pa =~= pb) by {
            let from = at + ia.len() as int + 1;
            assert(ka.len() == from + pa.len() && kb.len() == from + pb.len());
            assert forall|i: int| 0 <= i < pa.len() implies pa[i] == pb[i] by {
                assert(ka[from + i] == pa[i]);
                assert(kb[from + i] == pb[i]);
            }
        }
    }
}

proof fn lemma_hyprland_kinds_differ()
    ensures
        "workspace"@ != "workspacev2"@,
        "workspace"@ != "createworkspace"@,
        "workspace"@ != "destroyworkspace"@,
        "workspace"@ != "monitoradded"@,
        "workspace"@ != "monitorremoved"@,
        "workspace"@ != "activewindow"@,
        "workspace"@ != "activewindowv2"@,
        "workspace"@ != "openwindow"@,
        "workspace"@ != "closewindow"@,
        "workspace"@ != "movewindow"@,
        "workspacev2"@ != "createworkspace"@,
        "workspacev2"@ != "destroyworkspace"@,
        "workspacev2"@ != "monitoradded"@,
        "workspacev2"@ != "monitorremoved"@,
        "workspacev2"@ != "activewindow"@,
        "workspacev2"@ != "activewindowv2"@,
        "workspacev2"@ != "openwindow"@,
        "workspacev2"@ != "closewindow"@,
        "workspacev2"@ != "movewindow"@,
        "createworkspace"@ != "destroyworkspace"@,
        "createworkspace"@ != "monitoradded"@,
        "createworkspace"@ != "monitorremoved"@,
        "createworkspace"@ != "activewindow"@,
        "createworkspace"@ != "activewindowv2"@,
        "createworkspace"@ != "openwindow"@,
        "createworkspace"@ != "closewindow"@,
        "createworkspace"@ != "movewindow"@,
        "destroyworkspace"@ != "monitoradded"@,
        "destroyworkspace"@ != "monitorremoved"@,
        "destroyworkspace"@ != "activewindow"@,
        "destroyworkspace"@ != "activewindowv2"@,
        "destroyworkspace"@ != "openwindow"@,
        "destroyworkspace"@ != "closewindow"@,
        "destroyworkspace"@ != "movewindow"@,
        "monitoradded"@ != "monitorremoved"@,
        "monitoradded"@ != "activewindow"@,
        "monitoradded"@ != "activewindowv2"@,
        "monitoradded"@ != "openwindow"@,
        "monitoradded"@ != "closewindow"@,
        "monitoradded"@ != "movewindow"@,
        "monitorremoved"@ != "activewindow"@,
        "monitorremoved"@ != "activewindowv2"@,
        "monitorremoved"@ != "openwindow"@,
        "monitorremoved"@ != "closewindow"@,
        "monitorremoved"@ != "movewindow"@,
        "activewindow"@ != "activewindowv2"@,
        "activewindow"@ != "openwindow"@,
        "activewindow"@ != "closewindow"@,
        "activewindow"@ != "movewindow"@,
        "activewindowv2"@ != "openwindow"@,
        "activewindowv2"@ != "closewindow"@,
        "activewindowv2"@ != "movewindow"@,
        "openwindow"@ != "closewindow"@,
        "openwindow"@ != "movewindow"@,
        "closewindow"@ != "movewindow"@,
{
    reveal_strlit("workspace");
    reveal_strlit("workspacev2");
    reveal_strlit("createworkspace");
    reveal_strlit("destroyworkspace");
    reveal_strlit("monitoradded");
    reveal_strlit("monitorremoved");
    reveal_strlit("activewindow");
    reveal_strlit("activewindowv2");
    reveal_strlit("openwindow");
    reveal_strlit("closewindow");
    reveal_strlit("movewindow");
    assert("workspace"@.len() == 9);
    assert("workspacev2"@.len() == 11);
    assert("createworkspace"@.len() == 15);
    assert("destroyworkspace"@.len() == 16);
    assert("monitoradded"@.len() == 12);
    assert("monitorremoved"@.len() == 14);
    assert("activewindow"@.len() == 12);
    assert("activewindowv2"@.len() == 14);
    assert("openwindow"@.len() == 10);
    assert("closewindow"@.len() == 11);
    assert("movewindow"@.len() == 10);
    assert("workspacev2"@[0] != "closewindow"@[0]);
    assert("monitoradded"@[0] != "activewindow"@[0]);
    assert("monitorremoved"@[0] != "activewindowv2"@[0]);
    assert("openwindow"@[0] != "movewindow"@[0]);
}

/// The kind of Hyprland message stands for the event of that flat name, and of that
/// name below `bread.hyprland.`.
pub open spec fn hyprland_event_names(kind: Seq<char>, flat: Seq<char>, own: Seq<char>) -> bool {
    ||| kind == "workspace"@ && flat == "bread.workspace.changed"@ && own == "bread.hyprland.workspace.changed"@
    ||| kind == "workspacev2"@ && flat == "bread.workspace.changed"@ && own == "bread.hyprland.workspace.changed"@
    ||| kind == "createworkspace"@ && flat == "bread.workspace.created"@ && own == "bread.hyprland.workspace.created"@
    ||| kind == "destroyworkspace"@ && flat == "bread.workspace.destroyed"@ && own == "bread.hyprland.workspace.destroyed"@
    ||| kind == "monitoradded"@ && flat == "bread.monitor.connected"@ && own == "bread.hyprland.monitor.connected"@
    ||| kind == "monitorremoved"@ && flat == "bread.monitor.disconnected"@ && own == "bread.hyprland.monitor.disconnected"@
    ||| kind == "activewindow"@ && flat == "bread.window.focus.changed"@ && own == "bread.hyprland.window.focus.changed"@
    ||| kind == "activewindowv2"@ && flat == "bread.window.focused"@ && own == "bread.hyprland.window.focused"@
    ||| kind == "openwindow"@ && flat == "bread.window.opened"@ && own == "bread.hyprland.window.opened"@
    ||| kind == "closewindow"@ && flat == "bread.window.closed"@ && own == "bread.hyprland.window.closed"@
    ||| kind == "movewindow"@ && flat == "bread.window.moved"@ && own == "bread.hyprland.window.moved"@
}

/// A Hyprland message of a known kind leads to the event of the name below
/// `bread.hyprland.` and, where flat names are in use, before it to that of the flat
/// name; both carry the same. One of another kind leads to one general event that
/// carries the message.
pub proof fn law_hyprland_messages_have_names(
    n: NormalizerView,
    raw: RawView,
    kind: Seq<char>,
    flat: Seq<char>,
    own: Seq<char>,
)
    requires
        raw.source is Hyprland,
        raw.payload.get("kind"@) == Some(Json::Text(kind)),
    ensures
        ({
            let events = translated(n, raw);
            &&& hyprland_event_names(kind, flat, own) && n.legacy ==> events.len() == 2
                && events[0].event == flat && events[1] == (EventView { event: own, ..events[0] })
            &&& hyprland_event_names(kind, flat, own) && !n.legacy ==> events.len() == 1
                && events[0].event == own
            &&& (forall|f: Seq<char>, o: Seq<char>| !#[trigger] hyprland_event_names(kind, f, o))
                ==> events == seq![
                EventView {
                    event: "bread.hyprland.event"@,
                    timestamp: raw.timestamp,
                    source: Source::Hyprland,
                    data: raw.payload,
                },
            ]
            &&& events.last().timestamp == raw.timestamp && events.last().source
                == Source::Hyprland
        }),
{
    lemma_hyprland_kinds_differ();
    reveal_strlit("bread.");
    reveal_strlit("bread.hyprland.");
    assert("bread."@.len() == 6);
    reveal_strlit("bread.workspace.changed");
    reveal_strlit("bread.hyprland.workspace.changed");
    assert("bread.workspace.changed"@.subrange(0, 6) =~= "bread."@);
    assert(namespaced("bread.workspace.changed"@) =~= "bread.hyprland.workspace.changed"@);
    reveal_strlit("bread.workspace.created");
    reveal_strlit("bread.hyprland.workspace.created");
    assert("bread.workspace.created"@.subrange(0, 6) =~= "bread."@);
    assert(namespaced("bread.workspace.created"@) =~= "bread.hyprland.workspace.created"@);
    reveal_strlit("bread.workspace.destroyed");
    reveal_strlit("bread.hyprland.workspace.destroyed");
    assert("bread.workspace.destroyed"@.subrange(0, 6) =~= "bread."@);
    assert(namespaced("bread.workspace.destroyed"@) =~= "bread.hyprland.workspace.destroyed"@);
    reveal_strlit("bread.monitor.connected");
    reveal_strlit("bread.hyprland.monitor.connected");
    assert("bread.monitor.connected"@.subrange(0, 6) =~= "bread."@);
    assert(namespaced("bread.monitor.connected"@) =~= "bread.hyprland.monitor.connected"@);
    reveal_strlit("bread.monitor.disconnected");
    reveal_strlit("bread.hyprland.monitor.disconnected");
    assert("bread.monitor.disconnected"@.subrange(0, 6) =~= "bread."@);
    assert(namespaced("bread.monitor.disconnected"@) =~= "bread.hyprland.monitor.disconnected"@);
    reveal_strlit("bread.window.focus.changed");
    reveal_strlit("bread.hyprland.window.focus.changed");
    assert("bread.window.focus.changed"@.subrange(0, 6) =~= "bread."@);
    assert(namespaced("bread.window.focus.changed"@) =~= "bread.hyprland.window.focus.changed"@);
    reveal_strlit("bread.window.focused");
    reveal_strlit("bread.hyprland.window.focused");
    assert("bread.window.focused"@.subrange(0, 6) =~= "bread."@);
    assert(namespaced("bread.window.focused"@) =~= "bread.hyprland.window.focused"@);
    reveal_strlit("bread.window.opened");
    reveal_strlit("bread.hyprland.window.opened");
    assert("bread.window.opened"@.subrange(0, 6) =~= "bread."@);
    assert(namespaced("bread.window.opened"@) =~= "bread.hyprland.window.opened"@);
    reveal_strlit("bread.window.closed");
    reveal_strlit("bread.hyprland.window.closed");
    assert("bread.window.closed"@.subrange(0, 6) =~= "bread."@);
    assert(namespaced("bread.window.closed"@) =~= "bread.hyprland.window.closed"@);
    reveal_strlit("bread.window.moved");
    reveal_strlit("bread.hyprland.window.moved");
    assert("bread.window.moved"@.subrange(0, 6) =~= "bread."@);
    assert(namespaced("bread.window.moved"@) =~= "bread.hyprland.window.moved"@);
    assert(kind == "workspace"@ ==> hyprland_event_names(kind, "bread.workspace.changed"@, "bread.hyprland.workspace.changed"@));
    assert(kind == "workspacev2"@ ==> hyprland_event_names(kind, "bread.workspace.changed"@, "bread.hyprland.workspace.changed"@));
    assert(kind == "createworkspace"@ ==> hyprland_event_names(kind, "bread.workspace.created"@, "bread.hyprland.workspace.created"@));
    assert(kind == "destroyworkspace"@ ==> hyprland_event_names(kind, "bread.workspace.destroyed"@, "bread.hyprland.workspace.destroyed"@));
    assert(kind == "monitoradded"@ ==> hyprland_event_names(kind, "bread.monitor.connected"@, "bread.hyprland.monitor.connected"@));
    assert(kind == "monitorremoved"@ ==> hyprland_event_names(kind, "bread.monitor.disconnected"@, "bread.hyprland.monitor.disconnected"@));
    assert(kind == "activewindow"@ ==> hyprland_event_names(kind, "bread.window.focus.changed"@, "bread.hyprland.window.focus.changed"@));
    assert(kind == "activewindowv2"@ ==> hyprland_event_names(kind, "bread.window.focused"@, "bread.hyprland.window.focused"@));
    assert(kind == "openwindow"@ ==> hyprland_event_names(kind, "bread.window.opened"@, "bread.hyprland.window.opened"@));
    assert(kind == "closewindow"@ ==> hyprland_event_names(kind, "bread.window.closed"@, "bread.hyprland.window.closed"@));
    assert(kind == "movewindow"@ ==> hyprland_event_names(kind, "bread.window.moved"@, "bread.hyprland.window.moved"@));
}

/// What the events of Hyprland messages carry: the name of the monitor or the
/// workspace is the whole of the message's data, a window is known by the first of
/// its parts, and where it opens or moves to by the second.
pub proof fn law_hyprland_messages_carry_their_data(
    n: NormalizerView,
    raw: RawView,
    kind: Seq<char>,
    data: Seq<char>,
)
    requires
        raw.source is Hyprland,
        raw.payload.get("kind"@) == Some(Json::Text(kind)),
        raw.payload.get("data"@) == Some(Json::Text(data)),
        data.len() > 0,
    ensures
        ({
            let told = translated(n, raw).last().data;
            let parts = text::split_by(data, ">>"@);
            let part = |i: int|
                Some(
                    Json::Text(
                        if i < parts.len() {
                            parts[i]
                        } else {
                            ""@
                        },
                    ),
                );
            &&& kind == "workspace"@ || kind == "workspacev2"@ || kind == "activewindow"@ ==> told
                == raw.payload
            &&& kind == "createworkspace"@ || kind == "destroyworkspace"@ ==> told.get(
                "workspace"@,
            ) == Some(Json::Text(data))
            &&& kind == "monitoradded"@ || kind == "monitorremoved"@ ==> told.get("name"@) == Some(
                Json::Text(data),
            )
            &&& kind == "activewindowv2"@ || kind == "closewindow"@ || kind == "openwindow"@
                || kind == "movewindow"@ ==> told.get("address"@) == part(0)
            &&& kind == "openwindow"@ || kind == "movewindow"@ ==> told.get("workspace"@) == part(1)
            &&& kind == "openwindow"@ ==> told.get("class"@) == part(2) && told.get("title"@)
                == part(3)
        }),
{
    lemma_hyprland_kinds_differ();
    reveal_strlit("address");
    reveal_strlit("workspace");
    reveal_strlit("class");
    reveal_strlit("title");
    reveal_strlit("name");
    assert("address"@.len() == 7);
    assert("workspace"@.len() == 9);
    assert("class"@.len() == 5);
    assert("title"@.len() == 5);
    assert("name"@.len() == 4);
    assert("class"@[0] != "title"@[0]);
}

/// A monitor that Hyprland reports as added is connected in the state after the
/// flat event, and one that it reports as removed is not.
pub proof fn law_hyprland_monitors_reach_the_state(
    n: NormalizerView,
    raw: RawView,
    s: RuntimeView,
    name: Seq<char>,
)
    requires
        n.legacy,
        raw.source is Hyprland,
        raw.payload.get("data"@) == Some(Json::Text(name)),
        name.len() > 0,
        state_engine::unique_monitors(s.monitors),
    ensures
        ({
            let event = translated(n, raw)[0];
            let after = state_engine::after_event(s, event.event, event.data).monitors;
            &&& raw.payload.get("kind"@) == Some(Json::Text("monitoradded"@)) ==> exists|i: int|
                0 <= i < after.len() && (#[trigger] after[i]).name == name && after[i].connected
            &&& raw.payload.get("kind"@) == Some(Json::Text("monitorremoved"@)) ==> forall|i: int|
                0 <= i < after.len() && (#[trigger] after[i]).name == name ==> !after[i].connected
        }),
{
    let event = translated(n, raw)[0];
    let after = state_engine::after_event(s, event.event, event.data).monitors;
    if raw.payload.get("kind"@) == Some(Json::Text("monitoradded"@)) {
        law_hyprland_messages_have_names(
            n,
            raw,
            "monitoradded"@,
            "bread.monitor.connected"@,
            "bread.hyprland.monitor.connected"@,
        );
        law_hyprland_messages_carry_their_data(n, raw, "monitoradded"@, name);
        state_engine::law_plugged_monitor_is_connected(s, event.data, name);
        let before = s.monitors;
        if !(exists|i: int| 0 <= i < before.len() && (#[trigger] before[i]).name == name) {
            assert(after[before.len() as int].name == name);
        }
    }
    if raw.payload.get("kind"@) == Some(Json::Text("monitorremoved"@)) {
        law_hyprland_messages_have_names(
            n,
            raw,
            "monitorremoved"@,
            "bread.monitor.disconnected"@,
            "bread.hyprland.monitor.disconnected"@,
        );
        law_hyprland_messages_carry_their_data(n, raw, "monitorremoved"@, name);
        state_engine::law_unplugged_monitor_is_not_connected(s, event.data, name);
    }
}

/// The reports of terminals, remote machines, git, projects, services and
/// containers are carried on unchanged, each family below a name of its own; an app
/// is heard below its own name only, and what a client or the daemon itself names
/// keeps its name.
pub proof fn law_reports_are_carried_on(n: NormalizerView, raw: RawView, rest: Seq<char>)
    ensures
        ({
            let carried = |name: Seq<char>|
                seq![
                    EventView {
                        event: name,
                        timestamp: raw.timestamp,
                        source: raw.source,
                        data: raw.payload,
                    },
                ];
            let events = translated(n, raw);
            &&& raw.source is Terminal ==> events == carried("bread.terminal."@ + raw.kind)
            &&& raw.source is Remote ==> events == carried("bread.remote."@ + raw.kind)
            &&& raw.source is Git ==> events == carried("bread.git."@ + raw.kind)
            &&& raw.source is Filesystem ==> events == carried("bread.project."@ + raw.kind)
            &&& raw.source is Systemd && raw.kind == "unit."@ + rest ==> events == carried(
                "bread.service."@ + rest,
            )
            &&& raw.source is Podman && raw.kind == "container.health_status"@ ==> events
                == carried("bread.container.health.changed"@)
            &&& raw.source is Podman && raw.kind != "container.health_status"@ ==> events
                == carried("bread."@ + raw.kind)
            &&& raw.source is Manual || raw.source is System ==> events == carried(raw.kind)
            &&& raw.source matches Source::App(app) ==> {
                &&& raw.kind == "bread."@ + app + "."@ + rest && rest.len() > 0 ==> events
                    == carried(raw.kind)
                &&& events.len() > 0 ==> events == carried(raw.kind) && raw.kind.len() > ("bread."@
                    + app + "."@).len() && raw.kind.subrange(0, ("bread."@ + app + "."@).len() as int)
                    == "bread."@ + app + "."@
            }
        }),
{
    reveal_strlit("unit.");
    if raw.kind == "unit."@ + rest {
        assert(raw.kind.subrange(0, "unit."@.len() as int) =~= "unit."@);
        assert(raw.kind.subrange("unit."@.len() as int, raw.kind.len() as int) =~= rest);
    }
    if let Source::App(app) = raw.source {
        let prefix = "bread."@ + app + "."@;
        if raw.kind == prefix + rest {
            assert(raw.kind.subrange(0, prefix.len() as int) =~= prefix);
        }
    }
}

/// What leads to one event is told where nothing was told before.
pub proof fn law_first_event_is_told(n: NormalizerView, raw: RawView)
    requires
        n.recent == Map::<Seq<Seq<char>>, u64>::empty(),
        translated(n, raw).len() == 1,
    ensures
        normalized(n, raw) == translated(n, raw),
{
    let events = translated(n, raw);
    reveal_with_fuel(passing, 2);
    reveal_with_fuel(recent_after_all, 2);
    assert(events.drop_last() =~= Seq::empty());
    assert(Seq::<EventView>::empty().push(events.last()) =~= events);
}

/// Each kind of message of Hyprland is told under the name of what happened: below
/// `bread.hyprland.`, and by its short name too where old names are asked for.
pub proof fn law_each_message_has_its_name(n: NormalizerView, raw: RawView)
    requires
        raw.source is Hyprland,
    ensures
        raw.payload.get("kind"@) == Some(Json::Text("workspace"@)) ==>
            translated(n, raw).last().event == "bread.hyprland.workspace.changed"@
            && (n.legacy ==> translated(n, raw).len() == 2
                && translated(n, raw)[0].event == "bread.workspace.changed"@) && (!n.legacy ==>
                translated(n, raw).len() == 1),
        raw.payload.get("kind"@) == Some(Json::Text("workspacev2"@)) ==>
            translated(n, raw).last().event == "bread.hyprland.workspace.changed"@
            && (n.legacy ==> translated(n, raw).len() == 2
                && translated(n, raw)[0].event == "bread.workspace.changed"@) && (!n.legacy ==>
                translated(n, raw).len() == 1),
        raw.payload.get("kind"@) == Some(Json::Text("createworkspace"@)) ==>
            translated(n, raw).last().event == "bread.hyprland.workspace.created"@
            && (n.legacy ==> translated(n, raw).len() == 2
                && translated(n, raw)[0].event == "bread.workspace.created"@) && (!n.legacy ==>
                translated(n, raw).len() == 1),
        raw.payload.get("kind"@) == Some(Json::Text("destroyworkspace"@)) ==>
            translated(n, raw).last().event == "bread.hyprland.workspace.destroyed"@
            && (n.legacy ==> translated(n, raw).len() == 2
                && translated(n, raw)[0].event == "bread.workspace.destroyed"@) && (!n.legacy ==>
                translated(n, raw).len() == 1),
        raw.payload.get("kind"@) == Some(Json::Text("monitoradded"@)) ==>
            translated(n, raw).last().event == "bread.hyprland.monitor.connected"@
            && (n.legacy ==> translated(n, raw).len() == 2
                && translated(n, raw)[0].event == "bread.monitor.connected"@) && (!n.legacy ==>
                translated(n, raw).len() == 1),
        raw.payload.get("kind"@) == Some(Json::Text("monitorremoved"@)) ==>
            translated(n, raw).last().event == "bread.hyprland.monitor.disconnected"@
            && (n.legacy ==> translated(n, raw).len() == 2
                && translated(n, raw)[0].event == "bread.monitor.disconnected"@) && (!n.legacy ==>
                translated(n, raw).len() == 1),
        raw.payload.get("kind"@) == Some(Json::Text("activewindow"@)) ==>
            translated(n, raw).last().event == "bread.hyprland.window.focus.changed"@
            && (n.legacy ==> translated(n, raw).len() == 2
                && translated(n, raw)[0].event == "bread.window.focus.changed"@) && (!n.legacy ==>
                translated(n, raw).len() == 1),
        raw.payload.get("kind"@) == Some(Json::Text("activewindowv2"@)) ==>
            translated(n, raw).last().event == "bread.hyprland.window.focused"@
            && (n.legacy ==> translated(n, raw).len() == 2
                && translated(n, raw)[0].event == "bread.window.focused"@) && (!n.legacy ==>
                translated(n, raw).len() == 1),
        raw.payload.get("kind"@) == Some(Json::Text("openwindow"@)) ==>
            translated(n, raw).last().event == "bread.hyprland.window.opened"@
            && (n.legacy ==> translated(n, raw).len() == 2
                && translated(n, raw)[0].event == "bread.window.opened"@) && (!n.legacy ==>
                translated(n, raw).len() == 1),
        raw.payload.get("kind"@) == Some(Json::Text("closewindow"@)) ==>
            translated(n, raw).last().event == "bread.hyprland.window.closed"@
            && (n.legacy ==> translated(n, raw).len() == 2
                && translated(n, raw)[0].event == "bread.window.closed"@) && (!n.legacy ==>
                translated(n, raw).len() == 1),
        raw.payload.get("kind"@) == Some(Json::Text("movewindow"@)) ==>
            translated(n, raw).last().event == "bread.hyprland.window.moved"@
            && (n.legacy ==> translated(n, raw).len() == 2
                && translated(n, raw)[0].event == "bread.window.moved"@) && (!n.legacy ==>
                translated(n, raw).len() == 1),
{
    if let Some(Json::Text(kind)) = raw.payload.get("kind"@) {
        if kind == "workspace"@ {
            law_hyprland_messages_have_names(n, raw, kind, "bread.workspace.changed"@,
                "bread.hyprland.workspace.changed"@);
        }
        if kind == "workspacev2"@ {
            law_hyprland_messages_have_names(n, raw, kind, "bread.workspace.changed"@,
                "bread.hyprland.workspace.changed"@);
        }
        if kind == "createworkspace"@ {
            law_hyprland_messages_have_names(n, raw, kind, "bread.workspace.created"@,
                "bread.hyprland.workspace.created"@);
        }
        if kind == "destroyworkspace"@ {
            law_hyprland_messages_have_names(n, raw, kind, "bread.workspace.destroyed"@,
                "bread.hyprland.workspace.destroyed"@);
        }
        if kind == "monitoradded"@ {
            law_hyprland_messages_have_names(n, raw, kind, "bread.monitor.connected"@,
                "bread.hyprland.monitor.connected"@);
        }
        if kind == "monitorremoved"@ {
            law_hyprland_messages_have_names(n, raw, kind, "bread.monitor.disconnected"@,
                "bread.hyprland.monitor.disconnected"@);
        }
        if kind == "activewindow"@ {
            law_hyprland_messages_have_names(n, raw, kind, "bread.window.focus.changed"@,
                "bread.hyprland.window.focus.changed"@);
        }
        if kind == "activewindowv2"@ {
            law_hyprland_messages_have_names(n, raw, kind, "bread.window.focused"@,
                "bread.hyprland.window.focused"@);
        }
        if kind == "openwindow"@ {
            law_hyprland_messages_have_names(n, raw, kind, "bread.window.opened"@,
                "bread.hyprland.window.opened"@);
        }
        if kind == "closewindow"@ {
            law_hyprland_messages_have_names(n, raw, kind, "bread.window.closed"@,
                "bread.hyprland.window.closed"@);
        }
        if kind == "movewindow"@ {
            law_hyprland_messages_have_names(n, raw, kind, "bread.window.moved"@,
                "bread.hyprland.window.moved"@);
        }
    }
}

} // verus!
