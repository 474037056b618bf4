//! Which adapters are started, and whether they are connected.

use crate::config::Config;
use crate::json::{Json, JsonValue};
use crate::snapshot::Snapshot;
use vstd::prelude::*;

verus! {

/// Whether an adapter is connected to what it listens to.
#[derive(Debug, Clone, Copy, PartialEq, Eq, Structural)]
pub enum AdapterStatus {
    Connected,
    Disconnected,
}

impl AdapterStatus {
    /// The name of the status in reports.
    pub open spec fn spec_name(self) -> Seq<char> {
        match self {
            AdapterStatus::Connected => "connected"@,
            AdapterStatus::Disconnected => "disconnected"@,
        }
    }

    /// The name of the status in reports.
    pub fn name(self) -> (r: &'static str)
        ensures
            r@ == self.spec_name(),
    {
        match self {
            AdapterStatus::Connected => "connected",
            AdapterStatus::Disconnected => "disconnected",
        }
    }
}

impl DeepView for AdapterStatus {
    type V = AdapterStatus;

    open spec fn deep_view(&self) -> AdapterStatus {
        *self
    }
}

impl Snapshot for AdapterStatus {
    open spec fn json(v: AdapterStatus) -> Json {
        Json::Text(v.spec_name())
    }

    fn to_value(&self) -> JsonValue {
        JsonValue::of_text(self.name())
    }
}

/// An adapter that is to be started.
#[derive(Debug, Clone, Copy, PartialEq, Eq, Structural)]
pub enum AdapterChoice {
    Udev,
    Hyprland,
    UPower,
    Power,
    Rtnetlink,
    Network,
    Bluetooth,
}

/// The item alone, where the condition holds.
pub open spec fn only_if(condition: bool, choice: AdapterChoice) -> Seq<AdapterChoice> {
    if condition {
        seq![choice]
    } else {
        Seq::empty()
    }
}

/// The adapters that the settings ask for. Where UPower or the kernel cannot be
/// listened to, the system's files are looked at instead.
pub open spec fn choices(config: Config, upower: bool, rtnetlink: bool) -> Seq<AdapterChoice> {
    only_if(config.adapters.udev.enabled, AdapterChoice::Udev) + only_if(
        config.adapters.hyprland.enabled,
        AdapterChoice::Hyprland,
    ) + only_if(
        config.adapters.power.enabled,
        if upower {
            AdapterChoice::UPower
        } else {
            AdapterChoice::Power
        },
    ) + only_if(
        config.adapters.network.enabled,
        if rtnetlink {
            AdapterChoice::Rtnetlink
        } else {
            AdapterChoice::Network
        },
    ) + only_if(config.adapters.bluetooth.enabled, AdapterChoice::Bluetooth)
}

/// The adapters to start, in order.
pub fn start_all(config: &Config, upower: bool, rtnetlink: bool) -> (r: Vec<AdapterChoice>)
    ensures
        r@ == choices(*config, upower, rtnetlink),
{
    let mut r: Vec<AdapterChoice> = Vec::new();
    if config.adapters.udev.enabled {
        r.push(AdapterChoice::Udev);
    }
    if config.adapters.hyprland.enabled {
        r.push(AdapterChoice::Hyprland);
    }
    if config.adapters.power.enabled {
        if upower {
            r.push(AdapterChoice::UPower);
        } else {
            r.push(AdapterChoice::Power);
        }
    }
    if config.adapters.network.enabled {
        if rtnetlink {
            r.push(AdapterChoice::Rtnetlink);
        } else {
            r.push(AdapterChoice::Network);
        }
    }
    if config.adapters.bluetooth.enabled {
        r.push(AdapterChoice::Bluetooth);
    }
    assert(r@ =~= choices(*config, upower, rtnetlink));
    r
}

/// An adapter is started exactly where it is enabled; where the bus or the kernel
/// can tell of the power supply or of the network, that is what is listened to, and
/// else they are asked at intervals.
pub proof fn law_enabled_adapters_start(config: Config, upower: bool, rtnetlink: bool)
    ensures
        ({
            let all = choices(config, upower, rtnetlink);
            &&& all.contains(AdapterChoice::Udev) <==> config.adapters.udev.enabled
            &&& all.contains(AdapterChoice::Hyprland) <==> config.adapters.hyprland.enabled
            &&& all.contains(AdapterChoice::UPower) <==> config.adapters.power.enabled && upower
            &&& all.contains(AdapterChoice::Power) <==> config.adapters.power.enabled && !upower
            &&& all.contains(AdapterChoice::Rtnetlink) <==> config.adapters.network.enabled
                && rtnetlink
            &&& all.contains(AdapterChoice::Network) <==> config.adapters.network.enabled
                && !rtnetlink
            &&& all.contains(AdapterChoice::Bluetooth) <==> config.adapters.bluetooth.enabled
        }),
{
    let a = config.adapters;
    let udev = only_if(a.udev.enabled, AdapterChoice::Udev);
    let hyprland = only_if(a.hyprland.enabled, AdapterChoice::Hyprland);
    let power = only_if(
        a.power.enabled,
        if upower {
            AdapterChoice::UPower
        } else {
            AdapterChoice::Power
        },
    );
    let network = only_if(
        a.network.enabled,
        if rtnetlink {
            AdapterChoice::Rtnetlink
        } else {
            AdapterChoice::Network
        },
    );
    let bluetooth = only_if(a.bluetooth.enabled, AdapterChoice::Bluetooth);
    assert forall|c: AdapterChoice| #[trigger]
        choices(config, upower, rtnetlink).contains(c) <==> (udev.contains(c) || hyprland.contains(c)
            || power.contains(c) || network.contains(c) || bluetooth.contains(c)) by {
        lemma_either(udev, hyprland, c);
        lemma_either(udev + hyprland, power, c);
        lemma_either(udev + hyprland + power, network, c);
        lemma_either(udev + hyprland + power + network, bluetooth, c);
    }
    assert forall|condition: bool, choice: AdapterChoice, c: AdapterChoice| #[trigger]
        only_if(condition, choice).contains(c) <==> condition && c == choice by {
        if condition {
            assert(only_if(condition, choice)[0] == choice);
        }
    }
}

proof fn lemma_either(a: Seq<AdapterChoice>, b: Seq<AdapterChoice>, c: AdapterChoice)
    ensures
        (a + b).contains(c) <==> a.contains(c) || b.contains(c),
{
    let all = a + b;
    if a.contains(c) {
        let i = choose|i: int| 0 <= i < a.len() && a[i] == c;
        assert(all[i] == c);
    }
    if b.contains(c) {
        let i = choose|i: int| 0 <= i < b.len() && b[i] == c;
        assert(all[a.len() + i] == c);
    }
    if all.contains(c) {
        let i = choose|i: int| 0 <= i < all.len() && all[i] == c;
        if i < a.len() {
            assert(a[i] == c);
        } else {
            assert(b[i - a.len()] == c);
        }
    }
}

} // verus!
