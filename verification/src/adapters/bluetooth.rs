//! What BlueZ says of Bluetooth devices.

use super::bus::{BodyView, BusBody, BusMessage, BusView};
use crate::events::{AdapterSource, RawEvent, RawView, Source};
use crate::json::{Json, JsonValue};
use crate::normalizer;
use crate::state_engine;
use crate::text;
use crate::types::RuntimeView;
use vstd::prelude::*;

verus! {

/// Listens to BlueZ.
#[derive(Debug, Clone, Copy)]
pub struct BluetoothAdapter;

impl BluetoothAdapter {
    /// The adapter.
    pub fn new() -> (r: Self)
        ensures
            r == BluetoothAdapter,
    {
        BluetoothAdapter
    }
}

/// The address in the last component of an object path, such as
/// `AA:BB:CC:DD:EE:FF` of `/org/bluez/hci0/dev_AA_BB_CC_DD_EE_FF`; empty where
/// there is none.
pub open spec fn path_address(path: Seq<char>) -> Seq<char> {
    let last = text::split(path, '/').last();
    if text::has_prefix(last, "dev_"@) {
        text::replaced(last.subrange("dev_"@.len() as int, last.len() as int), '_', ':')
    } else {
        Seq::empty()
    }
}

/// The Bluetooth address that an object path names; empty where it names none.
pub fn address_from_path(path: &str) -> (r: String)
    ensures
        r@ == path_address(path@),
{
    let parts = text::split_on(path, '/');
    let n: usize = parts.len() - 1;
    assert(text::split(path@, '/').last() == parts@[n as int]@);
    match text::strip_prefix(parts[n].as_str(), "dev_") {
        Some(rest) => text::replace_char(rest, '_', ':'),
        None => {
            let r = String::new();
            assert(r@ =~= Seq::empty());
            r
        },
    }
}

/// The name that the properties of a device give it.
pub open spec fn device_label(props: Json) -> Seq<char> {
    let v = if props.get("Name"@) is Some {
        props.get("Name"@)
    } else {
        props.get("Alias"@)
    };
    match v {
        Some(Json::Text(name)) => name,
        _ => "unknown"@,
    }
}

fn label_of(props: &JsonValue) -> (r: String)
    ensures
        r@ == device_label(props@),
{
    let v = match props.get("Name") {
        Some(v) => Some(v),
        None => props.get("Alias"),
    };
    match v {
        Some(v) => match v.as_str() {
            Some(name) => name.to_owned(),
            None => "unknown".to_owned(),
        },
        None => "unknown".to_owned(),
    }
}

/// The report on a device that is connected when the daemon starts.
pub open spec fn found_event(path: Seq<char>, props: Json, now: u64) -> Option<RawView> {
    if props.flag_or("Connected"@, false) {
        Some(
            RawView {
                source: Source::Bluetooth,
                kind: "bluetooth.enumerate"@,
                payload: Json::empty().with("path"@, Json::Text(path)).with(
                    "address"@,
                    Json::Text(props.text_or("Address"@, "unknown"@)),
                ).with("name"@, Json::Text(device_label(props))).with("properties"@, props),
                timestamp: now,
            },
        )
    } else {
        None
    }
}

/// The report on a device that is known when the daemon starts, if it is
/// connected.
pub fn enumerate_device(path: &str, props: JsonValue, now: u64) -> (r: Option<RawEvent>)
    ensures
        r.deep_view() == found_event(path@, props@, now),
{
    if !props.flag_or("Connected", false) {
        return None;
    }
    let name = label_of(&props);
    let address = props.text_or("Address", "unknown");
    Some(
        RawEvent {
            source: AdapterSource::Bluetooth,
            kind: "bluetooth.enumerate".to_owned(),
            payload: JsonValue::empty().with("path", JsonValue::of_text(path)).with(
                "address",
                JsonValue::of_text(address.as_str()),
            ).with("name", JsonValue::of_text(name.as_str())).with("properties", props),
            timestamp: now,
        },
    )
}

/// The report that a message of the bus calls for.
pub open spec fn bluetooth_report(m: BusView, now: u64) -> Option<RawView> {
    if m.is("org.freedesktop.DBus.Properties"@, "PropertiesChanged"@) {
        let path = m.path_or_empty();
        match m.body {
            BodyView::Changed(iface, changed, invalidated) => if text::has_prefix(
                path,
                "/org/bluez/"@,
            ) && iface == "org.bluez.Device1"@ {
                match changed.flag("Connected"@) {
                    Some(connected) => Some(
                        RawView {
                            source: Source::Bluetooth,
                            kind: if connected {
                                "bluetooth.device.connected"@
                            } else {
                                "bluetooth.device.disconnected"@
                            },
                            payload: Json::empty().with("path"@, Json::Text(path)).with(
                                "address"@,
                                Json::Text(path_address(path)),
                            ).with("properties"@, changed),
                            timestamp: now,
                        },
                    ),
                    None => None,
                }
            } else {
                None
            },
            _ => None,
        }
    } else if m.is("org.freedesktop.DBus.ObjectManager"@, "InterfacesAdded"@) {
        match m.body {
            BodyView::Added(path, interfaces) => if text::has_prefix(path, "/org/bluez/"@)
                && interfaces.get("org.bluez.Device1"@) is Some {
                let props = interfaces.get("org.bluez.Device1"@)->0;
                Some(
                    RawView {
                        source: Source::Bluetooth,
                        kind: "bluetooth.device.added"@,
                        payload: Json::empty().with("path"@, Json::Text(path)).with(
                            "address"@,
                            Json::Text(props.text_or("Address"@, path_address(path))),
                        ).with("name"@, Json::Text(device_label(props))).with(
                            "properties"@,
                            props,
                        ),
                        timestamp: now,
                    },
                )
            } else {
                None
            },
            _ => None,
        }
    } else if m.is("org.freedesktop.DBus.ObjectManager"@, "InterfacesRemoved"@) {
        match m.body {
            BodyView::Removed(path, interfaces) => if text::has_prefix(path, "/org/bluez/"@)
                && interfaces.contains("org.bluez.Device1"@) {
                Some(
                    RawView {
                        source: Source::Bluetooth,
                        kind: "bluetooth.device.removed"@,
                        payload: Json::empty().with("path"@, Json::Text(path)).with(
                            "address"@,
                            Json::Text(path_address(path)),
                        ),
                        timestamp: now,
                    },
                )
            } else {
                None
            },
            _ => None,
        }
    } else {
        None
    }
}

/// The report that a message of the bus calls for: a device that connects,
/// disconnects, is paired or is unpaired.
pub fn parse_bluetooth_message(m: &BusMessage, now: u64) -> (r: Option<RawEvent>)
    ensures
        r.deep_view() == bluetooth_report(m.deep_view(), now),
{
    if m.is_signal("org.freedesktop.DBus.Properties", "PropertiesChanged") {
        let path = m.path_text();
        match &m.body {
            BusBody::Changed { iface, changed, invalidated } => {
                if !text::starts_with(path.as_str(), "/org/bluez/") || !text::same(
                    iface.as_str(),
                    "org.bluez.Device1",
                ) {
                    return None;
                }
                match changed.flag("Connected") {
                    Some(connected) => {
                        let kind = if connected {
                            "bluetooth.device.connected"
                        } else {
                            "bluetooth.device.disconnected"
                        };
                        let address = address_from_path(path.as_str());
                        Some(
                            RawEvent {
                                source: AdapterSource::Bluetooth,
                                kind: kind.to_owned(),
                                payload: JsonValue::empty().with(
                                    "path",
                                    JsonValue::of_text(path.as_str()),
                                ).with("address", JsonValue::of_text(address.as_str())).with(
                                    "properties",
                                    changed.duplicate(),
                                ),
                                timestamp: now,
                            },
                        )
                    },
                    None => None,
                }
            },
            _ => None,
        }
    } else if m.is_signal("org.freedesktop.DBus.ObjectManager", "InterfacesAdded") {
        match &m.body {
            BusBody::Added { path, interfaces } => {
                if !text::starts_with(path.as_str(), "/org/bluez/") {
                    return None;
                }
                match interfaces.get("org.bluez.Device1") {
                    Some(props) => {
                        let name = label_of(props);
                        let fallback = address_from_path(path.as_str());
                        let address = props.text_or("Address", fallback.as_str());
                        Some(
                            RawEvent {
                                source: AdapterSource::Bluetooth,
                                kind: "bluetooth.device.added".to_owned(),
                                payload: JsonValue::empty().with(
                                    "path",
                                    JsonValue::of_text(path.as_str()),
                                ).with("address", JsonValue::of_text(address.as_str())).with(
                                    "name",
                                    JsonValue::of_text(name.as_str()),
                                ).with("properties", props.duplicate()),
                                timestamp: now,
                            },
                        )
                    },
                    None => None,
                }
            },
            _ => None,
        }
    } else if m.is_signal("org.freedesktop.DBus.ObjectManager", "InterfacesRemoved") {
        match &m.body {
            BusBody::Removed { path, lost } => {
                if !text::starts_with(path.as_str(), "/org/bluez/") || !text::list_has(
                    lost,
                    "org.bluez.Device1",
                ) {
                    return None;
                }
                let address = address_from_path(path.as_str());
                Some(
                    RawEvent {
                        source: AdapterSource::Bluetooth,
                        kind: "bluetooth.device.removed".to_owned(),
                        payload: JsonValue::empty().with(
                            "path",
                            JsonValue::of_text(path.as_str()),
                        ).with("address", JsonValue::of_text(address.as_str())),
                        timestamp: now,
                    },
                )
            },
            _ => None,
        }
    } else {
        None
    }
}

proof fn lemma_bus_words_differ()
    ensures
        "org.freedesktop.DBus.Properties"@ != "org.freedesktop.DBus.ObjectManager"@,
        "org.freedesktop.DBus.Properties"@ != "PropertiesChanged"@,
        "org.freedesktop.DBus.Properties"@ != "InterfacesAdded"@,
        "org.freedesktop.DBus.Properties"@ != "InterfacesRemoved"@,
        "org.freedesktop.DBus.ObjectManager"@ != "PropertiesChanged"@,
        "org.freedesktop.DBus.ObjectManager"@ != "InterfacesAdded"@,
        "org.freedesktop.DBus.ObjectManager"@ != "InterfacesRemoved"@,
        "PropertiesChanged"@ != "InterfacesAdded"@,
        "PropertiesChanged"@ != "InterfacesRemoved"@,
        "InterfacesAdded"@ != "InterfacesRemoved"@,
{
    reveal_strlit("org.freedesktop.DBus.Properties");
    reveal_strlit("org.freedesktop.DBus.ObjectManager");
    reveal_strlit("PropertiesChanged");
    reveal_strlit("InterfacesAdded");
    reveal_strlit("InterfacesRemoved");
    assert("org.freedesktop.DBus.Properties"@.len() == 31);
    assert("org.freedesktop.DBus.ObjectManager"@.len() == 34);
    assert("PropertiesChanged"@.len() == 17);
    assert("InterfacesAdded"@.len() == 15);
    assert("InterfacesRemoved"@.len() == 17);
    assert("PropertiesChanged"@[0] != "InterfacesRemoved"@[0]);
}

/// A device of the Bluetooth service that says that it is connected is reported as
/// `bluetooth.device.connected`, and one that says that it is not as
/// `bluetooth.device.disconnected`, under its path.
pub proof fn law_connections_are_reported(
    m: BusView,
    path: Seq<char>,
    changed: Json,
    invalidated: Seq<Seq<char>>,
    now: u64,
)
    requires
        m.interface == Some("org.freedesktop.DBus.Properties"@),
        m.member == Some("PropertiesChanged"@),
        m.path == Some(path),
        m.body == BodyView::Changed("org.bluez.Device1"@, changed, invalidated),
        text::has_prefix(path, "/org/bluez/"@),
    ensures
        changed.get("Connected"@) matches Some(Json::Bool(b)) ==> (bluetooth_report(m, now) matches Some(r) && {
            &&& b ==> r.kind == "bluetooth.device.connected"@
            &&& !b ==> r.kind == "bluetooth.device.disconnected"@
            &&& r.source == Source::Bluetooth && r.timestamp == now
            &&& r.payload.get("path"@) == Some(Json::Text(path))
            &&& r.payload.get("address"@) == Some(Json::Text(path_address(path)))
            &&& r.payload.get("properties"@) == Some(changed)
        }),
        !(changed.get("Connected"@) matches Some(Json::Bool(_))) ==> bluetooth_report(m, now) is None,
{
    reveal_strlit("path");
    reveal_strlit("address");
    reveal_strlit("name");
    reveal_strlit("properties");
    assert("path"@.len() == 4);
    assert("address"@.len() == 7);
    assert("name"@.len() == 4);
    assert("properties"@.len() == 10);
    assert("path"@[0] != "name"@[0]);
}

/// A device that the Bluetooth service gets to know is reported as
/// `bluetooth.device.added`, and one that it forgets as `bluetooth.device.removed`.
pub proof fn law_known_devices_are_reported(
    added: BusView,
    removed: BusView,
    path: Seq<char>,
    interfaces: Json,
    lost: Seq<Seq<char>>,
    props: Json,
    now: u64,
)
    requires
        added.interface == Some("org.freedesktop.DBus.ObjectManager"@),
        added.member == Some("InterfacesAdded"@),
        added.body == BodyView::Added(path, interfaces),
        interfaces.get("org.bluez.Device1"@) == Some(props),
        removed.interface == Some("org.freedesktop.DBus.ObjectManager"@),
        removed.member == Some("InterfacesRemoved"@),
        removed.body == BodyView::Removed(path, lost),
        lost.contains("org.bluez.Device1"@),
        text::has_prefix(path, "/org/bluez/"@),
    ensures
        bluetooth_report(added, now) matches Some(r) && {
            &&& r.kind == "bluetooth.device.added"@
            &&& r.source == Source::Bluetooth && r.timestamp == now
            &&& r.payload.get("path"@) == Some(Json::Text(path))
            &&& r.payload.get("properties"@) == Some(props)
            &&& props.get("Address"@) matches Some(Json::Text(a)) ==> r.payload.get("address"@)
                == Some(Json::Text(a))
            &&& !(props.get("Address"@) matches Some(Json::Text(_))) ==> r.payload.get("address"@)
                == Some(Json::Text(path_address(path)))
            &&& props.get("Name"@) matches Some(Json::Text(t)) ==> r.payload.get("name"@) == Some(
                Json::Text(t),
            )
            &&& props.get("Name"@) is None ==> (props.get("Alias"@) matches Some(Json::Text(t))
                ==> r.payload.get("name"@) == Some(Json::Text(t)))
        },
        bluetooth_report(removed, now) matches Some(r) && {
            &&& r.kind == "bluetooth.device.removed"@
            &&& r.source == Source::Bluetooth && r.timestamp == now
            &&& r.payload.get("path"@) == Some(Json::Text(path))
            &&& r.payload.get("address"@) == Some(Json::Text(path_address(path)))
        },
{
    lemma_bus_words_differ();
    reveal_strlit("path");
    reveal_strlit("address");
    reveal_strlit("name");
    reveal_strlit("properties");
    assert("path"@.len() == 4);
    assert("address"@.len() == 7);
    assert("name"@.len() == 4);
    assert("properties"@.len() == 10);
    assert("path"@[0] != "name"@[0]);
}

/// Messages about anything but devices of the Bluetooth service are passed over.
pub proof fn law_other_messages_are_passed_over(m: BusView, now: u64)
    requires
        ({
            ||| m.member != Some("PropertiesChanged"@) && m.member != Some("InterfacesAdded"@)
                && m.member != Some("InterfacesRemoved"@)
            ||| m.body matches BodyView::Changed(iface, _, _) && (iface != "org.bluez.Device1"@
                || !text::has_prefix(m.path_or_empty(), "/org/bluez/"@))
            ||| m.body matches BodyView::Added(path, interfaces) && (!text::has_prefix(
                path,
                "/org/bluez/"@,
            ) || interfaces.get("org.bluez.Device1"@) is None)
            ||| m.body matches BodyView::Removed(path, lost) && (!text::has_prefix(
                path,
                "/org/bluez/"@,
            ) || !lost.contains("org.bluez.Device1"@))
        }),
    ensures
        bluetooth_report(m, now) is None,
{
}

/// A device that is connected at the start is reported, with its path, its address
/// and its name, and one that is not is passed over; what is reported is listed as
/// connected in the state.
pub proof fn law_connected_devices_are_found(
    n: normalizer::NormalizerView,
    path: Seq<char>,
    props: Json,
    now: u64,
    s: RuntimeView,
)
    ensures
        props.get("Connected"@) != Some(Json::Bool(true)) ==> found_event(path, props, now) is None,
        props.get("Connected"@) == Some(Json::Bool(true)) ==> (found_event(path, props, now) matches Some(r) && {
            &&& r.payload.get("path"@) == Some(Json::Text(path))
            &&& props.get("Address"@) matches Some(Json::Text(a)) ==> r.payload.get("address"@)
                == Some(Json::Text(a))
            &&& r.source == Source::Bluetooth && r.timestamp == now
            &&& normalizer::translated(n, r).len() == 1
            &&& ({
                let event = normalizer::translated(n, r)[0];
                let devices = state_engine::after_event(s, event.event, event.data).devices;
                exists|i: int| 0 <= i < devices.len() && (#[trigger] devices[i]).id == path
            })
        }),
{
    reveal_strlit("path");
    reveal_strlit("address");
    reveal_strlit("name");
    reveal_strlit("properties");
    assert("path"@.len() == 4);
    assert("address"@.len() == 7);
    assert("name"@.len() == 4);
    assert("properties"@.len() == 10);
    assert("path"@[0] != "name"@[0]);
    if props.get("Connected"@) == Some(Json::Bool(true)) {
        let r = found_event(path, props, now)->0;
        normalizer::law_bluetooth_reports_say_what_happened(n, r);
        let event = normalizer::translated(n, r)[0];
        state_engine::law_connected_device_is_listed(s, event.data, path);
        let devices = state_engine::after_event(s, event.event, event.data).devices;
        if !(exists|i: int| 0 <= i < s.devices.len() && (#[trigger] s.devices[i]).id == path) {
            assert(devices[s.devices.len() as int].id == path);
        }
    }
}

/// The address of a device is what its path has behind `dev_`, with colons.
pub proof fn law_addresses_come_from_paths(base: Seq<char>, address: Seq<char>)
    requires
        forall|i: int| 0 <= i < address.len() ==> #[trigger] address[i] != '/',
    ensures
        path_address(base + "/dev_"@ + address).len() == address.len(),
        forall|i: int|
            0 <= i < address.len() ==> (#[trigger] path_address(base + "/dev_"@ + address)[i]) == (
            if address[i] == '_' {
                ':'
            } else {
                address[i]
            }),
{
    reveal_strlit("/dev_");
    reveal_strlit("dev_");
    let leaf = "dev_"@ + address;
    assert(base + "/dev_"@ + address =~= base + seq!['/'] + leaf);
    text::lemma_split_joined(base, '/', leaf);
    assert forall|i: int| 0 <= i < leaf.len() implies #[trigger] leaf[i] != '/' by {
        if i >= 4 {
            assert(leaf[i] == address[i - 4]);
        }
    }
    text::lemma_index_from(leaf, '/', 0);
    assert(leaf.subrange(0, leaf.len() as int) =~= leaf);
    assert(text::split(leaf, '/') =~= seq![leaf]);
    assert(text::split(base + "/dev_"@ + address, '/').last() == leaf);
    assert(leaf.subrange(0, 4) =~= "dev_"@);
    assert(leaf.subrange(4, leaf.len() as int) =~= address);
}

} // verus!
