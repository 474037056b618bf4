//! The power supply as UPower describes it.

use super::bus::{self, BodyView, BusBody, BusMessage, BusView};
use crate::events::{AdapterSource, RawEvent, RawView, Source};
use crate::json::{self, Json, JsonValue, Numeral};
use crate::snapshot;
use crate::text;
use vstd::prelude::*;

verus! {

/// Listens to UPower.
#[derive(Debug, Clone, Copy)]
pub struct UPowerAdapter;

impl UPowerAdapter {
    /// The adapter. Whether the bus can be reached shows only when it runs.
    pub fn new() -> (r: Result<Self, String>)
        ensures
            r == Ok::<Self, String>(UPowerAdapter),
    {
        Ok(UPowerAdapter)
    }
}

/// The unsigned number under `key`, or null where there is none.
pub open spec fn unsigned_or_null(v: Json, key: Seq<char>) -> Json {
    match v.unsigned(key) {
        Some(n) => Json::Num(Numeral::PosInt(n)),
        None => Json::Null,
    }
}

/// The integer of 64 bits under `key`, or null where there is none.
pub open spec fn integer_or_null(v: Json, key: Seq<char>) -> Json {
    match v.get(key) {
        Some(Json::Num(Numeral::PosInt(n))) => if n <= i64::MAX {
            Json::Num(Numeral::PosInt(n))
        } else {
            Json::Null
        },
        Some(Json::Num(Numeral::NegInt(n))) => snapshot::integer_json(n as int),
        _ => Json::Null,
    }
}

/// The truth value under `key`, or null where there is none.
pub open spec fn flag_or_null(v: Json, key: Seq<char>) -> Json {
    match v.flag(key) {
        Some(b) => Json::Bool(b),
        None => Json::Null,
    }
}

fn unsigned_value(v: &JsonValue, key: &str) -> (r: JsonValue)
    ensures
        r@ == unsigned_or_null(v@, key@),
{
    match v.unsigned(key) {
        Some(n) => JsonValue::of_u64(n),
        None => JsonValue::Null,
    }
}

fn integer_value(v: &JsonValue, key: &str) -> (r: JsonValue)
    ensures
        r@ == integer_or_null(v@, key@),
{
    match v.get(key) {
        Some(JsonValue::Num(n)) => match n.as_i64() {
            Some(i) => snapshot::integer_value(i),
            None => JsonValue::Null,
        },
        _ => JsonValue::Null,
    }
}

fn flag_value(v: &JsonValue, key: &str) -> (r: JsonValue)
    ensures
        r@ == flag_or_null(v@, key@),
{
    match v.flag(key) {
        Some(b) => JsonValue::Bool(b),
        None => JsonValue::Null,
    }
}

fn text_value(v: &JsonValue, key: &str) -> (r: JsonValue)
    ensures
        r@ == json::text_or_null(v@.text(key@)),
{
    JsonValue::of_option(&v.owned_text(key))
}

/// The properties of a battery under names of their own. The percentage is
/// given, since it is no integer.
pub open spec fn battery_facts(changed: Json, percentage: Json) -> Json {
    Json::empty().with("percentage"@, percentage).with(
        "state"@,
        unsigned_or_null(changed, "State"@),
    ).with("time_to_empty"@, integer_or_null(changed, "TimeToEmpty"@)).with(
        "time_to_full"@,
        integer_or_null(changed, "TimeToFull"@),
    ).with("is_present"@, flag_or_null(changed, "IsPresent"@)).with(
        "battery_type"@,
        unsigned_or_null(changed, "Type"@),
    ).with("online"@, flag_or_null(changed, "Online"@)).with(
        "native_path"@,
        json::text_or_null(changed.text("NativePath"@)),
    ).with("model"@, json::text_or_null(changed.text("Model"@))).with(
        "vendor"@,
        json::text_or_null(changed.text("Vendor"@)),
    ).with("serial"@, json::text_or_null(changed.text("Serial"@))).with(
        "update_time"@,
        unsigned_or_null(changed, "UpdateTime"@),
    )
}

/// A text, or the empty one where there is none.
pub open spec fn or_empty(s: Option<Seq<char>>) -> Seq<char> {
    match s {
        Some(s) => s,
        None => ""@,
    }
}

/// The report that a message calls for. A message about a device that does not
/// say which cannot be read.
pub open spec fn upower_report(m: BusView, percentage: Json, now: u64) -> Option<RawView> {
    let signal = RawView {
        source: Source::Power,
        kind: "power.upower.signal"@,
        payload: Json::empty().with("interface"@, Json::Text(or_empty(m.interface))).with(
            "member"@,
            Json::Text(or_empty(m.member)),
        ).with("path"@, Json::Text(or_empty(m.path))),
        timestamp: now,
    };
    if m.is("org.freedesktop.UPower"@, "DeviceAdded"@) || m.is(
        "org.freedesktop.UPower"@,
        "DeviceRemoved"@,
    ) {
        match m.body {
            BodyView::Object(device) => Some(
                RawView {
                    source: Source::Power,
                    kind: if m.member == Some("DeviceAdded"@) {
                        "power.device.added"@
                    } else {
                        "power.device.removed"@
                    },
                    payload: Json::empty().with("device_path"@, Json::Text(device)),
                    timestamp: now,
                },
            ),
            _ => None,
        }
    } else if m.is("org.freedesktop.DBus.Properties"@, "PropertiesChanged"@) {
        match m.body {
            BodyView::Changed(iface, changed, invalidated) => if iface
                == "org.freedesktop.UPower.Device"@ {
                Some(
                    RawView {
                        source: Source::Power,
                        kind: "power.device.changed"@,
                        payload: Json::empty().with("path"@, Json::Text(or_empty(m.path))).with(
                            "properties"@,
                            changed,
                        ).with("invalidated"@, snapshot::list_json::<String>(invalidated)).with(
                            "normalized"@,
                            battery_facts(changed, percentage),
                        ),
                        timestamp: now,
                    },
                )
            } else {
                Some(signal)
            },
            _ => None,
        }
    } else {
        Some(signal)
    }
}

fn facts(changed: &JsonValue, percentage: JsonValue) -> (r: JsonValue)
    ensures
        r@ == battery_facts(changed@, percentage@),
{
    JsonValue::empty().with("percentage", percentage).with(
        "state",
        unsigned_value(changed, "State"),
    ).with("time_to_empty", integer_value(changed, "TimeToEmpty")).with(
        "time_to_full",
        integer_value(changed, "TimeToFull"),
    ).with("is_present", flag_value(changed, "IsPresent")).with(
        "battery_type",
        unsigned_value(changed, "Type"),
    ).with("online", flag_value(changed, "Online")).with(
        "native_path",
        text_value(changed, "NativePath"),
    ).with("model", text_value(changed, "Model")).with(
        "vendor",
        text_value(changed, "Vendor"),
    ).with("serial", text_value(changed, "Serial")).with(
        "update_time",
        unsigned_value(changed, "UpdateTime"),
    )
}

/// The report that a message of the bus calls for, or none where the message
/// cannot be read. `percentage` is the charge that the changed properties tell,
/// as a number, or null.
pub fn parse_upower_message(m: &BusMessage, percentage: JsonValue, now: u64) -> (r: Option<RawEvent>)
    ensures
        r.deep_view() == upower_report(m.deep_view(), percentage@, now),
{
    let added = m.is_signal("org.freedesktop.UPower", "DeviceAdded");
    let removed = m.is_signal("org.freedesktop.UPower", "DeviceRemoved");
    if added || removed {
        return match &m.body {
            BusBody::Object { path } => Some(
                RawEvent {
                    source: AdapterSource::Power,
                    kind: if added {
                        "power.device.added".to_owned()
                    } else {
                        "power.device.removed".to_owned()
                    },
                    payload: JsonValue::empty().with(
                        "device_path",
                        JsonValue::of_text(path.as_str()),
                    ),
                    timestamp: now,
                },
            ),
            _ => None,
        };
    }
    let interface = bus::text_or_empty(&m.interface);
    let member = bus::text_or_empty(&m.member);
    let path = bus::text_or_empty(&m.path);
    if m.is_signal("org.freedesktop.DBus.Properties", "PropertiesChanged") {
        match &m.body {
            BusBody::Changed { iface, changed, invalidated } => {
                if text::same(iface.as_str(), "org.freedesktop.UPower.Device") {
                    let normalized = facts(changed, percentage);
                    return Some(
                        RawEvent {
                            source: AdapterSource::Power,
                            kind: "power.device.changed".to_owned(),
                            payload: JsonValue::empty().with(
                                "path",
                                JsonValue::of_text(path.as_str()),
                            ).with("properties", changed.duplicate()).with(
                                "invalidated",
                                snapshot::list_value(invalidated),
                            ).with("normalized", normalized),
                            timestamp: now,
                        },
                    );
                }
            },
            _ => {
                return None;
            },
        }
    }
    Some(
        RawEvent {
            source: AdapterSource::Power,
            kind: "power.upower.signal".to_owned(),
            payload: JsonValue::empty().with(
                "interface",
                JsonValue::of_text(interface.as_str()),
            ).with("member", JsonValue::of_text(member.as_str())).with(
                "path",
                JsonValue::of_text(path.as_str()),
            ),
            timestamp: now,
        },
    )
}

/// The report that the connection to the bus is there.
pub fn connected_event(now: u64) -> (r: RawEvent)
    ensures
        r.deep_view() == (RawView {
            source: Source::Power,
            kind: "power.upower.connected"@,
            payload: Json::empty().with("message"@, Json::Text("upower:connected"@)),
            timestamp: now,
        }),
{
    RawEvent {
        source: AdapterSource::Power,
        kind: "power.upower.connected".to_owned(),
        payload: JsonValue::empty().with("message", JsonValue::of_text("upower:connected")),
        timestamp: now,
    }
}

proof fn lemma_upower_words_differ()
    ensures
        "org.freedesktop.UPower"@ != "org.freedesktop.DBus.Properties"@,
        "org.freedesktop.UPower"@ != "DeviceAdded"@,
        "org.freedesktop.UPower"@ != "DeviceRemoved"@,
        "org.freedesktop.UPower"@ != "PropertiesChanged"@,
        "org.freedesktop.DBus.Properties"@ != "DeviceAdded"@,
        "org.freedesktop.DBus.Properties"@ != "DeviceRemoved"@,
        "org.freedesktop.DBus.Properties"@ != "PropertiesChanged"@,
        "DeviceAdded"@ != "DeviceRemoved"@,
        "DeviceAdded"@ != "PropertiesChanged"@,
        "DeviceRemoved"@ != "PropertiesChanged"@,
{
    reveal_strlit("org.freedesktop.UPower");
    reveal_strlit("org.freedesktop.DBus.Properties");
    reveal_strlit("DeviceAdded");
    reveal_strlit("DeviceRemoved");
    reveal_strlit("PropertiesChanged");
    assert("org.freedesktop.UPower"@.len() == 22);
    assert("org.freedesktop.DBus.Properties"@.len() == 31);
    assert("DeviceAdded"@.len() == 11);
    assert("DeviceRemoved"@.len() == 13);
    assert("PropertiesChanged"@.len() == 17);
}

proof fn lemma_fact_keys_differ()
    ensures
        "percentage"@ != "state"@,
        "percentage"@ != "time_to_empty"@,
        "percentage"@ != "time_to_full"@,
        "percentage"@ != "is_present"@,
        "percentage"@ != "battery_type"@,
        "percentage"@ != "online"@,
        "percentage"@ != "native_path"@,
        "percentage"@ != "model"@,
        "percentage"@ != "vendor"@,
        "percentage"@ != "serial"@,
        "percentage"@ != "update_time"@,
        "state"@ != "time_to_empty"@,
        "state"@ != "time_to_full"@,
        "state"@ != "is_present"@,
        "state"@ != "battery_type"@,
        "state"@ != "online"@,
        "state"@ != "native_path"@,
        "state"@ != "model"@,
        "state"@ != "vendor"@,
        "state"@ != "serial"@,
        "state"@ != "update_time"@,
        "time_to_empty"@ != "time_to_full"@,
        "time_to_empty"@ != "is_present"@,
        "time_to_empty"@ != "battery_type"@,
        "time_to_empty"@ != "online"@,
        "time_to_empty"@ != "native_path"@,
        "time_to_empty"@ != "model"@,
        "time_to_empty"@ != "vendor"@,
        "time_to_empty"@ != "serial"@,
        "time_to_empty"@ != "update_time"@,
        "time_to_full"@ != "is_present"@,
        "time_to_full"@ != "battery_type"@,
        "time_to_full"@ != "online"@,
        "time_to_full"@ != "native_path"@,
        "time_to_full"@ != "model"@,
        "time_to_full"@ != "vendor"@,
        "time_to_full"@ != "serial"@,
        "time_to_full"@ != "update_time"@,
        "is_present"@ != "battery_type"@,
        "is_present"@ != "online"@,
        "is_present"@ != "native_path"@,
        "is_present"@ != "model"@,
        "is_present"@ != "vendor"@,
        "is_present"@ != "serial"@,
        "is_present"@ != "update_time"@,
        "battery_type"@ != "online"@,
        "battery_type"@ != "native_path"@,
        "battery_type"@ != "model"@,
        "battery_type"@ != "vendor"@,
        "battery_type"@ != "serial"@,
        "battery_type"@ != "update_time"@,
        "online"@ != "native_path"@,
        "online"@ != "model"@,
        "online"@ != "vendor"@,
        "online"@ != "serial"@,
        "online"@ != "update_time"@,
        "native_path"@ != "model"@,
        "native_path"@ != "vendor"@,
        "native_path"@ != "serial"@,
        "native_path"@ != "update_time"@,
        "model"@ != "vendor"@,
        "model"@ != "serial"@,
        "model"@ != "update_time"@,
        "vendor"@ != "serial"@,
        "vendor"@ != "update_time"@,
        "serial"@ != "update_time"@,
{
    reveal_strlit("percentage");
    reveal_strlit("state");
    reveal_strlit("time_to_empty");
    reveal_strlit("time_to_full");
    reveal_strlit("is_present");
    reveal_strlit("battery_type");
    reveal_strlit("online");
    reveal_strlit("native_path");
    reveal_strlit("model");
    reveal_strlit("vendor");
    reveal_strlit("serial");
    reveal_strlit("update_time");
    assert("percentage"@.len() == 10);
    assert("state"@.len() == 5);
    assert("time_to_empty"@.len() == 13);
    assert("time_to_full"@.len() == 12);
    assert("is_present"@.len() == 10);
    assert("battery_type"@.len() == 12);
    assert("online"@.len() == 6);
    assert("native_path"@.len() == 11);
    assert("model"@.len() == 5);
    assert("vendor"@.len() == 6);
    assert("serial"@.len() == 6);
    assert("update_time"@.len() == 11);
    assert("percentage"@[0] != "is_present"@[0]);
    assert("state"@[0] != "model"@[0]);
    assert("time_to_full"@[0] != "battery_type"@[0]);
    assert("online"@[0] != "vendor"@[0]);
    assert("online"@[0] != "serial"@[0]);
    assert("native_path"@[0] != "update_time"@[0]);
    assert("vendor"@[0] != "serial"@[0]);
}

/// A device that the power service gets or loses is reported as `power.device.added`
/// or `power.device.removed`, under its path; a change of its properties as
/// `power.device.changed`, with the properties; any other signal as it is.
pub proof fn law_power_signals_are_reported(m: BusView, percentage: Json, now: u64)
    ensures
        m.interface == Some("org.freedesktop.UPower"@) ==> (m.body matches BodyView::Object(path)
            ==> {
            &&& m.member == Some("DeviceAdded"@) ==> (upower_report(m, percentage, now) matches Some(r)
                && r.kind == "power.device.added"@ && r.payload.get("device_path"@) == Some(
                Json::Text(path),
            ))
            &&& m.member == Some("DeviceRemoved"@) ==> (upower_report(m, percentage, now) matches Some(r)
                && r.kind == "power.device.removed"@ && r.payload.get("device_path"@) == Some(
                Json::Text(path),
            ))
        }),
        m.interface == Some("org.freedesktop.DBus.Properties"@) && m.member == Some(
            "PropertiesChanged"@,
        ) ==> (m.body matches BodyView::Changed(iface, changed, invalidated) ==> (iface
            == "org.freedesktop.UPower.Device"@ ==> (upower_report(m, percentage, now) matches Some(r)
            && {
            &&& r.kind == "power.device.changed"@
            &&& r.payload.get("properties"@) == Some(changed)
            &&& m.path matches Some(path) ==> r.payload.get("path"@) == Some(Json::Text(path))
            &&& r.payload.get("invalidated"@) matches Some(Json::Array(a)) && a.len()
                == invalidated.len() && forall|i: int|
                0 <= i < a.len() ==> (#[trigger] a[i]) == Json::Text(invalidated[i])
            &&& r.payload.get("normalized"@) == Some(battery_facts(changed, percentage))
        }))),
        m.interface != Some("org.freedesktop.UPower"@) && m.interface != Some(
            "org.freedesktop.DBus.Properties"@,
        ) ==> (upower_report(m, percentage, now) matches Some(r) && r.kind
            == "power.upower.signal"@),
        upower_report(m, percentage, now) matches Some(r) ==> r.source == Source::Power
            && r.timestamp == now,
{
    lemma_upower_words_differ();
    reveal_strlit("device_path");
    reveal_strlit("path");
    reveal_strlit("properties");
    reveal_strlit("invalidated");
    reveal_strlit("normalized");
    assert("device_path"@.len() == 11);
    assert("path"@.len() == 4);
    assert("properties"@.len() == 10);
    assert("invalidated"@.len() == 11);
    assert("normalized"@.len() == 10);
    assert("device_path"@[0] != "invalidated"@[0]);
    assert("properties"@[0] != "normalized"@[0]);
}

/// What is told of a battery is what its properties say under the names of the
/// service: numbers, truth values and texts of their kinds, and null for the others.
pub proof fn law_battery_facts_are_those_of_the_properties(changed: Json, percentage: Json)
    ensures
        ({
            let f = battery_facts(changed, percentage);
            let whole = |key: Seq<char>|
                match changed.get(key) {
                    Some(Json::Num(Numeral::PosInt(n))) => Some(Json::Num(Numeral::PosInt(n))),
                    _ => Some(Json::Null),
                };
            let flag = |key: Seq<char>|
                match changed.get(key) {
                    Some(Json::Bool(b)) => Some(Json::Bool(b)),
                    _ => Some(Json::Null),
                };
            let text = |key: Seq<char>|
                match changed.get(key) {
                    Some(Json::Text(t)) => Some(Json::Text(t)),
                    _ => Some(Json::Null),
                };
            &&& f.get("percentage"@) == Some(percentage)
            &&& f.get("state"@) == whole("State"@)
            &&& f.get("battery_type"@) == whole("Type"@)
            &&& f.get("update_time"@) == whole("UpdateTime"@)
            &&& f.get("is_present"@) == flag("IsPresent"@)
            &&& f.get("online"@) == flag("Online"@)
            &&& f.get("native_path"@) == text("NativePath"@)
            &&& f.get("model"@) == text("Model"@)
            &&& f.get("vendor"@) == text("Vendor"@)
            &&& f.get("serial"@) == text("Serial"@)
            &&& changed.get("TimeToEmpty"@) matches Some(Json::Num(Numeral::PosInt(n))) ==> (n
                <= i64::MAX ==> f.get("time_to_empty"@) == changed.get("TimeToEmpty"@))
            &&& changed.get("TimeToFull"@) matches Some(Json::Num(Numeral::PosInt(n))) ==> (n
                <= i64::MAX ==> f.get("time_to_full"@) == changed.get("TimeToFull"@))
            &&& changed.get("TimeToEmpty"@) matches Some(Json::Num(Numeral::NegInt(n))) ==> (n < 0
                ==> f.get("time_to_empty"@) == changed.get("TimeToEmpty"@))
            &&& changed.get("TimeToFull"@) matches Some(Json::Num(Numeral::NegInt(n))) ==> (n < 0
                ==> f.get("time_to_full"@) == changed.get("TimeToFull"@))
        }),
{
    lemma_fact_keys_differ();
}

/// A signal of another kind is passed on with its interface, its member and its path.
pub proof fn law_other_signals_are_passed_on(
    m: BusView,
    percentage: Json,
    now: u64,
    interface: Seq<char>,
    member: Seq<char>,
    path: Seq<char>,
)
    requires
        m.interface == Some(interface),
        m.member == Some(member),
        m.path == Some(path),
        interface != "org.freedesktop.UPower"@,
        interface != "org.freedesktop.DBus.Properties"@,
    ensures
        upower_report(m, percentage, now) matches Some(r) && r.kind == "power.upower.signal"@
            && r.payload.get("interface"@) == Some(Json::Text(interface))
            && r.payload.get("member"@) == Some(Json::Text(member))
                && r.payload.get("path"@) == Some(Json::Text(path)),
{
    reveal_strlit("interface");
    reveal_strlit("member");
    reveal_strlit("path");
    assert("interface"@.len() == 9);
    assert("member"@.len() == 6);
    assert("path"@.len() == 4);
}

} // verus!
