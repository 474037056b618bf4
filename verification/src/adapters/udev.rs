//! What udev says of devices.

use crate::events::{AdapterSource, RawEvent, RawView, Source};
use crate::json::{self, Json, JsonValue};
use crate::normalizer;
use crate::text;
use vstd::prelude::*;

verus! {

/// Listens to udev, for the subsystems that are named.
#[derive(Debug)]
pub struct UdevAdapter {
    subsystems: Vec<String>,
}

impl UdevAdapter {
    /// The subsystems that are watched.
    pub closed spec fn watched(&self) -> Seq<Seq<char>> {
        self.subsystems.deep_view()
    }

    /// The adapter for the given subsystems.
    pub fn new(subsystems: Vec<String>) -> (r: Self)
        ensures
            r.watched() == subsystems.deep_view(),
    {
        UdevAdapter { subsystems }
    }

    /// The subsystems that are watched.
    pub fn subsystems(&self) -> (r: &Vec<String>)
        ensures
            r.deep_view() == self.watched(),
    {
        &self.subsystems
    }
}

/// A device, or an event of one, as udev describes it.
#[derive(Debug)]
pub struct UdevDevice {
    pub action: Option<String>,
    pub subsystem: Option<String>,
    pub syspath: String,
    pub devnode: Option<String>,
    pub sysname: Option<String>,
    pub properties: Vec<(String, String)>,
}

/// What the description of a device stands for.
#[verifier::ext_equal]
pub struct UdevView {
    pub action: Option<Seq<char>>,
    pub subsystem: Option<Seq<char>>,
    pub syspath: Seq<char>,
    pub devnode: Option<Seq<char>>,
    pub sysname: Option<Seq<char>>,
    pub properties: Map<Seq<char>, Seq<char>>,
}

impl DeepView for UdevDevice {
    type V = UdevView;

    open spec fn deep_view(&self) -> UdevView {
        UdevView {
            action: self.action.deep_view(),
            subsystem: self.subsystem.deep_view(),
            syspath: self.syspath@,
            devnode: self.devnode.deep_view(),
            sysname: self.sysname.deep_view(),
            properties: crate::types::named(self.properties@),
        }
    }
}

impl UdevView {
    /// The property of that name, if the device has it.
    pub open spec fn property(self, key: Seq<char>) -> Option<Seq<char>> {
        if self.properties.contains_key(key) {
            Some(self.properties[key])
        } else {
            None
        }
    }
}

/// The first of the texts that is there, or `unknown`.
pub open spec fn first_known(
    a: Option<Seq<char>>,
    b: Option<Seq<char>>,
    c: Option<Seq<char>>,
) -> Seq<char> {
    match (a, b, c) {
        (Some(s), _, _) => s,
        (None, Some(s), _) => s,
        (None, None, Some(s)) => s,
        _ => "unknown"@,
    }
}

/// The property of that name, if the device has it.
pub fn prop_str(d: &UdevDevice, key: &str) -> (r: Option<String>)
    ensures
        r.deep_view() == d.deep_view().property(key@),
{
    let pairs = &d.properties;
    let mut i: usize = 0;
    let mut found: Option<String> = None;
    assert(pairs@.take(0) =~= Seq::empty());
    while i < pairs.len()
        invariant
            i <= pairs.len(),
            pairs == &d.properties,
            match found {
                Some(v) => crate::types::named(pairs@.take(i as int)).contains_key(key@) && v@
                    == crate::types::named(pairs@.take(i as int))[key@],
                None => !crate::types::named(pairs@.take(i as int)).contains_key(key@),
            },
        decreases pairs.len() - i,
    {
        proof {
            assert(pairs@.take(i + 1).drop_last() =~= pairs@.take(i as int));
            assert(pairs@.take(i + 1).last() == pairs@[i as int]);
        }
        if text::same(pairs[i].0.as_str(), key) {
            found = Some(pairs[i].1.clone());
        }
        i += 1;
    }
    assert(pairs@.take(pairs@.len() as int) =~= pairs@);
    found
}

/// Whether the device has the property of that name with the value 1.
pub fn prop_bool(d: &UdevDevice, key: &str) -> (r: bool)
    ensures
        r == (d.deep_view().property(key@) == Some("1"@)),
{
    match prop_str(d, key) {
        Some(v) => text::same(v.as_str(), "1"),
        None => false,
    }
}

fn known_of(a: Option<String>, b: Option<String>, c: &Option<String>) -> (r: String)
    ensures
        r@ == first_known(a.deep_view(), b.deep_view(), c.deep_view()),
{
    match a {
        Some(s) => s,
        None => match b {
            Some(s) => s,
            None => match c {
                Some(s) => s.clone(),
                None => "unknown".to_owned(),
            },
        },
    }
}

/// The report on an event of a device.
pub open spec fn change_report(d: UdevView, now: u64) -> RawView {
    let flag = |k: Seq<char>| Json::Bool(d.property(k) == Some("1"@));
    let prop = |k: Seq<char>| json::text_or_null(d.property(k));
    RawView {
        source: Source::Udev,
        kind: "udev.change"@,
        payload: Json::empty().with(
            "action"@,
            Json::Text(
                match d.action {
                    Some(a) => a,
                    None => "change"@,
                },
            ),
        ).with("id"@, Json::Text(d.syspath)).with(
            "name"@,
            Json::Text(first_known(d.property("ID_MODEL"@), d.property("NAME"@), d.devnode)),
        ).with(
            "subsystem"@,
            Json::Text(
                match d.subsystem {
                    Some(s) => s,
                    None => "unknown"@,
                },
            ),
        ).with("id_input_keyboard"@, flag("ID_INPUT_KEYBOARD"@)).with(
            "id_input_mouse"@,
            flag("ID_INPUT_MOUSE"@),
        ).with("id_input_joystick"@, flag("ID_INPUT_JOYSTICK"@)).with(
            "id_input_touchpad"@,
            flag("ID_INPUT_TOUCHPAD"@),
        ).with("id_input_tablet"@, flag("ID_INPUT_TABLET"@)).with(
            "id_usb_class"@,
            prop("ID_USB_CLASS"@),
        ).with("id_usb_interfaces"@, prop("ID_USB_INTERFACES"@)).with(
            "id_vendor"@,
            prop("ID_VENDOR"@),
        ).with("id_model"@, prop("ID_MODEL"@)).with("vendor_id"@, prop("ID_VENDOR_ID"@)).with(
            "product_id"@,
            prop("ID_MODEL_ID"@),
        ),
        timestamp: now,
    }
}

/// The report on an event of a device.
pub fn build_event(d: &UdevDevice, now: u64) -> (r: RawEvent)
    ensures
        r.deep_view() == change_report(d.deep_view(), now),
{
    let action = match &d.action {
        Some(a) => a.clone(),
        None => "change".to_owned(),
    };
    let subsystem = match &d.subsystem {
        Some(s) => s.clone(),
        None => "unknown".to_owned(),
    };
    let name = known_of(prop_str(d, "ID_MODEL"), prop_str(d, "NAME"), &d.devnode);
    let payload = JsonValue::empty().with("action", JsonValue::of_text(action.as_str())).with(
        "id",
        JsonValue::of_text(d.syspath.as_str()),
    ).with("name", JsonValue::of_text(name.as_str())).with(
        "subsystem",
        JsonValue::of_text(subsystem.as_str()),
    ).with("id_input_keyboard", JsonValue::Bool(prop_bool(d, "ID_INPUT_KEYBOARD"))).with(
        "id_input_mouse",
        JsonValue::Bool(prop_bool(d, "ID_INPUT_MOUSE")),
    ).with("id_input_joystick", JsonValue::Bool(prop_bool(d, "ID_INPUT_JOYSTICK"))).with(
        "id_input_touchpad",
        JsonValue::Bool(prop_bool(d, "ID_INPUT_TOUCHPAD")),
    ).with("id_input_tablet", JsonValue::Bool(prop_bool(d, "ID_INPUT_TABLET"))).with(
        "id_usb_class",
        JsonValue::of_option(&prop_str(d, "ID_USB_CLASS")),
    ).with("id_usb_interfaces", JsonValue::of_option(&prop_str(d, "ID_USB_INTERFACES"))).with(
        "id_vendor",
        JsonValue::of_option(&prop_str(d, "ID_VENDOR")),
    ).with("id_model", JsonValue::of_option(&prop_str(d, "ID_MODEL"))).with(
        "vendor_id",
        JsonValue::of_option(&prop_str(d, "ID_VENDOR_ID")),
    ).with("product_id", JsonValue::of_option(&prop_str(d, "ID_MODEL_ID")));
    RawEvent {
        source: AdapterSource::Udev,
        kind: "udev.change".to_owned(),
        payload,
        timestamp: now,
    }
}

/// The report on a device that is there when the daemon starts.
pub open spec fn present_report(d: UdevView, now: u64) -> RawView {
    RawView {
        source: Source::Udev,
        kind: "udev.enumerate"@,
        payload: Json::empty().with("action"@, Json::Text("add"@)).with(
            "id"@,
            Json::Text(d.syspath),
        ).with(
            "name"@,
            Json::Text(first_known(d.property("ID_MODEL"@), d.property("NAME"@), d.sysname)),
        ).with(
            "subsystem"@,
            Json::Text(
                match d.subsystem {
                    Some(s) => s,
                    None => "unknown"@,
                },
            ),
        ),
        timestamp: now,
    }
}

/// The report on a device that is there when the daemon starts.
pub fn enumerated_event(d: &UdevDevice, now: u64) -> (r: RawEvent)
    ensures
        r.deep_view() == present_report(d.deep_view(), now),
{
    let subsystem = match &d.subsystem {
        Some(s) => s.clone(),
        None => "unknown".to_owned(),
    };
    let name = known_of(prop_str(d, "ID_MODEL"), prop_str(d, "NAME"), &d.sysname);
    RawEvent {
        source: AdapterSource::Udev,
        kind: "udev.enumerate".to_owned(),
        payload: JsonValue::empty().with("action", JsonValue::of_text("add")).with(
            "id",
            JsonValue::of_text(d.syspath.as_str()),
        ).with("name", JsonValue::of_text(name.as_str())).with(
            "subsystem",
            JsonValue::of_text(subsystem.as_str()),
        ),
        timestamp: now,
    }
}

/// The reports on the devices that are there when the daemon starts, in order.
pub fn enumerate_with_udev(devices: &Vec<UdevDevice>, now: u64) -> (r: Vec<RawEvent>)
    ensures
        r.deep_view() == devices.deep_view().map_values(|d: UdevView| present_report(d, now)),
{
    let mut r: Vec<RawEvent> = Vec::new();
    let mut i: usize = 0;
    while i < devices.len()
        invariant
            i <= devices.len(),
            r.len() == i,
            forall|k: int|
                0 <= k < i ==> (#[trigger] r@[k]).deep_view() == present_report(
                    devices@[k].deep_view(),
                    now,
                ),
        decreases devices.len() - i,
    {
        r.push(enumerated_event(&devices[i], now));
        i += 1;
    }
    assert(r.deep_view() =~= devices.deep_view().map_values(|d: UdevView| present_report(d, now)));
    r
}

proof fn lemma_report_keys_differ()
    ensures
        "action"@ != "id"@,
        "action"@ != "name"@,
        "action"@ != "subsystem"@,
        "action"@ != "id_input_keyboard"@,
        "action"@ != "id_input_mouse"@,
        "action"@ != "id_input_joystick"@,
        "action"@ != "id_input_touchpad"@,
        "action"@ != "id_input_tablet"@,
        "action"@ != "id_usb_class"@,
        "action"@ != "id_usb_interfaces"@,
        "action"@ != "id_vendor"@,
        "action"@ != "id_model"@,
        "action"@ != "vendor_id"@,
        "action"@ != "product_id"@,
        "id"@ != "name"@,
        "id"@ != "subsystem"@,
        "id"@ != "id_input_keyboard"@,
        "id"@ != "id_input_mouse"@,
        "id"@ != "id_input_joystick"@,
        "id"@ != "id_input_touchpad"@,
        "id"@ != "id_input_tablet"@,
        "id"@ != "id_usb_class"@,
        "id"@ != "id_usb_interfaces"@,
        "id"@ != "id_vendor"@,
        "id"@ != "id_model"@,
        "id"@ != "vendor_id"@,
        "id"@ != "product_id"@,
        "name"@ != "subsystem"@,
        "name"@ != "id_input_keyboard"@,
        "name"@ != "id_input_mouse"@,
        "name"@ != "id_input_joystick"@,
        "name"@ != "id_input_touchpad"@,
        "name"@ != "id_input_tablet"@,
        "name"@ != "id_usb_class"@,
        "name"@ != "id_usb_interfaces"@,
        "name"@ != "id_vendor"@,
        "name"@ != "id_model"@,
        "name"@ != "vendor_id"@,
        "name"@ != "product_id"@,
        "subsystem"@ != "id_input_keyboard"@,
        "subsystem"@ != "id_input_mouse"@,
        "subsystem"@ != "id_input_joystick"@,
        "subsystem"@ != "id_input_touchpad"@,
        "subsystem"@ != "id_input_tablet"@,
        "subsystem"@ != "id_usb_class"@,
        "subsystem"@ != "id_usb_interfaces"@,
        "subsystem"@ != "id_vendor"@,
        "subsystem"@ != "id_model"@,
        "subsystem"@ != "vendor_id"@,
        "subsystem"@ != "product_id"@,
        "id_input_keyboard"@ != "id_input_mouse"@,
        "id_input_keyboard"@ != "id_input_joystick"@,
        "id_input_keyboard"@ != "id_input_touchpad"@,
        "id_input_keyboard"@ != "id_input_tablet"@,
        "id_input_keyboard"@ != "id_usb_class"@,
        "id_input_keyboard"@ != "id_usb_interfaces"@,
        "id_input_keyboard"@ != "id_vendor"@,
        "id_input_keyboard"@ != "id_model"@,
        "id_input_keyboard"@ != "vendor_id"@,
        "id_input_keyboard"@ != "product_id"@,
        "id_input_mouse"@ != "id_input_joystick"@,
        "id_input_mouse"@ != "id_input_touchpad"@,
        "id_input_mouse"@ != "id_input_tablet"@,
        "id_input_mouse"@ != "id_usb_class"@,
        "id_input_mouse"@ != "id_usb_interfaces"@,
        "id_input_mouse"@ != "id_vendor"@,
        "id_input_mouse"@ != "id_model"@,
        "id_input_mouse"@ != "vendor_id"@,
        "id_input_mouse"@ != "product_id"@,
        "id_input_joystick"@ != "id_input_touchpad"@,
        "id_input_joystick"@ != "id_input_tablet"@,
        "id_input_joystick"@ != "id_usb_class"@,
        "id_input_joystick"@ != "id_usb_interfaces"@,
        "id_input_joystick"@ != "id_vendor"@,
        "id_input_joystick"@ != "id_model"@,
        "id_input_joystick"@ != "vendor_id"@,
        "id_input_joystick"@ != "product_id"@,
        "id_input_touchpad"@ != "id_input_tablet"@,
        "id_input_touchpad"@ != "id_usb_class"@,
        "id_input_touchpad"@ != "id_usb_interfaces"@,
        "id_input_touchpad"@ != "id_vendor"@,
        "id_input_touchpad"@ != "id_model"@,
        "id_input_touchpad"@ != "vendor_id"@,
        "id_input_touchpad"@ != "product_id"@,
        "id_input_tablet"@ != "id_usb_class"@,
        "id_input_tablet"@ != "id_usb_interfaces"@,
        "id_input_tablet"@ != "id_vendor"@,
        "id_input_tablet"@ != "id_model"@,
        "id_input_tablet"@ != "vendor_id"@,
        "id_input_tablet"@ != "product_id"@,
        "id_usb_class"@ != "id_usb_interfaces"@,
        "id_usb_class"@ != "id_vendor"@,
        "id_usb_class"@ != "id_model"@,
        "id_usb_class"@ != "vendor_id"@,
        "id_usb_class"@ != "product_id"@,
        "id_usb_interfaces"@ != "id_vendor"@,
        "id_usb_interfaces"@ != "id_model"@,
        "id_usb_interfaces"@ != "vendor_id"@,
        "id_usb_interfaces"@ != "product_id"@,
        "id_vendor"@ != "id_model"@,
        "id_vendor"@ != "vendor_id"@,
        "id_vendor"@ != "product_id"@,
        "id_model"@ != "vendor_id"@,
        "id_model"@ != "product_id"@,
        "vendor_id"@ != "product_id"@,
{
    reveal_strlit("action");
    reveal_strlit("id");
    reveal_strlit("name");
    reveal_strlit("subsystem");
    reveal_strlit("id_input_keyboard");
    reveal_strlit("id_input_mouse");
    reveal_strlit("id_input_joystick");
    reveal_strlit("id_input_touchpad");
    reveal_strlit("id_input_tablet");
    reveal_strlit("id_usb_class");
    reveal_strlit("id_usb_interfaces");
    reveal_strlit("id_vendor");
    reveal_strlit("id_model");
    reveal_strlit("vendor_id");
    reveal_strlit("product_id");
    assert("action"@.len() == 6);
    assert("id"@.len() == 2);
    assert("name"@.len() == 4);
    assert("subsystem"@.len() == 9);
    assert("id_input_keyboard"@.len() == 17);
    assert("id_input_mouse"@.len() == 14);
    assert("id_input_joystick"@.len() == 17);
    assert("id_input_touchpad"@.len() == 17);
    assert("id_input_tablet"@.len() == 15);
    assert("id_usb_class"@.len() == 12);
    assert("id_usb_interfaces"@.len() == 17);
    assert("id_vendor"@.len() == 9);
    assert("id_model"@.len() == 8);
    assert("vendor_id"@.len() == 9);
    assert("product_id"@.len() == 10);
    assert("subsystem"@[0] != "id_vendor"@[0]);
    assert("subsystem"@[0] != "vendor_id"@[0]);
    assert("id_input_keyboard"@[9] != "id_input_joystick"@[9]);
    assert("id_input_keyboard"@[9] != "id_input_touchpad"@[9]);
    assert("id_input_keyboard"@[3] != "id_usb_interfaces"@[3]);
    assert("id_input_joystick"@[9] != "id_input_touchpad"@[9]);
    assert("id_input_joystick"@[3] != "id_usb_interfaces"@[3]);
    assert("id_input_touchpad"@[3] != "id_usb_interfaces"@[3]);
    assert("id_vendor"@[0] != "vendor_id"@[0]);
}

/// A report on a device tells what was done, where the device is, its subsystem, and
/// what its properties say: a text where there is one, and what kind of input device
/// it is by whether the property is `1`.
pub proof fn law_reports_tell_the_properties(d: UdevView, now: u64)
    ensures
        ({
            let r = change_report(d, now);
            let text = |key: Seq<char>|
                Some(
                    if d.properties.contains_key(key) {
                        Json::Text(d.properties[key])
                    } else {
                        Json::Null
                    },
                );
            let flag = |key: Seq<char>|
                Some(Json::Bool(d.properties.contains_key(key) && d.properties[key] == "1"@));
            &&& r.source == Source::Udev && r.timestamp == now && r.kind == "udev.change"@
            &&& d.action matches Some(a) ==> r.payload.get("action"@) == Some(Json::Text(a))
            &&& d.action is None ==> r.payload.get("action"@) == Some(Json::Text("change"@))
            &&& r.payload.get("id"@) == Some(Json::Text(d.syspath))
            &&& d.subsystem matches Some(s) ==> r.payload.get("subsystem"@) == Some(Json::Text(s))
            &&& d.subsystem is None ==> r.payload.get("subsystem"@) == Some(
                Json::Text("unknown"@),
            )
            &&& r.payload.get("id_input_keyboard"@) == flag("ID_INPUT_KEYBOARD"@)
            &&& r.payload.get("id_input_mouse"@) == flag("ID_INPUT_MOUSE"@)
            &&& r.payload.get("id_input_joystick"@) == flag("ID_INPUT_JOYSTICK"@)
            &&& r.payload.get("id_input_touchpad"@) == flag("ID_INPUT_TOUCHPAD"@)
            &&& r.payload.get("id_input_tablet"@) == flag("ID_INPUT_TABLET"@)
            &&& r.payload.get("id_usb_class"@) == text("ID_USB_CLASS"@)
            &&& r.payload.get("id_usb_interfaces"@) == text("ID_USB_INTERFACES"@)
            &&& r.payload.get("id_vendor"@) == text("ID_VENDOR"@)
            &&& r.payload.get("id_model"@) == text("ID_MODEL"@)
            &&& r.payload.get("vendor_id"@) == text("ID_VENDOR_ID"@)
            &&& r.payload.get("product_id"@) == text("ID_MODEL_ID"@)
        }),
{
    lemma_report_keys_differ();
}

/// A device goes by its model, or else by its name, or else by its node; one that is
/// found at the start by what the system calls it where it has neither. It is
/// reported as added then.
pub proof fn law_devices_go_by_what_is_known(d: UdevView, now: u64)
    ensures
        ({
            let name = change_report(d, now).payload.get("name"@);
            let start = present_report(d, now).payload.get("name"@);
            let model = d.properties.contains_key("ID_MODEL"@);
            let named = d.properties.contains_key("NAME"@);
            &&& model ==> name == Some(Json::Text(d.properties["ID_MODEL"@])) && start == name
            &&& !model && named ==> name == Some(Json::Text(d.properties["NAME"@])) && start == name
            &&& !model && !named ==> name == Some(
                match d.devnode {
                    Some(t) => Json::Text(t),
                    None => Json::Text("unknown"@),
                },
            )
            &&& !model && !named ==> start == Some(
                match d.sysname {
                    Some(t) => Json::Text(t),
                    None => Json::Text("unknown"@),
                },
            )
            &&& present_report(d, now).payload.get("action"@) == Some(Json::Text("add"@))
            &&& present_report(d, now).payload.get("id"@) == Some(Json::Text(d.syspath))
            &&& present_report(d, now).payload.get("subsystem"@) == change_report(
                d,
                now,
            ).payload.get("subsystem"@)
            &&& present_report(d, now).kind == "udev.enumerate"@
            &&& present_report(d, now).source == Source::Udev
            &&& present_report(d, now).timestamp == now
        }),
{
    lemma_report_keys_differ();
}

/// A device that is plugged in leads to `bread.device.connected`, and to
/// `bread.device.disconnected` when it is pulled out, unless another node of it was
/// just reported; the identifiers are those of its properties.
pub proof fn law_plugged_devices_reach_the_events(
    n: normalizer::NormalizerView,
    d: UdevView,
    now: u64,
)
    requires
        d.properties.contains_key("ID_MODEL"@),
        d.properties["ID_MODEL"@] != "unknown"@,
        !normalizer::udev_child(n, change_report(d, now)),
        d.action != Some("bind"@),
    ensures
        ({
            let events = normalizer::translated(n, change_report(d, now));
            &&& events.len() == 1
            &&& d.action == Some("add"@) ==> events[0].event == "bread.device.connected"@
            &&& d.action == Some("remove"@) ==> events[0].event == "bread.device.disconnected"@
            &&& events[0].data.get("id"@) == Some(Json::Text(d.syspath))
            &&& events[0].data.get("name"@) == Some(Json::Text(d.properties["ID_MODEL"@]))
            &&& d.properties.contains_key("ID_VENDOR_ID"@) ==> events[0].data.get("vendor_id"@)
                == Some(Json::Text(d.properties["ID_VENDOR_ID"@]))
            &&& d.properties.contains_key("ID_MODEL_ID"@) ==> events[0].data.get("product_id"@)
                == Some(Json::Text(d.properties["ID_MODEL_ID"@]))
        }),
{
    law_reports_tell_the_properties(d, now);
    law_devices_go_by_what_is_known(d, now);
    normalizer::law_udev_reports_say_what_happened(n, change_report(d, now));
    reveal_strlit("bind");
    reveal_strlit("change");
    reveal_strlit("add");
    reveal_strlit("remove");
    assert("bind"@.len() == 4);
    assert("change"@.len() == 6);
    assert("add"@.len() == 3);
    assert("remove"@.len() == 6);
    assert("change"@[0] != "remove"@[0]);
}

} // verus!
