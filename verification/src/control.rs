//! What is asked of the window manager and of the Bluetooth service.

use crate::json::{Json, JsonValue};
use crate::text;
use vstd::prelude::*;

verus! {

/// The request for the focused window.
pub const ACTIVE_WINDOW: &'static str = "j/activewindow";

/// The request for the monitors.
pub const MONITORS: &'static str = "j/monitors";

/// The request for the workspaces.
pub const WORKSPACES: &'static str = "j/workspaces";

/// The request for the windows.
pub const CLIENTS: &'static str = "j/clients";

/// The request to run a command of the window manager.
pub fn dispatch_request(cmd: &str, args: &str) -> (r: String)
    ensures
        r@ == "dispatch "@ + cmd@ + " "@ + args@,
{
    text::concat(text::concat3("dispatch ", cmd, " ").as_str(), args)
}

/// The request to change a setting of the window manager.
pub fn keyword_request(key: &str, value: &str) -> (r: String)
    ensures
        r@ == "keyword "@ + key@ + " "@ + value@,
{
    text::concat(text::concat3("keyword ", key, " ").as_str(), value)
}

/// The request to evaluate an expression.
pub fn eval_request(expr: &str) -> (r: String)
    ensures
        r@ == "eval "@ + expr@,
{
    text::concat("eval ", expr)
}

/// An object of the Bluetooth service: its path and the names of its
/// interfaces.
#[derive(Debug)]
pub struct BluezObject {
    pub path: String,
    pub interfaces: Vec<String>,
}

/// The object is an adapter.
pub open spec fn is_adapter(o: BluezObject) -> bool {
    o.interfaces.deep_view().contains("org.bluez.Adapter1"@)
}

/// The path of the first adapter among the objects; an error where there is
/// none.
pub fn bluetooth_find_adapter(objects: &Vec<BluezObject>) -> (r: Result<String, String>)
    ensures
        match r {
            Ok(path) => exists|i: int|
                {
                    &&& 0 <= i < objects.len()
                    &&& is_adapter(#[trigger] objects@[i])
                    &&& path@ == objects@[i].path@
                    &&& forall|k: int| 0 <= k < i ==> !is_adapter(#[trigger] objects@[k])
                },
            Err(e) => {
                &&& e@ == "no Bluetooth adapter found"@
                &&& forall|k: int| 0 <= k < objects.len() ==> !is_adapter(#[trigger] objects@[k])
            },
        },
{
    let mut i: usize = 0;
    while i < objects.len()
        invariant
            i <= objects.len(),
            forall|k: int| 0 <= k < i ==> !is_adapter(#[trigger] objects@[k]),
        decreases objects.len() - i,
    {
        if text::list_has(&objects[i].interfaces, "org.bluez.Adapter1") {
            assert(is_adapter(objects@[i as int]));
            return Ok(objects[i].path.clone());
        }
        i += 1;
    }
    Err("no Bluetooth adapter found".to_owned())
}

/// The path of a device below its adapter.
pub fn device_path(adapter: &str, address: &str) -> (r: String)
    ensures
        r@ == adapter@ + "/dev_"@ + text::replaced(address@, ':', '_'),
{
    text::concat3(adapter, "/dev_", text::replace_char(address, ':', '_').as_str())
}

/// The method that starts or stops the search for devices.
pub fn discovery_method(enabled: bool) -> (r: &'static str)
    ensures
        r@ == (if enabled {
            "StartDiscovery"@
        } else {
            "StopDiscovery"@
        }),
{
    if enabled {
        "StartDiscovery"
    } else {
        "StopDiscovery"
    }
}

/// A Bluetooth device as Lua code sees it.
#[derive(Debug)]
pub struct BluetoothDevice {
    pub address: String,
    pub name: String,
    pub connected: bool,
    pub paired: bool,
}

/// The text that a value holds, or else that it is not known.
pub open spec fn known_text(v: Option<Json>) -> Seq<char> {
    match v {
        Some(Json::Text(s)) => s,
        _ => "unknown"@,
    }
}

fn text_in(v: Option<&JsonValue>) -> (r: String)
    ensures
        r@ == known_text(
            (match v {
                Some(v) => Some(v@),
                None => None,
            }),
        ),
{
    match v {
        Some(JsonValue::Text(s)) => s.clone(),
        _ => "unknown".to_owned(),
    }
}

/// The address, the name and whether the device is connected and paired, as its
/// properties say. One without a name goes by its alias.
pub open spec fn device_facts(props: Json) -> (Seq<char>, Seq<char>, bool, bool) {
    (
        known_text(props.get("Address"@)),
        known_text(
            if props.get("Name"@) is Some {
                props.get("Name"@)
            } else {
                props.get("Alias"@)
            },
        ),
        props.flag_or("Connected"@, false),
        props.flag_or("Paired"@, false),
    )
}

/// The device with the given properties. One without a name goes by its alias.
pub fn bluetooth_device(props: &JsonValue) -> (r: BluetoothDevice)
    ensures
        (r.address@, r.name@, r.connected, r.paired) == device_facts(props@),
        r.address@ == known_text(props@.get("Address"@)),
        r.name@ == known_text(
            if props@.get("Name"@) is Some {
                props@.get("Name"@)
            } else {
                props@.get("Alias"@)
            },
        ),
        r.connected == props@.flag_or("Connected"@, false),
        r.paired == props@.flag_or("Paired"@, false),
{
    let name = match props.get("Name") {
        Some(v) => text_in(Some(v)),
        None => text_in(props.get("Alias")),
    };
    BluetoothDevice {
        address: text_in(props.get("Address")),
        name,
        connected: props.flag_or("Connected", false),
        paired: props.flag_or("Paired", false),
    }
}

/// Each fact of a device stands among its properties under its name. What is not there
/// is unknown, or not so.
pub proof fn law_devices_are_what_their_properties_say(props: Json, text: Seq<char>, b: bool)
    ensures
        props.get("Address"@) == Some(Json::Text(text)) ==> device_facts(props).0 == text,
        props.get("Address"@) is None ==> device_facts(props).0 == "unknown"@,
        props.get("Name"@) == Some(Json::Text(text)) ==> device_facts(props).1 == text,
        props.get("Name"@) is None && props.get("Alias"@) == Some(Json::Text(text)) ==>
            device_facts(props).1 == text,
        props.get("Name"@) is None && props.get("Alias"@) is None ==>
            device_facts(props).1 == "unknown"@,
        props.get("Connected"@) == Some(Json::Bool(b)) ==> device_facts(props).2 == b,
        props.get("Connected"@) is None ==> !device_facts(props).2,
        props.get("Paired"@) == Some(Json::Bool(b)) ==> device_facts(props).3 == b,
        props.get("Paired"@) is None ==> !device_facts(props).3,
{
}

} // verus!
