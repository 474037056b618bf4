//! How events and commands change the state of the desktop, and who is told.

use crate::events::BreadEvent;
use crate::json::{self, Json, JsonValue};
use crate::text;
use crate::types::{
    ConditionView, Device, DeviceRule, DeviceView, InterfaceState, MatchCondition, Monitor,
    MonitorView, NetworkView, PowerState, RuleView, RuntimeState, RuntimeView,
};
use vstd::prelude::*;

verus! {

/// The first position at or after `from` whose item satisfies `p`, or the
/// length when there is none.
pub open spec fn first_where<T>(s: Seq<T>, p: spec_fn(T) -> bool, from: int) -> int
    decreases s.len() - from,
{
    if from < 0 || from >= s.len() {
        s.len() as int
    } else if p(s[from]) {
        from
    } else {
        first_where(s, p, from + 1)
    }
}

/// Where a condition names a text, it is the given one.
pub open spec fn agrees(wanted: Option<Seq<char>>, actual: Seq<char>) -> bool {
    wanted matches Some(w) ==> actual == w
}

/// Where a condition names a truth value, it is the given one.
pub open spec fn flagged(wanted: Option<bool>, actual: bool) -> bool {
    wanted matches Some(w) ==> actual == w
}

/// The interfaces are those of a USB hub with a secondary interface.
pub open spec fn hub_interfaces(ifaces: Seq<char>) -> bool {
    &&& text::contains(ifaces, ":0900"@) || text::contains(ifaces, ":0902"@)
    &&& text::contains(ifaces, ":0e"@) || text::contains(ifaces, ":0200"@) || text::contains(
        ifaces,
        ":0100"@,
    ) || text::contains(ifaces, ":0801"@)
}

/// What conditions look at in the description of a device. The texts are in
/// lower case.
#[derive(Debug)]
pub struct DeviceFacts {
    pub vendor_id: String,
    pub product_id: String,
    pub name: String,
    pub vendor: String,
    pub keyboard: bool,
    pub mouse: bool,
    pub tablet: bool,
    pub interfaces: String,
    pub usb_class: String,
    pub subsystem: String,
}

/// What the facts on a device stand for.
#[verifier::ext_equal]
pub struct FactsView {
    pub vendor_id: Seq<char>,
    pub product_id: Seq<char>,
    pub name: Seq<char>,
    pub vendor: Seq<char>,
    pub keyboard: bool,
    pub mouse: bool,
    pub tablet: bool,
    pub interfaces: Seq<char>,
    pub usb_class: Seq<char>,
    pub subsystem: Seq<char>,
}

impl DeepView for DeviceFacts {
    type V = FactsView;

    open spec fn deep_view(&self) -> FactsView {
        FactsView {
            vendor_id: self.vendor_id@,
            product_id: self.product_id@,
            name: self.name@,
            vendor: self.vendor@,
            keyboard: self.keyboard,
            mouse: self.mouse,
            tablet: self.tablet,
            interfaces: self.interfaces@,
            usb_class: self.usb_class@,
            subsystem: self.subsystem@,
        }
    }
}

/// Everything that the condition asks for holds of the facts, where both are in
/// lower case.
pub open spec fn met(cond: ConditionView, f: FactsView) -> bool {
    &&& agrees(cond.vendor_id, f.vendor_id)
    &&& agrees(cond.product_id, f.product_id)
    &&& agrees(cond.name, f.name)
    &&& agrees(cond.vendor, f.vendor)
    &&& cond.name_contains matches Some(part) ==> text::contains(
        f.name + " "@ + f.vendor,
        part,
    )
    &&& flagged(cond.id_input_keyboard, f.keyboard)
    &&& flagged(cond.id_input_mouse, f.mouse)
    &&& flagged(cond.id_input_tablet, f.tablet)
    &&& cond.usb_hub == Some(true) ==> hub_interfaces(f.interfaces)
    &&& cond.id_usb_class matches Some(class) ==> f.usb_class == class || f.usb_class == "0x"@
        + class
    &&& agrees(cond.subsystem, f.subsystem)
}

/// The text in lower case, where there is one.
pub open spec fn lowered(s: Option<Seq<char>>) -> Option<Seq<char>> {
    match s {
        Some(s) => Some(text::lowered(s)),
        None => None,
    }
}

/// The condition with its texts in lower case.
pub open spec fn lowered_condition(cond: ConditionView) -> ConditionView {
    ConditionView {
        vendor_id: lowered(cond.vendor_id),
        product_id: lowered(cond.product_id),
        name: lowered(cond.name),
        vendor: lowered(cond.vendor),
        name_contains: lowered(cond.name_contains),
        id_usb_class: lowered(cond.id_usb_class),
        subsystem: lowered(cond.subsystem),
        ..cond
    }
}

/// The facts that `data` gives on a device. What is not there is empty or
/// false.
pub open spec fn facts_in(data: Json) -> FactsView {
    FactsView {
        vendor_id: text::lowered(data.text_or("vendor_id"@, ""@)),
        product_id: text::lowered(data.text_or("product_id"@, ""@)),
        name: text::lowered(data.text_or("name"@, ""@)),
        vendor: text::lowered(data.text_or("vendor"@, ""@)),
        keyboard: data.flag_or("id_input_keyboard"@, false),
        mouse: data.flag_or("id_input_mouse"@, false),
        tablet: data.flag_or("id_input_tablet"@, false),
        interfaces: text::lowered(data.text_or("id_usb_interfaces"@, ""@)),
        usb_class: text::lowered(data.text_or("id_usb_class"@, ""@)),
        subsystem: text::lowered(data.text_or("subsystem"@, ""@)),
    }
}

/// Everything that the condition asks for holds of the device described by
/// `data`, whatever the case of the texts.
pub open spec fn satisfied(cond: ConditionView, data: Json) -> bool {
    met(lowered_condition(cond), facts_in(data))
}

/// A rule applies when one of its conditions is satisfied.
pub open spec fn applies(rule: RuleView, data: Json) -> bool {
    exists|i: int| 0 <= i < rule.conditions.len() && satisfied(#[trigger] rule.conditions[i], data)
}

/// The name that the first rule which applies gives to the device.
pub open spec fn device_name(rules: Seq<RuleView>, data: Json) -> Seq<char> {
    let i = first_where(rules, |r: RuleView| applies(r, data), 0);
    if i < rules.len() {
        rules[i].device
    } else {
        "unknown"@
    }
}

fn text_agrees(wanted: &Option<String>, actual: &str) -> (r: bool)
    ensures
        r == agrees(wanted.deep_view(), actual@),
{
    match wanted {
        Some(w) => text::same(actual, w.as_str()),
        None => true,
    }
}

fn flag_agrees(wanted: Option<bool>, actual: bool) -> (r: bool)
    ensures
        r == flagged(wanted, actual),
{
    match wanted {
        Some(w) => actual == w,
        None => true,
    }
}

fn is_hub(ifaces: &str) -> (r: bool)
    ensures
        r == hub_interfaces(ifaces@),
{
    let has_hub = text::has(ifaces, ":0900") || text::has(ifaces, ":0902");
    let has_secondary = text::has(ifaces, ":0e") || text::has(ifaces, ":0200") || text::has(
        ifaces,
        ":0100",
    ) || text::has(ifaces, ":0801");
    has_hub && has_secondary
}

/// Whether everything that the condition asks for holds of the facts, where
/// both are in lower case.
pub fn facts_match(cond: &MatchCondition, facts: &DeviceFacts) -> (r: bool)
    ensures
        r == met(cond.deep_view(), facts.deep_view()),
{
    if !text_agrees(&cond.vendor_id, facts.vendor_id.as_str()) {
        return false;
    }
    if !text_agrees(&cond.product_id, facts.product_id.as_str()) {
        return false;
    }
    if !text_agrees(&cond.name, facts.name.as_str()) {
        return false;
    }
    if !text_agrees(&cond.vendor, facts.vendor.as_str()) {
        return false;
    }
    if let Some(part) = &cond.name_contains {
        let combined = text::concat3(facts.name.as_str(), " ", facts.vendor.as_str());
        if !text::has(combined.as_str(), part.as_str()) {
            return false;
        }
    }
    if !flag_agrees(cond.id_input_keyboard, facts.keyboard) {
        return false;
    }
    if !flag_agrees(cond.id_input_mouse, facts.mouse) {
        return false;
    }
    if !flag_agrees(cond.id_input_tablet, facts.tablet) {
        return false;
    }
    if let Some(true) = cond.usb_hub {
        if !is_hub(facts.interfaces.as_str()) {
            return false;
        }
    }
    if let Some(class) = &cond.id_usb_class {
        let prefixed = text::concat("0x", class.as_str());
        if !text::same(facts.usb_class.as_str(), class.as_str()) && !text::same(
            facts.usb_class.as_str(),
            prefixed.as_str(),
        ) {
            return false;
        }
    }
    text_agrees(&cond.subsystem, facts.subsystem.as_str())
}

fn lower(s: &Option<String>) -> (r: Option<String>)
    ensures
        r.deep_view() == lowered(s.deep_view()),
{
    match s {
        Some(s) => Some(text::to_lowercase(s.as_str())),
        None => None,
    }
}

fn lower_text(data: &JsonValue, key: &str) -> (r: String)
    ensures
        r@ == text::lowered(data@.text_or(key@, ""@)),
{
    text::to_lowercase(data.text_or(key, "").as_str())
}

/// Whether everything that the condition asks for holds of the device that
/// `data` describes, whatever the case of the texts.
pub fn condition_matches(cond: &MatchCondition, data: &JsonValue) -> (r: bool)
    ensures
        r == satisfied(cond.deep_view(), data@),
{
    let wanted = MatchCondition {
        vendor_id: lower(&cond.vendor_id),
        product_id: lower(&cond.product_id),
        name: lower(&cond.name),
        vendor: lower(&cond.vendor),
        name_contains: lower(&cond.name_contains),
        id_input_keyboard: cond.id_input_keyboard,
        id_input_mouse: cond.id_input_mouse,
        id_input_tablet: cond.id_input_tablet,
        usb_hub: cond.usb_hub,
        id_usb_class: lower(&cond.id_usb_class),
        subsystem: lower(&cond.subsystem),
    };
    let facts = DeviceFacts {
        vendor_id: lower_text(data, "vendor_id"),
        product_id: lower_text(data, "product_id"),
        name: lower_text(data, "name"),
        vendor: lower_text(data, "vendor"),
        keyboard: data.flag_or("id_input_keyboard", false),
        mouse: data.flag_or("id_input_mouse", false),
        tablet: data.flag_or("id_input_tablet", false),
        interfaces: lower_text(data, "id_usb_interfaces"),
        usb_class: lower_text(data, "id_usb_class"),
        subsystem: lower_text(data, "subsystem"),
    };
    assert(wanted.deep_view() == lowered_condition(cond.deep_view()));
    assert(facts.deep_view() == facts_in(data@));
    facts_match(&wanted, &facts)
}

fn rule_applies(rule: &DeviceRule, data: &JsonValue) -> (r: bool)
    ensures
        r == applies(rule.deep_view(), data@),
{
    let mut i: usize = 0;
    while i < rule.conditions.len()
        invariant
            i <= rule.conditions.len(),
            forall|j: int|
                0 <= j < i ==> !satisfied(#[trigger] rule.deep_view().conditions[j], data@),
        decreases rule.conditions.len() - i,
    {
        if condition_matches(&rule.conditions[i], data) {
            assert(satisfied(rule.deep_view().conditions[i as int], data@));
            return true;
        }
        assert(rule.deep_view().conditions[i as int] == rule.conditions@[i as int].deep_view());
        i += 1;
    }
    false
}

/// The name that the rules give to the device that `data` describes.
pub fn resolve_device(rules: &Vec<DeviceRule>, data: &JsonValue) -> (r: String)
    ensures
        r@ == device_name(rules.deep_view(), data@),
{
    let ghost p = |r: RuleView| applies(r, data@);
    let mut i: usize = 0;
    while i < rules.len()
        invariant
            i <= rules.len(),
            p == (|r: RuleView| applies(r, data@)),
            first_where(rules.deep_view(), p, 0) == first_where(rules.deep_view(), p, i as int),
        decreases rules.len() - i,
    {
        assert(rules.deep_view()[i as int] == rules@[i as int].deep_view());
        if rule_applies(&rules[i], data) {
            return rules[i].device.clone();
        }
        i += 1;
    }
    "unknown".to_owned()
}

/// The monitors after one of that name was plugged in.
pub open spec fn plug_monitor(
    monitors: Seq<MonitorView>,
    name: Seq<char>,
    data: Json,
) -> Seq<MonitorView> {
    let i = first_where(monitors, |m: MonitorView| m.name == name, 0);
    if i < monitors.len() {
        monitors.update(i, MonitorView { connected: true, ..monitors[i] })
    } else {
        monitors.push(
            MonitorView {
                name,
                connected: true,
                resolution: data.text("resolution"@),
                position: data.text("position"@),
            },
        )
    }
}

/// The monitors after one of that name was unplugged: it stays known.
pub open spec fn unplug_monitor(monitors: Seq<MonitorView>, name: Seq<char>) -> Seq<MonitorView> {
    let i = first_where(monitors, |m: MonitorView| m.name == name, 0);
    if i < monitors.len() {
        monitors.update(i, MonitorView { connected: false, ..monitors[i] })
    } else {
        monitors
    }
}

/// The id of the device that `data` describes.
pub open spec fn device_id(data: Json) -> Seq<char> {
    data.text_or("id"@, "unknown"@)
}

/// The device that `data` describes.
pub open spec fn described_device(data: Json) -> DeviceView {
    DeviceView {
        id: device_id(data),
        name: data.text_or("name"@, "unknown"@),
        device: data.text_or("device"@, "unknown"@),
        subsystem: data.text_or("subsystem"@, "unknown"@),
        vendor_id: data.text("vendor_id"@),
        product_id: data.text("product_id"@),
    }
}

/// A device with that id is among the connected ones.
pub open spec fn is_connected(devices: Seq<DeviceView>, id: Seq<char>) -> bool {
    exists|i: int| 0 <= i < devices.len() && (#[trigger] devices[i]).id == id
}

/// The devices after one was connected; one that is there already stays as it is.
pub open spec fn connect_device(devices: Seq<DeviceView>, data: Json) -> Seq<DeviceView> {
    if is_connected(devices, device_id(data)) {
        devices
    } else {
        devices.push(described_device(data))
    }
}

/// The device has another id.
pub open spec fn other_than(id: Seq<char>) -> spec_fn(DeviceView) -> bool {
    |d: DeviceView| d.id != id
}

/// The devices after every one with that id was disconnected.
pub open spec fn disconnect_device(devices: Seq<DeviceView>, data: Json) -> Seq<DeviceView> {
    devices.filter(other_than(device_id(data)))
}

/// The network after a report. The interfaces are replaced as a whole.
pub open spec fn network_after(network: NetworkView, data: Json) -> NetworkView {
    NetworkView {
        online: data.flag_or("online"@, network.online),
        interfaces: match data.get("interfaces"@) {
            Some(Json::Object(m)) => m.map_values(|v: Json| v.flag_or("up"@, false)),
            _ => network.interfaces,
        },
    }
}

/// The power supply after a report. The charge is at most a hundred percent,
/// and low from twenty percent down.
pub open spec fn power_after(power: PowerState, data: Json) -> PowerState {
    let ac = data.flag_or("ac_connected"@, power.ac_connected);
    match data.unsigned("battery_percent"@) {
        Some(n) => PowerState {
            ac_connected: ac,
            battery_percent: Some(
                if n > 100 {
                    100u8
                } else {
                    n as u8
                },
            ),
            battery_low: n <= 20,
        },
        None => PowerState { ac_connected: ac, ..power },
    }
}

/// The first of two values that is there.
pub open spec fn first_of(a: Option<Json>, b: Option<Json>) -> Option<Json> {
    if a is Some {
        a
    } else {
        b
    }
}

/// The text that a value is, if it is one.
pub open spec fn as_text(v: Option<Json>) -> Option<Seq<char>> {
    match v {
        Some(Json::Text(s)) => Some(s),
        _ => None,
    }
}

/// Events of that name report the power supply.
pub open spec fn is_power_event(name: Seq<char>) -> bool {
    ||| name == "bread.power.changed"@
    ||| name == "bread.power.ac.connected"@
    ||| name == "bread.power.ac.disconnected"@
    ||| name == "bread.power.battery.low"@
    ||| name == "bread.power.battery.very_low"@
    ||| name == "bread.power.battery.critical"@
    ||| name == "bread.power.battery.full"@
}

/// The state after an event of the given name and data.
pub open spec fn after_event(s: RuntimeView, name: Seq<char>, data: Json) -> RuntimeView {
    if name == "bread.monitor.connected"@ {
        match data.text("name"@) {
            Some(m) => RuntimeView { monitors: plug_monitor(s.monitors, m, data), ..s },
            None => s,
        }
    } else if name == "bread.monitor.disconnected"@ {
        match data.text("name"@) {
            Some(m) => RuntimeView { monitors: unplug_monitor(s.monitors, m), ..s },
            None => s,
        }
    } else if name == "bread.workspace.changed"@ {
        RuntimeView {
            active_workspace: as_text(first_of(data.get("workspace"@), data.get("id"@))),
            ..s
        }
    } else if name == "bread.window.focus.changed"@ || name == "bread.window.focused"@ {
        RuntimeView {
            active_window: as_text(
                first_of(
                    first_of(data.get("window"@), data.get("class"@)),
                    data.get("address"@),
                ),
            ),
            ..s
        }
    } else if name == "bread.device.connected"@ {
        RuntimeView { devices: connect_device(s.devices, data), ..s }
    } else if name == "bread.device.disconnected"@ {
        RuntimeView { devices: disconnect_device(s.devices, data), ..s }
    } else if name == "bread.network.connected"@ || name == "bread.network.disconnected"@ {
        RuntimeView { network: network_after(s.network, data), ..s }
    } else if is_power_event(name) {
        RuntimeView { power: power_after(s.power, data), ..s }
    } else if name == "bread.profile.activated"@ {
        match data.text("name"@) {
            Some(p) => RuntimeView { profile: s.profile.activate(p), ..s },
            None => s,
        }
    } else {
        s
    }
}

fn monitor_index(monitors: &Vec<Monitor>, name: &str) -> (r: usize)
    ensures
        r == first_where(monitors.deep_view(), |m: MonitorView| m.name == name@, 0),
        r <= monitors.len(),
{
    let ghost p = |m: MonitorView| m.name == name@;
    let mut i: usize = 0;
    while i < monitors.len()
        invariant
            i <= monitors.len(),
            p == (|m: MonitorView| m.name == name@),
            first_where(monitors.deep_view(), p, 0) == first_where(
                monitors.deep_view(),
                p,
                i as int,
            ),
        decreases monitors.len() - i,
    {
        assert(monitors.deep_view()[i as int] == monitors@[i as int].deep_view());
        if text::same(monitors[i].name.as_str(), name) {
            return i;
        }
        i += 1;
    }
    i
}

fn connect_monitor(monitors: &mut Vec<Monitor>, name: &str, data: &JsonValue)
    ensures
        final(monitors).deep_view() == plug_monitor(old(monitors).deep_view(), name@, data@),
{
    let i: usize = monitor_index(monitors, name);
    let ghost before = monitors.deep_view();
    if i < monitors.len() {
        monitors[i].connected = true;
        assert(monitors.deep_view() =~= before.update(
            i as int,
            MonitorView { connected: true, ..before[i as int] },
        ));
    } else {
        let m = Monitor {
            name: name.to_owned(),
            connected: true,
            resolution: data.owned_text("resolution"),
            position: data.owned_text("position"),
        };
        let ghost view = m.deep_view();
        monitors.push(m);
        assert(monitors.deep_view() =~= before.push(view));
    }
}

fn disconnect_monitor(monitors: &mut Vec<Monitor>, name: &str)
    ensures
        final(monitors).deep_view() == unplug_monitor(old(monitors).deep_view(), name@),
{
    let i: usize = monitor_index(monitors, name);
    let ghost before = monitors.deep_view();
    if i < monitors.len() {
        monitors[i].connected = false;
        assert(monitors.deep_view() =~= before.update(
            i as int,
            MonitorView { connected: false, ..before[i as int] },
        ));
    }
}

fn drop_devices(devices: &mut Vec<Device>, id: &str)
    ensures
        final(devices).deep_view() == old(devices).deep_view().filter(other_than(id@)),
{
    let ghost all = devices.deep_view();
    let ghost p = other_than(id@);
    let mut rest: Vec<Device> = Vec::new();
    let mut kept: Vec<Device> = Vec::new();
    std::mem::swap(&mut rest, devices);
    while rest.len() > 0
        invariant
            p == other_than(id@),
            rest.deep_view().filter(p) + kept.deep_view().reverse() == all.filter(p),
        decreases rest.len(),
    {
        reveal(Seq::filter);
        let ghost whole = rest.deep_view();
        let ghost kept_before = kept.deep_view();
        if let Some(d) = rest.pop() {
            assert(rest.deep_view() =~= whole.drop_last());
            assert(whole.last() == d.deep_view());
            if !text::same(d.id.as_str(), id) {
                let ghost view = d.deep_view();
                kept.push(d);
                assert(kept.deep_view() =~= kept_before.push(view));
                assert(whole.drop_last().filter(p).push(view) + kept_before.reverse()
                    =~= whole.drop_last().filter(p) + kept_before.push(view).reverse());
            }
        }
    }
    reveal(Seq::filter);
    assert(kept.deep_view().reverse() =~= all.filter(p));
    while kept.len() > 0
        invariant
            devices.deep_view() + kept.deep_view().reverse() == all.filter(p),
        decreases kept.len(),
    {
        let ghost done = devices.deep_view();
        let ghost whole = kept.deep_view();
        if let Some(d) = kept.pop() {
            let ghost view = d.deep_view();
            devices.push(d);
            assert(kept.deep_view() =~= whole.drop_last());
            assert(devices.deep_view() =~= done.push(view));
            assert(done.push(view) + whole.drop_last().reverse() =~= done + whole.reverse());
        }
    }
    assert(devices.deep_view() =~= all.filter(p));
}

/// Adds the device that `data` describes to the connected ones, or removes it.
pub fn apply_device_change(state: &mut RuntimeState, data: &JsonValue, connected: bool)
    ensures
        final(state)@ == (RuntimeView {
            devices: if connected {
                connect_device(old(state)@.devices, data@)
            } else {
                disconnect_device(old(state)@.devices, data@)
            },
            ..old(state)@
        }),
{
    let id = data.text_or("id", "unknown");
    if connected {
        let mut i: usize = 0;
        while i < state.devices.connected.len()
            invariant
                i <= state.devices.connected.len(),
                connected,
                *state == *old(state),
                id@ == device_id(data@),
                forall|j: int| 0 <= j < i ==> (#[trigger] state@.devices[j]).id != id@,
            decreases state.devices.connected.len() - i,
        {
            assert(state@.devices[i as int] == state.devices.connected@[i as int].deep_view());
            if state.devices.connected[i].id.eq(&id) {
                assert(is_connected(state@.devices, id@));
                return;
            }
            i += 1;
        }
        let device = Device {
            id,
            name: data.text_or("name", "unknown"),
            device: data.text_or("device", "unknown"),
            subsystem: data.text_or("subsystem", "unknown"),
            vendor_id: data.owned_text("vendor_id"),
            product_id: data.owned_text("product_id"),
        };
        let ghost view = device.deep_view();
        state.devices.connected.push(device);
        assert(state@.devices =~= old(state)@.devices.push(view));
    } else {
        drop_devices(&mut state.devices.connected, id.as_str());
    }
}

fn interface_states(fields: &Vec<(String, JsonValue)>) -> (r: Vec<(String, InterfaceState)>)
    ensures
        crate::types::named(r@) == json::field_models(fields@).map_values(
            |v: Json| v.flag_or("up"@, false),
        ),
{
    let ghost up = |v: Json| v.flag_or("up"@, false);
    let mut r: Vec<(String, InterfaceState)> = Vec::new();
    let mut i: usize = 0;
    assert(json::field_models(fields@.take(0)).map_values(up) =~= Map::empty());
    while i < fields.len()
        invariant
            i <= fields.len(),
            up == (|v: Json| v.flag_or("up"@, false)),
            crate::types::named(r@) == json::field_models(fields@.take(i as int)).map_values(up),
        decreases fields.len() - i,
    {
        let ghost before = r@;
        let state = InterfaceState { up: fields[i].1.flag_or("up", false) };
        r.push((fields[i].0.clone(), state));
        i += 1;
        proof {
            let t = fields@.take(i as int);
            assert(t.drop_last() =~= fields@.take(i - 1));
            assert(r@.drop_last() =~= before);
            assert(json::field_models(t).map_values(up) =~= json::field_models(
                t.drop_last(),
            ).map_values(up).insert(t.last().0@, up(json::model(t.last().1))));
        }
    }
    assert(fields@.take(fields@.len() as int) =~= fields@);
    r
}

fn text_of_first(a: Option<&JsonValue>, b: Option<&JsonValue>) -> (r: Option<String>)
    ensures
        r.deep_view() == as_text(first_of(a.deep_view(), b.deep_view())),
{
    let v = if a.is_some() {
        a
    } else {
        b
    };
    match v {
        Some(v) => match v.as_str() {
            Some(s) => Some(s.to_owned()),
            None => None,
        },
        None => None,
    }
}

fn reports_power(name: &str) -> (r: bool)
    ensures
        r == is_power_event(name@),
{
    text::same(name, "bread.power.changed") || text::same(name, "bread.power.ac.connected")
        || text::same(name, "bread.power.ac.disconnected") || text::same(
        name,
        "bread.power.battery.low",
    ) || text::same(name, "bread.power.battery.very_low") || text::same(
        name,
        "bread.power.battery.critical",
    ) || text::same(name, "bread.power.battery.full")
}

/// Brings the state up to date with an event.
pub fn apply_event_to_state(state: &mut RuntimeState, event: &BreadEvent)
    ensures
        final(state)@ == after_event(old(state)@, event.event@, event.data@),
{
    let name = event.event.as_str();
    let data = &event.data;
    if text::same(name, "bread.monitor.connected") {
        if let Some(monitor) = data.text("name") {
            connect_monitor(&mut state.monitors, monitor, data);
        }
    } else if text::same(name, "bread.monitor.disconnected") {
        if let Some(monitor) = data.text("name") {
            disconnect_monitor(&mut state.monitors, monitor);
        }
    } else if text::same(name, "bread.workspace.changed") {
        state.active_workspace = text_of_first(data.get("workspace"), data.get("id"));
    } else if text::same(name, "bread.window.focus.changed") || text::same(
        name,
        "bread.window.focused",
    ) {
        let window = data.get("window");
        let first = if window.is_some() {
            window
        } else {
            data.get("class")
        };
        state.active_window = text_of_first(first, data.get("address"));
    } else if text::same(name, "bread.device.connected") {
        apply_device_change(state, data, true);
    } else if text::same(name, "bread.device.disconnected") {
        apply_device_change(state, data, false);
    } else if text::same(name, "bread.network.connected") || text::same(
        name,
        "bread.network.disconnected",
    ) {
        state.network.online = data.flag_or("online", state.network.online);
        if let Some(JsonValue::Object(fields)) = data.get("interfaces") {
            state.network.interfaces = interface_states(fields);
        }
    } else if reports_power(name) {
        state.power.ac_connected = data.flag_or("ac_connected", state.power.ac_connected);
        if let Some(battery) = data.unsigned("battery_percent") {
            state.power.battery_percent = Some(
                if battery > 100 {
                    100u8
                } else {
                    battery as u8
                },
            );
            state.power.battery_low = battery <= 20;
        }
    } else if text::same(name, "bread.profile.activated") {
        if let Some(profile) = data.text("name") {
            state.profile.activate(profile);
        }
    }
}

/// `first_where` names the first item that satisfies the condition.
pub proof fn lemma_first_where<T>(s: Seq<T>, p: spec_fn(T) -> bool, from: int)
    requires
        0 <= from <= s.len(),
    ensures
        from <= first_where(s, p, from) <= s.len(),
        first_where(s, p, from) < s.len() ==> p(s[first_where(s, p, from)]),
        forall|i: int| from <= i < first_where(s, p, from) ==> !p(#[trigger] s[i]),
    decreases s.len() - from,
{
    if from < s.len() && !p(s[from]) {
        lemma_first_where(s, p, from + 1);
    }
}

/// No two connected devices share an id.
pub open spec fn unique_devices(devices: Seq<DeviceView>) -> bool {
    forall|i: int, j: int|
        0 <= i < j < devices.len() ==> (#[trigger] devices[i]).id != (#[trigger] devices[j]).id
}

/// No two monitors share a name.
pub open spec fn unique_monitors(monitors: Seq<MonitorView>) -> bool {
    forall|i: int, j: int|
        0 <= i < j < monitors.len() ==> (#[trigger] monitors[i]).name != (
        #[trigger] monitors[j]).name
}

/// What holds of every state that events lead to: devices and monitors are
/// listed once, and the charge is at most a hundred percent.
pub open spec fn sound(s: RuntimeView) -> bool {
    &&& unique_devices(s.devices)
    &&& unique_monitors(s.monitors)
    &&& s.power.battery_percent matches Some(n) ==> n <= 100
}

/// What one condition provides, or else the other.
pub open spec fn provided<T>(a: Option<T>, b: Option<T>) -> Option<T> {
    if a is Some {
        a
    } else {
        b
    }
}

/// The condition that provides the fields of both.
pub open spec fn joint(a: ConditionView, b: ConditionView) -> ConditionView {
    ConditionView {
        vendor_id: provided(a.vendor_id, b.vendor_id),
        product_id: provided(a.product_id, b.product_id),
        name: provided(a.name, b.name),
        vendor: provided(a.vendor, b.vendor),
        name_contains: provided(a.name_contains, b.name_contains),
        id_input_keyboard: provided(a.id_input_keyboard, b.id_input_keyboard),
        id_input_mouse: provided(a.id_input_mouse, b.id_input_mouse),
        id_input_tablet: provided(a.id_input_tablet, b.id_input_tablet),
        usb_hub: provided(a.usb_hub, b.usb_hub),
        id_usb_class: provided(a.id_usb_class, b.id_usb_class),
        subsystem: provided(a.subsystem, b.subsystem),
    }
}

/// No field is provided by both conditions.
pub open spec fn disjoint(a: ConditionView, b: ConditionView) -> bool {
    &&& a.vendor_id is None || b.vendor_id is None
    &&& a.product_id is None || b.product_id is None
    &&& a.name is None || b.name is None
    &&& a.vendor is None || b.vendor is None
    &&& a.name_contains is None || b.name_contains is None
    &&& a.id_input_keyboard is None || b.id_input_keyboard is None
    &&& a.id_input_mouse is None || b.id_input_mouse is None
    &&& a.id_input_tablet is None || b.id_input_tablet is None
    &&& a.usb_hub is None || b.usb_hub is None
    &&& a.id_usb_class is None || b.id_usb_class is None
    &&& a.subsystem is None || b.subsystem is None
}

/// A condition whose fields are split over two others is satisfied exactly when
/// both of them are.
pub proof fn law_conditions_split(a: ConditionView, b: ConditionView, data: Json)
    requires
        disjoint(a, b),
    ensures
        satisfied(joint(a, b), data) <==> satisfied(a, data) && satisfied(b, data),
{
}

/// The condition that provides no field.
pub open spec fn no_condition() -> ConditionView {
    ConditionView {
        vendor_id: None,
        product_id: None,
        name: None,
        vendor: None,
        name_contains: None,
        id_input_keyboard: None,
        id_input_mouse: None,
        id_input_tablet: None,
        usb_hub: None,
        id_usb_class: None,
        subsystem: None,
    }
}

/// A condition that provides no field is satisfied by every device.
pub proof fn law_empty_condition_is_satisfied(data: Json)
    ensures
        satisfied(no_condition(), data),
{
}

/// Both or neither are there, and the texts are the same but for their case.
pub open spec fn alike(a: Option<Seq<char>>, b: Option<Seq<char>>) -> bool {
    match (a, b) {
        (Some(a), Some(b)) => text::same_but_case(a, b),
        (None, None) => true,
        _ => false,
    }
}

/// The conditions are the same but for the case of their texts.
pub open spec fn alike_conditions(a: ConditionView, b: ConditionView) -> bool {
    &&& alike(a.vendor_id, b.vendor_id)
    &&& alike(a.product_id, b.product_id)
    &&& alike(a.name, b.name)
    &&& alike(a.vendor, b.vendor)
    &&& alike(a.name_contains, b.name_contains)
    &&& a.id_input_keyboard == b.id_input_keyboard
    &&& a.id_input_mouse == b.id_input_mouse
    &&& a.id_input_tablet == b.id_input_tablet
    &&& a.usb_hub == b.usb_hub
    &&& alike(a.id_usb_class, b.id_usb_class)
    &&& alike(a.subsystem, b.subsystem)
}

/// The texts under the key are the same but for their case.
pub open spec fn alike_at(a: Json, b: Json, key: Seq<char>) -> bool {
    text::same_but_case(a.text_or(key, ""@), b.text_or(key, ""@))
}

/// The descriptions are the same, as far as conditions look at them, but for the
/// case of their texts.
pub open spec fn alike_devices(a: Json, b: Json) -> bool {
    &&& alike_at(a, b, "vendor_id"@)
    &&& alike_at(a, b, "product_id"@)
    &&& alike_at(a, b, "name"@)
    &&& alike_at(a, b, "vendor"@)
    &&& a.flag_or("id_input_keyboard"@, false) == b.flag_or("id_input_keyboard"@, false)
    &&& a.flag_or("id_input_mouse"@, false) == b.flag_or("id_input_mouse"@, false)
    &&& a.flag_or("id_input_tablet"@, false) == b.flag_or("id_input_tablet"@, false)
    &&& alike_at(a, b, "id_usb_interfaces"@)
    &&& alike_at(a, b, "id_usb_class"@)
    &&& alike_at(a, b, "subsystem"@)
}

proof fn lemma_alike(a: Option<Seq<char>>, b: Option<Seq<char>>)
    requires
        alike(a, b),
    ensures
        lowered(a) == lowered(b),
{
    if a is Some {
        text::law_case_is_lost(a->0, b->0);
    }
}

proof fn lemma_alike_at(a: Json, b: Json, key: Seq<char>)
    requires
        alike_at(a, b, key),
    ensures
        text::lowered(a.text_or(key, ""@)) == text::lowered(b.text_or(key, ""@)),
{
    text::law_case_is_lost(a.text_or(key, ""@), b.text_or(key, ""@));
}

/// The case of English letters makes no difference, neither in a condition nor in
/// the description of a device.
pub proof fn law_letter_case_is_ignored(a: ConditionView, b: ConditionView, x: Json, y: Json)
    requires
        alike_conditions(a, b),
        alike_devices(x, y),
    ensures
        satisfied(a, x) == satisfied(b, y),
{
    lemma_alike(a.vendor_id, b.vendor_id);
    lemma_alike(a.product_id, b.product_id);
    lemma_alike(a.name, b.name);
    lemma_alike(a.vendor, b.vendor);
    lemma_alike(a.name_contains, b.name_contains);
    lemma_alike(a.id_usb_class, b.id_usb_class);
    lemma_alike(a.subsystem, b.subsystem);
    lemma_alike_at(x, y, "vendor_id"@);
    lemma_alike_at(x, y, "product_id"@);
    lemma_alike_at(x, y, "name"@);
    lemma_alike_at(x, y, "vendor"@);
    lemma_alike_at(x, y, "id_usb_interfaces"@);
    lemma_alike_at(x, y, "id_usb_class"@);
    lemma_alike_at(x, y, "subsystem"@);
    assert(lowered_condition(a) == lowered_condition(b));
    assert(facts_in(x) == facts_in(y));
}

/// The state at the start is sound.
pub proof fn law_initial_state_is_sound()
    ensures
        sound(RuntimeView::initial()),
{
}

/// Every event keeps the state sound.
pub proof fn law_events_keep_state_sound(s: RuntimeView, name: Seq<char>, data: Json)
    requires
        sound(s),
    ensures
        sound(after_event(s, name, data)),
{
    let after = after_event(s, name, data);
    lemma_filter_keeps_unique(s.devices, device_id(data));
    if let Some(m) = data.text("name"@) {
        let p = |k: MonitorView| k.name == m;
        lemma_first_where(s.monitors, p, 0);
        let i = first_where(s.monitors, p, 0);
        let plugged = plug_monitor(s.monitors, m, data);
        assert forall|a: int, b: int| 0 <= a < b < plugged.len() implies (#[trigger] plugged[a]).name
            != (#[trigger] plugged[b]).name by {
            if i < s.monitors.len() {
                assert(plugged[a].name == s.monitors[a].name);
                assert(plugged[b].name == s.monitors[b].name);
            } else if b == s.monitors.len() {
                assert(!p(s.monitors[a]));
            } else {
                assert(plugged[b] == s.monitors[b]);
                assert(plugged[a] == s.monitors[a]);
            }
        }
        let unplugged = unplug_monitor(s.monitors, m);
        assert forall|a: int, b: int|
            0 <= a < b < unplugged.len() implies (#[trigger] unplugged[a]).name != (
        #[trigger] unplugged[b]).name by {
            assert(unplugged[a].name == s.monitors[a].name);
            assert(unplugged[b].name == s.monitors[b].name);
        }
    }
    let connected = connect_device(s.devices, data);
    assert forall|a: int, b: int| 0 <= a < b < connected.len() implies (#[trigger] connected[a]).id
        != (#[trigger] connected[b]).id by {
        if b == s.devices.len() {
            assert(!is_connected(s.devices, device_id(data)));
            assert(connected[a] == s.devices[a]);
        } else {
            assert(connected[a] == s.devices[a]);
            assert(connected[b] == s.devices[b]);
        }
    }
}

proof fn lemma_filter_keeps_unique(devices: Seq<DeviceView>, id: Seq<char>)
    ensures
        unique_devices(devices) ==> unique_devices(devices.filter(other_than(id))),
        forall|i: int|
            0 <= i < devices.filter(other_than(id)).len() ==> (#[trigger] devices.filter(
                other_than(id),
            )[i]).id != id && devices.contains(devices.filter(other_than(id))[i]),
    decreases devices.len(),
{
    reveal(Seq::filter);
    let p = other_than(id);
    let kept = devices.filter(p);
    if devices.len() > 0 {
        let rest = devices.drop_last();
        lemma_filter_keeps_unique(rest, id);
        let kept_rest = rest.filter(p);
        assert forall|i: int| 0 <= i < kept.len() implies (#[trigger] kept[i]).id != id
            && devices.contains(kept[i]) by {
            if i < kept_rest.len() {
                assert(kept[i] == kept_rest[i]);
                let k = choose|k: int| 0 <= k < rest.len() && rest[k] == kept_rest[i];
                assert(devices[k] == kept[i]);
            } else {
                assert(kept[i] == devices[devices.len() - 1]);
            }
        }
        if unique_devices(devices) {
            assert(unique_devices(rest)) by {
                assert forall|i: int, j: int| 0 <= i < j < rest.len() implies (
                #[trigger] rest[i]).id != (#[trigger] rest[j]).id by {
                    assert(devices[i] == rest[i]);
                    assert(devices[j] == rest[j]);
                }
            }
            assert forall|i: int, j: int| 0 <= i < j < kept.len() implies (#[trigger] kept[i]).id
                != (#[trigger] kept[j]).id by {
                assert(kept[i] == kept_rest[i]);
                if j < kept_rest.len() {
                    assert(kept[j] == kept_rest[j]);
                } else {
                    let k = choose|k: int| 0 <= k < rest.len() && rest[k] == kept_rest[i];
                    assert(devices[k] == kept[i]);
                    assert(kept[j] == devices[devices.len() - 1]);
                }
            }
        }
    }
}

/// Telling of the same connected device twice changes nothing the second time.
pub proof fn law_connecting_twice(s: RuntimeView, data: Json)
    ensures
        ({
            let once = after_event(s, "bread.device.connected"@, data);
            after_event(once, "bread.device.connected"@, data) == once
        }),
{
    distinct_names();
    let once = connect_device(s.devices, data);
    if !is_connected(s.devices, device_id(data)) {
        assert(once[s.devices.len() as int].id == device_id(data));
    }
}

/// Disconnecting a device undoes connecting it, and after it no device with
/// that id is left.
pub proof fn law_disconnect_undoes_connect(s: RuntimeView, data: Json)
    requires
        !is_connected(s.devices, device_id(data)),
    ensures
        after_event(
            after_event(s, "bread.device.connected"@, data),
            "bread.device.disconnected"@,
            data,
        ) == s,
{
    distinct_names();
    reveal(Seq::filter);
    let p = other_than(device_id(data));
    let connected = connect_device(s.devices, data);
    assert(connected.drop_last() =~= s.devices);
    lemma_filter_all(s.devices, p);
}

proof fn lemma_filter_all<T>(s: Seq<T>, p: spec_fn(T) -> bool)
    requires
        forall|i: int| 0 <= i < s.len() ==> p(#[trigger] s[i]),
    ensures
        s.filter(p) == s,
    decreases s.len(),
{
    reveal(Seq::filter);
    if s.len() > 0 {
        let rest = s.drop_last();
        assert forall|i: int| 0 <= i < rest.len() implies p(#[trigger] rest[i]) by {
            assert(rest[i] == s[i]);
        }
        lemma_filter_all(rest, p);
        assert(s =~= rest.push(s.last()));
    }
}

/// After a device was disconnected, none with its id is left.
pub proof fn law_disconnected_device_is_gone(s: RuntimeView, data: Json)
    ensures
        !is_connected(
            after_event(s, "bread.device.disconnected"@, data).devices,
            device_id(data),
        ),
{
    distinct_names();
    lemma_filter_keeps_unique(s.devices, device_id(data));
}

/// A monitor that was unplugged stays known, and is as it was when it is
/// plugged in again.
pub proof fn law_replugged_monitor(s: RuntimeView, i: int, data: Json, again: Json)
    requires
        unique_monitors(s.monitors),
        0 <= i < s.monitors.len(),
        s.monitors[i].connected,
        data.text("name"@) == Some(s.monitors[i].name),
        again.text("name"@) == Some(s.monitors[i].name),
    ensures
        after_event(s, "bread.monitor.disconnected"@, data).monitors == s.monitors.update(
            i,
            (MonitorView { connected: false, ..s.monitors[i] }),
        ),
        after_event(
            after_event(s, "bread.monitor.disconnected"@, data),
            "bread.monitor.connected"@,
            again,
        ) == s,
{
    distinct_names();
    let name = s.monitors[i].name;
    let p = |m: MonitorView| m.name == name;
    lemma_first_where(s.monitors, p, 0);
    let k = first_where(s.monitors, p, 0);
    if k < i {
        assert(s.monitors[k].name != s.monitors[i].name);
    }
    assert(k == i);
    let off = unplug_monitor(s.monitors, name);
    lemma_first_where(off, p, 0);
    let m = first_where(off, p, 0);
    assert(off[i].name == name);
    if m < i {
        assert(off[m] == s.monitors[m]);
    }
    assert(m == i);
    assert(plug_monitor(off, name, again) =~= s.monitors);
}

/// Making the active profile active again changes nothing.
pub proof fn law_activating_twice(s: RuntimeView, data: Json)
    ensures
        ({
            let once = after_event(s, "bread.profile.activated"@, data);
            after_event(once, "bread.profile.activated"@, data) == once
        }),
{
    reveal_strlit("bread.profile.activated");
    reveal_strlit("bread.device.connected");
    reveal_strlit("bread.device.disconnected");
    reveal_strlit("bread.monitor.connected");
    reveal_strlit("bread.monitor.disconnected");
    reveal_strlit("bread.workspace.changed");
    reveal_strlit("bread.window.focus.changed");
    reveal_strlit("bread.window.focused");
    reveal_strlit("bread.network.connected");
    reveal_strlit("bread.network.disconnected");
    reveal_strlit("bread.power.changed");
    reveal_strlit("bread.power.ac.connected");
    reveal_strlit("bread.power.ac.disconnected");
    reveal_strlit("bread.power.battery.low");
    reveal_strlit("bread.power.battery.very_low");
    reveal_strlit("bread.power.battery.critical");
    reveal_strlit("bread.power.battery.full");
    let name = "bread.profile.activated"@;
    assert(name[6] == 'p' && name[7] == 'r');
    assert("bread.device.connected"@[6] != 'p' && "bread.device.disconnected"@[6] != 'p');
    assert("bread.monitor.connected"@[6] != 'p' && "bread.monitor.disconnected"@[6] != 'p');
    assert("bread.workspace.changed"@[6] != 'p' && "bread.window.focus.changed"@[6] != 'p');
    assert("bread.window.focused"@[6] != 'p' && "bread.network.connected"@[6] != 'p');
    assert("bread.network.disconnected"@[6] != 'p' && "bread.power.changed"@[7] != 'r');
    assert("bread.power.ac.connected"@[7] != 'r' && "bread.power.ac.disconnected"@[7] != 'r');
    assert("bread.power.battery.low"@[7] != 'r' && "bread.power.battery.very_low"@[7] != 'r');
    assert("bread.power.battery.critical"@[7] != 'r' && "bread.power.battery.full"@[7] != 'r');
}

/// Events never touch the modules, the workflows, the widgets or the list of
/// workspaces.
pub proof fn law_events_leave_modules_alone(s: RuntimeView, name: Seq<char>, data: Json)
    ensures
        after_event(s, name, data).modules == s.modules,
        after_event(s, name, data).workflows == s.workflows,
        after_event(s, name, data).widgets == s.widgets,
        after_event(s, name, data).workspaces == s.workspaces,
{
}

/// A device that is not there yet is there after it was connected, after the
/// others.
pub proof fn lemma_device_connects(s: RuntimeView, data: Json)
    requires
        !is_connected(s.devices, device_id(data)),
    ensures
        after_event(s, "bread.device.connected"@, data).devices == s.devices.push(
            described_device(data),
        ),
{
    distinct_names();
}

/// Events under a device's own name leave the state as it is.
pub proof fn lemma_named_device_events(s: RuntimeView, device: Seq<char>, verb: Seq<char>, data: Json)
    requires
        verb == "connected"@ || verb == "disconnected"@,
    ensures
        after_event(s, "bread.device."@ + device + "."@ + verb, data) == s,
{
    let name = "bread.device."@ + device + "."@ + verb;
    reveal_strlit("bread.device.");
    reveal_strlit(".");
    reveal_strlit("connected");
    reveal_strlit("disconnected");
    reveal_strlit("bread.monitor.connected");
    reveal_strlit("bread.monitor.disconnected");
    reveal_strlit("bread.workspace.changed");
    reveal_strlit("bread.window.focus.changed");
    reveal_strlit("bread.window.focused");
    reveal_strlit("bread.device.connected");
    reveal_strlit("bread.device.disconnected");
    reveal_strlit("bread.network.connected");
    reveal_strlit("bread.network.disconnected");
    reveal_strlit("bread.power.changed");
    reveal_strlit("bread.power.ac.connected");
    reveal_strlit("bread.power.ac.disconnected");
    reveal_strlit("bread.power.battery.low");
    reveal_strlit("bread.power.battery.very_low");
    reveal_strlit("bread.power.battery.critical");
    reveal_strlit("bread.power.battery.full");
    reveal_strlit("bread.profile.activated");
    assert(name[6] == 'd');
    assert("bread.monitor.connected"@[6] == 'm');
    assert("bread.monitor.disconnected"@[6] == 'm');
    assert("bread.workspace.changed"@[6] == 'w');
    assert("bread.window.focus.changed"@[6] == 'w');
    assert("bread.window.focused"@[6] == 'w');
    assert("bread.network.connected"@[6] == 'n');
    assert("bread.network.disconnected"@[6] == 'n');
    assert("bread.power.changed"@[6] == 'p');
    assert("bread.power.ac.connected"@[6] == 'p');
    assert("bread.power.ac.disconnected"@[6] == 'p');
    assert("bread.power.battery.low"@[6] == 'p');
    assert("bread.power.battery.very_low"@[6] == 'p');
    assert("bread.power.battery.critical"@[6] == 'p');
    assert("bread.power.battery.full"@[6] == 'p');
    assert("bread.profile.activated"@[6] == 'p');
    assert(name.len() >= 23);
    assert("bread.device.connected"@.len() == 22);
    assert("bread.device.disconnected"@.len() == 25);
    if name.len() == 25 {
        assert(name[15] == '.');
        assert("bread.device.disconnected"@[15] == 's');
    }
}

proof fn distinct_names()
    ensures
        "bread.device.connected"@ != "bread.monitor.connected"@,
        "bread.device.connected"@ != "bread.monitor.disconnected"@,
        "bread.device.connected"@ != "bread.workspace.changed"@,
        "bread.device.connected"@ != "bread.window.focus.changed"@,
        "bread.device.connected"@ != "bread.window.focused"@,
        "bread.device.disconnected"@ != "bread.monitor.connected"@,
        "bread.device.disconnected"@ != "bread.monitor.disconnected"@,
        "bread.device.disconnected"@ != "bread.workspace.changed"@,
        "bread.device.disconnected"@ != "bread.window.focus.changed"@,
        "bread.device.disconnected"@ != "bread.window.focused"@,
        "bread.device.disconnected"@ != "bread.device.connected"@,
        "bread.monitor.disconnected"@ != "bread.monitor.connected"@,
{
    reveal_strlit("bread.device.connected");
    reveal_strlit("bread.device.disconnected");
    reveal_strlit("bread.monitor.connected");
    reveal_strlit("bread.monitor.disconnected");
    reveal_strlit("bread.workspace.changed");
    reveal_strlit("bread.window.focus.changed");
    reveal_strlit("bread.window.focused");
    assert("bread.device.connected"@.len() == 22);
    assert("bread.device.disconnected"@.len() == 25);
    assert("bread.monitor.connected"@.len() == 23);
    assert("bread.monitor.disconnected"@.len() == 26);
    assert("bread.device.connected"@[6] == 'd');
    assert("bread.device.disconnected"@[6] == 'd');
    assert("bread.monitor.connected"@[6] == 'm');
    assert("bread.monitor.disconnected"@[6] == 'm');
    assert("bread.workspace.changed"@[6] == 'w');
    assert("bread.window.focus.changed"@[6] == 'w');
    assert("bread.window.focused"@[6] == 'w');
}

proof fn lemma_event_names_differ()
    ensures
        "bread.monitor.connected"@ != "bread.monitor.disconnected"@,
        "bread.monitor.connected"@ != "bread.workspace.changed"@,
        "bread.monitor.connected"@ != "bread.window.focus.changed"@,
        "bread.monitor.connected"@ != "bread.window.focused"@,
        "bread.monitor.connected"@ != "bread.device.connected"@,
        "bread.monitor.connected"@ != "bread.device.disconnected"@,
        "bread.monitor.connected"@ != "bread.network.connected"@,
        "bread.monitor.connected"@ != "bread.network.disconnected"@,
        "bread.monitor.connected"@ != "bread.power.changed"@,
        "bread.monitor.connected"@ != "bread.power.ac.connected"@,
        "bread.monitor.connected"@ != "bread.power.ac.disconnected"@,
        "bread.monitor.connected"@ != "bread.power.battery.low"@,
        "bread.monitor.connected"@ != "bread.power.battery.very_low"@,
        "bread.monitor.connected"@ != "bread.power.battery.critical"@,
        "bread.monitor.connected"@ != "bread.power.battery.full"@,
        "bread.monitor.connected"@ != "bread.profile.activated"@,
        "bread.monitor.disconnected"@ != "bread.workspace.changed"@,
        "bread.monitor.disconnected"@ != "bread.window.focus.changed"@,
        "bread.monitor.disconnected"@ != "bread.window.focused"@,
        "bread.monitor.disconnected"@ != "bread.device.connected"@,
        "bread.monitor.disconnected"@ != "bread.device.disconnected"@,
        "bread.monitor.disconnected"@ != "bread.network.connected"@,
        "bread.monitor.disconnected"@ != "bread.network.disconnected"@,
        "bread.monitor.disconnected"@ != "bread.power.changed"@,
        "bread.monitor.disconnected"@ != "bread.power.ac.connected"@,
        "bread.monitor.disconnected"@ != "bread.power.ac.disconnected"@,
        "bread.monitor.disconnected"@ != "bread.power.battery.low"@,
        "bread.monitor.disconnected"@ != "bread.power.battery.very_low"@,
        "bread.monitor.disconnected"@ != "bread.power.battery.critical"@,
        "bread.monitor.disconnected"@ != "bread.power.battery.full"@,
        "bread.monitor.disconnected"@ != "bread.profile.activated"@,
        "bread.workspace.changed"@ != "bread.window.focus.changed"@,
        "bread.workspace.changed"@ != "bread.window.focused"@,
        "bread.workspace.changed"@ != "bread.device.connected"@,
        "bread.workspace.changed"@ != "bread.device.disconnected"@,
        "bread.workspace.changed"@ != "bread.network.connected"@,
        "bread.workspace.changed"@ != "bread.network.disconnected"@,
        "bread.workspace.changed"@ != "bread.power.changed"@,
        "bread.workspace.changed"@ != "bread.power.ac.connected"@,
        "bread.workspace.changed"@ != "bread.power.ac.disconnected"@,
        "bread.workspace.changed"@ != "bread.power.battery.low"@,
        "bread.workspace.changed"@ != "bread.power.battery.very_low"@,
        "bread.workspace.changed"@ != "bread.power.battery.critical"@,
        "bread.workspace.changed"@ != "bread.power.battery.full"@,
        "bread.workspace.changed"@ != "bread.profile.activated"@,
        "bread.window.focus.changed"@ != "bread.window.focused"@,
        "bread.window.focus.changed"@ != "bread.device.connected"@,
        "bread.window.focus.changed"@ != "bread.device.disconnected"@,
        "bread.window.focus.changed"@ != "bread.network.connected"@,
        "bread.window.focus.changed"@ != "bread.network.disconnected"@,
        "bread.window.focus.changed"@ != "bread.power.changed"@,
        "bread.window.focus.changed"@ != "bread.power.ac.connected"@,
        "bread.window.focus.changed"@ != "bread.power.ac.disconnected"@,
        "bread.window.focus.changed"@ != "bread.power.battery.low"@,
        "bread.window.focus.changed"@ != "bread.power.battery.very_low"@,
        "bread.window.focus.changed"@ != "bread.power.battery.critical"@,
        "bread.window.focus.changed"@ != "bread.power.battery.full"@,
        "bread.window.focus.changed"@ != "bread.profile.activated"@,
        "bread.window.focused"@ != "bread.device.connected"@,
        "bread.window.focused"@ != "bread.device.disconnected"@,
        "bread.window.focused"@ != "bread.network.connected"@,
        "bread.window.focused"@ != "bread.network.disconnected"@,
        "bread.window.focused"@ != "bread.power.changed"@,
        "bread.window.focused"@ != "bread.power.ac.connected"@,
        "bread.window.focused"@ != "bread.power.ac.disconnected"@,
        "bread.window.focused"@ != "bread.power.battery.low"@,
        "bread.window.focused"@ != "bread.power.battery.very_low"@,
        "bread.window.focused"@ != "bread.power.battery.critical"@,
        "bread.window.focused"@ != "bread.power.battery.full"@,
        "bread.window.focused"@ != "bread.profile.activated"@,
        "bread.device.connected"@ != "bread.device.disconnected"@,
        "bread.device.connected"@ != "bread.network.connected"@,
        "bread.device.connected"@ != "bread.network.disconnected"@,
        "bread.device.connected"@ != "bread.power.changed"@,
        "bread.device.connected"@ != "bread.power.ac.connected"@,
        "bread.device.connected"@ != "bread.power.ac.disconnected"@,
        "bread.device.connected"@ != "bread.power.battery.low"@,
        "bread.device.connected"@ != "bread.power.battery.very_low"@,
        "bread.device.connected"@ != "bread.power.battery.critical"@,
        "bread.device.connected"@ != "bread.power.battery.full"@,
        "bread.device.connected"@ != "bread.profile.activated"@,
        "bread.device.disconnected"@ != "bread.network.connected"@,
        "bread.device.disconnected"@ != "bread.network.disconnected"@,
        "bread.device.disconnected"@ != "bread.power.changed"@,
        "bread.device.disconnected"@ != "bread.power.ac.connected"@,
        "bread.device.disconnected"@ != "bread.power.ac.disconnected"@,
        "bread.device.disconnected"@ != "bread.power.battery.low"@,
        "bread.device.disconnected"@ != "bread.power.battery.very_low"@,
        "bread.device.disconnected"@ != "bread.power.battery.critical"@,
        "bread.device.disconnected"@ != "bread.power.battery.full"@,
        "bread.device.disconnected"@ != "bread.profile.activated"@,
        "bread.network.connected"@ != "bread.network.disconnected"@,
        "bread.network.connected"@ != "bread.power.changed"@,
        "bread.network.connected"@ != "bread.power.ac.connected"@,
        "bread.network.connected"@ != "bread.power.ac.disconnected"@,
        "bread.network.connected"@ != "bread.power.battery.low"@,
        "bread.network.connected"@ != "bread.power.battery.very_low"@,
        "bread.network.connected"@ != "bread.power.battery.critical"@,
        "bread.network.connected"@ != "bread.power.battery.full"@,
        "bread.network.connected"@ != "bread.profile.activated"@,
        "bread.network.disconnected"@ != "bread.power.changed"@,
        "bread.network.disconnected"@ != "bread.power.ac.connected"@,
        "bread.network.disconnected"@ != "bread.power.ac.disconnected"@,
        "bread.network.disconnected"@ != "bread.power.battery.low"@,
        "bread.network.disconnected"@ != "bread.power.battery.very_low"@,
        "bread.network.disconnected"@ != "bread.power.battery.critical"@,
        "bread.network.disconnected"@ != "bread.power.battery.full"@,
        "bread.network.disconnected"@ != "bread.profile.activated"@,
        "bread.power.changed"@ != "bread.power.ac.connected"@,
        "bread.power.changed"@ != "bread.power.ac.disconnected"@,
        "bread.power.changed"@ != "bread.power.battery.low"@,
        "bread.power.changed"@ != "bread.power.battery.very_low"@,
        "bread.power.changed"@ != "bread.power.battery.critical"@,
        "bread.power.changed"@ != "bread.power.battery.full"@,
        "bread.power.changed"@ != "bread.profile.activated"@,
        "bread.power.ac.connected"@ != "bread.power.ac.disconnected"@,
        "bread.power.ac.connected"@ != "bread.power.battery.low"@,
        "bread.power.ac.connected"@ != "bread.power.battery.very_low"@,
        "bread.power.ac.connected"@ != "bread.power.battery.critical"@,
        "bread.power.ac.connected"@ != "bread.power.battery.full"@,
        "bread.power.ac.connected"@ != "bread.profile.activated"@,
        "bread.power.ac.disconnected"@ != "bread.power.battery.low"@,
        "bread.power.ac.disconnected"@ != "bread.power.battery.very_low"@,
        "bread.power.ac.disconnected"@ != "bread.power.battery.critical"@,
        "bread.power.ac.disconnected"@ != "bread.power.battery.full"@,
        "bread.power.ac.disconnected"@ != "bread.profile.activated"@,
        "bread.power.battery.low"@ != "bread.power.battery.very_low"@,
        "bread.power.battery.low"@ != "bread.power.battery.critical"@,
        "bread.power.battery.low"@ != "bread.power.battery.full"@,
        "bread.power.battery.low"@ != "bread.profile.activated"@,
        "bread.power.battery.very_low"@ != "bread.power.battery.critical"@,
        "bread.power.battery.very_low"@ != "bread.power.battery.full"@,
        "bread.power.battery.very_low"@ != "bread.profile.activated"@,
        "bread.power.battery.critical"@ != "bread.power.battery.full"@,
        "bread.power.battery.critical"@ != "bread.profile.activated"@,
        "bread.power.battery.full"@ != "bread.profile.activated"@,
{
    reveal_strlit("bread.monitor.connected");
    reveal_strlit("bread.monitor.disconnected");
    reveal_strlit("bread.workspace.changed");
    reveal_strlit("bread.window.focus.changed");
    reveal_strlit("bread.window.focused");
    reveal_strlit("bread.device.connected");
    reveal_strlit("bread.device.disconnected");
    reveal_strlit("bread.network.connected");
    reveal_strlit("bread.network.disconnected");
    reveal_strlit("bread.power.changed");
    reveal_strlit("bread.power.ac.connected");
    reveal_strlit("bread.power.ac.disconnected");
    reveal_strlit("bread.power.battery.low");
    reveal_strlit("bread.power.battery.very_low");
    reveal_strlit("bread.power.battery.critical");
    reveal_strlit("bread.power.battery.full");
    reveal_strlit("bread.profile.activated");
    assert("bread.monitor.connected"@.len() == 23);
    assert("bread.monitor.disconnected"@.len() == 26);
    assert("bread.workspace.changed"@.len() == 23);
    assert("bread.window.focus.changed"@.len() == 26);
    assert("bread.window.focused"@.len() == 20);
    assert("bread.device.connected"@.len() == 22);
    assert("bread.device.disconnected"@.len() == 25);
    assert("bread.network.connected"@.len() == 23);
    assert("bread.network.disconnected"@.len() == 26);
    assert("bread.power.changed"@.len() == 19);
    assert("bread.power.ac.connected"@.len() == 24);
    assert("bread.power.ac.disconnected"@.len() == 27);
    assert("bread.power.battery.low"@.len() == 23);
    assert("bread.power.battery.very_low"@.len() == 28);
    assert("bread.power.battery.critical"@.len() == 28);
    assert("bread.power.battery.full"@.len() == 24);
    assert("bread.profile.activated"@.len() == 23);
    assert("bread.monitor.connected"@[6] != "bread.workspace.changed"@[6]);
    assert("bread.monitor.connected"@[6] != "bread.network.connected"@[6]);
    assert("bread.monitor.connected"@[6] != "bread.power.battery.low"@[6]);
    assert("bread.monitor.connected"@[6] != "bread.profile.activated"@[6]);
    assert("bread.monitor.disconnected"@[6] != "bread.window.focus.changed"@[6]);
    assert("bread.monitor.disconnected"@[6] != "bread.network.disconnected"@[6]);
    assert("bread.workspace.changed"@[6] != "bread.network.connected"@[6]);
    assert("bread.workspace.changed"@[6] != "bread.power.battery.low"@[6]);
    assert("bread.workspace.changed"@[6] != "bread.profile.activated"@[6]);
    assert("bread.window.focus.changed"@[6] != "bread.network.disconnected"@[6]);
    assert("bread.network.connected"@[6] != "bread.power.battery.low"@[6]);
    assert("bread.network.connected"@[6] != "bread.profile.activated"@[6]);
    assert("bread.power.ac.connected"@[12] != "bread.power.battery.full"@[12]);
    assert("bread.power.battery.low"@[7] != "bread.profile.activated"@[7]);
    assert("bread.power.battery.very_low"@[20] != "bread.power.battery.critical"@[20]);
}

/// What every event about the power supply tells is what the state holds after
/// it: whether the charger is in, the charge of at most a hundred percent, and
/// that it is low from twenty percent down. What it does not tell stays.
pub proof fn law_power_events_are_taken_over(s: RuntimeView, name: Seq<char>, data: Json)
    requires
        name == "bread.power.changed"@
            || name == "bread.power.ac.connected"@
            || name == "bread.power.ac.disconnected"@
            || name == "bread.power.battery.low"@
            || name == "bread.power.battery.very_low"@
            || name == "bread.power.battery.critical"@
            || name == "bread.power.battery.full"@,
    ensures
        data.get("ac_connected"@) matches Some(Json::Bool(ac)) ==> after_event(
            s,
            name,
            data,
        ).power.ac_connected == ac,
        !(data.get("ac_connected"@) matches Some(Json::Bool(_))) ==> after_event(
            s,
            name,
            data,
        ).power.ac_connected == s.power.ac_connected,
        data.get("battery_percent"@) matches Some(Json::Num(json::Numeral::PosInt(n))) ==> {
            &&& after_event(s, name, data).power.battery_percent matches Some(kept) && kept
                == vstd::math::min(n as int, 100)
            &&& after_event(s, name, data).power.battery_low == (n <= 20)
        },
        !(data.get("battery_percent"@) matches Some(Json::Num(json::Numeral::PosInt(_)))) ==> {
            &&& after_event(s, name, data).power.battery_percent == s.power.battery_percent
            &&& after_event(s, name, data).power.battery_low == s.power.battery_low
        },
        after_event(s, name, data) == (RuntimeView {
            power: after_event(s, name, data).power,
            ..s
        }),
{
    lemma_event_names_differ();
}

/// A monitor that is plugged in is listed as connected, once: one that was not
/// known comes last with what is told of it, and the others stay as they are.
pub proof fn law_plugged_monitor_is_connected(s: RuntimeView, data: Json, name: Seq<char>)
    requires
        data.get("name"@) == Some(Json::Text(name)),
    ensures
        ({
            let before = s.monitors;
            let after = after_event(s, "bread.monitor.connected"@, data).monitors;
            let known = exists|i: int| 0 <= i < before.len() && (#[trigger] before[i]).name == name;
            &&& known ==> after.len() == before.len()
            &&& known ==> exists|i: int|
                0 <= i < after.len() && (#[trigger] after[i]).name == name && after[i].connected
            &&& known ==> forall|i: int|
                0 <= i < after.len() ==> (#[trigger] after[i]).name == before[i].name
                    && after[i].resolution == before[i].resolution && after[i].position
                    == before[i].position && (after[i].name != name ==> after[i].connected
                    == before[i].connected)
            &&& !known ==> after == before.push(
                MonitorView {
                    name,
                    connected: true,
                    resolution: match data.get("resolution"@) {
                        Some(Json::Text(r)) => Some(r),
                        _ => None,
                    },
                    position: match data.get("position"@) {
                        Some(Json::Text(p)) => Some(p),
                        _ => None,
                    },
                },
            )
        }),
        after_event(s, "bread.monitor.connected"@, data) == (RuntimeView {
            monitors: after_event(s, "bread.monitor.connected"@, data).monitors,
            ..s
        }),
{
    lemma_event_names_differ();
    let p = |m: MonitorView| m.name == name;
    lemma_first_where(s.monitors, p, 0);
    let i = first_where(s.monitors, p, 0);
    let after = after_event(s, "bread.monitor.connected"@, data).monitors;
    if i < s.monitors.len() {
        assert(s.monitors[i].name == name);
        assert(after[i].name == name && after[i].connected);
    } else {
        assert forall|k: int| 0 <= k < s.monitors.len() implies (
        #[trigger] s.monitors[k]).name != name by {
            assert(!p(s.monitors[k]));
        }
    }
}

/// After a monitor was unplugged it is still listed, but none of that name that
/// comes first is connected; the others stay as they are.
pub proof fn law_unplugged_monitor_is_not_connected(s: RuntimeView, data: Json, name: Seq<char>)
    requires
        data.get("name"@) == Some(Json::Text(name)),
        unique_monitors(s.monitors),
    ensures
        ({
            let before = s.monitors;
            let after = after_event(s, "bread.monitor.disconnected"@, data).monitors;
            &&& after.len() == before.len()
            &&& forall|i: int|
                0 <= i < after.len() ==> (#[trigger] after[i]) == (MonitorView {
                    connected: before[i].connected && before[i].name != name,
                    ..before[i]
                })
        }),
        after_event(s, "bread.monitor.disconnected"@, data) == (RuntimeView {
            monitors: after_event(s, "bread.monitor.disconnected"@, data).monitors,
            ..s
        }),
{
    lemma_event_names_differ();
    let p = |m: MonitorView| m.name == name;
    lemma_first_where(s.monitors, p, 0);
    let i = first_where(s.monitors, p, 0);
    assert forall|k: int| 0 <= k < s.monitors.len() && k != i implies (
    #[trigger] s.monitors[k]).name != name by {
        if k < i {
            assert(!p(s.monitors[k]));
        } else {
            assert(s.monitors[i].name != s.monitors[k].name);
        }
    }
}

/// The active workspace is the one that the event names under `workspace`, or
/// else under `id`; where that is no text, none is known to be active.
pub proof fn law_workspace_event_sets_the_workspace(s: RuntimeView, data: Json)
    ensures
        ({
            let after = after_event(s, "bread.workspace.changed"@, data);
            &&& after == (RuntimeView { active_workspace: after.active_workspace, ..s })
            &&& data.get("workspace"@) matches Some(v) ==> after.active_workspace == (match v {
                Json::Text(w) => Some(w),
                _ => None,
            })
            &&& data.get("workspace"@) is None ==> (data.get("id"@) matches Some(v)
                ==> after.active_workspace == (match v {
                Json::Text(w) => Some(w),
                _ => None,
            }))
            &&& data.get("workspace"@) is None && data.get("id"@) is None
                ==> after.active_workspace is None
        }),
{
    lemma_event_names_differ();
}

/// The active window is the one that the event names under `window`, or else
/// under `class`, or else under `address`.
pub proof fn law_focus_event_sets_the_window(s: RuntimeView, name: Seq<char>, data: Json)
    requires
        name == "bread.window.focus.changed"@ || name == "bread.window.focused"@,
    ensures
        ({
            let after = after_event(s, name, data);
            let (w, c, a) = (data.get("window"@), data.get("class"@), data.get("address"@));
            &&& after == (RuntimeView { active_window: after.active_window, ..s })
            &&& w matches Some(Json::Text(t)) ==> after.active_window == Some(t)
            &&& w is None ==> (c matches Some(Json::Text(t)) ==> after.active_window == Some(t))
            &&& w is None && c is None ==> (a matches Some(Json::Text(t)) ==> after.active_window
                == Some(t))
            &&& w is None && c is None && a is None ==> after.active_window is None
        }),
{
    lemma_event_names_differ();
}

/// A device that was not there is listed last after it was connected, with what
/// is told of it under the keys of these names; one that was there is left alone.
pub proof fn law_connected_device_is_listed(s: RuntimeView, data: Json, id: Seq<char>)
    requires
        id == (match data.get("id"@) {
            Some(Json::Text(t)) => t,
            _ => "unknown"@,
        }),
    ensures
        ({
            let after = after_event(s, "bread.device.connected"@, data);
            let there = exists|i: int|
                0 <= i < s.devices.len() && (#[trigger] s.devices[i]).id == id;
            let told = |key: Seq<char>|
                match data.get(key) {
                    Some(Json::Text(t)) => Some(t),
                    _ => None,
                };
            let or_unknown = |key: Seq<char>|
                match told(key) {
                    Some(t) => t,
                    None => "unknown"@,
                };
            &&& there ==> after == s
            &&& !there ==> after == (RuntimeView {
                devices: s.devices.push(
                    DeviceView {
                        id,
                        name: or_unknown("name"@),
                        device: or_unknown("device"@),
                        subsystem: or_unknown("subsystem"@),
                        vendor_id: told("vendor_id"@),
                        product_id: told("product_id"@),
                    },
                ),
                ..s
            })
        }),
{
    lemma_event_names_differ();
}

/// After a device was disconnected no device with its id is listed, and every
/// other one is.
pub proof fn law_disconnected_device_leaves(s: RuntimeView, data: Json, id: Seq<char>)
    requires
        id == (match data.get("id"@) {
            Some(Json::Text(t)) => t,
            _ => "unknown"@,
        }),
    ensures
        ({
            let after = after_event(s, "bread.device.disconnected"@, data);
            &&& after == (RuntimeView { devices: after.devices, ..s })
            &&& forall|d: DeviceView| #[trigger]
                after.devices.contains(d) <==> s.devices.contains(d) && d.id != id
        }),
{
    lemma_event_names_differ();
    let p = other_than(id);
    let kept = s.devices.filter(p);
    assert forall|d: DeviceView| #[trigger] kept.contains(d) <==> s.devices.contains(d) && d.id
        != id by {
        lemma_kept(s.devices, p, d);
    }
}

/// A filtered list holds what the list holds and the condition admits.
pub proof fn lemma_kept<T>(items: Seq<T>, p: spec_fn(T) -> bool, x: T)
    ensures
        items.filter(p).contains(x) <==> items.contains(x) && p(x),
    decreases items.len(),
{
    reveal(Seq::filter);
    if items.len() > 0 {
        let rest = items.drop_last();
        lemma_kept(rest, p, x);
        let last = items.last();
        assert(items =~= rest.push(last));
        assert(items.contains(x) <==> rest.contains(x) || last == x) by {
            if rest.contains(x) {
                let i = choose|i: int| 0 <= i < rest.len() && rest[i] == x;
                assert(items[i] == x);
            }
            if last == x {
                assert(items[items.len() - 1] == x);
            }
            if items.contains(x) && last != x {
                let i = choose|i: int| 0 <= i < items.len() && items[i] == x;
                assert(rest[i] == x);
            }
        }
        let before = rest.filter(p);
        if p(last) {
            assert(before.push(last).contains(x) <==> before.contains(x) || last == x) by {
                let now = before.push(last);
                if before.contains(x) {
                    let i = choose|i: int| 0 <= i < before.len() && before[i] == x;
                    assert(now[i] == x);
                }
                assert(now[before.len() as int] == last);
                if now.contains(x) && last != x {
                    let i = choose|i: int| 0 <= i < now.len() && now[i] == x;
                    assert(before[i] == x);
                }
            }
        }
    }
}

/// A network event that says whether the machine is online is believed, and so is
/// one that lists the interfaces: exactly the listed ones are known, each as up
/// where it is told to be. What is not told stays.
pub proof fn law_network_events_are_taken_over(s: RuntimeView, name: Seq<char>, data: Json)
    requires
        name == "bread.network.connected"@ || name == "bread.network.disconnected"@,
    ensures
        ({
            let after = after_event(s, name, data);
            &&& after == (RuntimeView { network: after.network, ..s })
            &&& data.get("online"@) matches Some(Json::Bool(b)) ==> after.network.online == b
            &&& !(data.get("online"@) matches Some(Json::Bool(_))) ==> after.network.online
                == s.network.online
            &&& data.get("interfaces"@) matches Some(Json::Object(m)) ==> {
                &&& after.network.interfaces.dom() == m.dom()
                &&& forall|k: Seq<char>| #[trigger]
                    m.contains_key(k) ==> after.network.interfaces[k] == (m[k].get("up"@) == Some(
                        Json::Bool(true),
                    ))
            }
            &&& !(data.get("interfaces"@) matches Some(Json::Object(_)))
                ==> after.network.interfaces == s.network.interfaces
        }),
{
    lemma_event_names_differ();
    let after = after_event(s, name, data);
    if let Some(Json::Object(m)) = data.get("interfaces"@) {
        assert(after.network.interfaces.dom() =~= m.dom());
    }
}

/// After a profile was activated it is the active one, and the one that was active
/// before is the last of the history.
pub proof fn law_profile_event_activates(s: RuntimeView, data: Json, name: Seq<char>)
    requires
        data.get("name"@) == Some(Json::Text(name)),
    ensures
        ({
            let after = after_event(s, "bread.profile.activated"@, data);
            &&& after == (RuntimeView { profile: after.profile, ..s })
            &&& after.profile.active == name
            &&& after.profile.profiles == s.profile.profiles
            &&& s.profile.active == name ==> after.profile.history == s.profile.history
            &&& s.profile.active != name ==> after.profile.history == s.profile.history.push(
                s.profile.active,
            )
        }),
{
    lemma_event_names_differ();
}

/// Events of other names leave the state as it is, and so do those about monitors
/// and profiles that name none.
pub proof fn law_other_events_change_nothing(s: RuntimeView, name: Seq<char>, data: Json)
    requires
        ({
            ||| name != "bread.monitor.connected"@
                && name != "bread.monitor.disconnected"@
                && name != "bread.workspace.changed"@
                && name != "bread.window.focus.changed"@
                && name != "bread.window.focused"@
                && name != "bread.device.connected"@
                && name != "bread.device.disconnected"@
                && name != "bread.network.connected"@
                && name != "bread.network.disconnected"@
                && name != "bread.power.changed"@
                && name != "bread.power.ac.connected"@
                && name != "bread.power.ac.disconnected"@
                && name != "bread.power.battery.low"@
                && name != "bread.power.battery.very_low"@
                && name != "bread.power.battery.critical"@
                && name != "bread.power.battery.full"@
                && name != "bread.profile.activated"@
            ||| (name == "bread.monitor.connected"@ || name == "bread.monitor.disconnected"@ || name
                == "bread.profile.activated"@) && !(data.get("name"@) matches Some(Json::Text(_)))
        }),
    ensures
        after_event(s, name, data) == s,
{
    lemma_event_names_differ();
}

/// A condition that asks for one text looks at that text of the device: the one
/// under the key of the same name, whatever the case of the letters.
pub proof fn law_each_text_is_asked_for_under_its_own_key(data: Json, w: Seq<char>)
    ensures
        satisfied((ConditionView { vendor_id: Some(w), ..no_condition() }), data) <==> text::lowered(
            match data.get("vendor_id"@) {
                Some(Json::Text(t)) => t,
                _ => ""@,
            },
        ) == text::lowered(w),
        satisfied((ConditionView { product_id: Some(w), ..no_condition() }), data) <==> text::lowered(
            match data.get("product_id"@) {
                Some(Json::Text(t)) => t,
                _ => ""@,
            },
        ) == text::lowered(w),
        satisfied((ConditionView { name: Some(w), ..no_condition() }), data) <==> text::lowered(
            match data.get("name"@) {
                Some(Json::Text(t)) => t,
                _ => ""@,
            },
        ) == text::lowered(w),
        satisfied((ConditionView { vendor: Some(w), ..no_condition() }), data) <==> text::lowered(
            match data.get("vendor"@) {
                Some(Json::Text(t)) => t,
                _ => ""@,
            },
        ) == text::lowered(w),
        satisfied((ConditionView { subsystem: Some(w), ..no_condition() }), data) <==> text::lowered(
            match data.get("subsystem"@) {
                Some(Json::Text(t)) => t,
                _ => ""@,
            },
        ) == text::lowered(w),
        satisfied((ConditionView { id_usb_class: Some(w), ..no_condition() }), data) <==> (text::lowered(
            match data.get("id_usb_class"@) {
                Some(Json::Text(t)) => t,
                _ => ""@,
            },
        ) == text::lowered(w) || text::lowered(
            match data.get("id_usb_class"@) {
                Some(Json::Text(t)) => t,
                _ => ""@,
            },
        ) == "0x"@ + text::lowered(w)),
        satisfied((ConditionView { name_contains: Some(w), ..no_condition() }), data)
            <==> text::contains(
            text::lowered(
            match data.get("name"@) {
                Some(Json::Text(t)) => t,
                _ => ""@,
            },
        ) + " "@ + text::lowered(
            match data.get("vendor"@) {
                Some(Json::Text(t)) => t,
                _ => ""@,
            },
        ),
            text::lowered(w),
        ),
{
}

/// A condition that asks for a truth value looks at the one under the key of the
/// same name; what is not told is false.
pub proof fn law_each_flag_is_asked_for_under_its_own_key(data: Json, w: bool)
    ensures
        satisfied((ConditionView { id_input_keyboard: Some(w), ..no_condition() }), data) <==> (data.get("id_input_keyboard"@)
            == Some(Json::Bool(true))) == w,
        satisfied((ConditionView { id_input_mouse: Some(w), ..no_condition() }), data) <==> (data.get("id_input_mouse"@)
            == Some(Json::Bool(true))) == w,
        satisfied((ConditionView { id_input_tablet: Some(w), ..no_condition() }), data) <==> (data.get("id_input_tablet"@)
            == Some(Json::Bool(true))) == w,
{
}

/// To ask for a hub is to ask for the interface of a hub and one of those that a
/// dock has beside it; to ask for no hub is to ask for nothing.
pub proof fn law_hubs_are_known_by_their_interfaces(data: Json)
    ensures
        satisfied((ConditionView { usb_hub: Some(false), ..no_condition() }), data),
        satisfied((ConditionView { usb_hub: Some(true), ..no_condition() }), data) <==> ({
            let f = text::lowered(
            match data.get("id_usb_interfaces"@) {
                Some(Json::Text(t)) => t,
                _ => ""@,
            },
        );
            &&& text::contains(f, ":0900"@) || text::contains(f, ":0902"@)
            &&& text::contains(f, ":0e"@) || text::contains(f, ":0200"@) || text::contains(
                f,
                ":0100"@,
            ) || text::contains(f, ":0801"@)
        }),
{
}

/// The name of a device is that of the first rule of which a condition is
/// satisfied; where there is no such rule it is not known.
pub proof fn law_first_rule_names_the_device(rules: Seq<RuleView>, data: Json, k: int)
    requires
        0 <= k <= rules.len(),
        forall|i: int, j: int|
            0 <= i < k && 0 <= j < rules[i].conditions.len() ==> !satisfied(
                #[trigger] rules[i].conditions[j],
                data,
            ),
        k < rules.len() ==> exists|j: int|
            0 <= j < rules[k].conditions.len() && satisfied(
                #[trigger] rules[k].conditions[j],
                data,
            ),
    ensures
        k < rules.len() ==> device_name(rules, data) == rules[k].device,
        k == rules.len() ==> device_name(rules, data) == "unknown"@,
{
    let p = |r: RuleView| applies(r, data);
    lemma_first_where(rules, p, 0);
    let i = first_where(rules, p, 0);
    if i < k {
        assert(applies(rules[i], data));
        let j = choose|j: int|
            0 <= j < rules[i].conditions.len() && satisfied(#[trigger] rules[i].conditions[j], data);
        assert(satisfied(rules[i].conditions[j], data));
    }
    if k < i {
        assert(!p(rules[k]));
    }
}

} // verus!
