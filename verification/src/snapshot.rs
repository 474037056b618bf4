//! The state of the desktop as a JSON value.

use crate::events::{AdapterSource, BreadEvent, EventView, Source};
use crate::json::{self, Json, JsonValue, Numeral};
use crate::types::{
    Device, DeviceView, InterfaceState, ModuleLoadState, ModuleStatus, ModuleView, Monitor, MonitorView,
    NetworkView, PowerState, ProfileView, RuntimeState, RuntimeView, WidgetSpec, WidgetView,
    WorkflowState, WorkflowStatus, WorkflowView, Workspace, WorkspaceView,
};
use crate::wire;
use vstd::prelude::*;

verus! {

/// What has a form as a JSON value.
pub trait Snapshot: DeepView {
    /// The JSON form of what a value stands for.
    spec fn json(v: Self::V) -> Json;

    /// The JSON form of this value.
    fn to_value(&self) -> (r: JsonValue)
        ensures
            r@ == Self::json(self.deep_view()),
    ;
}

/// The JSON form of a list.
pub open spec fn list_json<T: Snapshot>(items: Seq<T::V>) -> Json {
    Json::Array(items.map_values(|v: T::V| T::json(v)))
}

/// The JSON form of a list.
pub fn list_value<T: Snapshot>(items: &Vec<T>) -> (r: JsonValue)
    ensures
        r@ == list_json::<T>(items.deep_view()),
{
    let mut r: Vec<JsonValue> = Vec::new();
    let mut i: usize = 0;
    while i < items.len()
        invariant
            i <= items.len(),
            r.len() == i,
            forall|j: int|
                0 <= j < i ==> json::model(#[trigger] r@[j]) == T::json(items@[j].deep_view()),
        decreases items.len() - i,
    {
        r.push(items[i].to_value());
        i += 1;
    }
    proof {
        json::lemma_item_models(r@);
        assert(json::item_models(r@) =~= items.deep_view().map_values(|v: T::V| T::json(v)));
    }
    JsonValue::Array(r)
}

/// The JSON form of a list of named values.
pub fn named_value<T: Snapshot>(pairs: &Vec<(String, T)>) -> (r: JsonValue)
    ensures
        r@ == Json::Object(crate::types::named(pairs@).map_values(|v: T::V| T::json(v))),
{
    let ghost form = |v: T::V| T::json(v);
    let mut r: Vec<(String, JsonValue)> = Vec::new();
    let mut i: usize = 0;
    assert(crate::types::named(pairs@.take(0)).map_values(form) =~= Map::empty());
    while i < pairs.len()
        invariant
            i <= pairs.len(),
            form == (|v: T::V| T::json(v)),
            json::field_models(r@) == crate::types::named(pairs@.take(i as int)).map_values(form),
        decreases pairs.len() - i,
    {
        let ghost before = r@;
        let value = pairs[i].1.to_value();
        r.push((pairs[i].0.clone(), value));
        i += 1;
        proof {
            let t = pairs@.take(i as int);
            assert(t.drop_last() =~= pairs@.take(i - 1));
            assert(r@.drop_last() =~= before);
            assert(crate::types::named(t).map_values(form) =~= crate::types::named(
                t.drop_last(),
            ).map_values(form).insert(t.last().0@, form(t.last().1.deep_view())));
        }
    }
    assert(pairs@.take(pairs@.len() as int) =~= pairs@);
    JsonValue::Object(r)
}

/// The JSON form of an integer.
pub open spec fn integer_json(n: int) -> Json {
    if n >= 0 {
        Json::Num(Numeral::PosInt(n as u64))
    } else {
        Json::Num(Numeral::NegInt(n as i64))
    }
}

/// The JSON form of an integer.
pub fn integer_value(n: i64) -> (r: JsonValue)
    ensures
        r@ == integer_json(n as int),
{
    JsonValue::Num(wire::number_of_i64(n))
}

impl Snapshot for String {
    open spec fn json(v: Seq<char>) -> Json {
        Json::Text(v)
    }

    fn to_value(&self) -> JsonValue {
        JsonValue::of_text(self.as_str())
    }
}

impl Snapshot for Monitor {
    open spec fn json(v: MonitorView) -> Json {
        Json::empty().with("name"@, Json::Text(v.name)).with(
            "connected"@,
            Json::Bool(v.connected),
        ).with("resolution"@, json::text_or_null(v.resolution)).with(
            "position"@,
            json::text_or_null(v.position),
        )
    }

    fn to_value(&self) -> JsonValue {
        JsonValue::empty().with("name", JsonValue::of_text(self.name.as_str())).with(
            "connected",
            JsonValue::Bool(self.connected),
        ).with("resolution", JsonValue::of_option(&self.resolution)).with(
            "position",
            JsonValue::of_option(&self.position),
        )
    }
}

impl Snapshot for Workspace {
    open spec fn json(v: WorkspaceView) -> Json {
        Json::empty().with("id"@, Json::Text(v.id)).with(
            "monitor"@,
            json::text_or_null(v.monitor),
        )
    }

    fn to_value(&self) -> JsonValue {
        JsonValue::empty().with("id", JsonValue::of_text(self.id.as_str())).with(
            "monitor",
            JsonValue::of_option(&self.monitor),
        )
    }
}

/// An object with the text under `key` where there is one.
pub open spec fn with_text(v: Json, key: Seq<char>, s: Option<Seq<char>>) -> Json {
    match s {
        Some(s) => v.with(key, Json::Text(s)),
        None => v,
    }
}

fn value_with_text(v: JsonValue, key: &str, s: &Option<String>) -> (r: JsonValue)
    ensures
        r@ == with_text(v@, key@, s.deep_view()),
{
    match s {
        Some(s) => v.with(key, JsonValue::of_text(s.as_str())),
        None => v,
    }
}

impl Snapshot for Device {
    open spec fn json(v: DeviceView) -> Json {
        with_text(
            with_text(
                Json::empty().with("id"@, Json::Text(v.id)).with("name"@, Json::Text(v.name)).with(
                    "device"@,
                    Json::Text(v.device),
                ).with("subsystem"@, Json::Text(v.subsystem)),
                "vendor_id"@,
                v.vendor_id,
            ),
            "product_id"@,
            v.product_id,
        )
    }

    fn to_value(&self) -> JsonValue {
        let base = JsonValue::empty().with("id", JsonValue::of_text(self.id.as_str())).with(
            "name",
            JsonValue::of_text(self.name.as_str()),
        ).with("device", JsonValue::of_text(self.device.as_str())).with(
            "subsystem",
            JsonValue::of_text(self.subsystem.as_str()),
        );
        value_with_text(
            value_with_text(base, "vendor_id", &self.vendor_id),
            "product_id",
            &self.product_id,
        )
    }
}

impl Snapshot for InterfaceState {
    open spec fn json(v: bool) -> Json {
        Json::empty().with("up"@, Json::Bool(v))
    }

    fn to_value(&self) -> JsonValue {
        JsonValue::empty().with("up", JsonValue::Bool(self.up))
    }
}

impl Snapshot for ModuleStatus {
    open spec fn json(v: ModuleView) -> Json {
        Json::empty().with("name"@, Json::Text(v.name)).with(
            "status"@,
            Json::Text(v.status.spec_name()),
        ).with("last_error"@, json::text_or_null(v.last_error)).with(
            "builtin"@,
            Json::Bool(v.builtin),
        ).with("store"@, Json::Object(v.store))
    }

    fn to_value(&self) -> JsonValue {
        let store = json::duplicate_fields(&self.store);
        JsonValue::empty().with("name", JsonValue::of_text(self.name.as_str())).with(
            "status",
            JsonValue::of_text(self.status.name()),
        ).with("last_error", JsonValue::of_option(&self.last_error)).with(
            "builtin",
            JsonValue::Bool(self.builtin),
        ).with("store", JsonValue::Object(store))
    }
}

impl Snapshot for WorkflowStatus {
    open spec fn json(v: WorkflowView) -> Json {
        Json::empty().with("name"@, Json::Text(v.name)).with(
            "state"@,
            Json::Text(v.state.spec_name()),
        ).with("step"@, json::text_or_null(v.step)).with(
            "started_at"@,
            Json::Num(Numeral::PosInt(v.started_at)),
        ).with("updated_at"@, Json::Num(Numeral::PosInt(v.updated_at))).with(
            "error"@,
            json::text_or_null(v.error),
        )
    }

    fn to_value(&self) -> JsonValue {
        JsonValue::empty().with("name", JsonValue::of_text(self.name.as_str())).with(
            "state",
            JsonValue::of_text(self.state.name()),
        ).with("step", JsonValue::of_option(&self.step)).with(
            "started_at",
            JsonValue::of_u64(self.started_at),
        ).with("updated_at", JsonValue::of_u64(self.updated_at)).with(
            "error",
            JsonValue::of_option(&self.error),
        )
    }
}

impl Snapshot for WidgetSpec {
    open spec fn json(v: WidgetView) -> Json {
        Json::empty().with("id"@, Json::Text(v.id)).with("module"@, Json::Text(v.module)).with(
            "placement"@,
            Json::Text(v.placement),
        ).with("order"@, integer_json(v.order as int)).with("visible"@, Json::Bool(v.visible)).with(
            "tooltip"@,
            json::text_or_null(v.tooltip),
        ).with("root"@, v.root).with("updated_at"@, Json::Num(Numeral::PosInt(v.updated_at)))
    }

    fn to_value(&self) -> JsonValue {
        JsonValue::empty().with("id", JsonValue::of_text(self.id.as_str())).with(
            "module",
            JsonValue::of_text(self.module.as_str()),
        ).with("placement", JsonValue::of_text(self.placement.as_str())).with(
            "order",
            integer_value(self.order as i64),
        ).with("visible", JsonValue::Bool(self.visible)).with(
            "tooltip",
            JsonValue::of_option(&self.tooltip),
        ).with("root", self.root.duplicate()).with("updated_at", JsonValue::of_u64(self.updated_at))
    }
}

/// The JSON form of a source.
pub open spec fn source_json(s: Source) -> Json {
    match s {
        Source::Hyprland => Json::Text("hyprland"@),
        Source::Udev => Json::Text("udev"@),
        Source::Power => Json::Text("power"@),
        Source::Network => Json::Text("network"@),
        Source::Bluetooth => Json::Text("bluetooth"@),
        Source::Terminal => Json::Text("terminal"@),
        Source::Git => Json::Text("git"@),
        Source::Filesystem => Json::Text("filesystem"@),
        Source::Systemd => Json::Text("systemd"@),
        Source::Podman => Json::Text("podman"@),
        Source::Remote => Json::Text("remote"@),
        Source::App(id) => Json::empty().with("app"@, Json::Text(id)),
        Source::Manual => Json::Text("manual"@),
        Source::System => Json::Text("system"@),
    }
}

fn source_value(s: &AdapterSource) -> (r: JsonValue)
    ensures
        r@ == source_json(s@),
{
    match s {
        AdapterSource::Hyprland => JsonValue::of_text("hyprland"),
        AdapterSource::Udev => JsonValue::of_text("udev"),
        AdapterSource::Power => JsonValue::of_text("power"),
        AdapterSource::Network => JsonValue::of_text("network"),
        AdapterSource::Bluetooth => JsonValue::of_text("bluetooth"),
        AdapterSource::Terminal => JsonValue::of_text("terminal"),
        AdapterSource::Git => JsonValue::of_text("git"),
        AdapterSource::Filesystem => JsonValue::of_text("filesystem"),
        AdapterSource::Systemd => JsonValue::of_text("systemd"),
        AdapterSource::Podman => JsonValue::of_text("podman"),
        AdapterSource::Remote => JsonValue::of_text("remote"),
        AdapterSource::App(id) => JsonValue::empty().with("app", JsonValue::of_text(id.as_str())),
        AdapterSource::Manual => JsonValue::of_text("manual"),
        AdapterSource::System => JsonValue::of_text("system"),
    }
}

impl Snapshot for BreadEvent {
    open spec fn json(v: EventView) -> Json {
        Json::empty().with("event"@, Json::Text(v.event)).with(
            "timestamp"@,
            Json::Num(Numeral::PosInt(v.timestamp)),
        ).with("source"@, source_json(v.source)).with("data"@, v.data)
    }

    fn to_value(&self) -> JsonValue {
        JsonValue::empty().with("event", JsonValue::of_text(self.event.as_str())).with(
            "timestamp",
            JsonValue::of_u64(self.timestamp),
        ).with("source", source_value(&self.source)).with("data", self.data.duplicate())
    }
}

/// The JSON form of the network.
pub open spec fn network_json(v: NetworkView) -> Json {
    Json::empty().with(
        "interfaces"@,
        Json::Object(v.interfaces.map_values(|up: bool| InterfaceState::json(up))),
    ).with("online"@, Json::Bool(v.online))
}

/// The JSON form of the power supply.
pub open spec fn power_json(v: PowerState) -> Json {
    Json::empty().with("ac_connected"@, Json::Bool(v.ac_connected)).with(
        "battery_percent"@,
        match v.battery_percent {
            Some(n) => Json::Num(Numeral::PosInt(n as u64)),
            None => Json::Null,
        },
    ).with("battery_low"@, Json::Bool(v.battery_low))
}

/// The JSON form of the profiles.
pub open spec fn profile_json(v: ProfileView) -> Json {
    Json::empty().with("active"@, Json::Text(v.active)).with(
        "history"@,
        list_json::<String>(v.history),
    ).with(
        "profiles"@,
        Json::Object(v.profiles.map_values(|s: Seq<char>| <String as Snapshot>::json(s))),
    )
}

/// The JSON form of the state of the desktop.
pub open spec fn state_json(s: RuntimeView) -> Json {
    Json::empty().with("monitors"@, list_json::<Monitor>(s.monitors)).with(
        "workspaces"@,
        list_json::<Workspace>(s.workspaces),
    ).with("active_workspace"@, json::text_or_null(s.active_workspace)).with(
        "active_window"@,
        json::text_or_null(s.active_window),
    ).with("devices"@, Json::empty().with("connected"@, list_json::<Device>(s.devices))).with(
        "network"@,
        network_json(s.network),
    ).with("power"@, power_json(s.power)).with("profile"@, profile_json(s.profile)).with(
        "modules"@,
        list_json::<ModuleStatus>(s.modules),
    ).with("workflows"@, list_json::<WorkflowStatus>(s.workflows)).with(
        "widgets"@,
        list_json::<WidgetSpec>(s.widgets),
    )
}

/// The JSON form of the state of the desktop.
pub fn state_dump(state: &RuntimeState) -> (r: JsonValue)
    ensures
        r@ == state_json(state@),
{
    let network = JsonValue::empty().with("interfaces", named_value(&state.network.interfaces)).with(
        "online",
        JsonValue::Bool(state.network.online),
    );
    let percent = match state.power.battery_percent {
        Some(n) => JsonValue::of_u64(n as u64),
        None => JsonValue::Null,
    };
    let power = JsonValue::empty().with("ac_connected", JsonValue::Bool(state.power.ac_connected)).with(
        "battery_percent",
        percent,
    ).with("battery_low", JsonValue::Bool(state.power.battery_low));
    let profile = JsonValue::empty().with(
        "active",
        JsonValue::of_text(state.profile.active.as_str()),
    ).with("history", list_value(&state.profile.history)).with(
        "profiles",
        named_value(&state.profile.profiles),
    );
    JsonValue::empty().with("monitors", list_value(&state.monitors)).with(
        "workspaces",
        list_value(&state.workspaces),
    ).with("active_workspace", JsonValue::of_option(&state.active_workspace)).with(
        "active_window",
        JsonValue::of_option(&state.active_window),
    ).with(
        "devices",
        JsonValue::empty().with("connected", list_value(&state.devices.connected)),
    ).with("network", network).with("power", power).with("profile", profile).with(
        "modules",
        list_value(&state.modules),
    ).with("workflows", list_value(&state.workflows)).with("widgets", list_value(&state.widgets))
}

/// The part of the state that a path of keys names; the empty path names all
/// of it.
pub fn state_get(state: &RuntimeState, path: &str) -> (r: Option<JsonValue>)
    ensures
        r.deep_view() == json::at_path(state_json(state@), path@),
{
    json::value_at_path(&state_dump(state), path)
}

proof fn lemma_state_keys_differ()
    ensures
        "monitors"@ != "workspaces"@,
        "monitors"@ != "active_workspace"@,
        "monitors"@ != "active_window"@,
        "monitors"@ != "devices"@,
        "monitors"@ != "network"@,
        "monitors"@ != "power"@,
        "monitors"@ != "profile"@,
        "monitors"@ != "modules"@,
        "monitors"@ != "workflows"@,
        "monitors"@ != "widgets"@,
        "workspaces"@ != "active_workspace"@,
        "workspaces"@ != "active_window"@,
        "workspaces"@ != "devices"@,
        "workspaces"@ != "network"@,
        "workspaces"@ != "power"@,
        "workspaces"@ != "profile"@,
        "workspaces"@ != "modules"@,
        "workspaces"@ != "workflows"@,
        "workspaces"@ != "widgets"@,
        "active_workspace"@ != "active_window"@,
        "active_workspace"@ != "devices"@,
        "active_workspace"@ != "network"@,
        "active_workspace"@ != "power"@,
        "active_workspace"@ != "profile"@,
        "active_workspace"@ != "modules"@,
        "active_workspace"@ != "workflows"@,
        "active_workspace"@ != "widgets"@,
        "active_window"@ != "devices"@,
        "active_window"@ != "network"@,
        "active_window"@ != "power"@,
        "active_window"@ != "profile"@,
        "active_window"@ != "modules"@,
        "active_window"@ != "workflows"@,
        "active_window"@ != "widgets"@,
        "devices"@ != "network"@,
        "devices"@ != "power"@,
        "devices"@ != "profile"@,
        "devices"@ != "modules"@,
        "devices"@ != "workflows"@,
        "devices"@ != "widgets"@,
        "network"@ != "power"@,
        "network"@ != "profile"@,
        "network"@ != "modules"@,
        "network"@ != "workflows"@,
        "network"@ != "widgets"@,
        "power"@ != "profile"@,
        "power"@ != "modules"@,
        "power"@ != "workflows"@,
        "power"@ != "widgets"@,
        "profile"@ != "modules"@,
        "profile"@ != "workflows"@,
        "profile"@ != "widgets"@,
        "modules"@ != "workflows"@,
        "modules"@ != "widgets"@,
        "workflows"@ != "widgets"@,
{
    reveal_strlit("monitors");
    reveal_strlit("workspaces");
    reveal_strlit("active_workspace");
    reveal_strlit("active_window");
    reveal_strlit("devices");
    reveal_strlit("network");
    reveal_strlit("power");
    reveal_strlit("profile");
    reveal_strlit("modules");
    reveal_strlit("workflows");
    reveal_strlit("widgets");
    assert("monitors"@.len() == 8);
    assert("workspaces"@.len() == 10);
    assert("active_workspace"@.len() == 16);
    assert("active_window"@.len() == 13);
    assert("devices"@.len() == 7);
    assert("network"@.len() == 7);
    assert("power"@.len() == 5);
    assert("profile"@.len() == 7);
    assert("modules"@.len() == 7);
    assert("workflows"@.len() == 9);
    assert("widgets"@.len() == 7);
    assert("devices"@[0] != "network"@[0]);
    assert("devices"@[0] != "profile"@[0]);
    assert("devices"@[0] != "modules"@[0]);
    assert("devices"@[0] != "widgets"@[0]);
    assert("network"@[0] != "profile"@[0]);
    assert("network"@[0] != "modules"@[0]);
    assert("network"@[0] != "widgets"@[0]);
    assert("profile"@[0] != "modules"@[0]);
    assert("profile"@[0] != "widgets"@[0]);
    assert("modules"@[0] != "widgets"@[0]);
}

/// What a monitor is in the snapshot.
pub proof fn law_monitor_form(v: MonitorView)
    ensures
        Monitor::json(v).get("name"@) == Some(Json::Text(v.name)),
        Monitor::json(v).get("connected"@) == Some(Json::Bool(v.connected)),
        Monitor::json(v).get("resolution"@) == Some(
            match v.resolution {
                Some(t) => Json::Text(t),
                None => Json::Null,
            },
        ),
        Monitor::json(v).get("position"@) == Some(
            match v.position {
                Some(t) => Json::Text(t),
                None => Json::Null,
            },
        ),
{
    reveal_strlit("name");
    reveal_strlit("connected");
    reveal_strlit("resolution");
    reveal_strlit("position");
    assert("name"@.len() == 4);
    assert("connected"@.len() == 9);
    assert("resolution"@.len() == 10);
    assert("position"@.len() == 8);
}

/// What a workspace is in the snapshot.
pub proof fn law_workspace_form(v: WorkspaceView)
    ensures
        Workspace::json(v).get("id"@) == Some(Json::Text(v.id)),
        Workspace::json(v).get("monitor"@) == Some(
            match v.monitor {
                Some(t) => Json::Text(t),
                None => Json::Null,
            },
        ),
{
    reveal_strlit("id");
    reveal_strlit("monitor");
    assert("id"@.len() == 2);
    assert("monitor"@.len() == 7);
}

/// What a device is in the snapshot. Identifiers that are not known are left out.
pub proof fn law_device_form(v: DeviceView)
    ensures
        Device::json(v).get("id"@) == Some(Json::Text(v.id)),
        Device::json(v).get("name"@) == Some(Json::Text(v.name)),
        Device::json(v).get("device"@) == Some(Json::Text(v.device)),
        Device::json(v).get("subsystem"@) == Some(Json::Text(v.subsystem)),
        Device::json(v).get("vendor_id"@) == (match v.vendor_id {
            Some(t) => Some(Json::Text(t)),
            None => None,
        }),
        Device::json(v).get("product_id"@) == (match v.product_id {
            Some(t) => Some(Json::Text(t)),
            None => None,
        }),
{
    reveal_strlit("id");
    reveal_strlit("name");
    reveal_strlit("device");
    reveal_strlit("subsystem");
    reveal_strlit("vendor_id");
    reveal_strlit("product_id");
    assert("id"@.len() == 2);
    assert("name"@.len() == 4);
    assert("device"@.len() == 6);
    assert("subsystem"@.len() == 9);
    assert("vendor_id"@.len() == 9);
    assert("product_id"@.len() == 10);
    assert("subsystem"@[0] != "vendor_id"@[0]);
}

/// What a module is in the snapshot.
pub proof fn law_module_form(v: ModuleView)
    ensures
        ModuleStatus::json(v).get("name"@) == Some(Json::Text(v.name)),
        ModuleStatus::json(v).get("status"@) == Some(
            Json::Text(
                match v.status {
                    ModuleLoadState::Loaded => "loaded"@,
                    ModuleLoadState::LoadError => "load_error"@,
                    ModuleLoadState::NotFound => "not_found"@,
                    ModuleLoadState::Degraded => "degraded"@,
                    ModuleLoadState::Disabled => "disabled"@,
                },
            ),
        ),
        ModuleStatus::json(v).get("last_error"@) == Some(
            match v.last_error {
                Some(t) => Json::Text(t),
                None => Json::Null,
            },
        ),
        ModuleStatus::json(v).get("builtin"@) == Some(Json::Bool(v.builtin)),
        ModuleStatus::json(v).get("store"@) == Some(Json::Object(v.store)),
{
    reveal_strlit("name");
    reveal_strlit("status");
    reveal_strlit("last_error");
    reveal_strlit("builtin");
    reveal_strlit("store");
    assert("name"@.len() == 4);
    assert("status"@.len() == 6);
    assert("last_error"@.len() == 10);
    assert("builtin"@.len() == 7);
    assert("store"@.len() == 5);
}

/// What a workflow is in the snapshot.
pub proof fn law_workflow_form(v: WorkflowView)
    ensures
        WorkflowStatus::json(v).get("name"@) == Some(Json::Text(v.name)),
        WorkflowStatus::json(v).get("state"@) == Some(
            Json::Text(
                match v.state {
                    WorkflowState::Running => "running"@,
                    WorkflowState::Done => "done"@,
                    WorkflowState::Failed => "failed"@,
                    WorkflowState::TimedOut => "timed_out"@,
                },
            ),
        ),
        WorkflowStatus::json(v).get("step"@) == Some(
            match v.step {
                Some(t) => Json::Text(t),
                None => Json::Null,
            },
        ),
        WorkflowStatus::json(v).get("started_at"@) == Some(Json::Num(Numeral::PosInt(v.started_at))),
        WorkflowStatus::json(v).get("updated_at"@) == Some(Json::Num(Numeral::PosInt(v.updated_at))),
        WorkflowStatus::json(v).get("error"@) == Some(
            match v.error {
                Some(t) => Json::Text(t),
                None => Json::Null,
            },
        ),
{
    reveal_strlit("name");
    reveal_strlit("state");
    reveal_strlit("step");
    reveal_strlit("started_at");
    reveal_strlit("updated_at");
    reveal_strlit("error");
    assert("name"@.len() == 4);
    assert("state"@.len() == 5);
    assert("step"@.len() == 4);
    assert("started_at"@.len() == 10);
    assert("updated_at"@.len() == 10);
    assert("error"@.len() == 5);
    assert("name"@[0] != "step"@[0]);
    assert("state"@[0] != "error"@[0]);
    assert("started_at"@[0] != "updated_at"@[0]);
}

/// What a widget is in the snapshot.
pub proof fn law_widget_form(v: WidgetView)
    ensures
        WidgetSpec::json(v).get("id"@) == Some(Json::Text(v.id)),
        WidgetSpec::json(v).get("module"@) == Some(Json::Text(v.module)),
        WidgetSpec::json(v).get("placement"@) == Some(Json::Text(v.placement)),
        WidgetSpec::json(v).get("order"@) == Some(
            if v.order >= 0 {
                Json::Num(Numeral::PosInt(v.order as u64))
            } else {
                Json::Num(Numeral::NegInt(v.order as i64))
            },
        ),
        WidgetSpec::json(v).get("visible"@) == Some(Json::Bool(v.visible)),
        WidgetSpec::json(v).get("tooltip"@) == Some(
            match v.tooltip {
                Some(t) => Json::Text(t),
                None => Json::Null,
            },
        ),
        WidgetSpec::json(v).get("root"@) == Some(v.root),
        WidgetSpec::json(v).get("updated_at"@) == Some(Json::Num(Numeral::PosInt(v.updated_at))),
{
    reveal_strlit("id");
    reveal_strlit("module");
    reveal_strlit("placement");
    reveal_strlit("order");
    reveal_strlit("visible");
    reveal_strlit("tooltip");
    reveal_strlit("root");
    reveal_strlit("updated_at");
    assert("id"@.len() == 2);
    assert("module"@.len() == 6);
    assert("placement"@.len() == 9);
    assert("order"@.len() == 5);
    assert("visible"@.len() == 7);
    assert("tooltip"@.len() == 7);
    assert("root"@.len() == 4);
    assert("updated_at"@.len() == 10);
    assert("visible"@[0] != "tooltip"@[0]);
}

/// What an event is on the wire.
pub proof fn law_event_form(v: EventView)
    ensures
        BreadEvent::json(v).get("event"@) == Some(Json::Text(v.event)),
        BreadEvent::json(v).get("timestamp"@) == Some(Json::Num(Numeral::PosInt(v.timestamp))),
        BreadEvent::json(v).get("data"@) == Some(v.data),
        BreadEvent::json(v).get("source"@) == Some(
            match v.source {
                Source::Hyprland => Json::Text("hyprland"@),
                Source::Udev => Json::Text("udev"@),
                Source::Power => Json::Text("power"@),
                Source::Network => Json::Text("network"@),
                Source::Bluetooth => Json::Text("bluetooth"@),
                Source::Terminal => Json::Text("terminal"@),
                Source::Git => Json::Text("git"@),
                Source::Filesystem => Json::Text("filesystem"@),
                Source::Systemd => Json::Text("systemd"@),
                Source::Podman => Json::Text("podman"@),
                Source::Remote => Json::Text("remote"@),
                Source::App(id) => Json::Object(map!["app"@ => Json::Text(id)]),
                Source::Manual => Json::Text("manual"@),
                Source::System => Json::Text("system"@),
            },
        ),
{
    reveal_strlit("event");
    reveal_strlit("timestamp");
    reveal_strlit("source");
    reveal_strlit("data");
    assert("event"@.len() == 5);
    assert("timestamp"@.len() == 9);
    assert("source"@.len() == 6);
    assert("data"@.len() == 4);
}

/// The list is the one that the value at the key holds, item by item.
pub open spec fn lists<T: Snapshot>(v: Option<Json>, items: Seq<T::V>) -> bool {
    v matches Some(Json::Array(a)) && a.len() == items.len() && forall|i: int|
        0 <= i < items.len() ==> (#[trigger] a[i]) == T::json(items[i])
}

/// The snapshot of the state holds each part of it under the key of its name.
pub proof fn law_snapshot_holds_the_state(s: RuntimeView)
    ensures
        ({
            let v = state_json(s);
            &&& lists::<Monitor>(v.get("monitors"@), s.monitors)
            &&& lists::<Workspace>(v.get("workspaces"@), s.workspaces)
            &&& v.get("active_workspace"@) == Some(
                match s.active_workspace {
                    Some(t) => Json::Text(t),
                    None => Json::Null,
                },
            )
            &&& v.get("active_window"@) == Some(
                match s.active_window {
                    Some(t) => Json::Text(t),
                    None => Json::Null,
                },
            )
            &&& v.get("devices"@) matches Some(d) && lists::<Device>(d.get("connected"@), s.devices)
            &&& lists::<ModuleStatus>(v.get("modules"@), s.modules)
            &&& lists::<WorkflowStatus>(v.get("workflows"@), s.workflows)
            &&& lists::<WidgetSpec>(v.get("widgets"@), s.widgets)
        }),
{
    lemma_state_keys_differ();
}

/// The snapshot tells of the network which interfaces there are and which of them
/// are up, and whether the machine is online.
pub proof fn law_snapshot_holds_the_network(s: RuntimeView)
    ensures
        state_json(s).get("network"@) matches Some(v) && {
            &&& v.get("online"@) == Some(Json::Bool(s.network.online))
            &&& v.get("interfaces"@) matches Some(Json::Object(m)) && m.dom()
                == s.network.interfaces.dom() && forall|k: Seq<char>| #[trigger]
                m.contains_key(k) ==> m[k].get("up"@) == Some(Json::Bool(s.network.interfaces[k]))
        },
{
    lemma_state_keys_differ();
    reveal_strlit("interfaces");
    reveal_strlit("online");
    assert("interfaces"@.len() == 10);
    assert("online"@.len() == 6);
    let v = state_json(s).get("network"@)->0;
    assert(v == network_json(s.network));
    let m = s.network.interfaces.map_values(|up: bool| InterfaceState::json(up));
    assert(v.get("interfaces"@) == Some(Json::Object(m)));
    assert(m.dom() =~= s.network.interfaces.dom());
}

/// The snapshot tells of the power supply whether the charger is in, the charge and
/// whether it is low.
pub proof fn law_snapshot_holds_the_power(s: RuntimeView)
    ensures
        state_json(s).get("power"@) matches Some(v) && {
            &&& v.get("ac_connected"@) == Some(Json::Bool(s.power.ac_connected))
            &&& v.get("battery_low"@) == Some(Json::Bool(s.power.battery_low))
            &&& v.get("battery_percent"@) == Some(
                match s.power.battery_percent {
                    Some(p) => Json::Num(Numeral::PosInt(p as u64)),
                    None => Json::Null,
                },
            )
        },
{
    lemma_state_keys_differ();
    reveal_strlit("ac_connected");
    reveal_strlit("battery_percent");
    reveal_strlit("battery_low");
    assert("ac_connected"@.len() == 12);
    assert("battery_percent"@.len() == 15);
    assert("battery_low"@.len() == 11);
}

/// The snapshot tells of the profile which one is active, which ones were before,
/// and which ones there are.
pub proof fn law_snapshot_holds_the_profile(s: RuntimeView)
    ensures
        state_json(s).get("profile"@) matches Some(v) && {
            &&& v.get("active"@) == Some(Json::Text(s.profile.active))
            &&& v.get("history"@) matches Some(Json::Array(a)) && a.len() == s.profile.history.len()
                && forall|i: int|
                0 <= i < a.len() ==> (#[trigger] a[i]) == Json::Text(s.profile.history[i])
            &&& v.get("profiles"@) matches Some(Json::Object(m)) && m.dom()
                == s.profile.profiles.dom() && forall|k: Seq<char>| #[trigger]
                m.contains_key(k) ==> m[k] == Json::Text(s.profile.profiles[k])
        },
{
    lemma_state_keys_differ();
    reveal_strlit("active");
    reveal_strlit("history");
    reveal_strlit("profiles");
    assert("active"@.len() == 6);
    assert("history"@.len() == 7);
    assert("profiles"@.len() == 8);
    let v = state_json(s).get("profile"@)->0;
    assert(v == profile_json(s.profile));
    let m = s.profile.profiles.map_values(|t: Seq<char>| <String as Snapshot>::json(t));
    assert(v.get("profiles"@) == Some(Json::Object(m)));
    assert(m.dom() =~= s.profile.profiles.dom());
}

/// A number is written as what it is: one kind for the negative ones, another for the
/// rest.
pub proof fn law_numbers_keep_their_value(n: int)
    requires
        i64::MIN <= n <= i64::MAX,
    ensures
        n >= 0 ==> integer_json(n) == Json::Num(Numeral::PosInt(n as u64)),
        n < 0 ==> integer_json(n) == Json::Num(Numeral::NegInt(n as i64)),
{
}

} // verus!
