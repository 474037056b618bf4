//! The state of the desktop as the daemon knows it.

use crate::json::{self, Json, JsonValue};
use vstd::prelude::*;

verus! {

/// A display output.
#[derive(Debug)]
pub struct Monitor {
    pub name: String,
    pub connected: bool,
    pub resolution: Option<String>,
    pub position: Option<String>,
}

/// What a monitor stands for.
#[verifier::ext_equal]
pub struct MonitorView {
    pub name: Seq<char>,
    pub connected: bool,
    pub resolution: Option<Seq<char>>,
    pub position: Option<Seq<char>>,
}

impl DeepView for Monitor {
    type V = MonitorView;

    open spec fn deep_view(&self) -> MonitorView {
        MonitorView {
            name: self.name@,
            connected: self.connected,
            resolution: self.resolution.deep_view(),
            position: self.position.deep_view(),
        }
    }
}

/// A workspace and the monitor that shows it.
#[derive(Debug)]
pub struct Workspace {
    pub id: String,
    pub monitor: Option<String>,
}

/// What a workspace stands for.
#[verifier::ext_equal]
pub struct WorkspaceView {
    pub id: Seq<char>,
    pub monitor: Option<Seq<char>>,
}

impl DeepView for Workspace {
    type V = WorkspaceView;

    open spec fn deep_view(&self) -> WorkspaceView {
        WorkspaceView { id: self.id@, monitor: self.monitor.deep_view() }
    }
}

/// A connected device.
#[derive(Debug)]
pub struct Device {
    pub id: String,
    pub name: String,
    pub device: String,
    pub subsystem: String,
    pub vendor_id: Option<String>,
    pub product_id: Option<String>,
}

/// What a device stands for.
#[verifier::ext_equal]
pub struct DeviceView {
    pub id: Seq<char>,
    pub name: Seq<char>,
    pub device: Seq<char>,
    pub subsystem: Seq<char>,
    pub vendor_id: Option<Seq<char>>,
    pub product_id: Option<Seq<char>>,
}

impl DeepView for Device {
    type V = DeviceView;

    open spec fn deep_view(&self) -> DeviceView {
        DeviceView {
            id: self.id@,
            name: self.name@,
            device: self.device@,
            subsystem: self.subsystem@,
            vendor_id: self.vendor_id.deep_view(),
            product_id: self.product_id.deep_view(),
        }
    }
}

/// The devices that are connected.
#[derive(Debug)]
pub struct DeviceTopology {
    pub connected: Vec<Device>,
}

/// One set of match conditions. All provided fields must match.
#[derive(Debug)]
pub struct MatchCondition {
    pub vendor_id: Option<String>,
    pub product_id: Option<String>,
    pub name: Option<String>,
    pub vendor: Option<String>,
    pub name_contains: Option<String>,
    pub id_input_keyboard: Option<bool>,
    pub id_input_mouse: Option<bool>,
    pub id_input_tablet: Option<bool>,
    /// True asks for a USB hub with a secondary interface.
    pub usb_hub: Option<bool>,
    pub id_usb_class: Option<String>,
    pub subsystem: Option<String>,
}

/// What a set of match conditions stands for.
#[verifier::ext_equal]
pub struct ConditionView {
    pub vendor_id: Option<Seq<char>>,
    pub product_id: Option<Seq<char>>,
    pub name: Option<Seq<char>>,
    pub vendor: Option<Seq<char>>,
    pub name_contains: Option<Seq<char>>,
    pub id_input_keyboard: Option<bool>,
    pub id_input_mouse: Option<bool>,
    pub id_input_tablet: Option<bool>,
    pub usb_hub: Option<bool>,
    pub id_usb_class: Option<Seq<char>>,
    pub subsystem: Option<Seq<char>>,
}

impl DeepView for MatchCondition {
    type V = ConditionView;

    open spec fn deep_view(&self) -> ConditionView {
        ConditionView {
            vendor_id: self.vendor_id.deep_view(),
            product_id: self.product_id.deep_view(),
            name: self.name.deep_view(),
            vendor: self.vendor.deep_view(),
            name_contains: self.name_contains.deep_view(),
            id_input_keyboard: self.id_input_keyboard,
            id_input_mouse: self.id_input_mouse,
            id_input_tablet: self.id_input_tablet,
            usb_hub: self.usb_hub,
            id_usb_class: self.id_usb_class.deep_view(),
            subsystem: self.subsystem.deep_view(),
        }
    }
}

impl Default for MatchCondition {
    fn default() -> (r: Self)
        ensures
            r.deep_view() == (ConditionView {
                vendor_id: None,
                product_id: None,
                name: None,
                vendor: None,
                name_contains: None,
                id_input_keyboard: None,
                id_input_mouse: None,
                id_input_tablet: None,
                usb_hub: None,
                id_usb_class: None,
                subsystem: None,
            }),
    {
        MatchCondition {
            vendor_id: None,
            product_id: None,
            name: None,
            vendor: None,
            name_contains: None,
            id_input_keyboard: None,
            id_input_mouse: None,
            id_input_tablet: None,
            usb_hub: None,
            id_usb_class: None,
            subsystem: None,
        }
    }
}

/// A device rule. The device name is assigned if any condition matches.
#[derive(Debug)]
pub struct DeviceRule {
    pub device: String,
    pub conditions: Vec<MatchCondition>,
}

/// What a device rule stands for.
#[verifier::ext_equal]
pub struct RuleView {
    pub device: Seq<char>,
    pub conditions: Seq<ConditionView>,
}

impl DeepView for DeviceRule {
    type V = RuleView;

    open spec fn deep_view(&self) -> RuleView {
        RuleView { device: self.device@, conditions: self.conditions.deep_view() }
    }
}

/// What a list of named values stands for: of several values with one name the
/// last counts.
pub open spec fn named<T: DeepView>(pairs: Seq<(String, T)>) -> Map<Seq<char>, T::V>
    decreases pairs.len(),
{
    if pairs.len() == 0 {
        Map::empty()
    } else {
        named(pairs.drop_last()).insert(pairs.last().0@, pairs.last().1.deep_view())
    }
}

/// A network interface.
#[derive(Debug, Clone, Copy)]
pub struct InterfaceState {
    pub up: bool,
}

impl DeepView for InterfaceState {
    type V = bool;

    open spec fn deep_view(&self) -> bool {
        self.up
    }
}

/// The network interfaces by name, and whether the machine is online.
#[derive(Debug)]
pub struct NetworkState {
    pub interfaces: Vec<(String, InterfaceState)>,
    pub online: bool,
}

/// What the network state stands for.
#[verifier::ext_equal]
pub struct NetworkView {
    pub interfaces: Map<Seq<char>, bool>,
    pub online: bool,
}

impl DeepView for NetworkState {
    type V = NetworkView;

    open spec fn deep_view(&self) -> NetworkView {
        NetworkView { interfaces: named(self.interfaces@), online: self.online }
    }
}

/// The power supply.
#[derive(Debug, Clone, Copy)]
pub struct PowerState {
    pub ac_connected: bool,
    pub battery_percent: Option<u8>,
    pub battery_low: bool,
}

/// The active profile, the ones that were active before, and those there are.
#[derive(Debug)]
pub struct ProfileState {
    pub active: String,
    pub history: Vec<String>,
    pub profiles: Vec<(String, String)>,
}

/// What the profile state stands for.
#[verifier::ext_equal]
pub struct ProfileView {
    pub active: Seq<char>,
    pub history: Seq<Seq<char>>,
    pub profiles: Map<Seq<char>, Seq<char>>,
}

impl DeepView for ProfileState {
    type V = ProfileView;

    open spec fn deep_view(&self) -> ProfileView {
        ProfileView {
            active: self.active@,
            history: self.history.deep_view(),
            profiles: named(self.profiles@),
        }
    }
}

impl ProfileView {
    /// The profile state after the profile `name` was made the active one.
    pub open spec fn activate(self, name: Seq<char>) -> ProfileView {
        if self.active == name {
            self
        } else {
            ProfileView { active: name, history: self.history.push(self.active), ..self }
        }
    }
}

impl Default for ProfileState {
    fn default() -> (r: Self)
        ensures
            r.deep_view() == (ProfileView {
                active: "default"@,
                history: Seq::empty(),
                profiles: Map::empty(),
            }),
    {
        let r = ProfileState {
            active: "default".to_owned(),
            history: Vec::new(),
            profiles: Vec::new(),
        };
        assert(r.deep_view().history =~= Seq::empty());
        r
    }
}

impl ProfileState {
    /// Makes `name` the active profile. The profile that was active before, if
    /// it is another one, joins the history.
    pub fn activate(&mut self, name: &str)
        ensures
            final(self).deep_view() == old(self).deep_view().activate(name@),
    {
        if !crate::text::same(self.active.as_str(), name) {
            let previous = self.active.clone();
            let ghost history = self.history.deep_view();
            self.history.push(previous);
            assert(self.history.deep_view() =~= history.push(previous@));
            self.active = name.to_owned();
        }
    }
}

/// How far the loading of a module came.
#[derive(Debug, Clone, Copy, PartialEq, Eq, Structural)]
pub enum ModuleLoadState {
    Loaded,
    LoadError,
    NotFound,
    Degraded,
    Disabled,
}

impl ModuleLoadState {
    /// The name of the state in snapshots.
    pub open spec fn spec_name(self) -> Seq<char> {
        match self {
            ModuleLoadState::Loaded => "loaded"@,
            ModuleLoadState::LoadError => "load_error"@,
            ModuleLoadState::NotFound => "not_found"@,
            ModuleLoadState::Degraded => "degraded"@,
            ModuleLoadState::Disabled => "disabled"@,
        }
    }

    /// The name of the state in snapshots.
    pub fn name(self) -> (r: &'static str)
        ensures
            r@ == self.spec_name(),
    {
        match self {
            ModuleLoadState::Loaded => "loaded",
            ModuleLoadState::LoadError => "load_error",
            ModuleLoadState::NotFound => "not_found",
            ModuleLoadState::Degraded => "degraded",
            ModuleLoadState::Disabled => "disabled",
        }
    }
}

/// A module, and the values that it keeps.
#[derive(Debug)]
pub struct ModuleStatus {
    pub name: String,
    pub status: ModuleLoadState,
    pub last_error: Option<String>,
    pub builtin: bool,
    pub store: Vec<(String, JsonValue)>,
}

/// What a module status stands for.
#[verifier::ext_equal]
pub struct ModuleView {
    pub name: Seq<char>,
    pub status: ModuleLoadState,
    pub last_error: Option<Seq<char>>,
    pub builtin: bool,
    pub store: Map<Seq<char>, Json>,
}

impl DeepView for ModuleStatus {
    type V = ModuleView;

    open spec fn deep_view(&self) -> ModuleView {
        ModuleView {
            name: self.name@,
            status: self.status,
            last_error: self.last_error.deep_view(),
            builtin: self.builtin,
            store: json::field_models(self.store@),
        }
    }
}

/// How far a workflow came.
#[derive(Debug, Clone, Copy, PartialEq, Eq, Structural)]
pub enum WorkflowState {
    Running,
    Done,
    Failed,
    TimedOut,
}

impl WorkflowState {
    /// The name of the state in snapshots.
    pub open spec fn spec_name(self) -> Seq<char> {
        match self {
            WorkflowState::Running => "running"@,
            WorkflowState::Done => "done"@,
            WorkflowState::Failed => "failed"@,
            WorkflowState::TimedOut => "timed_out"@,
        }
    }

    /// The name of the state in snapshots.
    pub fn name(self) -> (r: &'static str)
        ensures
            r@ == self.spec_name(),
    {
        match self {
            WorkflowState::Running => "running",
            WorkflowState::Done => "done",
            WorkflowState::Failed => "failed",
            WorkflowState::TimedOut => "timed_out",
        }
    }
}

/// A workflow that was started.
#[derive(Debug)]
pub struct WorkflowStatus {
    pub name: String,
    pub state: WorkflowState,
    pub step: Option<String>,
    pub started_at: u64,
    pub updated_at: u64,
    pub error: Option<String>,
}

/// What a workflow status stands for.
#[verifier::ext_equal]
pub struct WorkflowView {
    pub name: Seq<char>,
    pub state: WorkflowState,
    pub step: Option<Seq<char>>,
    pub started_at: u64,
    pub updated_at: u64,
    pub error: Option<Seq<char>>,
}

impl DeepView for WorkflowStatus {
    type V = WorkflowView;

    open spec fn deep_view(&self) -> WorkflowView {
        WorkflowView {
            name: self.name@,
            state: self.state,
            step: self.step.deep_view(),
            started_at: self.started_at,
            updated_at: self.updated_at,
            error: self.error.deep_view(),
        }
    }
}

/// A widget that a module shows.
#[derive(Debug)]
pub struct WidgetSpec {
    pub id: String,
    pub module: String,
    pub placement: String,
    pub order: i32,
    pub visible: bool,
    pub tooltip: Option<String>,
    pub root: JsonValue,
    pub updated_at: u64,
}

/// What a widget stands for.
#[verifier::ext_equal]
pub struct WidgetView {
    pub id: Seq<char>,
    pub module: Seq<char>,
    pub placement: Seq<char>,
    pub order: i32,
    pub visible: bool,
    pub tooltip: Option<Seq<char>>,
    pub root: Json,
    pub updated_at: u64,
}

impl DeepView for WidgetSpec {
    type V = WidgetView;

    open spec fn deep_view(&self) -> WidgetView {
        WidgetView {
            id: self.id@,
            module: self.module@,
            placement: self.placement@,
            order: self.order,
            visible: self.visible,
            tooltip: self.tooltip.deep_view(),
            root: self.root@,
            updated_at: self.updated_at,
        }
    }
}

/// The state of the desktop.
#[derive(Debug)]
pub struct RuntimeState {
    pub monitors: Vec<Monitor>,
    pub workspaces: Vec<Workspace>,
    pub active_workspace: Option<String>,
    pub active_window: Option<String>,
    pub devices: DeviceTopology,
    pub network: NetworkState,
    pub power: PowerState,
    pub profile: ProfileState,
    pub modules: Vec<ModuleStatus>,
    pub workflows: Vec<WorkflowStatus>,
    pub widgets: Vec<WidgetSpec>,
}

/// What the state of the desktop stands for.
#[verifier::ext_equal]
pub struct RuntimeView {
    pub monitors: Seq<MonitorView>,
    pub workspaces: Seq<WorkspaceView>,
    pub active_workspace: Option<Seq<char>>,
    pub active_window: Option<Seq<char>>,
    pub devices: Seq<DeviceView>,
    pub network: NetworkView,
    pub power: PowerState,
    pub profile: ProfileView,
    pub modules: Seq<ModuleView>,
    pub workflows: Seq<WorkflowView>,
    pub widgets: Seq<WidgetView>,
}

impl View for RuntimeState {
    type V = RuntimeView;

    open spec fn view(&self) -> RuntimeView {
        RuntimeView {
            monitors: self.monitors.deep_view(),
            workspaces: self.workspaces.deep_view(),
            active_workspace: self.active_workspace.deep_view(),
            active_window: self.active_window.deep_view(),
            devices: self.devices.connected.deep_view(),
            network: self.network.deep_view(),
            power: self.power,
            profile: self.profile.deep_view(),
            modules: self.modules.deep_view(),
            workflows: self.workflows.deep_view(),
            widgets: self.widgets.deep_view(),
        }
    }
}

impl RuntimeView {
    /// The state before anything is known.
    pub open spec fn initial() -> RuntimeView {
        RuntimeView {
            monitors: Seq::empty(),
            workspaces: Seq::empty(),
            active_workspace: None,
            active_window: None,
            devices: Seq::empty(),
            network: NetworkView { interfaces: Map::empty(), online: false },
            power: PowerState { ac_connected: false, battery_percent: None, battery_low: false },
            profile: ProfileView {
                active: "default"@,
                history: Seq::empty(),
                profiles: Map::empty(),
            },
            modules: Seq::empty(),
            workflows: Seq::empty(),
            widgets: Seq::empty(),
        }
    }
}

impl Default for RuntimeState {
    fn default() -> (r: Self)
        ensures
            r@ == RuntimeView::initial(),
    {
        let r = RuntimeState {
            monitors: Vec::new(),
            workspaces: Vec::new(),
            active_workspace: None,
            active_window: None,
            devices: DeviceTopology { connected: Vec::new() },
            network: NetworkState { interfaces: Vec::new(), online: false },
            power: PowerState { ac_connected: false, battery_percent: None, battery_low: false },
            profile: ProfileState::default(),
            modules: Vec::new(),
            workflows: Vec::new(),
            widgets: Vec::new(),
        };
        assert(r@ =~= RuntimeView::initial());
        r
    }
}

/// At first nothing is known: there are no monitors, devices or modules, the machine is
/// offline and on its battery, and the profile is the default one.
pub proof fn law_nothing_is_known_at_first()
    ensures
        RuntimeView::initial().monitors.len() == 0,
        RuntimeView::initial().workspaces.len() == 0,
        RuntimeView::initial().devices.len() == 0,
        RuntimeView::initial().modules.len() == 0,
        RuntimeView::initial().workflows.len() == 0,
        RuntimeView::initial().widgets.len() == 0,
        RuntimeView::initial().active_workspace is None,
        RuntimeView::initial().active_window is None,
        RuntimeView::initial().network.interfaces == Map::<Seq<char>, bool>::empty(),
        !RuntimeView::initial().network.online,
        !RuntimeView::initial().power.ac_connected,
        RuntimeView::initial().power.battery_percent is None,
        !RuntimeView::initial().power.battery_low,
        RuntimeView::initial().profile.active == "default"@,
        RuntimeView::initial().profile.history.len() == 0,
        RuntimeView::initial().profile.profiles.dom().is_empty(),
{
}

/// A profile that becomes active is remembered after the one before it; one that is active
/// already stays so.
pub proof fn law_profiles_are_remembered(p: ProfileView, name: Seq<char>)
    ensures
        p.activate(name).active == name,
        p.activate(name).profiles == p.profiles,
        p.active == name ==> p.activate(name) == p,
        p.active != name ==> p.activate(name).history == p.history.push(p.active),
{
}

} // verus!
