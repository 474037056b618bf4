//! One step of the state engine: what it does with a command or an event.

use crate::apps;
use crate::events::{AdapterSource, BreadEvent, EventView, Source};
use crate::json::{self, Json, JsonValue};
use crate::snapshot;
use crate::state_engine;
use crate::subscriptions::{SubscriptionId, SubscriptionTable, SubscriptionView, TableView};
use crate::text;
use crate::types::{
    DeviceRule, DeviceView, ModuleLoadState, ModuleStatus, ModuleView, RuleView, RuntimeState,
    RuntimeView,
};
use vstd::prelude::*;

verus! {

/// What the engine can be told to do.
#[derive(Debug)]
pub enum StateCommand {
    RegisterSubscription { id: SubscriptionId, pattern: String, once: bool },
    RemoveSubscription { id: SubscriptionId },
    RegisterWatch { id: SubscriptionId, path: String },
    RemoveWatch { id: SubscriptionId },
    ClearSubscriptions,
    ClearModules,
    ClearWidgets,
    SetModuleStatus {
        name: String,
        status: ModuleLoadState,
        last_error: Option<String>,
        builtin: bool,
    },
    SetProfile { name: String },
    SetDeviceRules(Vec<DeviceRule>),
}

/// What the engine wants done outside.
#[derive(Debug)]
pub enum Effect {
    /// The event goes to everyone who listens to the event stream.
    Publish(BreadEvent),
    /// The event goes to the handler of a subscription.
    Deliver { subscription_id: SubscriptionId, event: BreadEvent },
    /// A subscription has ended.
    Cancelled { id: SubscriptionId },
}

/// What an effect stands for.
pub enum EffectView {
    Publish(EventView),
    Deliver(u64, EventView),
    Cancelled(u64),
}

impl DeepView for Effect {
    type V = EffectView;

    open spec fn deep_view(&self) -> EffectView {
        match self {
            Effect::Publish(event) => EffectView::Publish(event.deep_view()),
            Effect::Deliver { subscription_id, event } => EffectView::Deliver(
                subscription_id.0,
                event.deep_view(),
            ),
            Effect::Cancelled { id } => EffectView::Cancelled(id.0),
        }
    }
}

/// What the engine keeps between steps, beside the state of the desktop.
#[derive(Debug)]
pub struct StateEngine {
    pub subscriptions: SubscriptionTable,
    pub watches: Vec<(u64, String)>,
    pub device_rules: Vec<DeviceRule>,
    pub subscription_count: u64,
}

/// What the engine's memory stands for.
#[verifier::ext_equal]
pub struct EngineView {
    pub table: TableView,
    pub watches: Seq<(u64, Seq<char>)>,
    pub rules: Seq<RuleView>,
    pub count: u64,
}

impl View for StateEngine {
    type V = EngineView;

    open spec fn view(&self) -> EngineView {
        EngineView {
            table: self.subscriptions@,
            watches: self.watches.deep_view(),
            rules: self.device_rules.deep_view(),
            count: self.subscription_count,
        }
    }
}

impl EngineView {
    /// The subscription table is sound.
    pub open spec fn wf(self) -> bool {
        self.table.wf()
    }

    /// The engine at the start.
    pub open spec fn initial() -> EngineView {
        EngineView {
            table: TableView::empty(),
            watches: Seq::empty(),
            rules: Seq::empty(),
            count: 0,
        }
    }
}

/// The watch has the given id.
pub open spec fn watch_of(id: u64) -> spec_fn((u64, Seq<char>)) -> bool {
    |w: (u64, Seq<char>)| w.0 == id
}

/// The watches after the path of one was set.
pub open spec fn watch_set(
    watches: Seq<(u64, Seq<char>)>,
    id: u64,
    path: Seq<char>,
) -> Seq<(u64, Seq<char>)> {
    let i = state_engine::first_where(watches, watch_of(id), 0);
    if i < watches.len() {
        watches.update(i, (id, path))
    } else {
        watches.push((id, path))
    }
}

/// The watches after the one with that id was taken away.
pub open spec fn watch_removed(watches: Seq<(u64, Seq<char>)>, id: u64) -> Seq<(u64, Seq<char>)> {
    let i = state_engine::first_where(watches, watch_of(id), 0);
    if i < watches.len() {
        watches.remove(i)
    } else {
        watches
    }
}

/// The modules after the status of one was set. A module that is known keeps
/// what it stores.
pub open spec fn module_set(modules: Seq<ModuleView>, m: ModuleView) -> Seq<ModuleView> {
    let i = state_engine::first_where(modules, |k: ModuleView| k.name == m.name, 0);
    if i < modules.len() {
        modules.update(i, ModuleView { store: modules[i].store, name: modules[i].name, ..m })
    } else {
        modules.push(m)
    }
}

/// `n` plus one, or zero after the largest number.
pub open spec fn count_up(n: u64) -> u64 {
    if n == u64::MAX {
        0
    } else {
        (n + 1) as u64
    }
}

/// `n` minus one, or the largest number after zero.
pub open spec fn count_down(n: u64) -> u64 {
    if n == 0 {
        u64::MAX
    } else {
        (n - 1) as u64
    }
}

fn watch_index(watches: &Vec<(u64, String)>, id: u64) -> (r: usize)
    ensures
        r == state_engine::first_where(watches.deep_view(), watch_of(id), 0),
        r <= watches.len(),
{
    let ghost p = watch_of(id);
    let mut i: usize = 0;
    while i < watches.len()
        invariant
            i <= watches.len(),
            p == watch_of(id),
            state_engine::first_where(watches.deep_view(), p, 0) == state_engine::first_where(
                watches.deep_view(),
                p,
                i as int,
            ),
        decreases watches.len() - i,
    {
        assert(watches.deep_view()[i as int] == watches@[i as int].deep_view());
        if watches[i].0 == id {
            return i;
        }
        i += 1;
    }
    i
}

/// The position of the module of that name, or the number of modules.
pub fn module_index(modules: &Vec<ModuleStatus>, name: &str) -> (r: usize)
    ensures
        r == state_engine::first_where(
            modules.deep_view(),
            |m: ModuleView| m.name == name@,
            0,
        ),
        r <= modules.len(),
{
    let ghost p = |m: ModuleView| m.name == name@;
    let mut i: usize = 0;
    while i < modules.len()
        invariant
            i <= modules.len(),
            p == (|m: ModuleView| m.name == name@),
            state_engine::first_where(modules.deep_view(), p, 0) == state_engine::first_where(
                modules.deep_view(),
                p,
                i as int,
            ),
        decreases modules.len() - i,
    {
        assert(modules.deep_view()[i as int] == modules@[i as int].deep_view());
        if text::same(modules[i].name.as_str(), name) {
            return i;
        }
        i += 1;
    }
    i
}

fn set_module(
    modules: &mut Vec<ModuleStatus>,
    name: String,
    status: ModuleLoadState,
    last_error: Option<String>,
    builtin: bool,
)
    ensures
        final(modules).deep_view() == module_set(
            old(modules).deep_view(),
            (ModuleView {
                name: name@,
                status,
                last_error: last_error.deep_view(),
                builtin,
                store: Map::empty(),
            }),
        ),
{
    let i: usize = module_index(modules, name.as_str());
    let ghost before = modules.deep_view();
    if i < modules.len() {
        modules[i].status = status;
        modules[i].last_error = last_error;
        modules[i].builtin = builtin;
        assert(modules.deep_view() =~= before.update(
            i as int,
            ModuleView {
                status,
                last_error: last_error.deep_view(),
                builtin,
                ..before[i as int]
            },
        ));
    } else {
        let m = ModuleStatus { name, status, last_error, builtin, store: Vec::new() };
        let ghost view = m.deep_view();
        modules.push(m);
        assert(modules.deep_view() =~= before.push(view));
    }
}

impl Default for StateEngine {
    fn default() -> (r: Self)
        ensures
            r@ == EngineView::initial(),
            r@.wf(),
    {
        let r = StateEngine {
            subscriptions: SubscriptionTable::default(),
            watches: Vec::new(),
            device_rules: Vec::new(),
            subscription_count: 0,
        };
        assert(r@ =~= EngineView::initial());
        r
    }
}

impl StateEngine {
    /// Carries out a command.
    pub fn handle_command(&mut self, cmd: StateCommand, state: &mut RuntimeState)
        requires
            old(self)@.wf(),
        ensures
            final(self)@.wf(),
            match cmd {
                StateCommand::RegisterSubscription { id, pattern, once } => final(self)@ == (
                EngineView {
                    table: old(self)@.table.add(
                        (SubscriptionView { id: id.0, pattern: pattern@, once }),
                    ),
                    count: count_up(old(self)@.count),
                    ..old(self)@
                }) && final(state)@ == old(state)@,
                StateCommand::RemoveSubscription { id } => final(self)@ == (EngineView {
                    table: old(self)@.table.remove(id.0),
                    count: if old(self)@.table.places.contains_key(id.0) {
                        count_down(old(self)@.count)
                    } else {
                        old(self)@.count
                    },
                    ..old(self)@
                }) && final(state)@ == old(state)@,
                StateCommand::RegisterWatch { id, path } => final(self)@ == (EngineView {
                    watches: watch_set(old(self)@.watches, id.0, path@),
                    ..old(self)@
                }) && final(state)@ == old(state)@,
                StateCommand::RemoveWatch { id } => final(self)@ == (EngineView {
                    watches: watch_removed(old(self)@.watches, id.0),
                    ..old(self)@
                }) && final(state)@ == old(state)@,
                StateCommand::ClearSubscriptions => final(self)@ == (EngineView {
                    table: TableView { next_id: old(self)@.table.next_id, ..TableView::empty() },
                    watches: Seq::empty(),
                    count: 0,
                    ..old(self)@
                }) && final(state)@ == old(state)@,
                StateCommand::ClearModules => final(self)@ == old(self)@ && final(state)@ == (
                RuntimeView { modules: Seq::empty(), ..old(state)@ }),
                StateCommand::ClearWidgets => final(self)@ == old(self)@ && final(state)@ == (
                RuntimeView { widgets: Seq::empty(), ..old(state)@ }),
                StateCommand::SetModuleStatus { name, status, last_error, builtin } => final(self)@
                    == old(self)@ && final(state)@ == (RuntimeView {
                    modules: module_set(
                        old(state)@.modules,
                        ModuleView {
                            name: name@,
                            status,
                            last_error: last_error.deep_view(),
                            builtin,
                            store: Map::empty(),
                        },
                    ),
                    ..old(state)@
                }),
                StateCommand::SetProfile { name } => final(self)@ == old(self)@ && final(state)@
                    == (RuntimeView {
                    profile: old(state)@.profile.activate(name@),
                    ..old(state)@
                }),
                StateCommand::SetDeviceRules(rules) => final(self)@ == (EngineView {
                    rules: rules.deep_view(),
                    ..old(self)@
                }) && final(state)@ == old(state)@,
            },
            cmd is ClearModules ==> final(state)@.modules.len() == 0 && final(state)@.widgets
                == old(state)@.widgets && final(state)@.workflows == old(state)@.workflows,
            cmd is ClearWidgets ==> final(state)@.widgets.len() == 0 && final(state)@.modules
                == old(state)@.modules && final(state)@.workflows == old(state)@.workflows,
            cmd is ClearSubscriptions ==> final(self)@.table.entries.len() == 0
                && final(self)@.watches.len() == 0 && final(self)@.count == 0 && final(self)@.rules
                == old(self)@.rules,
            cmd matches StateCommand::SetProfile { name } ==> final(state)@.profile.active == name@,
            cmd matches StateCommand::RegisterSubscription { id, pattern, once }
                ==> final(self)@.table.entries.last() == (SubscriptionView {
                id: id.0,
                pattern: pattern@,
                once,
            }),
            cmd matches StateCommand::RegisterWatch { id, path } ==> final(self)@.watches.contains(
                (id.0, path@),
            ),
            cmd matches StateCommand::SetModuleStatus { name, status, last_error, builtin } ==> exists|
                i: int,
            |
                0 <= i < final(state)@.modules.len() && (
                #[trigger] final(state)@.modules[i]).name == name@ && final(state)@.modules[i].status
                    == status && final(state)@.modules[i].last_error == last_error.deep_view()
                    && final(state)@.modules[i].builtin == builtin,
    {
        match cmd {
            StateCommand::RegisterSubscription { id, pattern, once } => {
                self.subscriptions.add_with_id(id, pattern, once);
                self.subscription_count = if self.subscription_count == u64::MAX {
                    0
                } else {
                    self.subscription_count + 1
                };
            },
            StateCommand::RemoveSubscription { id } => {
                if self.subscriptions.remove(id) {
                    self.subscription_count = self.subscription_count.wrapping_sub(1);
                }
            },
            StateCommand::RegisterWatch { id, path } => {
                let ghost before = self.watches.deep_view();
                let i: usize = watch_index(&self.watches, id.0);
                let ghost view = path@;
                if i < self.watches.len() {
                    self.watches.set(i, (id.0, path));
                    assert(self.watches.deep_view() =~= before.update(i as int, (id.0, view)));
                } else {
                    self.watches.push((id.0, path));
                    assert(self.watches.deep_view() =~= before.push((id.0, view)));
                }
                assert(self@.watches[i as int] == (id.0, view));
            },
            StateCommand::RemoveWatch { id } => {
                let ghost before = self.watches.deep_view();
                let i: usize = watch_index(&self.watches, id.0);
                if i < self.watches.len() {
                    self.watches.remove(i);
                    assert(self.watches.deep_view() =~= before.remove(i as int));
                }
            },
            StateCommand::ClearSubscriptions => {
                self.subscriptions.clear();
                self.watches.clear();
                self.subscription_count = 0;
                assert(self.watches.deep_view() =~= Seq::empty());
            },
            StateCommand::ClearModules => {
                state.modules.clear();
                assert(state.modules.deep_view() =~= Seq::empty());
            },
            StateCommand::ClearWidgets => {
                state.widgets.clear();
                assert(state.widgets.deep_view() =~= Seq::empty());
            },
            StateCommand::SetModuleStatus { name, status, last_error, builtin } => {
                let ghost m = ModuleView {
                    name: name@,
                    status,
                    last_error: last_error.deep_view(),
                    builtin,
                    store: Map::empty(),
                };
                proof {
                    law_module_status_is_noted(state@.modules, m);
                }
                let ghost after = module_set(state@.modules, m);
                set_module(&mut state.modules, name, status, last_error, builtin);
                proof {
                    let i = choose|i: int|
                        0 <= i < after.len() && (#[trigger] after[i]).name == m.name
                            && after[i].status == m.status && after[i].last_error == m.last_error
                            && after[i].builtin == m.builtin;
                    assert(state@.modules == after);
                    assert(state@.modules[i].name == m.name);
                }
            },
            StateCommand::SetProfile { name } => {
                state.profile.activate(name.as_str());
            },
            StateCommand::SetDeviceRules(rules) => {
                self.device_rules = rules;
            },
        }
    }
}

/// How far the telling of subscribers has come: the subscriptions that are
/// left, their count, and what is to be done outside.
#[verifier::ext_equal]
pub struct Telling {
    pub table: TableView,
    pub count: u64,
    pub effects: Seq<EffectView>,
}

/// The subscriptions among `subs` that end with their first event.
pub open spec fn once_only(subs: Seq<SubscriptionView>) -> Seq<SubscriptionView> {
    subs.filter(|s: SubscriptionView| s.once)
}

/// After each of `subs` was removed, in order, and its handler told so.
pub open spec fn cancelled(t: Telling, subs: Seq<SubscriptionView>) -> Telling
    decreases subs.len(),
{
    if subs.len() == 0 {
        t
    } else {
        let before = cancelled(t, subs.drop_last());
        let id = subs.last().id;
        Telling {
            table: before.table.remove(id),
            count: if before.table.places.contains_key(id) {
                count_down(before.count)
            } else {
                before.count
            },
            effects: before.effects.push(EffectView::Cancelled(id)),
        }
    }
}

/// The deliveries of one event to each of `subs`.
pub open spec fn deliveries(subs: Seq<SubscriptionView>, event: EventView) -> Seq<EffectView> {
    subs.map_values(|s: SubscriptionView| EffectView::Deliver(s.id, event))
}

/// After an event was published and delivered to the subscriptions that match
/// it; those that were for one event only have ended.
pub open spec fn told(t: Telling, event: EventView) -> Telling {
    let subs = t.table.matching(event.event);
    cancelled(
        Telling {
            effects: t.effects.push(EffectView::Publish(event)) + deliveries(subs, event),
            ..t
        },
        once_only(subs),
    )
}

/// The value at a path, or null where there is none.
pub open spec fn watched(v: Json, path: Seq<char>) -> Json {
    match json::at_path(v, path) {
        Some(v) => v,
        None => Json::Null,
    }
}

/// The event that tells of a change of what a path names.
pub open spec fn change_event(path: Seq<char>, new: Json, old: Json, now: u64) -> EventView {
    EventView {
        event: "bread.state.changed."@ + path,
        timestamp: now,
        source: Source::System,
        data: Json::empty().with("path"@, Json::Text(path)).with("new"@, new).with("old"@, old),
    }
}

/// After the change of each watched path between two snapshots was told.
pub open spec fn changes_told(
    t: Telling,
    watches: Seq<(u64, Seq<char>)>,
    before: Json,
    after: Json,
    now: u64,
) -> Telling
    decreases watches.len(),
{
    if watches.len() == 0 {
        t
    } else {
        let so_far = changes_told(t, watches.drop_last(), before, after, now);
        let path = watches.last().1;
        let new = watched(after, path);
        let old = watched(before, path);
        if new == old {
            so_far
        } else {
            told(so_far, change_event(path, new, old, now))
        }
    }
}

/// Events of that name tell of a device.
pub open spec fn is_device_event(name: Seq<char>) -> bool {
    name == "bread.device.connected"@ || name == "bread.device.disconnected"@
}

/// The device with the given id.
pub open spec fn device_of(id: Seq<char>) -> spec_fn(DeviceView) -> bool {
    |d: DeviceView| d.id == id
}

/// The name of the device that an event is about. A device that is being
/// disconnected keeps the name that it was connected under.
pub open spec fn event_device(
    rules: Seq<RuleView>,
    s: RuntimeView,
    name: Seq<char>,
    data: Json,
) -> Seq<char> {
    let id = state_engine::device_id(data);
    let i = state_engine::first_where(s.devices, device_of(id), 0);
    if name == "bread.device.disconnected"@ && i < s.devices.len() {
        s.devices[i].device
    } else {
        state_engine::device_name(rules, data)
    }
}

/// A device event with the name of the device in its data; any other event is
/// unchanged.
pub open spec fn named_event(rules: Seq<RuleView>, s: RuntimeView, event: EventView) -> EventView {
    if is_device_event(event.event) {
        EventView {
            data: event.data.with(
                "device"@,
                Json::Text(event_device(rules, s, event.event, event.data)),
            ),
            ..event
        }
    } else {
        event
    }
}

/// The event under the device's own name that goes with a device event.
pub open spec fn companion_event(
    rules: Seq<RuleView>,
    s: RuntimeView,
    event: EventView,
    now: u64,
) -> EventView {
    let device = event_device(rules, s, event.event, event.data);
    let verb = if event.event == "bread.device.disconnected"@ {
        "disconnected"@
    } else {
        "connected"@
    };
    EventView {
        event: "bread.device."@ + device + "."@ + verb,
        timestamp: now,
        source: Source::Udev,
        data: Json::empty().with("id"@, Json::Text(state_engine::device_id(event.data))).with(
            "device"@,
            Json::Text(device),
        ),
    }
}

/// The state of the desktop after the event itself.
pub open spec fn state_after(rules: Seq<RuleView>, s: RuntimeView, event: EventView) -> RuntimeView {
    state_engine::after_event(s, event.event, named_event(rules, s, event).data)
}

/// The state of the desktop after the event and its companion.
pub open spec fn state_after_all(
    rules: Seq<RuleView>,
    s: RuntimeView,
    event: EventView,
    now: u64,
) -> RuntimeView {
    let s1 = state_after(rules, s, event);
    if is_device_event(event.event) {
        let companion = companion_event(rules, s, event, now);
        state_engine::after_event(s1, companion.event, companion.data)
    } else {
        s1
    }
}

/// All that is told on account of an event: the event, its companion, and the
/// changes of what is watched.
pub open spec fn all_told(e: EngineView, s: RuntimeView, event: EventView, now: u64) -> Telling {
    let start = Telling { table: e.table, count: e.count, effects: Seq::empty() };
    let first = told(start, named_event(e.rules, s, event));
    let second = if is_device_event(event.event) {
        told(first, companion_event(e.rules, s, event, now))
    } else {
        first
    };
    changes_told(
        second,
        e.watches,
        snapshot::state_json(s),
        snapshot::state_json(state_after(e.rules, s, event)),
        now,
    )
}

fn device_index(devices: &Vec<crate::types::Device>, id: &str) -> (r: usize)
    ensures
        r == state_engine::first_where(devices.deep_view(), device_of(id@), 0),
        r <= devices.len(),
{
    let ghost p = device_of(id@);
    let mut i: usize = 0;
    while i < devices.len()
        invariant
            i <= devices.len(),
            p == device_of(id@),
            state_engine::first_where(devices.deep_view(), p, 0) == state_engine::first_where(
                devices.deep_view(),
                p,
                i as int,
            ),
        decreases devices.len() - i,
    {
        assert(devices.deep_view()[i as int] == devices@[i as int].deep_view());
        if text::same(devices[i].id.as_str(), id) {
            return i;
        }
        i += 1;
    }
    i
}

impl StateEngine {
    /// Publishes an event, delivers it to the subscriptions that match it, and
    /// ends those of them that were for one event only.
    pub fn dispatch_event(&mut self, event: &BreadEvent, effects: &mut Vec<Effect>)
        requires
            old(self)@.wf(),
        ensures
            final(self)@.wf(),
            ({
                let after = told(
                    Telling {
                        table: old(self)@.table,
                        count: old(self)@.count,
                        effects: old(effects).deep_view(),
                    },
                    event.deep_view(),
                );
                &&& final(self)@ == (EngineView {
                    table: after.table,
                    count: after.count,
                    ..old(self)@
                })
                &&& final(effects).deep_view() == after.effects
            }),
    {
        let ghost view = event.deep_view();
        let ghost start = effects.deep_view();
        effects.push(Effect::Publish(event.duplicate()));
        assert(effects.deep_view() =~= start.push(EffectView::Publish(view)));
        let matches = self.subscriptions.match_event(event.event.as_str());
        let ghost subs = matches.deep_view();
        let ghost base = effects.deep_view();
        let mut i: usize = 0;
        assert(base + deliveries(subs.take(0), view) =~= base);
        while i < matches.len()
            invariant
                i <= matches.len(),
                subs == matches.deep_view(),
                view == event.deep_view(),
                effects.deep_view() == base + deliveries(subs.take(i as int), view),
            decreases matches.len() - i,
        {
            let ghost so_far = effects.deep_view();
            assert(subs[i as int] == matches@[i as int].deep_view());
            effects.push(
                Effect::Deliver { subscription_id: matches[i].id, event: event.duplicate() },
            );
            i += 1;
            assert(effects.deep_view() =~= so_far.push(EffectView::Deliver(subs[i - 1].id, view)));
            assert(base + deliveries(subs.take(i as int), view) =~= (base + deliveries(
                subs.take(i - 1),
                view,
            )).push(EffectView::Deliver(subs[i - 1].id, view)));
        }
        assert(subs.take(subs.len() as int) =~= subs);
        let ghost from = Telling {
            table: self@.table,
            count: self@.count,
            effects: effects.deep_view(),
        };
        let ghost once = |s: SubscriptionView| s.once;
        let mut k: usize = 0;
        assert(subs.take(0).filter(once) =~= Seq::empty()) by {
            reveal(Seq::filter);
        }
        while k < matches.len()
            invariant
                k <= matches.len(),
                subs == matches.deep_view(),
                once == (|s: SubscriptionView| s.once),
                self@.wf(),
                self@ == (EngineView { table: self@.table, count: self@.count, ..old(self)@ }),
                (Telling {
                    table: self@.table,
                    count: self@.count,
                    effects: effects.deep_view(),
                }) == cancelled(from, subs.take(k as int).filter(once)),
            decreases matches.len() - k,
        {
            let ghost so_far = effects.deep_view();
            proof {
                reveal(Seq::filter);
                assert(subs.take(k + 1).drop_last() =~= subs.take(k as int));
                assert(subs.take(k + 1).last() == matches@[k as int].deep_view());
            }
            if matches[k].once {
                let id = matches[k].id;
                if self.subscriptions.remove(id) {
                    self.subscription_count = self.subscription_count.wrapping_sub(1);
                }
                effects.push(Effect::Cancelled { id });
                proof {
                    assert(effects.deep_view() =~= so_far.push(EffectView::Cancelled(id.0)));
                    let done = subs.take(k as int).filter(once);
                    assert(done.push(subs[k as int]).drop_last() =~= done);
                }
            }
            k += 1;
        }
        assert(subs.take(subs.len() as int) =~= subs);
    }

    fn tell_changes(&mut self, before: &JsonValue, after: &JsonValue, now: u64, effects: &mut Vec<Effect>)
        requires
            old(self)@.wf(),
        ensures
            final(self)@.wf(),
            ({
                let end = changes_told(
                    Telling {
                        table: old(self)@.table,
                        count: old(self)@.count,
                        effects: old(effects).deep_view(),
                    },
                    old(self)@.watches,
                    before@,
                    after@,
                    now,
                );
                &&& final(self)@ == (EngineView { table: end.table, count: end.count, ..old(self)@ })
                &&& final(effects).deep_view() == end.effects
            }),
    {
        let ghost watches = self@.watches;
        let ghost from = Telling {
            table: self@.table,
            count: self@.count,
            effects: effects.deep_view(),
        };
        let mut i: usize = 0;
        assert(watches.take(0) =~= Seq::empty());
        let n: usize = self.watches.len();
        while i < n
            invariant
                i <= n,
                n == watches.len(),
                watches == old(self)@.watches,
                self@.wf(),
                self@ == (EngineView { table: self@.table, count: self@.count, ..old(self)@ }),
                (Telling {
                    table: self@.table,
                    count: self@.count,
                    effects: effects.deep_view(),
                }) == changes_told(from, watches.take(i as int), before@, after@, now),
            decreases n - i,
        {
            proof {
                assert(self@.watches.len() == self.watches@.len());
                assert(watches.take(i + 1).drop_last() =~= watches.take(i as int));
                assert(watches.take(i + 1).last() == self.watches@[i as int].deep_view());
            }
            let path = self.watches[i].1.clone();
            let old_val = match json::value_at_path(before, path.as_str()) {
                Some(v) => v,
                None => JsonValue::Null,
            };
            let new_val = match json::value_at_path(after, path.as_str()) {
                Some(v) => v,
                None => JsonValue::Null,
            };
            if !old_val.equals(&new_val) {
                let name = text::concat("bread.state.changed.", path.as_str());
                let data = JsonValue::empty().with("path", JsonValue::of_text(path.as_str())).with(
                    "new",
                    new_val,
                ).with("old", old_val);
                let synthetic = BreadEvent::new(name.as_str(), AdapterSource::System, data, now);
                self.dispatch_event(&synthetic, effects);
            }
            i += 1;
        }
        assert(watches.take(watches.len() as int) =~= watches);
    }

    /// Brings the state of the desktop up to date with an event and tells
    /// whoever is to know. Device events are given the name of the device
    /// before anyone sees them.
    pub fn handle_event(&mut self, event: BreadEvent, state: &mut RuntimeState, now: u64) -> (r: Vec<
        Effect,
    >)
        requires
            old(self)@.wf(),
        ensures
            final(self)@.wf(),
            final(state)@ == state_after_all(
                old(self)@.rules,
                old(state)@,
                event.deep_view(),
                now,
            ),
            ({
                let end = all_told(old(self)@, old(state)@, event.deep_view(), now);
                &&& final(self)@ == (EngineView { table: end.table, count: end.count, ..old(self)@ })
                &&& r.deep_view() == end.effects
            }),
    {
        let mut effects: Vec<Effect> = Vec::new();
        assert(effects.deep_view() =~= Seq::empty());
        let ghost given = event.deep_view();
        let mut event = event;
        let mut companion: Option<BreadEvent> = None;
        let connected = text::same(event.event.as_str(), "bread.device.connected");
        let disconnected = text::same(event.event.as_str(), "bread.device.disconnected");
        if connected || disconnected {
            let id = event.data.text_or("id", "unknown");
            let i: usize = device_index(&state.devices.connected, id.as_str());
            let device = if disconnected && i < state.devices.connected.len() {
                assert(state@.devices[i as int] == state.devices.connected@[i as int].deep_view());
                state.devices.connected[i].device.clone()
            } else {
                state_engine::resolve_device(&self.device_rules, &event.data)
            };
            let BreadEvent { event: name, timestamp, source, data } = event;
            event = BreadEvent {
                event: name,
                timestamp,
                source,
                data: data.with("device", JsonValue::of_text(device.as_str())),
            };
            let verb = if disconnected {
                "disconnected"
            } else {
                "connected"
            };
            let mut full = text::concat("bread.device.", device.as_str());
            full.append(".");
            full.append(verb);
            companion = Some(
                BreadEvent::new(
                    full.as_str(),
                    AdapterSource::Udev,
                    JsonValue::empty().with("id", JsonValue::of_text(id.as_str())).with(
                        "device",
                        JsonValue::of_text(device.as_str()),
                    ),
                    now,
                ),
            );
        }
        let watching = self.watches.len() > 0;
        let before = if watching {
            snapshot::state_dump(state)
        } else {
            JsonValue::Null
        };
        state_engine::apply_event_to_state(state, &event);
        let after = if watching {
            snapshot::state_dump(state)
        } else {
            JsonValue::Null
        };
        self.dispatch_event(&event, &mut effects);
        if let Some(companion) = companion {
            state_engine::apply_event_to_state(state, &companion);
            self.dispatch_event(&companion, &mut effects);
        }
        if watching {
            self.tell_changes(&before, &after, now, &mut effects);
        }
        effects
    }
}

proof fn lemma_filter_contains<T>(s: Seq<T>, p: spec_fn(T) -> bool, x: T)
    ensures
        s.filter(p).contains(x) <==> s.contains(x) && p(x),
    decreases s.len(),
{
    reveal(Seq::filter);
    if s.len() > 0 {
        let rest = s.drop_last();
        lemma_filter_contains(rest, p, x);
        let n = s.len() - 1;
        if s.contains(x) && p(x) {
            let i = choose|i: int| 0 <= i < s.len() && s[i] == x;
            if i < n {
                assert(rest[i] == x);
                let k = choose|k: int| 0 <= k < rest.filter(p).len() && rest.filter(p)[k] == x;
                assert(s.filter(p)[k] == x);
            } else {
                assert(s.filter(p).last() == x);
            }
        }
        if s.filter(p).contains(x) {
            let k = choose|k: int| 0 <= k < s.filter(p).len() && s.filter(p)[k] == x;
            if k < rest.filter(p).len() {
                assert(rest.filter(p)[k] == x);
                let i = choose|i: int| 0 <= i < rest.len() && rest[i] == x;
                assert(s[i] == x);
            } else {
                assert(s[n] == x);
            }
        }
    }
}

/// Every subscription can be found by its id, and the count is theirs.
pub open spec fn counted(table: TableView, count: u64) -> bool {
    &&& table.wf()
    &&& table.indexed()
    &&& count == table.entries.len()
}

proof fn lemma_cancelled(t: Telling, subs: Seq<SubscriptionView>)
    requires
        counted(t.table, t.count),
    ensures
        counted(cancelled(t, subs).table, cancelled(t, subs).count),
        forall|sub: SubscriptionView| #[trigger]
            cancelled(t, subs).table.entries.contains(sub) <==> t.table.entries.contains(sub) && (
            forall|j: int| 0 <= j < subs.len() ==> (#[trigger] subs[j]).id != sub.id),
    decreases subs.len(),
{
    if subs.len() > 0 {
        let rest = subs.drop_last();
        let before = cancelled(t, rest);
        let id = subs.last().id;
        lemma_cancelled(t, rest);
        crate::subscriptions::law_remove_takes_one_entry(before.table, id);
        let after = cancelled(t, subs);
        assert forall|sub: SubscriptionView| #[trigger]
            after.table.entries.contains(sub) implies t.table.entries.contains(sub) && (forall|
            j: int,
        |
            0 <= j < subs.len() ==> (#[trigger] subs[j]).id != sub.id) by {
            assert(before.table.entries.contains(sub));
            assert forall|j: int| 0 <= j < subs.len() implies (#[trigger] subs[j]).id != sub.id by {
                if j < rest.len() {
                    assert(rest[j] == subs[j]);
                }
            }
        }
        assert forall|sub: SubscriptionView|
            t.table.entries.contains(sub) && (forall|j: int|
                0 <= j < subs.len() ==> (#[trigger] subs[j]).id != sub.id) implies (
        #[trigger] after.table.entries.contains(sub)) by {
            assert forall|j: int| 0 <= j < rest.len() implies (#[trigger] rest[j]).id != sub.id by {
                assert(rest[j] == subs[j]);
            }
            assert(before.table.entries.contains(sub));
            assert(subs[subs.len() - 1].id != sub.id);
        }
    }
}

/// Where every subscription has an id of its own, telling of an event ends
/// exactly the matching subscriptions that were for one event only, and the
/// count stays the number of subscriptions.
pub proof fn law_once_subscriptions_end(t: Telling, event: EventView)
    requires
        counted(t.table, t.count),
    ensures
        counted(told(t, event).table, told(t, event).count),
        forall|sub: SubscriptionView| #[trigger]
            told(t, event).table.entries.contains(sub) <==> t.table.entries.contains(sub) && !(
            sub.once && crate::subscriptions::wants(sub, event.event)),
{
    let want = |s: SubscriptionView| crate::subscriptions::wants(s, event.event);
    let once = |s: SubscriptionView| s.once;
    let subs = t.table.matching(event.event);
    let ending = once_only(subs);
    let from = Telling {
        effects: t.effects.push(EffectView::Publish(event)) + deliveries(subs, event),
        ..t
    };
    lemma_cancelled(from, ending);
    assert forall|sub: SubscriptionView| #[trigger]
        t.table.entries.contains(sub) implies ((forall|j: int|
        0 <= j < ending.len() ==> (#[trigger] ending[j]).id != sub.id) <==> !(sub.once
        && crate::subscriptions::wants(sub, event.event))) by {
        lemma_filter_contains(t.table.entries, want, sub);
        lemma_filter_contains(subs, once, sub);
        if sub.once && crate::subscriptions::wants(sub, event.event) {
            assert(ending.contains(sub));
            let j = choose|j: int| 0 <= j < ending.len() && ending[j] == sub;
            assert(ending[j].id == sub.id);
        }
        if exists|j: int| 0 <= j < ending.len() && (#[trigger] ending[j]).id == sub.id {
            let j = choose|j: int| 0 <= j < ending.len() && (#[trigger] ending[j]).id == sub.id;
            let other = ending[j];
            assert(ending.contains(other));
            lemma_filter_contains(t.table.entries, want, other);
            lemma_filter_contains(subs, once, other);
            let a = choose|a: int| 0 <= a < t.table.entries.len() && t.table.entries[a] == sub;
            let b = choose|b: int| 0 <= b < t.table.entries.len() && t.table.entries[b] == other;
            assert(t.table.places[t.table.entries[a].id] == a);
            assert(t.table.places[t.table.entries[b].id] == b);
        }
    }
    assert(told(t, event) == cancelled(from, ending));
    assert(from.table == t.table);
}

proof fn lemma_cancelled_extends(t: Telling, subs: Seq<SubscriptionView>)
    ensures
        t.effects.len() <= cancelled(t, subs).effects.len(),
        cancelled(t, subs).effects.take(t.effects.len() as int) == t.effects,
    decreases subs.len(),
{
    if subs.len() > 0 {
        lemma_cancelled_extends(t, subs.drop_last());
        let before = cancelled(t, subs.drop_last()).effects;
        let after = cancelled(t, subs).effects;
        assert(after.take(t.effects.len() as int) =~= before.take(t.effects.len() as int));
    } else {
        assert(t.effects.take(t.effects.len() as int) =~= t.effects);
    }
}

/// Telling of an event only adds to what is to be done, and the first thing
/// that it adds is the publication of the event.
pub proof fn law_published_first(t: Telling, event: EventView)
    ensures
        t.effects.len() < told(t, event).effects.len(),
        told(t, event).effects.take(t.effects.len() as int) == t.effects,
        told(t, event).effects[t.effects.len() as int] == EffectView::Publish(event),
{
    let subs = t.table.matching(event.event);
    let from = Telling {
        effects: t.effects.push(EffectView::Publish(event)) + deliveries(subs, event),
        ..t
    };
    lemma_cancelled_extends(from, once_only(subs));
    let after = told(t, event).effects;
    let n = t.effects.len() as int;
    assert forall|i: int| 0 <= i <= n implies #[trigger] after[i] == from.effects[i] by {
        assert(after.take(from.effects.len() as int)[i] == after[i]);
    }
    assert(after.take(n) =~= t.effects);
}

/// When a step leaves what the paths name as it was, nothing is told of them.
pub proof fn law_no_change_no_news(
    t: Telling,
    watches: Seq<(u64, Seq<char>)>,
    before: Json,
    after: Json,
    now: u64,
)
    requires
        forall|i: int|
            0 <= i < watches.len() ==> watched(before, (#[trigger] watches[i]).1) == watched(
                after,
                watches[i].1,
            ),
    ensures
        changes_told(t, watches, before, after, now) == t,
    decreases watches.len(),
{
    if watches.len() > 0 {
        let rest = watches.drop_last();
        assert forall|i: int| 0 <= i < rest.len() implies watched(before, (#[trigger] rest[i]).1)
            == watched(after, rest[i].1) by {
            assert(rest[i] == watches[i]);
        }
        law_no_change_no_news(t, rest, before, after, now);
        assert(watches[watches.len() - 1] == watches.last());
    }
}

/// No two watches share an id.
pub open spec fn unique_watches(watches: Seq<(u64, Seq<char>)>) -> bool {
    forall|i: int, j: int|
        0 <= i < j < watches.len() ==> (#[trigger] watches[i]).0 != (#[trigger] watches[j]).0
}

/// Setting and removing watches keeps one watch to an id.
pub proof fn law_watches_stay_unique(watches: Seq<(u64, Seq<char>)>, id: u64, path: Seq<char>)
    requires
        unique_watches(watches),
    ensures
        unique_watches(watch_set(watches, id, path)),
        unique_watches(watch_removed(watches, id)),
        watch_set(watches, id, path).contains((id, path)),
        forall|p: Seq<char>| !(#[trigger] watch_removed(watches, id).contains((id, p))),
{
    state_engine::lemma_first_where(watches, watch_of(id), 0);
    let i = state_engine::first_where(watches, watch_of(id), 0);
    let set = watch_set(watches, id, path);
    let removed = watch_removed(watches, id);
    if i < watches.len() {
        assert(set[i] == (id, path));
    } else {
        assert(set[watches.len() as int] == (id, path));
    }
    assert forall|a: int, b: int| 0 <= a < b < set.len() implies (#[trigger] set[a]).0 != (
    #[trigger] set[b]).0 by {
        if b < watches.len() {
            assert(set[b].0 == watches[b].0);
            assert(set[a].0 == watches[a].0);
        } else {
            assert(!watch_of(id)(watches[a]));
            assert(set[a] == watches[a]);
        }
    }
    assert forall|p: Seq<char>| !(#[trigger] removed.contains((id, p))) by {
        if removed.contains((id, p)) {
            let k = choose|k: int| 0 <= k < removed.len() && removed[k] == (id, p);
            if i < watches.len() {
                let m = if k < i {
                    k
                } else {
                    k + 1
                };
                assert(watches[m] == (id, p));
                assert(watches[i].0 == id);
            } else {
                assert(!watch_of(id)(watches[k]));
            }
        }
    }
}

/// A device is told of under one name as long as it is connected: when it goes,
/// the event has the name that it came under, whatever rules are in force by
/// then and however little is said of it.
pub proof fn law_device_keeps_its_name(
    rules: Seq<RuleView>,
    later: Seq<RuleView>,
    s: RuntimeView,
    connect: EventView,
    data: Json,
    now: u64,
)
    requires
        connect.event == "bread.device.connected"@,
        connect.data is Object,
        !state_engine::is_connected(s.devices, state_engine::device_id(connect.data)),
        state_engine::device_id(data) == state_engine::device_id(connect.data),
    ensures
        event_device(
            later,
            state_after_all(rules, s, connect, now),
            "bread.device.disconnected"@,
            data,
        ) == event_device(rules, s, connect.event, connect.data),
{
    let id = state_engine::device_id(data);
    let name = event_device(rules, s, connect.event, connect.data);
    let told = named_event(rules, s, connect).data;
    reveal_strlit("id");
    reveal_strlit("device");
    assert("id"@.len() != "device"@.len());
    state_engine::lemma_device_connects(s, told);
    let s1 = state_after(rules, s, connect);
    let companion = companion_event(rules, s, connect, now);
    reveal_strlit("bread.device.connected");
    reveal_strlit("bread.device.disconnected");
    assert("bread.device.connected"@.len() != "bread.device.disconnected"@.len());
    state_engine::lemma_named_device_events(s1, name, "connected"@, companion.data);
    state_engine::lemma_first_where(s1.devices, device_of(id), 0);
    let i = state_engine::first_where(s1.devices, device_of(id), 0);
    assert(s1.devices[s.devices.len() as int].id == id);
    assert(device_of(id)(s1.devices[s.devices.len() as int]));
    if i < s.devices.len() {
        assert(s1.devices[i] == s.devices[i]);
    }
}

/// What the daemon tells by itself has names that clients cannot use: the event
/// under a device's own name, and the one that tells of a change of the state.
pub proof fn law_own_names_are_reserved(
    rules: Seq<RuleView>,
    s: RuntimeView,
    event: EventView,
    path: Seq<char>,
    new: Json,
    old: Json,
    now: u64,
)
    ensures
        apps::reserved_event(companion_event(rules, s, event, now).event),
        apps::reserved_event(change_event(path, new, old, now).event),
{
    reveal_strlit("bread.");
    reveal_strlit(".");
    reveal_strlit("device");
    reveal_strlit("bread.device.");
    reveal_strlit("bread.state.changed.");
    reveal_strlit("state");
    reveal_strlit("changed.");
    let name = companion_event(rules, s, event, now).event;
    let rest = name.subrange(13, name.len() as int);
    assert("bread.device."@ =~= "bread."@ + "device"@ + "."@);
    assert(name =~= "bread.device."@ + rest);
    apps::lemma_below("bread.device."@, "device"@, rest);
    let head = "bread."@ + "state"@ + "."@;
    assert("bread.state.changed."@ + path =~= head + ("changed."@ + path));
    apps::lemma_below(head, "state"@, "changed."@ + path);
}

/// Telling of an event publishes it first and then delivers it to every subscription
/// that wants it, and to no other, in the order of the subscriptions; those that want
/// one event only are cancelled after that.
pub proof fn law_event_reaches_who_wants_it(t: Telling, event: EventView, sub: SubscriptionView)
    ensures
        ({
            let after = told(t, event).effects;
            let wanting = t.table.entries.filter(
                |s: SubscriptionView| crate::glob::pattern_matches(s.pattern, event.event),
            );
            let k = t.effects.len() as int;
            &&& after.len() >= k + 1 + wanting.len()
            &&& after[k] == EffectView::Publish(event)
            &&& forall|i: int|
                0 <= i < wanting.len() ==> after[k + 1 + i] == EffectView::Deliver(
                    (#[trigger] wanting[i]).id,
                    event,
                )
            &&& forall|i: int|
                k + 1 + wanting.len() <= i < after.len() ==> (#[trigger] after[i]) is Cancelled
            &&& t.table.entries.contains(sub) && crate::glob::pattern_matches(
                sub.pattern,
                event.event,
            ) ==> after.contains(EffectView::Deliver(sub.id, event))
            &&& t.table.entries.contains(sub) && crate::glob::pattern_matches(
                sub.pattern,
                event.event,
            ) && sub.once ==> after.contains(EffectView::Cancelled(sub.id))
        }),
{
    let p = |s: SubscriptionView| crate::subscriptions::wants(s, event.event);
    let q = |s: SubscriptionView| crate::glob::pattern_matches(s.pattern, event.event);
    assert(p =~= q);
    let subs = t.table.matching(event.event);
    let once = once_only(subs);
    let start = Telling {
        effects: t.effects.push(EffectView::Publish(event)) + deliveries(subs, event),
        ..t
    };
    lemma_cancelled_effects(start, once);
    let after = told(t, event).effects;
    let k = t.effects.len() as int;
    assert(after == start.effects + cancellations(once));
    assert forall|i: int| 0 <= i < subs.len() implies after[k + 1 + i] == EffectView::Deliver(
        (#[trigger] subs[i]).id,
        event,
    ) by {
        assert(deliveries(subs, event)[i] == EffectView::Deliver(subs[i].id, event));
    }
    state_engine::lemma_kept(t.table.entries, p, sub);
    state_engine::lemma_kept(subs, |s: SubscriptionView| s.once, sub);
    if subs.contains(sub) {
        let i = choose|i: int| 0 <= i < subs.len() && subs[i] == sub;
        assert(after[k + 1 + i] == EffectView::Deliver(sub.id, event));
        if sub.once {
            let j = choose|j: int| 0 <= j < once.len() && once[j] == sub;
            assert(cancellations(once)[j] == EffectView::Cancelled(sub.id));
            assert(after[start.effects.len() + j] == EffectView::Cancelled(sub.id));
        }
    }
}

/// The news that subscriptions have ended.
spec fn cancellations(subs: Seq<SubscriptionView>) -> Seq<EffectView> {
    subs.map_values(|s: SubscriptionView| EffectView::Cancelled(s.id))
}

proof fn lemma_cancelled_effects(t: Telling, subs: Seq<SubscriptionView>)
    ensures
        cancelled(t, subs).effects == t.effects + cancellations(subs),
    decreases subs.len(),
{
    if subs.len() > 0 {
        lemma_cancelled_effects(t, subs.drop_last());
        assert(cancellations(subs) =~= cancellations(subs.drop_last()).push(
            EffectView::Cancelled(subs.last().id),
        ));
        assert(cancelled(t, subs).effects =~= t.effects + cancellations(subs));
    } else {
        assert(t.effects + cancellations(subs) =~= t.effects);
    }
}

/// What was told stays told while more is told.
proof fn lemma_told_on(t: Telling, event: EventView)
    ensures
        t.effects.len() < told(t, event).effects.len(),
        forall|i: int|
            0 <= i < t.effects.len() ==> told(t, event).effects[i] == #[trigger] t.effects[i],
{
    law_published_first(t, event);
    let after = told(t, event).effects;
    assert forall|i: int| 0 <= i < t.effects.len() implies after[i] == #[trigger] t.effects[i] by {
        assert(after.take(t.effects.len() as int)[i] == after[i]);
    }
}

proof fn lemma_changes_told_on(
    t: Telling,
    watches: Seq<(u64, Seq<char>)>,
    before: Json,
    after: Json,
    now: u64,
)
    ensures
        t.effects.len() <= changes_told(t, watches, before, after, now).effects.len(),
        forall|i: int|
            0 <= i < t.effects.len() ==> changes_told(t, watches, before, after, now).effects[i]
                == #[trigger] t.effects[i],
    decreases watches.len(),
{
    if watches.len() > 0 {
        let rest = watches.drop_last();
        lemma_changes_told_on(t, rest, before, after, now);
        let so_far = changes_told(t, rest, before, after, now);
        let path = watches.last().1;
        lemma_told_on(
            so_far,
            change_event(path, watched(after, path), watched(before, path), now),
        );
        assert forall|i: int| 0 <= i < t.effects.len() implies changes_told(
            t,
            watches,
            before,
            after,
            now,
        ).effects[i] == #[trigger] t.effects[i] by {
            assert(so_far.effects[i] == t.effects[i]);
        }
    }
}

/// A part of the state that someone watches and that an event changes is told of as
/// `bread.state.changed.` and the path, with the path, the new value and the old one.
pub proof fn law_watched_changes_are_told(
    t: Telling,
    watches: Seq<(u64, Seq<char>)>,
    before: Json,
    after: Json,
    now: u64,
    w: int,
    old: Json,
    new: Json,
)
    requires
        0 <= w < watches.len(),
        old == (match json::at_path(before, watches[w].1) {
            Some(v) => v,
            None => Json::Null,
        }),
        new == (match json::at_path(after, watches[w].1) {
            Some(v) => v,
            None => Json::Null,
        }),
        old != new,
    ensures
        exists|e: EventView| #[trigger]
            changes_told(t, watches, before, after, now).effects.contains(EffectView::Publish(e))
                && e.event == "bread.state.changed."@ + watches[w].1 && e.timestamp == now && e.source
                == Source::System && e.data.get("path"@) == Some(Json::Text(watches[w].1))
                && e.data.get("new"@) == Some(new) && e.data.get("old"@) == Some(old),
    decreases watches.len(),
{
    reveal_strlit("path");
    reveal_strlit("new");
    reveal_strlit("old");
    assert("path"@.len() == 4);
    assert("new"@.len() == 3);
    assert("old"@.len() == 3);
    assert("new"@[0] != "old"@[0]);
    let rest = watches.drop_last();
    let so_far = changes_told(t, rest, before, after, now);
    let all = changes_told(t, watches, before, after, now).effects;
    let path = watches.last().1;
    let event = change_event(path, watched(after, path), watched(before, path), now);
    lemma_told_on(so_far, event);
    lemma_changes_told_on(t, rest, before, after, now);
    if w < watches.len() - 1 {
        assert(rest[w] == watches[w]);
        law_watched_changes_are_told(t, rest, before, after, now, w, old, new);
        let e = choose|e: EventView| #[trigger]
            so_far.effects.contains(EffectView::Publish(e)) && e.event == "bread.state.changed."@
                + watches[w].1 && e.timestamp == now && e.source == Source::System && e.data.get(
                "path"@,
            ) == Some(Json::Text(watches[w].1)) && e.data.get("new"@) == Some(new) && e.data.get(
                "old"@,
            ) == Some(old);
        let i = choose|i: int|
            0 <= i < so_far.effects.len() && so_far.effects[i] == EffectView::Publish(e);
        assert(all[i] == so_far.effects[i]);
        assert(all.contains(EffectView::Publish(e)));
    } else {
        law_published_first(so_far, event);
        assert(all[so_far.effects.len() as int] == EffectView::Publish(event));
        assert(all.contains(EffectView::Publish(event)));
        assert(event.data.get("path"@) == Some(Json::Text(path)));
        assert(event.data.get("new"@) == Some(new));
        assert(event.data.get("old"@) == Some(old));
    }
}

/// An event that tells of no device is published as it is. One of a device that comes
/// is published with the name that the rules give it, and so is an event of its own,
/// `bread.device.`, the name and `.connected`.
pub proof fn law_connected_devices_are_told_by_name(
    e: EngineView,
    s: RuntimeView,
    event: EventView,
    now: u64,
)
    requires
        event.data is Object,
    ensures
        ({
            let effects = all_told(e, s, event, now).effects;
            let name = state_engine::device_name(e.rules, event.data);
            &&& effects.len() > 0
            &&& event.event != "bread.device.connected"@ && event.event
                != "bread.device.disconnected"@ ==> effects[0] == EffectView::Publish(event)
            &&& event.event == "bread.device.connected"@ ==> {
                &&& effects[0] matches EffectView::Publish(p) && p.event == event.event
                    && p.data.get("device"@) == Some(Json::Text(name)) && p.timestamp
                    == event.timestamp && p.source == event.source
                &&& exists|p: EventView| #[trigger]
                    effects.contains(EffectView::Publish(p)) && p.event == "bread.device."@ + name + ".connected"@ && p.data.get(
                        "device"@,
                    ) == Some(Json::Text(name)) && p.data.get("id"@) == Some(
                        match event.data.get("id"@) {
                            Some(Json::Text(t)) => Json::Text(t),
                            _ => Json::Text("unknown"@),
                        },
                    ) && p.timestamp == now
            }
        }),
{
    reveal_strlit("bread.device.connected");
    reveal_strlit("bread.device.disconnected");
    reveal_strlit("id");
    reveal_strlit("device");
    reveal_strlit(".");
    reveal_strlit("connected");
    reveal_strlit("disconnected");
    reveal_strlit(".connected");
    reveal_strlit(".disconnected");
    assert("bread.device.connected"@.len() == 22);
    assert("bread.device.disconnected"@.len() == 25);
    assert("id"@.len() == 2);
    assert("device"@.len() == 6);
    assert("."@.len() == 1);
    assert("connected"@.len() == 9);
    assert("disconnected"@.len() == 12);
    assert(".connected"@.len() == 10);
    assert(".disconnected"@.len() == 13);
    let name = state_engine::device_name(e.rules, event.data);
    let start = Telling { table: e.table, count: e.count, effects: Seq::empty() };
    let named = named_event(e.rules, s, event);
    let first = told(start, named);
    law_published_first(start, named);
    let companion = companion_event(e.rules, s, event, now);
    let second = if is_device_event(event.event) {
        told(first, companion)
    } else {
        first
    };
    lemma_told_on(first, companion);
    law_published_first(first, companion);
    let (old, new) = (
        snapshot::state_json(s),
        snapshot::state_json(state_after(e.rules, s, event)),
    );
    lemma_changes_told_on(second, e.watches, old, new, now);
    let effects = all_told(e, s, event, now).effects;
    assert(effects[0] == second.effects[0]);
    assert(second.effects[0] == first.effects[0]);
    if event.event == "bread.device.connected"@ {
        let k = first.effects.len() as int;
        assert(effects[k] == second.effects[k]);
        assert("."@ + "connected"@ =~= ".connected"@);
        assert("bread.device."@ + name + "."@ + "connected"@ =~= "bread.device."@ + name
            + ".connected"@);
        assert(effects[k] == EffectView::Publish(companion));
        assert(effects.contains(EffectView::Publish(companion)));
    }
}

/// A device that goes is told of under the name that it came under, as far as it is
/// listed: in the event itself, and in one of its own, `bread.device.`, the name and
/// `.disconnected`.
pub proof fn law_disconnected_devices_are_told_by_name(
    e: EngineView,
    s: RuntimeView,
    event: EventView,
    now: u64,
    k: int,
)
    requires
        event.data is Object,
        event.event == "bread.device.disconnected"@,
        0 <= k < s.devices.len(),
        event.data.get("id"@) == Some(Json::Text(s.devices[k].id)),
        state_engine::unique_devices(s.devices),
    ensures
        ({
            let effects = all_told(e, s, event, now).effects;
            let name = s.devices[k].device;
            &&& effects.len() > 0
            &&& effects[0] matches EffectView::Publish(p) && p.event == event.event && p.data.get(
                "device"@,
            ) == Some(Json::Text(name))
            &&& exists|p: EventView| #[trigger]
                effects.contains(EffectView::Publish(p)) && p.event == "bread.device."@ + name + ".disconnected"@ && p.data.get(
                    "device"@,
                ) == Some(Json::Text(name)) && p.data.get("id"@) == Some(
                    Json::Text(s.devices[k].id),
                )
        }),
{
    reveal_strlit("bread.device.connected");
    reveal_strlit("bread.device.disconnected");
    reveal_strlit("id");
    reveal_strlit("device");
    reveal_strlit(".");
    reveal_strlit("connected");
    reveal_strlit("disconnected");
    reveal_strlit(".connected");
    reveal_strlit(".disconnected");
    assert("bread.device.connected"@.len() == 22);
    assert("bread.device.disconnected"@.len() == 25);
    assert("id"@.len() == 2);
    assert("device"@.len() == 6);
    assert("."@.len() == 1);
    assert("connected"@.len() == 9);
    assert("disconnected"@.len() == 12);
    assert(".connected"@.len() == 10);
    assert(".disconnected"@.len() == 13);
    let id = s.devices[k].id;
    state_engine::lemma_first_where(s.devices, device_of(id), 0);
    let i = state_engine::first_where(s.devices, device_of(id), 0);
    if k < i {
        assert(!device_of(id)(s.devices[k]));
    }
    if i < k {
        assert(device_of(id)(s.devices[i]));
    }
    assert(i == k);
    let name = s.devices[k].device;
    let start = Telling { table: e.table, count: e.count, effects: Seq::empty() };
    let named = named_event(e.rules, s, event);
    let first = told(start, named);
    law_published_first(start, named);
    let companion = companion_event(e.rules, s, event, now);
    let second = told(first, companion);
    lemma_told_on(first, companion);
    law_published_first(first, companion);
    let (old, new) = (
        snapshot::state_json(s),
        snapshot::state_json(state_after(e.rules, s, event)),
    );
    lemma_changes_told_on(second, e.watches, old, new, now);
    let effects = all_told(e, s, event, now).effects;
    assert(effects[0] == second.effects[0]);
    assert(second.effects[0] == first.effects[0]);
    let j = first.effects.len() as int;
    assert(effects[j] == second.effects[j]);
    assert("bread.device."@ + name + "."@ + "disconnected"@ =~= "bread.device."@ + name
        + ".disconnected"@);
    assert(effects[j] == EffectView::Publish(companion));
    assert(effects.contains(EffectView::Publish(companion)));
}

/// After its status was set, a module is listed with that status, error and origin,
/// and with what it has stored; the other modules are listed as before.
pub proof fn law_module_status_is_noted(modules: Seq<ModuleView>, m: ModuleView)
    ensures
        ({
            let after = module_set(modules, m);
            &&& exists|i: int|
                0 <= i < after.len() && (#[trigger] after[i]).name == m.name && after[i].status
                    == m.status && after[i].last_error == m.last_error && after[i].builtin
                    == m.builtin
            &&& forall|i: int|
                0 <= i < modules.len() ==> (#[trigger] after[i]).name == modules[i].name
                    && after[i].store == modules[i].store && (modules[i].name != m.name ==> after[i]
                    == modules[i])
            &&& modules.len() <= after.len() <= modules.len() + 1
            &&& after.len() == modules.len() + 1 <==> forall|i: int|
                0 <= i < modules.len() ==> (#[trigger] modules[i]).name != m.name
        }),
{
    let p = |k: ModuleView| k.name == m.name;
    state_engine::lemma_first_where(modules, p, 0);
    let i = state_engine::first_where(modules, p, 0);
    let after = module_set(modules, m);
    if i < modules.len() {
        assert(modules[i].name == m.name);
        assert(after[i].name == m.name);
    } else {
        assert(after[modules.len() as int] == m);
        assert forall|k: int| 0 <= k < modules.len() implies (#[trigger] modules[k]).name
            != m.name by {
            assert(!p(modules[k]));
        }
    }
}

/// Counters go up by one, and from the last number to zero; the engine counts from zero and
/// has nothing to tell at first.
pub proof fn law_counters_go_up(n: u64)
    ensures
        n < u64::MAX ==> count_up(n) == n + 1,
        count_up(u64::MAX) == 0,
        EngineView::initial().count == 0,
        EngineView::initial().watches.len() == 0,
        EngineView::initial().rules.len() == 0,
        EngineView::initial().table.entries.len() == 0,
{
}

} // verus!
