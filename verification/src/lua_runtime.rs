//! What the Lua runtime keeps of handlers, timers and errors, and what it does
//! with what it is told. The Lua functions themselves are kept elsewhere, under
//! the ids that are given out here.

use crate::engine::{self, StateCommand};
use crate::events::{AdapterSource, BreadEvent, EventView, Source};
use crate::glob;
use crate::json::{Json, JsonValue};
use crate::loading::{self, StatusChange, StatusView};
use crate::ring::{self, ErrorEntry, ErrorView, Ring};
use crate::state_engine;
use crate::subscriptions::SubscriptionId;
use crate::text;
use crate::types::{ModuleLoadState, RuntimeView};
use std::collections::{HashMap, HashSet};
use vstd::prelude::*;

verus! {

broadcast use vstd::std_specs::hash::group_hash_axioms;

/// The milliseconds that a captured command may take, unless told otherwise.
pub const CAPTURE_TIMEOUT_MS: u64 = 2000;

/// What a handler is called with.
#[derive(Debug, Clone, Copy, PartialEq, Eq, Structural)]
pub enum HandlerKind {
    /// The event.
    Event,
    /// The new and the old value.
    StateWatch,
}

/// A Lua function that waits for events.
#[derive(Debug)]
pub struct Handler {
    /// A second function decides which events it gets.
    pub filtered: bool,
    /// The module that put it up.
    pub module: Option<String>,
    /// It gets only what Hyprland says of this kind.
    pub raw_kind: Option<String>,
    pub kind: HandlerKind,
}

/// What a handler stands for.
#[verifier::ext_equal]
pub struct HandlerView {
    pub filtered: bool,
    pub module: Option<Seq<char>>,
    pub raw_kind: Option<Seq<char>>,
    pub kind: HandlerKind,
}

impl DeepView for Handler {
    type V = HandlerView;

    open spec fn deep_view(&self) -> HandlerView {
        HandlerView {
            filtered: self.filtered,
            module: self.module.deep_view(),
            raw_kind: self.raw_kind.deep_view(),
            kind: self.kind,
        }
    }
}

/// A Lua function that waits for a time.
#[derive(Debug)]
pub struct Timer {
    pub repeating: bool,
    pub module: Option<String>,
}

/// What a timer stands for.
#[verifier::ext_equal]
pub struct TimerView {
    pub repeating: bool,
    pub module: Option<Seq<char>>,
}

impl DeepView for Timer {
    type V = TimerView;

    open spec fn deep_view(&self) -> TimerView {
        TimerView { repeating: self.repeating, module: self.module.deep_view() }
    }
}

/// What the Lua runtime keeps.
pub struct LuaRuntime {
    handlers: HashMap<u64, Handler>,
    watch_ids: HashSet<u64>,
    timers: HashMap<u64, Timer>,
    next_sub_id: u64,
    next_timer_id: u64,
    current_module: Option<String>,
    recent_errors: Ring<ErrorEntry>,
}

/// What the memory of the Lua runtime stands for.
#[verifier::ext_equal]
pub struct LuaView {
    pub handlers: Map<u64, HandlerView>,
    pub watches: Set<u64>,
    pub timers: Map<u64, TimerView>,
    pub next_sub: u64,
    pub next_timer: u64,
    pub module: Option<Seq<char>>,
    pub errors: Seq<ErrorView>,
}

/// What the handlers stand for.
pub open spec fn handler_views(m: Map<u64, Handler>) -> Map<u64, HandlerView> {
    m.map_values(|h: Handler| h.deep_view())
}

/// What the timers stand for.
pub open spec fn timer_views(m: Map<u64, Timer>) -> Map<u64, TimerView> {
    m.map_values(|t: Timer| t.deep_view())
}

impl View for LuaRuntime {
    type V = LuaView;

    closed spec fn view(&self) -> LuaView {
        LuaView {
            handlers: handler_views(self.handlers@),
            watches: self.watch_ids@,
            timers: timer_views(self.timers@),
            next_sub: self.next_sub_id,
            next_timer: self.next_timer_id,
            module: self.current_module.deep_view(),
            errors: ring::views(self.recent_errors@),
        }
    }
}

/// What a handler is called with.
#[derive(Debug)]
pub enum Arguments {
    Event(BreadEvent),
    Change { new: JsonValue, old: JsonValue },
}

/// What the arguments stand for.
pub enum ArgumentsView {
    Event(EventView),
    Change(Json, Json),
}

impl DeepView for Arguments {
    type V = ArgumentsView;

    open spec fn deep_view(&self) -> ArgumentsView {
        match self {
            Arguments::Event(e) => ArgumentsView::Event(e.deep_view()),
            Arguments::Change { new, old } => ArgumentsView::Change(new@, old@),
        }
    }
}

/// A handler that is to be called: for which module, whether its second function
/// is to be asked first, and with what.
#[derive(Debug)]
pub struct Call {
    pub module: Option<String>,
    pub filtered: bool,
    pub arguments: Arguments,
}

/// What a call stands for.
pub struct CallView {
    pub module: Option<Seq<char>>,
    pub filtered: bool,
    pub arguments: ArgumentsView,
}

impl DeepView for Call {
    type V = CallView;

    open spec fn deep_view(&self) -> CallView {
        CallView {
            module: self.module.deep_view(),
            filtered: self.filtered,
            arguments: self.arguments.deep_view(),
        }
    }
}

/// The value under a key, or null.
pub open spec fn value_or_null(v: Json, key: Seq<char>) -> Json {
    match v.get(key) {
        Some(x) => x,
        None => Json::Null,
    }
}

fn get_or_null(v: &JsonValue, key: &str) -> (r: JsonValue)
    ensures
        r@ == value_or_null(v@, key@),
{
    match v.get(key) {
        Some(x) => x.duplicate(),
        None => JsonValue::Null,
    }
}

/// The call that an event for a handler calls for. A handler that is not there
/// any more is not called, nor is one that waits for another kind.
pub open spec fn call_for(
    handlers: Map<u64, HandlerView>,
    id: u64,
    event: EventView,
) -> Option<CallView> {
    let h = handlers[id];
    if !handlers.contains_key(id) {
        None
    } else if h.raw_kind is Some && event.data.text("kind"@) != h.raw_kind {
        None
    } else {
        Some(
            CallView {
                module: h.module,
                filtered: h.filtered,
                arguments: match h.kind {
                    HandlerKind::Event => ArgumentsView::Event(event),
                    HandlerKind::StateWatch => ArgumentsView::Change(
                        value_or_null(event.data, "new"@),
                        value_or_null(event.data, "old"@),
                    ),
                },
            },
        )
    }
}

/// The event name that tells of a change of the state at a path.
pub open spec fn change_name(path: Seq<char>) -> Seq<char> {
    "bread.state.changed."@ + path
}

impl LuaView {
    /// The memory after a handler was put up.
    pub open spec fn with_handler(self, h: HandlerView) -> LuaView {
        LuaView {
            handlers: self.handlers.insert(self.next_sub, h),
            next_sub: engine::count_up(self.next_sub),
            ..self
        }
    }

    /// The memory after a timer was set.
    pub open spec fn with_timer(self, t: TimerView) -> LuaView {
        LuaView {
            timers: self.timers.insert(self.next_timer, t),
            next_timer: engine::count_up(self.next_timer),
            ..self
        }
    }

    /// The memory before anything was put up.
    pub open spec fn initial() -> LuaView {
        LuaView {
            handlers: Map::empty(),
            watches: Set::empty(),
            timers: Map::empty(),
            next_sub: 1,
            next_timer: 1,
            module: None,
            errors: Seq::empty(),
        }
    }
}

/// The command has the engine tell of the events that match.
pub open spec fn subscribes(c: StateCommand, i: u64, p: Seq<char>, o: bool) -> bool {
    c matches StateCommand::RegisterSubscription { id, pattern, once } && id.0 == i && pattern@ == p
        && once == o
}

/// The command has the engine forget a subscription.
pub open spec fn unsubscribes(c: StateCommand, i: u64) -> bool {
    c matches StateCommand::RemoveSubscription { id } && id.0 == i
}

/// The command has the engine forget a watch.
pub open spec fn unwatches(c: StateCommand, i: u64) -> bool {
    c matches StateCommand::RemoveWatch { id } && id.0 == i
}

impl LuaRuntime {
    /// The runtime remembers as many errors as it should.
    pub closed spec fn wf(&self) -> bool {
        self.recent_errors.spec_limit() == ring::ERROR_LIMIT
    }

    /// The runtime before anything was put up.
    pub fn new() -> (r: Self)
        ensures
            r@ == LuaView::initial(),
            r.wf(),
    {
        let r = LuaRuntime {
            handlers: HashMap::new(),
            watch_ids: HashSet::new(),
            timers: HashMap::new(),
            next_sub_id: 1,
            next_timer_id: 1,
            current_module: None,
            recent_errors: Ring::new(ring::ERROR_LIMIT),
        };
        assert(r@ =~= LuaView::initial());
        r
    }

    /// The module that is at work.
    pub fn current_module(&self) -> (r: &Option<String>)
        ensures
            r.deep_view() == self@.module,
    {
        &self.current_module
    }

    /// Notes the module that is at work.
    pub fn set_current_module(&mut self, name: Option<String>)
        requires
            old(self).wf(),
        ensures
            final(self)@ == (LuaView { module: name.deep_view(), ..old(self)@ }),
            final(self).wf(),
    {
        self.current_module = name;
        assert(self@ =~= LuaView { module: name.deep_view(), ..old(self)@ });
    }

    fn add_handler(&mut self, filtered: bool, raw_kind: Option<String>, kind: HandlerKind) -> (r:
        u64)
        requires
            old(self).wf(),
        ensures
            r == old(self)@.next_sub,
            final(self)@ == old(self)@.with_handler(
                (HandlerView {
                    filtered,
                    module: old(self)@.module,
                    raw_kind: raw_kind.deep_view(),
                    kind,
                }),
            ),
            final(self).wf(),
    {
        let id: u64 = self.next_sub_id;
        let ghost before = self@;
        let ghost map = self.handlers@;
        let h = Handler { filtered, module: self.current_module.clone(), raw_kind, kind };
        let ghost view = h.deep_view();
        self.next_sub_id = id.wrapping_add(1);
        self.handlers.insert(id, h);
        assert(handler_views(self.handlers@) =~= handler_views(map).insert(id, view));
        assert(self@ =~= before.with_handler(view));
        id
    }

    /// Puts up a handler for the events that match a pattern, every time or only
    /// once. Gives its id, and what the engine is to be told.
    pub fn on(&mut self, pattern: &str, once: bool, filtered: bool) -> (r: (u64, StateCommand))
        requires
            old(self).wf(),
        ensures
            r.0 == old(self)@.next_sub,
            final(self)@ == old(self)@.with_handler(
                (HandlerView {
                    filtered,
                    module: old(self)@.module,
                    raw_kind: None,
                    kind: HandlerKind::Event,
                }),
            ),
            subscribes(r.1, r.0, pattern@, once),
            final(self).wf(),
    {
        let id = self.add_handler(filtered, None, HandlerKind::Event);
        (
            id,
            StateCommand::RegisterSubscription {
                id: SubscriptionId(id),
                pattern: pattern.to_owned(),
                once,
            },
        )
    }

    /// Puts up a handler for what Hyprland says of a kind.
    pub fn on_raw(&mut self, kind: &str) -> (r: (u64, StateCommand))
        requires
            old(self).wf(),
        ensures
            r.0 == old(self)@.next_sub,
            final(self)@ == old(self)@.with_handler(
                (HandlerView {
                    filtered: false,
                    module: old(self)@.module,
                    raw_kind: Some(kind@),
                    kind: HandlerKind::Event,
                }),
            ),
            subscribes(r.1, r.0, "bread.hyprland.event"@, false),
            final(self).wf(),
    {
        let id = self.add_handler(false, Some(kind.to_owned()), HandlerKind::Event);
        (
            id,
            StateCommand::RegisterSubscription {
                id: SubscriptionId(id),
                pattern: "bread.hyprland.event".to_owned(),
                once: false,
            },
        )
    }

    /// Puts up a handler for changes of the state at a path.
    pub fn watch(&mut self, path: &str) -> (r: (u64, StateCommand, StateCommand))
        requires
            old(self).wf(),
        ensures
            r.0 == old(self)@.next_sub,
            final(self)@ == (LuaView {
                watches: old(self)@.watches.insert(r.0),
                ..old(self)@.with_handler(
                    (HandlerView {
                        filtered: false,
                        module: old(self)@.module,
                        raw_kind: None,
                        kind: HandlerKind::StateWatch,
                    }),
                )
            }),
            r.1 matches StateCommand::RegisterWatch { id, path: p } && id.0 == r.0 && p@ == path@,
            subscribes(r.2, r.0, change_name(path@), false),
            final(self).wf(),
    {
        let id = self.add_handler(false, None, HandlerKind::StateWatch);
        let ghost before = self@;
        self.watch_ids.insert(id);
        assert(self@ =~= LuaView { watches: before.watches.insert(id), ..before });
        (
            id,
            StateCommand::RegisterWatch { id: SubscriptionId(id), path: path.to_owned() },
            StateCommand::RegisterSubscription {
                id: SubscriptionId(id),
                pattern: text::concat("bread.state.changed.", path),
                once: false,
            },
        )
    }

    /// Takes down a handler. Gives what the engine is to be told: of a watch two
    /// things.
    pub fn off(&mut self, id: u64) -> (r: (StateCommand, Option<StateCommand>))
        requires
            old(self).wf(),
        ensures
            final(self)@ == (LuaView {
                handlers: old(self)@.handlers.remove(id),
                watches: old(self)@.watches.remove(id),
                ..old(self)@
            }),
            unsubscribes(r.0, id),
            match r.1 {
                Some(c) => old(self)@.watches.contains(id) && unwatches(c, id),
                None => !old(self)@.watches.contains(id),
            },
            final(self).wf(),
    {
        let ghost before = self@;
        let ghost map = self.handlers@;
        let _ = self.handlers.remove(&id);
        let watched = self.watch_ids.remove(&id);
        assert(handler_views(self.handlers@) =~= handler_views(map).remove(id));
        assert(self@ =~= LuaView {
            handlers: before.handlers.remove(id),
            watches: before.watches.remove(id),
            ..before
        });
        (
            StateCommand::RemoveSubscription { id: SubscriptionId(id) },
            if watched {
                Some(StateCommand::RemoveWatch { id: SubscriptionId(id) })
            } else {
                None
            },
        )
    }

    /// Forgets a handler whose subscription has ended.
    pub fn remove_handler(&mut self, id: u64)
        requires
            old(self).wf(),
        ensures
            final(self)@ == (LuaView {
                handlers: old(self)@.handlers.remove(id),
                ..old(self)@
            }),
            final(self).wf(),
    {
        let ghost before = self@;
        let ghost map = self.handlers@;
        let _ = self.handlers.remove(&id);
        assert(handler_views(self.handlers@) =~= handler_views(map).remove(id));
        assert(self@ =~= LuaView { handlers: before.handlers.remove(id), ..before });
    }

    /// The call that an event for a handler calls for.
    pub fn handle_event(&self, id: u64, event: &BreadEvent) -> (r: Option<Call>)
        ensures
            r.deep_view() == call_for(self@.handlers, id, event.deep_view()),
    {
        match self.handlers.get(&id) {
            None => None,
            Some(h) => {
                assert(self@.handlers[id] == h.deep_view());
                if let Some(kind) = &h.raw_kind {
                    let matching = match event.data.text("kind") {
                        Some(k) => text::same(k, kind.as_str()),
                        None => false,
                    };
                    if !matching {
                        return None;
                    }
                }
                let arguments = match h.kind {
                    HandlerKind::Event => Arguments::Event(event.duplicate()),
                    HandlerKind::StateWatch => Arguments::Change {
                        new: get_or_null(&event.data, "new"),
                        old: get_or_null(&event.data, "old"),
                    },
                };
                Some(Call { module: h.module.clone(), filtered: h.filtered, arguments })
            },
        }
    }

    /// Remembers an error of a handler, and gives the note on its module. A
    /// handler of no module leaves no trace.
    pub fn note_callback_error(
        &mut self,
        module: Option<&str>,
        error: &str,
        builtin: bool,
        now: u64,
    ) -> (r: Option<StatusChange>)
        requires
            old(self).wf(),
        ensures
            match module {
                Some(m) => {
                    &&& final(self)@ == (LuaView {
                        errors: ring::remembered(
                            old(self)@.errors,
                            ring::ERROR_LIMIT,
                            (ErrorView { timestamp: now, module: Some(m@), message: error@ }),
                        ),
                        ..old(self)@
                    })
                    &&& r.deep_view() == Some(
                        StatusView {
                            name: m@,
                            status: ModuleLoadState::Degraded,
                            last_error: Some(error@),
                            builtin,
                        },
                    )
                },
                None => r is None && final(self)@ == old(self)@,
            },
            final(self).wf(),
    {
        match module {
            None => None,
            Some(m) => {
                let ghost before = self@;
                let ghost items = self.recent_errors@;
                let entry = ErrorEntry {
                    timestamp: now,
                    module: Some(m.to_owned()),
                    message: error.to_owned(),
                };
                let ghost view = entry.deep_view();
                self.recent_errors.push(entry);
                assert(ring::views(self.recent_errors@) =~= ring::remembered(
                    ring::views(items),
                    ring::ERROR_LIMIT,
                    view,
                ));
                assert(self@ =~= LuaView {
                    errors: ring::remembered(before.errors, ring::ERROR_LIMIT, view),
                    ..before
                });
                Some(loading::degraded_status(m, error, builtin))
            },
        }
    }

    /// Takes down a handler whose module does not want it any more after an
    /// error. Gives what the engine is to be told.
    pub fn drop_handler(&mut self, id: u64) -> (r: (StateCommand, StateCommand))
        requires
            old(self).wf(),
        ensures
            final(self)@ == (LuaView {
                handlers: old(self)@.handlers.remove(id),
                ..old(self)@
            }),
            unsubscribes(r.0, id),
            unwatches(r.1, id),
            final(self).wf(),
    {
        self.remove_handler(id);
        (
            StateCommand::RemoveSubscription { id: SubscriptionId(id) },
            StateCommand::RemoveWatch { id: SubscriptionId(id) },
        )
    }

    /// The remembered errors, the oldest first.
    pub fn recent_errors(&self) -> (r: Vec<ErrorEntry>)
        ensures
            r.deep_view() == self@.errors,
    {
        ring::recent_errors(&self.recent_errors)
    }

    /// Sets a timer, and gives its id.
    pub fn add_timer(&mut self, repeating: bool) -> (r: u64)
        requires
            old(self).wf(),
        ensures
            r == old(self)@.next_timer,
            final(self)@ == old(self)@.with_timer(
                (TimerView { repeating, module: old(self)@.module }),
            ),
            final(self).wf(),
    {
        let id: u64 = self.next_timer_id;
        let ghost before = self@;
        let ghost map = self.timers@;
        let t = Timer { repeating, module: self.current_module.clone() };
        let ghost view = t.deep_view();
        self.next_timer_id = id.wrapping_add(1);
        self.timers.insert(id, t);
        assert(timer_views(self.timers@) =~= timer_views(map).insert(id, view));
        assert(self@ =~= before.with_timer(view));
        id
    }

    /// The module of a timer whose time has come; none where the timer is not
    /// there any more.
    pub fn timer_due(&self, id: u64) -> (r: Option<Option<String>>)
        ensures
            match r {
                Some(m) => self@.timers.contains_key(id) && self@.timers[id].module == m.deep_view(),
                None => !self@.timers.contains_key(id),
            },
    {
        match self.timers.get(&id) {
            None => None,
            Some(t) => {
                assert(self@.timers[id] == t.deep_view());
                Some(t.module.clone())
            },
        }
    }

    /// Forgets a timer whose function was called, unless it repeats.
    pub fn timer_done(&mut self, id: u64)
        requires
            old(self).wf(),
        ensures
            final(self)@ == (if old(self)@.timers.contains_key(id)
                && old(self)@.timers[id].repeating {
                old(self)@
            } else {
                LuaView { timers: old(self)@.timers.remove(id), ..old(self)@ }
            }),
            final(self).wf(),
    {
        let repeating = match self.timers.get(&id) {
            Some(t) => {
                assert(self@.timers[id] == t.deep_view());
                t.repeating
            },
            None => false,
        };
        if !repeating {
            let _ = self.cancel_timer(id);
        }
    }

    /// Forgets a timer, and tells whether it was there.
    pub fn cancel_timer(&mut self, id: u64) -> (r: bool)
        requires
            old(self).wf(),
        ensures
            r == old(self)@.timers.contains_key(id),
            final(self)@ == (LuaView { timers: old(self)@.timers.remove(id), ..old(self)@ }),
            final(self).wf(),
    {
        let ghost before = self@;
        let ghost map = self.timers@;
        let found = self.timers.remove(&id).is_some();
        assert(timer_views(self.timers@) =~= timer_views(map).remove(id));
        assert(self@ =~= LuaView { timers: before.timers.remove(id), ..before });
        found
    }

    /// Forgets all handlers, watches and timers ahead of a reload. Ids are not
    /// given out again.
    pub fn clear(&mut self)
        requires
            old(self).wf(),
        ensures
            final(self)@ == (LuaView {
                handlers: Map::empty(),
                watches: Set::empty(),
                timers: Map::empty(),
                ..old(self)@
            }),
            final(self).wf(),
    {
        let ghost before = self@;
        self.handlers.clear();
        self.watch_ids.clear();
        self.timers.clear();
        assert(handler_views(self.handlers@) =~= Map::empty());
        assert(timer_views(self.timers@) =~= Map::empty());
        assert(self@ =~= LuaView {
            handlers: Map::empty(),
            watches: Set::empty(),
            timers: Map::empty(),
            ..before
        });
    }

    /// The module on whose behalf a function was called; an error where it is
    /// called outside of any.
    pub fn require_module(&self, function: &str) -> (r: Result<String, String>)
        ensures
            match self@.module {
                Some(m) => r matches Ok(s) && s@ == m,
                None => r matches Err(e) && e@ == function@ + " must be called from within a module"@,
            },
    {
        match &self.current_module {
            Some(m) => Ok(m.clone()),
            None => Err(text::concat(function, " must be called from within a module")),
        }
    }

    /// Whether a module may declare itself by a name: only by the one under
    /// which it is loaded.
    pub fn check_declared_name(&self, name: &str) -> (r: Result<(), String>)
        ensures
            if self@.module == Some(name@) {
                r is Ok
            } else {
                r matches Err(e) && e@ == "module name does not match current load"@
            },
            match r {
                Ok(()) => name_fault(self@.module, name@) is None,
                Err(e) => name_fault(self@.module, name@) == Some(e@),
            },
    {
        let expected = match &self.current_module {
            Some(m) => text::same(m.as_str(), name),
            None => false,
        };
        if expected {
            Ok(())
        } else {
            Err("module name does not match current load".to_owned())
        }
    }
}

/// What the engine is told ahead of a reload: to forget the subscriptions, the
/// modules and the widgets.
pub fn reload_commands() -> (r: Vec<StateCommand>)
    ensures
        r.len() == 3,
        r@[0] is ClearSubscriptions,
        r@[1] is ClearModules,
        r@[2] is ClearWidgets,
{
    let mut r: Vec<StateCommand> = Vec::new();
    r.push(StateCommand::ClearSubscriptions);
    r.push(StateCommand::ClearModules);
    r.push(StateCommand::ClearWidgets);
    r
}

/// The event that Lua code sends. Without data it carries an empty object.
pub fn lua_event(name: &str, data: Option<JsonValue>, now: u64) -> (r: BreadEvent)
    ensures
        r.deep_view() == (EventView {
            event: name@,
            timestamp: now,
            source: Source::System,
            data: match data.deep_view() {
                Some(v) => v,
                None => Json::empty(),
            },
        }),
{
    let data = match data {
        Some(v) => v,
        None => JsonValue::empty(),
    };
    BreadEvent::new(name, AdapterSource::System, data, now)
}

/// The event that tells that a profile was activated.
pub open spec fn profile_activated(name: Seq<char>, now: u64) -> EventView {
    EventView {
        event: "bread.profile.activated"@,
        timestamp: now,
        source: Source::System,
        data: Json::empty().with("name"@, Json::Text(name)),
    }
}

/// The event that tells that a profile was activated.
pub fn profile_event(name: &str, now: u64) -> (r: BreadEvent)
    ensures
        r.deep_view() == profile_activated(name@, now),
{
    BreadEvent::new(
        "bread.profile.activated",
        AdapterSource::System,
        JsonValue::empty().with("name", JsonValue::of_text(name)),
        now,
    )
}

/// Every id that is in use is below the next one to be given out.
pub open spec fn ids_below(v: LuaView) -> bool {
    &&& forall|id: u64| #[trigger] v.handlers.contains_key(id) ==> id < v.next_sub
    &&& forall|id: u64| #[trigger] v.watches.contains(id) ==> id < v.next_sub
    &&& forall|id: u64| #[trigger] v.timers.contains_key(id) ==> id < v.next_timer
}

/// No id is given out while it is in use, as long as the ids last.
pub proof fn law_ids_are_fresh(v: LuaView, h: HandlerView, t: TimerView)
    requires
        ids_below(v),
        v.next_sub < u64::MAX,
        v.next_timer < u64::MAX,
    ensures
        !v.handlers.contains_key(v.next_sub),
        !v.timers.contains_key(v.next_timer),
        ids_below(v.with_handler(h)),
        ids_below(v.with_timer(t)),
        ids_below(LuaView { watches: v.watches.insert(v.next_sub), ..v.with_handler(h) }),
{
}

/// A handler that was put up is called for every event that reaches it, on
/// behalf of its module and with that event, until it is taken down.
pub proof fn law_handler_is_called_until_off(v: LuaView, h: HandlerView, event: EventView)
    requires
        h.raw_kind is None,
        h.kind == HandlerKind::Event,
    ensures
        ({
            let id = v.next_sub;
            &&& call_for(v.with_handler(h).handlers, id, event) == Some(
                CallView {
                    module: h.module,
                    filtered: h.filtered,
                    arguments: ArgumentsView::Event(event),
                },
            )
            &&& call_for(v.with_handler(h).handlers.remove(id), id, event) is None
        }),
{
}

/// Whatever path a watch was put up for, the name of the event that tells of its
/// change matches the pattern that the watch waits for.
pub proof fn law_watch_hears_its_changes(path: Seq<char>, new: Json, old_value: Json, now: u64)
    ensures
        glob::pattern_matches(
            change_name(path),
            engine::change_event(path, new, old_value, now).event,
        ),
{
    glob::law_pattern_matches_itself(change_name(path));
}

/// A handler that is put up and taken down again leaves no trace but the id that
/// it used.
pub proof fn law_off_undoes_on(v: LuaView, h: HandlerView)
    requires
        !v.handlers.contains_key(v.next_sub),
        !v.watches.contains(v.next_sub),
    ensures
        (LuaView {
            handlers: v.with_handler(h).handlers.remove(v.next_sub),
            watches: v.with_handler(h).watches.remove(v.next_sub),
            ..v.with_handler(h)
        }) == (LuaView { next_sub: engine::count_up(v.next_sub), ..v }),
{
    assert(v.with_handler(h).handlers.remove(v.next_sub) =~= v.handlers);
    assert(v.watches.remove(v.next_sub) =~= v.watches);
}

/// A handler for what Hyprland says gets the events of its kind and no others.
pub proof fn law_raw_handlers_get_their_kind(
    handlers: Map<u64, HandlerView>,
    id: u64,
    event: EventView,
    kind: Seq<char>,
)
    requires
        handlers.contains_key(id),
        handlers[id].raw_kind == Some(kind),
    ensures
        call_for(handlers, id, event) is Some
            <==> event.data.get("kind"@) == Some(Json::Text(kind)),
{
}

/// A handler of a watch is called with the new value and the old one, in this order, of
/// the change that is told.
pub proof fn law_watches_get_new_and_old(
    handlers: Map<u64, HandlerView>,
    id: u64,
    path: Seq<char>,
    new: Json,
    before: Json,
    now: u64,
)
    requires
        handlers.contains_key(id),
        handlers[id].raw_kind is None,
        handlers[id].kind == HandlerKind::StateWatch,
    ensures
        call_for(handlers, id, engine::change_event(path, new, before, now)) matches Some(c)
            && c.arguments == ArgumentsView::Change(new, before)
            && c.module == handlers[id].module && c.filtered == handlers[id].filtered,
{
    reveal_strlit("new");
    reveal_strlit("old");
    reveal_strlit("path");
    assert("new"@[0] != "old"@[0]);
    assert("path"@.len() == 4 && "new"@.len() == 3 && "old"@.len() == 3);
}

/// Handlers that were never put up are not called.
pub proof fn law_unknown_handlers_are_not_called(handlers: Map<u64, HandlerView>, id: u64,
    event: EventView)
    requires
        !handlers.contains_key(id),
    ensures
        call_for(handlers, id, event) is None,
{
}

/// The event that activates a profile makes it the active one.
pub proof fn law_profile_event_reaches_the_state(s: RuntimeView, name: Seq<char>, now: u64)
    ensures
        state_engine::after_event(s, profile_activated(name, now).event, profile_activated(name,
            now).data).profile.active == name,
        profile_activated(name, now).timestamp == now,
        profile_activated(name, now).source == Source::System,
{
    state_engine::law_profile_event_activates(s, profile_activated(name, now).data, name);
}

/// What is put up is kept under the next number, for the module that is being loaded,
/// and the numbers go up.
pub proof fn law_what_is_put_up_is_kept(v: LuaView, h: HandlerView, t: TimerView)
    requires
        v.next_sub < u64::MAX,
        v.next_timer < u64::MAX,
    ensures
        v.with_handler(h).handlers[v.next_sub] == h,
        v.with_handler(h).handlers.contains_key(v.next_sub),
        v.with_handler(h).next_sub == v.next_sub + 1,
        v.with_handler(h).timers == v.timers,
        v.with_handler(h).watches == v.watches,
        v.with_handler(h).next_timer == v.next_timer,
        v.with_timer(t).timers[v.next_timer] == t,
        v.with_timer(t).timers.contains_key(v.next_timer),
        v.with_timer(t).next_timer == v.next_timer + 1,
        v.with_timer(t).handlers == v.handlers,
        v.with_timer(t).watches == v.watches,
        v.with_timer(t).next_sub == v.next_sub,
        LuaView::initial().next_sub == 1,
        LuaView::initial().next_timer == 1,
        LuaView::initial().handlers == Map::<u64, HandlerView>::empty(),
        LuaView::initial().timers == Map::<u64, TimerView>::empty(),
        LuaView::initial().watches == Set::<u64>::empty(),
        LuaView::initial().module is None,
        LuaView::initial().errors.len() == 0,
{
}

/// What is wrong with the name that a module declares while another is being loaded, or
/// none.
pub open spec fn name_fault(loading: Option<Seq<char>>, name: Seq<char>) -> Option<Seq<char>> {
    if loading == Some(name) {
        None
    } else {
        Some("module name does not match current load"@)
    }
}

/// A module may declare the name under which it is loaded, and no other.
pub proof fn law_modules_declare_their_own_name(loading: Seq<char>, name: Seq<char>)
    ensures
        name_fault(Some(loading), name) is None <==> name == loading,
        name != loading ==>
            name_fault(Some(loading), name) == Some("module name does not match current load"@),
        name_fault(None, name) == Some("module name does not match current load"@),
{
}

} // verus!
