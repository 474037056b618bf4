//! The widgets that modules show.

use crate::events::{AdapterSource, BreadEvent, EventView, Source};
use crate::json::{Json, JsonValue};
use crate::snapshot::{self, Snapshot};
use crate::state_engine;
use crate::text;
use crate::types::{RuntimeState, RuntimeView, WidgetSpec, WidgetView};
use vstd::prelude::*;

verus! {

/// What a module says of a widget that it wants shown.
#[derive(Debug)]
pub struct WidgetRegisterArgs {
    pub id: String,
    pub placement: String,
    pub order: i32,
    pub visible: bool,
    pub tooltip: Option<String>,
    pub root: JsonValue,
}

/// What the words on a new widget stand for.
#[verifier::ext_equal]
pub struct RegisterView {
    pub id: Seq<char>,
    pub placement: Seq<char>,
    pub order: i32,
    pub visible: bool,
    pub tooltip: Option<Seq<char>>,
    pub root: Json,
}

impl DeepView for WidgetRegisterArgs {
    type V = RegisterView;

    open spec fn deep_view(&self) -> RegisterView {
        RegisterView {
            id: self.id@,
            placement: self.placement@,
            order: self.order,
            visible: self.visible,
            tooltip: self.tooltip.deep_view(),
            root: self.root@,
        }
    }
}

/// What a module says of a change to a widget: only what is given changes.
#[derive(Debug)]
pub struct WidgetUpdateArgs {
    pub root: Option<JsonValue>,
    pub tooltip: Option<String>,
    pub visible: Option<bool>,
    pub order: Option<i32>,
}

/// What the words on a change stand for.
#[verifier::ext_equal]
pub struct UpdateView {
    pub root: Option<Json>,
    pub tooltip: Option<Seq<char>>,
    pub visible: Option<bool>,
    pub order: Option<i32>,
}

impl DeepView for WidgetUpdateArgs {
    type V = UpdateView;

    open spec fn deep_view(&self) -> UpdateView {
        UpdateView {
            root: self.root.deep_view(),
            tooltip: self.tooltip.deep_view(),
            visible: self.visible,
            order: self.order,
        }
    }
}

impl Default for WidgetUpdateArgs {
    fn default() -> (r: Self)
        ensures
            r.deep_view() == (UpdateView { root: None, tooltip: None, visible: None, order: None }),
    {
        WidgetUpdateArgs { root: None, tooltip: None, visible: None, order: None }
    }
}

impl WidgetSpec {
    /// The widget once more.
    pub fn duplicate(&self) -> (r: WidgetSpec)
        ensures
            r.deep_view() == self.deep_view(),
    {
        WidgetSpec {
            id: self.id.clone(),
            module: self.module.clone(),
            placement: self.placement.clone(),
            order: self.order,
            visible: self.visible,
            tooltip: self.tooltip.clone(),
            root: self.root.duplicate(),
            updated_at: self.updated_at,
        }
    }
}

/// A widget is shown unless its module says otherwise.
pub fn default_widget_visible() -> (r: bool)
    ensures
        r,
{
    true
}

/// The id of a widget: that of its module and its own.
pub open spec fn full_id(module: Seq<char>, local_id: Seq<char>) -> Seq<char> {
    module + "."@ + local_id
}

/// The widget has the given id.
pub open spec fn widget_of(id: Seq<char>) -> spec_fn(WidgetView) -> bool {
    |w: WidgetView| w.id == id
}

/// The widget has another id.
pub open spec fn not_widget(id: Seq<char>) -> spec_fn(WidgetView) -> bool {
    |w: WidgetView| w.id != id
}

/// The widget belongs to the module.
pub open spec fn owned_by(module: Seq<char>) -> spec_fn(WidgetView) -> bool {
    |w: WidgetView| w.module == module
}

/// The place of the widget with the given id, or the number of widgets.
pub open spec fn place_of(ws: Seq<WidgetView>, id: Seq<char>) -> int {
    state_engine::first_where(ws, widget_of(id), 0)
}

/// The widget that a module asks for.
pub open spec fn made(module: Seq<char>, args: RegisterView, now: u64) -> WidgetView {
    WidgetView {
        id: full_id(module, args.id),
        module,
        placement: args.placement,
        order: args.order,
        visible: args.visible,
        tooltip: args.tooltip,
        root: args.root,
        updated_at: now,
    }
}

/// The widgets after one was put up: it takes the place of one with its id.
pub open spec fn put_up(ws: Seq<WidgetView>, w: WidgetView) -> Seq<WidgetView> {
    let i = place_of(ws, w.id);
    if i < ws.len() {
        ws.update(i, w)
    } else {
        ws.push(w)
    }
}

/// The widget after a change.
pub open spec fn changed(w: WidgetView, args: UpdateView, now: u64) -> WidgetView {
    WidgetView {
        root: match args.root {
            Some(root) => root,
            None => w.root,
        },
        tooltip: match args.tooltip {
            Some(tooltip) => Some(tooltip),
            None => w.tooltip,
        },
        visible: match args.visible {
            Some(visible) => visible,
            None => w.visible,
        },
        order: match args.order {
            Some(order) => order,
            None => w.order,
        },
        updated_at: now,
        ..w
    }
}

fn find_widget(ws: &Vec<WidgetSpec>, id: &str) -> (r: usize)
    ensures
        r == place_of(ws.deep_view(), id@),
        r <= ws.len(),
{
    let mut i: usize = 0;
    while i < ws.len()
        invariant
            i <= ws.len(),
            place_of(ws.deep_view(), id@) == state_engine::first_where(
                ws.deep_view(),
                widget_of(id@),
                i as int,
            ),
        decreases ws.len() - i,
    {
        assert(ws.deep_view()[i as int] == ws@[i as int].deep_view());
        if text::same(ws[i].id.as_str(), id) {
            return i;
        }
        i += 1;
    }
    assert(ws.deep_view().len() == ws@.len());
    i
}

/// Puts up a widget of a module, unless there is a fault in its contents.
pub fn widget_register(
    state: &mut RuntimeState,
    module: &str,
    args: WidgetRegisterArgs,
    fault: Option<String>,
    now: u64,
) -> (r: Result<WidgetSpec, String>)
    ensures
        match fault {
            Some(e) => r matches Err(s) && s@ == e@ && final(state)@ == old(state)@,
            None => {
                let w = made(module@, args.deep_view(), now);
                &&& r matches Ok(spec) && spec.deep_view() == w
                &&& final(state)@ == (RuntimeView {
                    widgets: put_up(old(state)@.widgets, w),
                    ..old(state)@
                })
            },
        },
{
    if let Some(e) = fault {
        return Err(e);
    }
    let ghost wanted = made(module@, args.deep_view(), now);
    let spec = WidgetSpec {
        id: text::concat3(module, ".", args.id.as_str()),
        module: module.to_owned(),
        placement: args.placement,
        order: args.order,
        visible: args.visible,
        tooltip: args.tooltip,
        root: args.root,
        updated_at: now,
    };
    assert(spec.deep_view() =~= wanted);
    let ghost before = state.widgets.deep_view();
    let i = find_widget(&state.widgets, spec.id.as_str());
    let shown = spec.duplicate();
    if i < state.widgets.len() {
        state.widgets.set(i, shown);
    } else {
        state.widgets.push(shown);
    }
    assert(state.widgets.deep_view() =~= put_up(before, wanted));
    Ok(spec)
}

/// Changes a widget of a module, unless there is a fault in its new contents;
/// gives the widget as it is afterwards, if there is one.
pub fn widget_update(
    state: &mut RuntimeState,
    module: &str,
    local_id: &str,
    args: WidgetUpdateArgs,
    fault: Option<String>,
    now: u64,
) -> (r: Result<Option<WidgetSpec>, String>)
    ensures
        ({
            let ws = old(state)@.widgets;
            let i = place_of(ws, full_id(module@, local_id@));
            if args.root is Some && fault is Some {
                &&& r matches Err(s) && s@ == fault->0@
                &&& final(state)@ == old(state)@
            } else if i < ws.len() {
                let w = changed(ws[i], args.deep_view(), now);
                &&& r matches Ok(Some(spec)) && spec.deep_view() == w
                &&& final(state)@ == (RuntimeView { widgets: ws.update(i, w), ..old(state)@ })
            } else {
                &&& r matches Ok(None)
                &&& final(state)@ == old(state)@
            }
        }),
{
    if args.root.is_some() {
        if let Some(e) = fault {
            return Err(e);
        }
    }
    let id = text::concat3(module, ".", local_id);
    let i = find_widget(&state.widgets, id.as_str());
    let ghost before = state.widgets.deep_view();
    let ghost patch = args.deep_view();
    if i >= state.widgets.len() {
        return Ok(None);
    }
    assert(before[i as int] == state.widgets@[i as int].deep_view());
    if let Some(root) = args.root {
        state.widgets[i].root = root;
    }
    if let Some(tooltip) = args.tooltip {
        state.widgets[i].tooltip = Some(tooltip);
    }
    if let Some(visible) = args.visible {
        state.widgets[i].visible = visible;
    }
    if let Some(order) = args.order {
        state.widgets[i].order = order;
    }
    state.widgets[i].updated_at = now;
    let spec = state.widgets[i].duplicate();
    assert(spec.deep_view() =~= changed(before[i as int], patch, now));
    assert(state.widgets.deep_view() =~= before.update(
        i as int,
        changed(before[i as int], patch, now),
    ));
    Ok(Some(spec))
}

/// Takes down a widget of a module, and tells whether there was one.
pub fn widget_remove(state: &mut RuntimeState, module: &str, local_id: &str) -> (r: bool)
    ensures
        ({
            let ws = old(state)@.widgets;
            let rest = ws.filter(not_widget(full_id(module@, local_id@)));
            &&& final(state)@ == (RuntimeView { widgets: rest, ..old(state)@ })
            &&& r == (rest.len() != ws.len())
        }),
{
    let id = text::concat3(module, ".", local_id);
    let mut all: Vec<WidgetSpec> = Vec::new();
    std::mem::swap(&mut all, &mut state.widgets);
    let before: usize = all.len();
    let ghost ws = all.deep_view();
    let ghost items = all@;
    let mut rest: Vec<WidgetSpec> = Vec::new();
    reveal(Seq::filter);
    assert(rest.deep_view() =~= ws.take(0).filter(not_widget(id@)));
    for w in it: all
        invariant
            it.seq() == items,
            items.len() == ws.len(),
            forall|k: int| 0 <= k < ws.len() ==> (#[trigger] items[k]).deep_view() == ws[k],
            rest.deep_view() == ws.take(it.index() as int).filter(not_widget(id@)),
    {
        let ghost n = it.index() as int;
        let ghost so_far = rest.deep_view();
        proof {
            reveal(Seq::filter);
            assert(items[n].deep_view() == ws[n]);
            assert(ws.take(n + 1).drop_last() =~= ws.take(n));
            assert(ws.take(n + 1).last() == ws[n]);
        }
        if !text::same(w.id.as_str(), id.as_str()) {
            rest.push(w);
            assert(rest.deep_view() =~= so_far.push(ws[n]));
        }
    }
    assert(ws.take(ws.len() as int) =~= ws);
    let gone = rest.len() != before;
    assert(rest.deep_view().len() == rest@.len());
    state.widgets = rest;
    gone
}

/// The widgets of a module.
pub fn widget_list_json(state: &RuntimeState, module: &str) -> (r: JsonValue)
    ensures
        r@ == snapshot::list_json::<WidgetSpec>(state@.widgets.filter(owned_by(module@))),
{
    let mut mine: Vec<WidgetSpec> = Vec::new();
    let ghost ws = state@.widgets;
    let mut i: usize = 0;
    reveal(Seq::filter);
    assert(mine.deep_view() =~= ws.take(0).filter(owned_by(module@)));
    while i < state.widgets.len()
        invariant
            i <= state.widgets.len(),
            ws == state.widgets.deep_view(),
            mine.deep_view() == ws.take(i as int).filter(owned_by(module@)),
        decreases state.widgets.len() - i,
    {
        let ghost so_far = mine.deep_view();
        proof {
            reveal(Seq::filter);
            assert(ws.take(i + 1).drop_last() =~= ws.take(i as int));
            assert(ws.take(i + 1).last() == state.widgets@[i as int].deep_view());
        }
        if text::same(state.widgets[i].module.as_str(), module) {
            mine.push(state.widgets[i].duplicate());
            assert(mine.deep_view() =~= so_far.push(ws[i as int]));
        }
        i += 1;
    }
    assert(ws.take(ws.len() as int) =~= ws);
    snapshot::list_value(&mine)
}

/// The event that tells of a widget.
pub open spec fn widget_event(name: Seq<char>, w: WidgetView, now: u64) -> EventView {
    EventView {
        event: name,
        timestamp: now,
        source: Source::System,
        data: WidgetSpec::json(w),
    }
}

/// The event that tells of a widget that was put up.
pub fn registered_event(w: &WidgetSpec, now: u64) -> (r: BreadEvent)
    ensures
        r.deep_view() == widget_event("bread.widget.registered"@, w.deep_view(), now),
        r.deep_view() == telling(WidgetNews::Registered(w.deep_view()), now),
{
    BreadEvent::new("bread.widget.registered", AdapterSource::System, w.to_value(), now)
}

/// The event that tells of a widget that has changed.
pub fn updated_event(w: &WidgetSpec, now: u64) -> (r: BreadEvent)
    ensures
        r.deep_view() == widget_event("bread.widget.updated"@, w.deep_view(), now),
        r.deep_view() == telling(WidgetNews::Updated(w.deep_view()), now),
{
    BreadEvent::new("bread.widget.updated", AdapterSource::System, w.to_value(), now)
}

/// The event that tells of a widget that was taken down.
pub fn removed_event(module: &str, local_id: &str, now: u64) -> (r: BreadEvent)
    ensures
        r.deep_view() == (EventView {
            event: "bread.widget.removed"@,
            timestamp: now,
            source: Source::System,
            data: Json::empty().with("id"@, Json::Text(full_id(module@, local_id@))),
        }),
        r.deep_view() == telling(WidgetNews::Removed(full_id(module@, local_id@)), now),
{
    let id = text::concat3(module, ".", local_id);
    BreadEvent::new(
        "bread.widget.removed",
        AdapterSource::System,
        JsonValue::empty().with("id", JsonValue::of_text(id.as_str())),
        now,
    )
}

/// The event that tells that a reload has taken down all widgets that modules
/// did not put up again.
pub fn cleared_event(now: u64) -> (r: BreadEvent)
    ensures
        r.deep_view() == (EventView {
            event: "bread.widget.cleared"@,
            timestamp: now,
            source: Source::System,
            data: Json::empty(),
        }),
        r.deep_view() == telling(WidgetNews::Cleared, now),
{
    BreadEvent::new("bread.widget.cleared", AdapterSource::System, JsonValue::empty(), now)
}

/// Every id has at most one widget.
pub open spec fn unique_widgets(ws: Seq<WidgetView>) -> bool {
    forall|i: int, j: int| 0 <= i < j < ws.len() ==> (#[trigger] ws[i]).id != (#[trigger] ws[j]).id
}

/// A widget that was put up is there, once, as its module asked for it.
pub proof fn law_registered_widget_is_shown(ws: Seq<WidgetView>, w: WidgetView)
    requires
        unique_widgets(ws),
    ensures
        unique_widgets(put_up(ws, w)),
        put_up(ws, w).contains(w),
{
    let i = place_of(ws, w.id);
    let after = put_up(ws, w);
    state_engine::lemma_first_where(ws, widget_of(w.id), 0);
    assert(after[i] == w);
    assert forall|a: int, b: int| 0 <= a < b < after.len() implies (#[trigger] after[a]).id != (
    #[trigger] after[b]).id by {
        if b < ws.len() {
            assert(after[a].id == ws[a].id && after[b].id == ws[b].id);
        } else {
            assert(after[a] == ws[a]);
            assert(!widget_of(w.id)(ws[a]));
        }
    }
}

/// A widget that was taken down is gone, and those with other ids stay.
pub proof fn law_removed_widget_is_gone(ws: Seq<WidgetView>, id: Seq<char>, w: WidgetView)
    ensures
        ws.filter(not_widget(id)).contains(w) <==> ws.contains(w) && w.id != id,
    decreases ws.len(),
{
    reveal(Seq::filter);
    if ws.len() > 0 {
        let rest = ws.drop_last();
        law_removed_widget_is_gone(rest, id, w);
        let kept = rest.filter(not_widget(id));
        assert(ws =~= rest.push(ws.last()));
        assert(ws.contains(w) <==> rest.contains(w) || w == ws.last()) by {
            if rest.contains(w) {
                let k = choose|k: int| 0 <= k < rest.len() && rest[k] == w;
                assert(ws[k] == w);
            }
            assert(ws[ws.len() - 1] == ws.last());
        }
        if ws.last().id != id {
            let more = kept.push(ws.last());
            assert(more.contains(w) <==> kept.contains(w) || w == ws.last()) by {
                if kept.contains(w) {
                    let k = choose|k: int| 0 <= k < kept.len() && kept[k] == w;
                    assert(more[k] == w);
                }
                assert(more[kept.len() as int] == ws.last());
            }
        }
    }
}

/// A widget is shown as the module said, under the name of the module and its own.
pub proof fn law_widgets_are_made_as_given(module: Seq<char>, args: RegisterView, now: u64)
    ensures
        made(module, args, now).id == module + "."@ + args.id,
        made(module, args, now).module == module,
        made(module, args, now).placement == args.placement,
        made(module, args, now).order == args.order,
        made(module, args, now).visible == args.visible,
        made(module, args, now).tooltip == args.tooltip,
        made(module, args, now).root == args.root,
        made(module, args, now).updated_at == now,
{
}

/// A change of a widget sets what is given and keeps the rest.
pub proof fn law_changes_set_what_is_given(w: WidgetView, args: UpdateView, now: u64)
    ensures
        changed(w, args, now).id == w.id,
        changed(w, args, now).module == w.module,
        changed(w, args, now).placement == w.placement,
        changed(w, args, now).updated_at == now,
        args.root matches Some(root) ==> changed(w, args, now).root == root,
        args.root is None ==> changed(w, args, now).root == w.root,
        args.tooltip matches Some(tooltip) ==> changed(w, args, now).tooltip == Some(tooltip),
        args.tooltip is None ==> changed(w, args, now).tooltip == w.tooltip,
        args.visible matches Some(visible) ==> changed(w, args, now).visible == visible,
        args.visible is None ==> changed(w, args, now).visible == w.visible,
        args.order matches Some(order) ==> changed(w, args, now).order == order,
        args.order is None ==> changed(w, args, now).order == w.order,
{
}

/// A widget that is shown again takes its old place; a new one goes last. The others
/// stay where they are.
pub proof fn law_widgets_keep_their_places(ws: Seq<WidgetView>, w: WidgetView, k: int)
    requires
        0 <= k < ws.len(),
        unique_widgets(ws),
    ensures
        ws[k].id == w.id ==> put_up(ws, w).len() == ws.len() && put_up(ws, w)[k] == w,
        ws[k].id != w.id ==> put_up(ws, w)[k] == ws[k],
        (forall|i: int| 0 <= i < ws.len() ==> (#[trigger] ws[i]).id != w.id) ==>
            put_up(ws, w) == ws.push(w),
{
    let p = widget_of(w.id);
    state_engine::lemma_first_where(ws, p, 0);
    let i = place_of(ws, w.id);
    if i < ws.len() {
        assert(p(ws[i]));
        assert(ws[i].id == w.id);
    } else if ws[k].id == w.id {
        assert(p(ws[k]));
    }
    if ws[k].id == w.id {
        assert(p(ws[k]));
        assert(i <= k);
        assert(i == k);
    }
}

/// A module sees the widgets that are its own.
pub proof fn law_modules_see_their_own_widgets(ws: Seq<WidgetView>, module: Seq<char>,
    w: WidgetView)
    ensures
        ws.filter(owned_by(module)).contains(w) <==> ws.contains(w) && w.module == module,
{
    state_engine::lemma_kept(ws, owned_by(module), w);
}

/// What is told of widgets.
pub enum WidgetNews {
    Registered(WidgetView),
    Updated(WidgetView),
    Removed(Seq<char>),
    Cleared,
}

/// The event that tells it.
pub open spec fn telling(news: WidgetNews, now: u64) -> EventView {
    match news {
        WidgetNews::Registered(w) => widget_event("bread.widget.registered"@, w, now),
        WidgetNews::Updated(w) => widget_event("bread.widget.updated"@, w, now),
        WidgetNews::Removed(id) => EventView {
            event: "bread.widget.removed"@,
            timestamp: now,
            source: Source::System,
            data: Json::empty().with("id"@, Json::Text(id)),
        },
        WidgetNews::Cleared => EventView {
            event: "bread.widget.cleared"@,
            timestamp: now,
            source: Source::System,
            data: Json::empty(),
        },
    }
}

/// Each change of the widgets is told by an event of its own name: with the widget where
/// one was shown or changed, and with its name where one was taken down.
pub proof fn law_widget_changes_are_told(w: WidgetView, id: Seq<char>, now: u64, news: WidgetNews)
    ensures
        telling(WidgetNews::Registered(w), now).event == "bread.widget.registered"@,
        telling(WidgetNews::Registered(w), now).data == WidgetSpec::json(w),
        telling(WidgetNews::Updated(w), now).event == "bread.widget.updated"@,
        telling(WidgetNews::Updated(w), now).data == WidgetSpec::json(w),
        telling(WidgetNews::Removed(id), now).event == "bread.widget.removed"@,
        telling(WidgetNews::Removed(id), now).data.get("id"@) == Some(Json::Text(id)),
        telling(WidgetNews::Cleared, now).event == "bread.widget.cleared"@,
        telling(WidgetNews::Cleared, now).data == Json::Object(Map::empty()),
        telling(news, now).timestamp == now,
        telling(news, now).source == Source::System,
{
}

} // verus!
