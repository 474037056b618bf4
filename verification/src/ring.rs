//! A memory of the last few items.

use crate::events::{BreadEvent, EventView};
use crate::json::{self, Json, JsonValue, Numeral};
use crate::recency;
use crate::snapshot::Snapshot;
use std::collections::VecDeque;
use vstd::prelude::*;

verus! {

/// How many events are remembered.
pub const EVENT_LIMIT: usize = 1000;

/// How many errors are remembered.
pub const ERROR_LIMIT: usize = 50;

/// The last few items, the oldest first.
pub struct Ring<T> {
    items: VecDeque<T>,
    limit: usize,
}

/// The items after one more was added: where they are as many as may be, the
/// oldest is forgotten.
pub open spec fn remembered<V>(items: Seq<V>, limit: usize, item: V) -> Seq<V> {
    if items.len() >= limit {
        items.drop_first().push(item)
    } else {
        items.push(item)
    }
}

impl<T> Ring<T> {
    /// There are no more items than may be.
    #[verifier::type_invariant]
    spec fn bounded(self) -> bool {
        self.items@.len() <= self.limit && self.limit > 0
    }

    /// How many items there may be.
    pub closed spec fn spec_limit(&self) -> usize {
        self.limit
    }

    /// A memory of at most so many items.
    pub fn new(limit: usize) -> (r: Self)
        requires
            limit > 0,
        ensures
            r@ == Seq::<T>::empty(),
            r.spec_limit() == limit,
    {
        Ring { items: VecDeque::new(), limit }
    }

    /// Adds an item.
    pub fn push(&mut self, item: T)
        ensures
            final(self)@ == remembered(old(self)@, old(self).spec_limit(), item),
            final(self).spec_limit() == old(self).spec_limit(),
    {
        proof {
            use_type_invariant(&*self);
        }
        let mut items: VecDeque<T> = VecDeque::new();
        std::mem::swap(&mut items, &mut self.items);
        let ghost before = items@;
        if items.len() >= self.limit {
            let _ = items.pop_front();
            assert(items@ =~= before.drop_first());
        }
        items.push_back(item);
        self.items = items;
    }

    /// How many items there are.
    pub fn len(&self) -> (r: usize)
        ensures
            r == self@.len(),
            r <= self.spec_limit(),
    {
        proof {
            use_type_invariant(self);
        }
        self.items.len()
    }

    /// The item at a place.
    pub fn at(&self, i: usize) -> (r: &T)
        requires
            i < self@.len(),
        ensures
            *r == self@[i as int],
    {
        &self.items[i]
    }
}

impl<T> View for Ring<T> {
    type V = Seq<T>;

    closed spec fn view(&self) -> Seq<T> {
        self.items@
    }
}

/// What the items stand for.
pub open spec fn views<T: DeepView>(items: Seq<T>) -> Seq<T::V> {
    items.map_values(|x: T| x.deep_view())
}

/// The event is not older than the given time.
pub open spec fn not_before(cutoff: u64) -> spec_fn(EventView) -> bool {
    |e: EventView| e.timestamp >= cutoff
}

/// The remembered events of the last `since_ms` milliseconds, the oldest first.
pub fn replay(events: &Ring<BreadEvent>, since_ms: u64, now: u64) -> (r: Vec<BreadEvent>)
    ensures
        r.deep_view() == views(events@).filter(not_before(recency::less(now, since_ms))),
{
    let cutoff: u64 = now.saturating_sub(since_ms);
    let mut r: Vec<BreadEvent> = Vec::new();
    let ghost all = views(events@);
    let mut i: usize = 0;
    reveal(Seq::filter);
    assert(r.deep_view() =~= all.take(0).filter(not_before(cutoff)));
    while i < events.len()
        invariant
            i <= events@.len(),
            all == views(events@),
            r.deep_view() == all.take(i as int).filter(not_before(cutoff)),
        decreases events@.len() - i,
    {
        let ghost so_far = r.deep_view();
        proof {
            reveal(Seq::filter);
            assert(all.take(i + 1).drop_last() =~= all.take(i as int));
            assert(all.take(i + 1).last() == events@[i as int].deep_view());
        }
        if events.at(i).timestamp >= cutoff {
            r.push(events.at(i).duplicate());
            assert(r.deep_view() =~= so_far.push(all[i as int]));
        }
        i += 1;
    }
    assert(all.take(all.len() as int) =~= all);
    r
}

/// An error of a module.
#[derive(Debug)]
pub struct ErrorEntry {
    pub timestamp: u64,
    pub module: Option<String>,
    pub message: String,
}

/// What an error stands for.
#[verifier::ext_equal]
pub struct ErrorView {
    pub timestamp: u64,
    pub module: Option<Seq<char>>,
    pub message: Seq<char>,
}

impl DeepView for ErrorEntry {
    type V = ErrorView;

    open spec fn deep_view(&self) -> ErrorView {
        ErrorView {
            timestamp: self.timestamp,
            module: self.module.deep_view(),
            message: self.message@,
        }
    }
}

impl Snapshot for ErrorEntry {
    open spec fn json(v: ErrorView) -> Json {
        Json::empty().with("timestamp"@, Json::Num(Numeral::PosInt(v.timestamp))).with(
            "module"@,
            json::text_or_null(v.module),
        ).with("message"@, Json::Text(v.message))
    }

    fn to_value(&self) -> JsonValue {
        JsonValue::empty().with("timestamp", JsonValue::of_u64(self.timestamp)).with(
            "module",
            JsonValue::of_option(&self.module),
        ).with("message", JsonValue::of_text(self.message.as_str()))
    }
}

/// The remembered errors, the oldest first.
pub fn recent_errors(errors: &Ring<ErrorEntry>) -> (r: Vec<ErrorEntry>)
    ensures
        r.deep_view() == views(errors@),
{
    let mut r: Vec<ErrorEntry> = Vec::new();
    let mut i: usize = 0;
    while i < errors.len()
        invariant
            i <= errors@.len(),
            r.deep_view() =~= views(errors@).take(i as int),
        decreases errors@.len() - i,
    {
        let e = errors.at(i);
        let again = ErrorEntry {
            timestamp: e.timestamp,
            module: e.module.clone(),
            message: e.message.clone(),
        };
        let ghost so_far = r.deep_view();
        let ghost all = views(errors@);
        assert(again.deep_view() == all[i as int]);
        r.push(again);
        assert(r.deep_view() =~= so_far.push(all[i as int]));
        assert(all.take(i + 1) =~= all.take(i as int).push(all[i as int]));
        i += 1;
    }
    assert(views(errors@).take(errors@.len() as int) =~= views(errors@));
    r
}

/// What was added last is remembered, and a memory never grows beyond its
/// limit.
pub proof fn law_latest_is_remembered<V>(items: Seq<V>, limit: usize, item: V)
    requires
        0 < limit,
        items.len() <= limit,
    ensures
        remembered(items, limit, item).last() == item,
        remembered(items, limit, item).len() <= limit,
{
}

/// While there is room nothing is forgotten; afterwards one item leaves for each
/// that comes, and the others keep their order.
pub proof fn law_oldest_is_forgotten<V>(items: Seq<V>, limit: usize, item: V)
    requires
        0 < limit,
        items.len() <= limit,
    ensures
        items.len() < limit ==> remembered(items, limit, item) == items.push(item),
        items.len() == limit ==> remembered(items, limit, item) == items.subrange(
            1,
            items.len() as int,
        ).push(item),
{
    if items.len() == limit {
        assert(items.drop_first() =~= items.subrange(1, items.len() as int));
    }
}

/// What is kept of an error under its keys.
pub proof fn law_error_form(v: ErrorView)
    ensures
        ErrorEntry::json(v).get("timestamp"@) == Some(Json::Num(Numeral::PosInt(v.timestamp))),
        v.module matches Some(m) ==> ErrorEntry::json(v).get("module"@) == Some(Json::Text(m)),
        v.module is None ==> ErrorEntry::json(v).get("module"@) == Some(Json::Null),
        ErrorEntry::json(v).get("message"@) == Some(Json::Text(v.message)),
{
    reveal_strlit("timestamp");
    reveal_strlit("module");
    reveal_strlit("message");
    assert("timestamp"@.len() == 9);
    assert("module"@.len() == 6);
    assert("message"@.len() == 7);
}

/// The events that are replayed are those of the last milliseconds asked for.
pub proof fn law_recent_events_are_replayed(events: Seq<EventView>, since_ms: u64, now: u64,
    e: EventView)
    ensures
        events.filter(not_before(recency::less(now, since_ms))).contains(e)
            <==> events.contains(e) && e.timestamp + since_ms >= now,
{
    crate::state_engine::lemma_kept(events, not_before(recency::less(now, since_ms)), e);
}

} // verus!
