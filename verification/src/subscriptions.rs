//! The table of event subscriptions.

use crate::glob;
use std::collections::HashMap;
use vstd::prelude::*;

verus! {

broadcast use vstd::std_specs::hash::group_hash_axioms;

/// Names one subscription.
#[derive(Debug, Clone, Copy, PartialEq, Eq, Hash, Structural)]
pub struct SubscriptionId(pub u64);

impl DeepView for SubscriptionId {
    type V = u64;

    open spec fn deep_view(&self) -> u64 {
        self.0
    }
}

/// A wish to be told of the events whose names match a pattern, every time or
/// only once.
#[derive(Debug)]
pub struct Subscription {
    pub id: SubscriptionId,
    pub pattern: String,
    pub once: bool,
}

/// What a subscription stands for.
#[verifier::ext_equal]
pub struct SubscriptionView {
    pub id: u64,
    pub pattern: Seq<char>,
    pub once: bool,
}

impl DeepView for Subscription {
    type V = SubscriptionView;

    open spec fn deep_view(&self) -> SubscriptionView {
        SubscriptionView { id: self.id.0, pattern: self.pattern@, once: self.once }
    }
}

impl Subscription {
    /// A subscription that stands for the same.
    pub fn duplicate(&self) -> (r: Subscription)
        ensures
            r.deep_view() == self.deep_view(),
    {
        Subscription { id: self.id, pattern: self.pattern.clone(), once: self.once }
    }
}

/// The subscription is for events of the given name.
pub open spec fn wants(sub: SubscriptionView, event_name: Seq<char>) -> bool {
    glob::pattern_matches(sub.pattern, event_name)
}

/// The subscriptions, and for each known id the place of its entry.
#[derive(Debug)]
pub struct SubscriptionTable {
    entries: Vec<Subscription>,
    by_id: HashMap<u64, usize>,
    next_id: u64,
}

/// What a subscription table stands for.
#[verifier::ext_equal]
pub struct TableView {
    /// The subscriptions in the order in which they are told of events.
    pub entries: Seq<SubscriptionView>,
    /// The place of the entry that an id names.
    pub places: Map<u64, usize>,
    /// An id above every id that was ever added, as far as there is one.
    pub next_id: u64,
}

impl TableView {
    /// Every known id names an entry with that id.
    pub open spec fn wf(self) -> bool {
        forall|id: u64| #[trigger]
            self.places.contains_key(id) ==> self.places[id] < self.entries.len()
                && self.entries[self.places[id] as int].id == id
    }

    /// Every entry can be found by its id; so no two entries share one.
    pub open spec fn indexed(self) -> bool {
        forall|i: int|
            0 <= i < self.entries.len() ==> self.places.contains_key(
                (#[trigger] self.entries[i]).id,
            ) && self.places[self.entries[i].id] == i
    }

    /// The table without entries.
    pub open spec fn empty() -> TableView {
        TableView { entries: Seq::empty(), places: Map::empty(), next_id: 0 }
    }

    /// The table after a subscription was added.
    pub open spec fn add(self, sub: SubscriptionView) -> TableView {
        TableView {
            entries: self.entries.push(sub),
            places: self.places.insert(sub.id, self.entries.len() as usize),
            next_id: if self.next_id > sub.id {
                self.next_id
            } else if sub.id == u64::MAX {
                u64::MAX
            } else {
                (sub.id + 1) as u64
            },
        }
    }

    /// The table after the entry that `id` names was removed: the last entry
    /// takes its place.
    pub open spec fn remove(self, id: u64) -> TableView {
        if !self.places.contains_key(id) {
            self
        } else {
            let i = self.places[id] as int;
            let last = self.entries.last();
            if i == self.entries.len() - 1 {
                TableView {
                    entries: self.entries.drop_last(),
                    places: self.places.remove(id),
                    next_id: self.next_id,
                }
            } else {
                TableView {
                    entries: self.entries.update(i, last).drop_last(),
                    places: self.places.remove(id).insert(last.id, i as usize),
                    next_id: self.next_id,
                }
            }
        }
    }

    /// The subscriptions that are for events of the given name, in order.
    pub open spec fn matching(self, event_name: Seq<char>) -> Seq<SubscriptionView> {
        self.entries.filter(|s: SubscriptionView| wants(s, event_name))
    }
}

impl View for SubscriptionTable {
    type V = TableView;

    closed spec fn view(&self) -> TableView {
        TableView {
            entries: self.entries.deep_view(),
            places: self.by_id@,
            next_id: self.next_id,
        }
    }
}

impl Default for SubscriptionTable {
    fn default() -> (r: Self)
        ensures
            r@ == TableView::empty(),
            r@.wf(),
    {
        let r = SubscriptionTable { entries: Vec::new(), by_id: HashMap::new(), next_id: 0 };
        assert(r@ =~= TableView::empty());
        r
    }
}

impl SubscriptionTable {
    /// Adds a subscription under the given id. A later entry hides an earlier
    /// one with the same id from `remove`.
    pub fn add_with_id(&mut self, id: SubscriptionId, pattern: String, once: bool) -> (r:
        SubscriptionId)
        requires
            old(self)@.wf(),
        ensures
            r == id,
            final(self)@ == old(self)@.add(
                (SubscriptionView { id: id.0, pattern: pattern@, once: once }),
            ),
            final(self)@.wf(),
    {
        let above: u64 = id.0.saturating_add(1);
        if self.next_id < above {
            self.next_id = above;
        }
        let sub = Subscription { id, pattern, once };
        let ghost view = sub.deep_view();
        let place: usize = self.entries.len();
        self.entries.push(sub);
        self.by_id.insert(id.0, place);
        assert(self.entries.deep_view() =~= old(self).entries.deep_view().push(view));
        assert(self@ =~= old(self)@.add(view));
        id
    }

    /// Removes the entry that the id names, and tells whether there was one.
    pub fn remove(&mut self, id: SubscriptionId) -> (r: bool)
        requires
            old(self)@.wf(),
        ensures
            r == old(self)@.places.contains_key(id.0),
            final(self)@ == old(self)@.remove(id.0),
            final(self)@.wf(),
    {
        let found = self.by_id.remove(&id.0);
        match found {
            None => {
                assert(self@ =~= old(self)@);
                false
            },
            Some(idx) => {
                assert(old(self)@.places.contains_key(id.0));
                let ghost entries = self.entries.deep_view();
                self.entries.swap_remove(idx);
                assert(self.entries.deep_view() =~= entries.update(
                    idx as int,
                    entries.last(),
                ).drop_last());
                if idx < self.entries.len() {
                    let swapped: u64 = self.entries[idx].id.0;
                    self.by_id.remove(&swapped);
                    self.by_id.insert(swapped, idx);
                    assert(self.by_id@ =~= old(self)@.remove(id.0).places);
                } else {
                    assert(self.entries.deep_view() =~= entries.drop_last());
                }
                assert(self@ =~= old(self)@.remove(id.0));
                true
            },
        }
    }

    /// Removes every subscription.
    pub fn clear(&mut self)
        ensures
            final(self)@ == (TableView { next_id: old(self)@.next_id, ..TableView::empty() }),
            final(self)@.wf(),
    {
        self.entries.clear();
        self.by_id.clear();
        assert(self@ =~= (TableView { next_id: old(self)@.next_id, ..TableView::empty() }));
    }

    /// The subscriptions that are for events of the given name, in order.
    pub fn match_event(&self, event_name: &str) -> (r: Vec<Subscription>)
        ensures
            r.deep_view() == self@.matching(event_name@),
    {
        let mut r: Vec<Subscription> = Vec::new();
        let ghost want = |s: SubscriptionView| wants(s, event_name@);
        let mut i: usize = 0;
        assert(self@.entries.take(0).filter(want) =~= Seq::empty()) by {
            reveal(Seq::filter);
        }
        while i < self.entries.len()
            invariant
                i <= self.entries.len(),
                self@.entries == self.entries.deep_view(),
                want == (|s: SubscriptionView| wants(s, event_name@)),
                r.deep_view() == self@.entries.take(i as int).filter(want),
            decreases self.entries.len() - i,
        {
            let ghost before = r.deep_view();
            let sub = &self.entries[i];
            proof {
                reveal(Seq::filter);
                let t = self@.entries.take(i + 1);
                assert(t.drop_last() =~= self@.entries.take(i as int));
                assert(t.last() == sub.deep_view());
            }
            if glob::matches_pattern(sub.pattern.as_str(), event_name) {
                r.push(sub.duplicate());
                assert(r.deep_view() =~= before.push(sub.deep_view()));
            }
            i += 1;
        }
        assert(self@.entries.take(self@.entries.len() as int) =~= self@.entries);
        r
    }
}

/// Removing a subscription undoes adding it under a new id.
pub proof fn law_remove_undoes_add(table: TableView, sub: SubscriptionView)
    requires
        table.wf(),
        !table.places.contains_key(sub.id),
        table.entries.len() < usize::MAX,
    ensures
        table.add(sub).remove(sub.id).entries == table.entries,
        table.add(sub).remove(sub.id).places == table.places,
{
    assert(table.entries.push(sub).drop_last() =~= table.entries);
    assert(table.places.insert(sub.id, table.entries.len() as usize).remove(sub.id)
        =~= table.places);
}

/// A table whose entries can all be found by their ids stays one when a
/// subscription is added under a new id.
pub proof fn law_add_keeps_indexed(table: TableView, sub: SubscriptionView)
    requires
        table.wf(),
        table.indexed(),
        !table.places.contains_key(sub.id),
        table.entries.len() < usize::MAX,
    ensures
        table.add(sub).wf(),
        table.add(sub).indexed(),
{
    let after = table.add(sub);
    assert forall|i: int| 0 <= i < after.entries.len() implies after.places.contains_key(
        (#[trigger] after.entries[i]).id,
    ) && after.places[after.entries[i].id] == i by {
        if i < table.entries.len() {
            assert(after.entries[i] == table.entries[i]);
        }
    }
}

/// In a table whose entries can all be found by their ids, removing an id takes
/// away the entry with that id and no other, and the table stays one.
pub proof fn law_remove_takes_one_entry(table: TableView, id: u64)
    requires
        table.wf(),
        table.indexed(),
    ensures
        table.remove(id).wf(),
        table.remove(id).indexed(),
        forall|sub: SubscriptionView| #[trigger]
            table.remove(id).entries.contains(sub) <==> table.entries.contains(sub) && sub.id
                != id,
{
    let after = table.remove(id);
    if table.places.contains_key(id) {
        let n = table.entries.len() - 1;
        let p = table.places[id] as int;
        assert forall|i: int| 0 <= i < after.entries.len() implies after.places.contains_key(
            (#[trigger] after.entries[i]).id,
        ) && after.places[after.entries[i].id] == i && after.entries[i].id != id by {
            if i == p {
                assert(after.entries[i] == table.entries[n]);
            } else {
                assert(after.entries[i] == table.entries[i]);
                assert(table.entries[n] == table.entries.last());
            }
        }
        assert forall|sub: SubscriptionView| #[trigger]
            after.entries.contains(sub) implies table.entries.contains(sub) && sub.id != id by {
            let i = choose|i: int| 0 <= i < after.entries.len() && after.entries[i] == sub;
            if i == p {
                assert(table.entries[n] == sub);
            } else {
                assert(table.entries[i] == sub);
            }
        }
        assert forall|sub: SubscriptionView|
            table.entries.contains(sub) && sub.id != id implies #[trigger] after.entries.contains(
            sub,
        ) by {
            let i = choose|i: int| 0 <= i < table.entries.len() && table.entries[i] == sub;
            if i == n {
                assert(after.entries[p] == sub);
            } else {
                assert(after.entries[i] == sub);
            }
        }
        assert(after.wf()) by {
            assert forall|k: u64| #[trigger] after.places.contains_key(k) implies after.places[k]
                < after.entries.len() && after.entries[after.places[k] as int].id == k by {
                assert(table.entries[n] == table.entries.last());
                if k != table.entries[n].id {
                    assert(table.places.contains_key(k));
                    assert(table.entries[table.places[k] as int].id == k);
                }
            }
        }
    } else {
        assert forall|sub: SubscriptionView| #[trigger]
            after.entries.contains(sub) implies sub.id != id by {
            let i = choose|i: int| 0 <= i < table.entries.len() && table.entries[i] == sub;
            assert(table.places.contains_key(table.entries[i].id));
        }
    }
}

/// Once added, a subscription is told of exactly the events that its pattern
/// matches, after those that were there before.
pub proof fn law_added_subscription_is_matched(
    table: TableView,
    sub: SubscriptionView,
    event_name: Seq<char>,
)
    ensures
        table.add(sub).matching(event_name) == table.matching(event_name) + if wants(
            sub,
            event_name,
        ) {
            seq![sub]
        } else {
            Seq::empty()
        },
{
    reveal(Seq::filter);
    assert(table.entries.push(sub).drop_last() =~= table.entries);
    assert(table.matching(event_name) + Seq::empty() =~= table.matching(event_name));
}

/// An empty table has no subscriptions and begins to count at zero; the next number is
/// above every number that was given out.
pub proof fn law_numbers_go_up(table: TableView, sub: SubscriptionView)
    ensures
        TableView::empty().entries.len() == 0,
        TableView::empty().places == Map::<u64, usize>::empty(),
        TableView::empty().next_id == 0,
        sub.id < u64::MAX ==> table.add(sub).next_id > sub.id,
        table.add(sub).next_id >= table.next_id,
        table.add(sub).next_id == table.next_id || table.add(sub).next_id == sub.id + 1
            || sub.id == u64::MAX,
{
}

} // verus!
