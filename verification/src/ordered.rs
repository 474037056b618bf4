//! Lists kept in order.

use crate::text;
use vstd::prelude::*;

verus! {

/// Values that have a place in an order.
pub trait Ordered: DeepView + Sized {
    /// `a` comes before `b`.
    spec fn before(a: Self::V, b: Self::V) -> bool;

    /// Of two values one comes before the other, or they are the same.
    proof fn before_total(a: Self::V, b: Self::V)
        ensures
            Self::before(a, b) || Self::before(b, a) || a == b,
            !(Self::before(a, b) && Self::before(b, a)),
            a == b ==> !Self::before(a, b),
    ;

    /// What comes before a value comes before all that the value comes before.
    proof fn before_transitive(a: Self::V, b: Self::V, c: Self::V)
        requires
            Self::before(a, b),
            Self::before(b, c),
        ensures
            Self::before(a, c),
    ;

    /// The value comes before the other.
    fn comes_before(&self, other: &Self) -> (r: bool)
        ensures
            r == Self::before(self.deep_view(), other.deep_view()),
    ;

    /// The value once more.
    fn copy(&self) -> (r: Self)
        ensures
            r.deep_view() == self.deep_view(),
    ;
}

impl Ordered for String {
    open spec fn before(a: Seq<char>, b: Seq<char>) -> bool {
        text::precedes(a, b)
    }

    proof fn before_total(a: Seq<char>, b: Seq<char>) {
        text::lemma_precedes_total(a, b);
    }

    proof fn before_transitive(a: Seq<char>, b: Seq<char>, c: Seq<char>) {
        text::lemma_precedes_transitive(a, b, c);
    }

    fn comes_before(&self, other: &Self) -> (r: bool) {
        text::is_before(self.as_str(), other.as_str())
    }

    fn copy(&self) -> (r: Self) {
        self.clone()
    }
}

impl Ordered for (String, String) {
    open spec fn before(a: (Seq<char>, Seq<char>), b: (Seq<char>, Seq<char>)) -> bool {
        text::precedes(a.0, b.0) || (a.0 == b.0 && text::precedes(a.1, b.1))
    }

    proof fn before_total(a: (Seq<char>, Seq<char>), b: (Seq<char>, Seq<char>)) {
        text::lemma_precedes_total(a.0, b.0);
        text::lemma_precedes_total(a.1, b.1);
    }

    proof fn before_transitive(
        a: (Seq<char>, Seq<char>),
        b: (Seq<char>, Seq<char>),
        c: (Seq<char>, Seq<char>),
    ) {
        if text::precedes(a.0, b.0) && text::precedes(b.0, c.0) {
            text::lemma_precedes_transitive(a.0, b.0, c.0);
        }
        if text::precedes(a.1, b.1) && text::precedes(b.1, c.1) {
            text::lemma_precedes_transitive(a.1, b.1, c.1);
        }
    }

    fn comes_before(&self, other: &Self) -> (r: bool) {
        text::is_before(self.0.as_str(), other.0.as_str()) || (text::same(
            self.0.as_str(),
            other.0.as_str(),
        ) && text::is_before(self.1.as_str(), other.1.as_str()))
    }

    fn copy(&self) -> (r: Self) {
        (self.0.clone(), self.1.clone())
    }
}

/// Each value comes before those that follow it, so none is there twice.
pub open spec fn ascending<T: Ordered>(s: Seq<T::V>) -> bool {
    forall|i: int, j: int| 0 <= i < j < s.len() ==> T::before(#[trigger] s[i], #[trigger] s[j])
}

/// No value comes before one that precedes it in the list.
pub open spec fn sorted<T: Ordered>(s: Seq<T::V>) -> bool {
    forall|i: int, j: int| 0 <= i < j < s.len() ==> !T::before(#[trigger] s[j], #[trigger] s[i])
}

/// The value is in the list.
pub fn holds<T: Ordered>(v: &Vec<T>, item: &T) -> (r: bool)
    ensures
        r == v.deep_view().contains(item.deep_view()),
{
    let mut i: usize = 0;
    while i < v.len()
        invariant
            i <= v.len(),
            forall|k: int| 0 <= k < i ==> #[trigger] v.deep_view()[k] != item.deep_view(),
        decreases v.len() - i,
    {
        proof {
            T::before_total(v@[i as int].deep_view(), item.deep_view());
        }
        if !v[i].comes_before(item) && !item.comes_before(&v[i]) {
            assert(v.deep_view()[i as int] == item.deep_view());
            return true;
        }
        i += 1;
    }
    false
}

/// Adds a value at its place, unless it is there.
pub fn insert<T: Ordered>(v: &mut Vec<T>, item: T)
    requires
        ascending::<T>(old(v).deep_view()),
    ensures
        ascending::<T>(final(v).deep_view()),
        final(v).deep_view().to_set() == old(v).deep_view().to_set().insert(item.deep_view()),
{
    let ghost before = v.deep_view();
    let ghost added = item.deep_view();
    if holds(v, &item) {
        assert(before.to_set() =~= before.to_set().insert(added));
        return;
    }
    let mut i: usize = 0;
    while i < v.len() && v[i].comes_before(&item)
        invariant
            i <= v.len(),
            v.deep_view() == before,
            added == item.deep_view(),
            forall|k: int| 0 <= k < i ==> T::before(#[trigger] before[k], added),
        decreases v.len() - i,
    {
        assert(before[i as int] == v@[i as int].deep_view());
        i += 1;
    }
    proof {
        assert forall|k: int| i <= k < before.len() implies T::before(
            added,
            #[trigger] before[k],
        ) by {
            assert(before[i as int] == v@[i as int].deep_view());
            T::before_total(added, before[i as int]);
            assert(before.contains(before[i as int]));
            if k > i {
                T::before_transitive(added, before[i as int], before[k]);
            }
        }
    }
    v.insert(i, item);
    let ghost after = v.deep_view();
    assert(after =~= before.insert(i as int, added));
    proof {
        assert forall|a: int, b: int| 0 <= a < b < after.len() implies T::before(
            #[trigger] after[a],
            #[trigger] after[b],
        ) by {
            let a0 = if a < i {
                a
            } else {
                a - 1
            };
            let b0 = if b < i {
                b
            } else {
                b - 1
            };
            if a == i {
                assert(after[b] == before[b0]);
            } else if b == i {
                assert(after[a] == before[a0]);
            } else {
                assert(after[a] == before[a0]);
                assert(after[b] == before[b0]);
            }
        }
        assert(after.to_set() =~= before.to_set().insert(added)) by {
            assert forall|x: T::V| after.contains(x) == (before.contains(x) || x == added) by {
                if before.contains(x) {
                    let k = choose|k: int| 0 <= k < before.len() && before[k] == x;
                    assert(after[if k < i {
                        k
                    } else {
                        k + 1
                    }] == x);
                }
                assert(after[i as int] == added);
                if after.contains(x) && x != added {
                    let k = choose|k: int| 0 <= k < after.len() && after[k] == x;
                    assert(before[if k < i {
                        k
                    } else {
                        k - 1
                    }] == x);
                }
            }
        }
    }
}

/// The values of the first list that are not in the second.
pub fn difference<T: Ordered>(a: &Vec<T>, b: &Vec<T>) -> (r: Vec<T>)
    requires
        ascending::<T>(a.deep_view()),
    ensures
        ascending::<T>(r.deep_view()),
        r.deep_view().to_set() == a.deep_view().to_set().difference(b.deep_view().to_set()),
{
    let mut r: Vec<T> = Vec::new();
    let mut i: usize = 0;
    assert(r.deep_view().to_set() =~= Set::empty());
    assert(a.deep_view().take(0).to_set() =~= Set::empty());
    while i < a.len()
        invariant
            i <= a.len(),
            ascending::<T>(r.deep_view()),
            r.deep_view().to_set() =~= a.deep_view().take(i as int).to_set().difference(
                b.deep_view().to_set(),
            ),
        decreases a.len() - i,
    {
        let ghost taken = a.deep_view().take(i as int);
        let ghost item = a@[i as int].deep_view();
        proof {
            let more = a.deep_view().take(i + 1);
            assert(more =~= taken.push(item));
            assert(more.to_set() =~= taken.to_set().insert(item)) by {
                assert forall|x: T::V| more.contains(x) == (taken.contains(x) || x == item) by {
                    if taken.contains(x) {
                        let k = choose|k: int| 0 <= k < taken.len() && taken[k] == x;
                        assert(more[k] == x);
                    }
                    assert(more[i as int] == item);
                }
            }
        }
        if !holds(b, &a[i]) {
            insert(&mut r, a[i].copy());
        }
        i += 1;
    }
    assert(a.deep_view().take(a@.len() as int) =~= a.deep_view());
    r
}

fn place<T: Ordered>(v: &mut Vec<T>, item: T)
    requires
        sorted::<T>(old(v).deep_view()),
    ensures
        sorted::<T>(final(v).deep_view()),
        final(v).deep_view().to_multiset() == old(v).deep_view().to_multiset().insert(
            item.deep_view(),
        ),
{
    let ghost before = v.deep_view();
    let ghost added = item.deep_view();
    let mut i: usize = v.len();
    while i > 0 && item.comes_before(&v[i - 1])
        invariant
            i <= v.len(),
            v.deep_view() == before,
            added == item.deep_view(),
            forall|k: int| i <= k < before.len() ==> T::before(added, #[trigger] before[k]),
        decreases i,
    {
        assert(before[i - 1] == v@[i - 1].deep_view());
        i -= 1;
    }
    proof {
        assert forall|k: int| 0 <= k < i implies !T::before(added, #[trigger] before[k]) by {
            let last = before[i - 1];
            assert(last == v@[i - 1].deep_view());
            if T::before(added, before[k]) && k < i - 1 {
                T::before_total(before[k], last);
                if T::before(before[k], last) {
                    T::before_transitive(added, before[k], last);
                }
            }
        }
    }
    v.insert(i, item);
    let ghost after = v.deep_view();
    proof {
        assert(after =~= before.insert(i as int, added));
        vstd::seq_lib::to_multiset_insert(before, i as int, added);
        assert forall|a: int, b: int| 0 <= a < b < after.len() implies !T::before(
            #[trigger] after[b],
            #[trigger] after[a],
        ) by {
            let a0 = if a < i {
                a
            } else {
                a - 1
            };
            let b0 = if b < i {
                b
            } else {
                b - 1
            };
            if a == i {
                assert(after[b] == before[b0]);
                T::before_total(added, before[b0]);
            } else if b == i {
                assert(after[a] == before[a0]);
            } else {
                assert(after[a] == before[a0]);
                assert(after[b] == before[b0]);
            }
        }
    }
}

/// The values in order, each as often as before.
pub fn sort<T: Ordered>(v: Vec<T>) -> (r: Vec<T>)
    ensures
        sorted::<T>(r.deep_view()),
        r.deep_view().to_multiset() == v.deep_view().to_multiset(),
{
    let ghost all = v.deep_view();
    let ghost items = v@;
    let mut r: Vec<T> = Vec::new();
    assert(r.deep_view() =~= all.take(0));
    for item in it: v
        invariant
            it.seq() == items,
            items.len() == all.len(),
            forall|k: int| 0 <= k < all.len() ==> (#[trigger] items[k]).deep_view() == all[k],
            sorted::<T>(r.deep_view()),
            r.deep_view().to_multiset() == all.take(it.index() as int).to_multiset(),
    {
        let ghost n = it.index() as int;
        proof {
            assert(items[n].deep_view() == all[n]);
            assert(all.take(n + 1) =~= all.take(n).push(all[n]));
            broadcast use vstd::seq_lib::group_to_multiset_ensures;

        }
        place(&mut r, item);
    }
    assert(all.take(all.len() as int) =~= all);
    r
}

} // verus!
