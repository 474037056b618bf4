//! Items under names.

use crate::json::{Json, JsonValue};
use crate::snapshot::{self, Snapshot};
use crate::text;
use crate::types;
use vstd::prelude::*;

verus! {

/// Items under names, one under each.
#[derive(Debug)]
pub struct Table<T> {
    entries: Vec<(String, T)>,
}

/// No two entries share a name.
pub open spec fn unique_names<T>(pairs: Seq<(String, T)>) -> bool {
    forall|i: int, j: int|
        0 <= i < j < pairs.len() ==> (#[trigger] pairs[i]).0@ != (#[trigger] pairs[j]).0@
}

impl<T: DeepView> View for Table<T> {
    type V = Map<Seq<char>, T::V>;

    closed spec fn view(&self) -> Map<Seq<char>, T::V> {
        types::named(self.entries@)
    }
}

proof fn lemma_named<T: DeepView>(pairs: Seq<(String, T)>, name: Seq<char>)
    requires
        unique_names(pairs),
    ensures
        types::named(pairs).contains_key(name) <==> exists|i: int|
            0 <= i < pairs.len() && (#[trigger] pairs[i]).0@ == name,
        forall|i: int|
            0 <= i < pairs.len() && (#[trigger] pairs[i]).0@ == name ==> types::named(pairs)[name]
                == pairs[i].1.deep_view(),
    decreases pairs.len(),
{
    if pairs.len() > 0 {
        let rest = pairs.drop_last();
        let n = pairs.len() - 1;
        assert(unique_names(rest)) by {
            assert forall|a: int, b: int| 0 <= a < b < rest.len() implies (#[trigger] rest[a]).0@
                != (#[trigger] rest[b]).0@ by {
                assert(rest[a] == pairs[a]);
                assert(rest[b] == pairs[b]);
            }
        }
        lemma_named(rest, name);
        assert forall|i: int| 0 <= i < pairs.len() && (#[trigger] pairs[i]).0@ == name implies
            types::named(pairs)[name] == pairs[i].1.deep_view() && types::named(pairs).contains_key(
            name,
        ) by {
            if i < n {
                assert(rest[i].0@ == name);
                assert(pairs[n].0@ != name);
            }
        }
        if types::named(pairs).contains_key(name) {
            if pairs[n].0@ != name {
                let i = choose|i: int| 0 <= i < rest.len() && (#[trigger] rest[i]).0@ == name;
                assert(pairs[i].0@ == name);
            }
        }
    }
}

proof fn lemma_replaced<T: DeepView>(pairs: Seq<(String, T)>, i: int, pair: (String, T))
    requires
        unique_names(pairs),
        0 <= i < pairs.len(),
        pairs[i].0@ == pair.0@,
    ensures
        unique_names(pairs.update(i, pair)),
        types::named(pairs.update(i, pair)) == types::named(pairs).insert(
            pair.0@,
            pair.1.deep_view(),
        ),
{
    let after = pairs.update(i, pair);
    assert forall|a: int, b: int| 0 <= a < b < after.len() implies (#[trigger] after[a]).0@ != (
    #[trigger] after[b]).0@ by {
        assert(pairs[a].0@ != pairs[b].0@);
    }
    let m = types::named(pairs).insert(pair.0@, pair.1.deep_view());
    assert forall|name: Seq<char>|
        #![trigger types::named(after).dom().contains(name)]
        #![trigger types::named(after)[name]]
        types::named(after).dom().contains(name) == m.dom().contains(name) && (m.dom().contains(
            name,
        ) ==> types::named(after)[name] == m[name]) by {
        lemma_named(pairs, name);
        lemma_named(after, name);
        assert(after[i].0@ == pair.0@);
        if types::named(pairs).contains_key(name) {
            let k = choose|k: int| 0 <= k < pairs.len() && (#[trigger] pairs[k]).0@ == name;
            assert(after[k].0@ == name);
        }
        if types::named(after).contains_key(name) {
            let k = choose|k: int| 0 <= k < after.len() && (#[trigger] after[k]).0@ == name;
            assert(pairs[k].0@ == name);
        }
    }
    assert(types::named(after) =~= m);
}

proof fn lemma_appended<T: DeepView>(pairs: Seq<(String, T)>, pair: (String, T))
    requires
        unique_names(pairs),
        forall|k: int| 0 <= k < pairs.len() ==> (#[trigger] pairs[k]).0@ != pair.0@,
    ensures
        unique_names(pairs.push(pair)),
        types::named(pairs.push(pair)) == types::named(pairs).insert(
            pair.0@,
            pair.1.deep_view(),
        ),
{
    assert(pairs.push(pair).drop_last() =~= pairs);
}

proof fn lemma_removed<T: DeepView>(pairs: Seq<(String, T)>, i: int)
    requires
        unique_names(pairs),
        0 <= i < pairs.len(),
    ensures
        unique_names(pairs.remove(i)),
        types::named(pairs.remove(i)) == types::named(pairs).remove(pairs[i].0@),
{
    let after = pairs.remove(i);
    assert forall|k: int| 0 <= k < after.len() implies (#[trigger] after[k]) == pairs[if k < i {
        k
    } else {
        k + 1
    }] by {}
    assert forall|a: int, b: int| 0 <= a < b < after.len() implies (#[trigger] after[a]).0@ != (
    #[trigger] after[b]).0@ by {
        let x = if a < i {
            a
        } else {
            a + 1
        };
        let y = if b < i {
            b
        } else {
            b + 1
        };
        assert(pairs[x].0@ != pairs[y].0@);
    }
    let m = types::named(pairs).remove(pairs[i].0@);
    assert forall|name: Seq<char>|
        #![trigger types::named(after).dom().contains(name)]
        #![trigger types::named(after)[name]]
        types::named(after).dom().contains(name) == m.dom().contains(name) && (m.dom().contains(
            name,
        ) ==> types::named(after)[name] == m[name]) by {
        lemma_named(pairs, name);
        lemma_named(after, name);
        if m.contains_key(name) {
            let k = choose|k: int| 0 <= k < pairs.len() && (#[trigger] pairs[k]).0@ == name;
            let j = if k < i {
                k
            } else {
                k - 1
            };
            assert(after[j] == pairs[k]);
        }
        if types::named(after).contains_key(name) {
            let j = choose|j: int| 0 <= j < after.len() && (#[trigger] after[j]).0@ == name;
            let k = if j < i {
                j
            } else {
                j + 1
            };
            assert(pairs[k].0@ == name);
            assert(pairs[i].0@ != name);
        }
    }
    assert(types::named(after) =~= m);
}

impl<T> Table<T> {
    /// Every name has one entry.
    #[verifier::type_invariant]
    spec fn unique(self) -> bool {
        unique_names(self.entries@)
    }
}

impl<T: DeepView> Table<T> {
    /// Nothing under any name.
    pub fn new() -> (r: Self)
        ensures
            r@ == Map::<Seq<char>, T::V>::empty(),
    {
        Table { entries: Vec::new() }
    }

    fn place(&self, name: &str) -> (r: Option<usize>)
        ensures
            match r {
                Some(i) => i < self.entries@.len() && self.entries@[i as int].0@ == name@,
                None => forall|k: int|
                    0 <= k < self.entries@.len() ==> (#[trigger] self.entries@[k]).0@ != name@,
            },
    {
        let mut i: usize = 0;
        while i < self.entries.len()
            invariant
                i <= self.entries.len(),
                forall|k: int| 0 <= k < i ==> (#[trigger] self.entries@[k]).0@ != name@,
            decreases self.entries.len() - i,
        {
            if text::same(self.entries[i].0.as_str(), name) {
                return Some(i);
            }
            i += 1;
        }
        None
    }

    /// The item under a name.
    pub fn get(&self, name: &str) -> (r: Option<&T>)
        ensures
            match r {
                Some(item) => self@.contains_key(name@) && self@[name@] == item.deep_view(),
                None => !self@.contains_key(name@),
            },
    {
        proof {
            use_type_invariant(self);
            lemma_named(self.entries@, name@);
        }
        match self.place(name) {
            Some(i) => Some(&self.entries[i].1),
            None => None,
        }
    }

    /// Puts an item under a name, in place of what was there.
    pub fn insert(&mut self, name: String, item: T)
        ensures
            final(self)@ == old(self)@.insert(name@, item.deep_view()),
    {
        proof {
            use_type_invariant(&*self);
        }
        let found = self.place(name.as_str());
        let mut entries: Vec<(String, T)> = Vec::new();
        std::mem::swap(&mut entries, &mut self.entries);
        let ghost before = entries@;
        let ghost pair = (name, item);
        match found {
            Some(i) => {
                proof {
                    lemma_replaced(before, i as int, pair);
                }
                entries.set(i, (name, item));
                assert(entries@ =~= before.update(i as int, pair));
            },
            None => {
                proof {
                    lemma_appended(before, pair);
                }
                entries.push((name, item));
            },
        }
        self.entries = entries;
    }

    /// Takes away what is under a name.
    pub fn remove(&mut self, name: &str) -> (r: Option<T>)
        ensures
            final(self)@ == old(self)@.remove(name@),
            match r {
                Some(item) => old(self)@.contains_key(name@) && old(self)@[name@]
                    == item.deep_view(),
                None => !old(self)@.contains_key(name@),
            },
    {
        proof {
            use_type_invariant(&*self);
            lemma_named(self.entries@, name@);
        }
        match self.place(name) {
            Some(i) => {
                let mut entries: Vec<(String, T)> = Vec::new();
                std::mem::swap(&mut entries, &mut self.entries);
                proof {
                    lemma_removed(entries@, i as int);
                }
                let (_, item) = entries.remove(i);
                self.entries = entries;
                Some(item)
            },
            None => {
                assert(self@.remove(name@) =~= self@);
                None
            },
        }
    }

    /// The names that have an item.
    pub fn names(&self) -> (r: Vec<String>)
        ensures
            r.deep_view().no_duplicates(),
            r.deep_view().to_set() == self@.dom(),
    {
        proof {
            use_type_invariant(self);
        }
        let mut r: Vec<String> = Vec::new();
        let mut i: usize = 0;
        while i < self.entries.len()
            invariant
                i <= self.entries.len(),
                r.len() == i,
                forall|k: int| 0 <= k < i ==> (#[trigger] r@[k])@ == self.entries@[k].0@,
            decreases self.entries.len() - i,
        {
            r.push(self.entries[i].0.clone());
            i += 1;
        }
        proof {
            let names = r.deep_view();
            assert forall|a: int, b: int| 0 <= a < names.len() && 0 <= b < names.len() && a
                != b implies names[a] != names[b] by {
                assert(names[a] == self.entries@[a].0@);
                assert(names[b] == self.entries@[b].0@);
            }
            assert forall|name: Seq<char>|
                names.to_set().contains(name) == self@.dom().contains(name) by {
                lemma_named(self.entries@, name);
                if names.contains(name) {
                    let k = choose|k: int| 0 <= k < names.len() && names[k] == name;
                    assert(self.entries@[k].0@ == name);
                }
                if self@.contains_key(name) {
                    let k = choose|k: int|
                        0 <= k < self.entries@.len() && (#[trigger] self.entries@[k]).0@ == name;
                    assert(names[k] == name);
                }
            }
            assert(names.to_set() =~= self@.dom());
        }
        r
    }
}

impl<T: Snapshot> Table<T> {
    /// The JSON form of the items under their names.
    pub fn to_value(&self) -> (r: JsonValue)
        ensures
            r@ == Json::Object(self@.map_values(|v: T::V| T::json(v))),
    {
        snapshot::named_value(&self.entries)
    }
}

} // verus!
