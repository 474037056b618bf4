//! When something was last seen. What is seen is known by a key, which is a list
//! of texts.

use crate::text;
use vstd::prelude::*;

verus! {

/// How many windows of time an entry is kept without being seen again.
pub const EVICT_MULTIPLIER: u64 = 60;

/// `a` minus `b`, or zero where `b` is larger.
pub open spec fn less(a: u64, b: u64) -> u64 {
    if a < b {
        0
    } else {
        (a - b) as u64
    }
}

/// `a` times `b`, or the largest number where the product is larger.
pub open spec fn times(a: u64, b: u64) -> u64 {
    if a * b > u64::MAX {
        u64::MAX
    } else {
        (a * b) as u64
    }
}

/// The key was seen less than a window of time before `now`.
pub open spec fn repeated(m: Map<Seq<Seq<char>>, u64>, key: Seq<Seq<char>>, now: u64, window: u64) -> bool {
    m.contains_key(key) && less(now, m[key]) < window
}

/// The entries that are not older than `before`; all of them where it is zero.
pub open spec fn evicted(m: Map<Seq<Seq<char>>, u64>, before: u64) -> Map<Seq<Seq<char>>, u64> {
    if before == 0 {
        m
    } else {
        m.restrict(Set::new(|k: Seq<Seq<char>>| m.contains_key(k) && m[k] >= before))
    }
}

/// What is remembered after the key was seen at `now`.
pub open spec fn noted(
    m: Map<Seq<Seq<char>>, u64>,
    key: Seq<Seq<char>>,
    now: u64,
    window: u64,
) -> Map<Seq<Seq<char>>, u64> {
    evicted(m.insert(key, now), less(now, times(window, EVICT_MULTIPLIER)))
}

/// The entries of other keys that are not older than `before`.
pub open spec fn others(
    m: Map<Seq<Seq<char>>, u64>,
    key: Seq<Seq<char>>,
    before: u64,
) -> Map<Seq<Seq<char>>, u64> {
    m.restrict(
        Set::new(|k: Seq<Seq<char>>| k != key && m.contains_key(k) && (before == 0 || m[k] >= before)),
    )
}

/// The times at which keys were last seen.
#[derive(Debug)]
pub struct Recency {
    entries: Vec<(Vec<String>, u64)>,
}

/// What entries stand for.
pub open spec fn times_of(entries: Seq<(Vec<String>, u64)>) -> Map<Seq<Seq<char>>, u64>
    decreases entries.len(),
{
    if entries.len() == 0 {
        Map::empty()
    } else {
        times_of(entries.drop_last()).insert(entries.last().0.deep_view(), entries.last().1)
    }
}

/// No two entries share a key.
pub open spec fn unique_keys(entries: Seq<(Vec<String>, u64)>) -> bool {
    forall|i: int, j: int|
        0 <= i < j < entries.len() ==> (#[trigger] entries[i]).0.deep_view() != (#[trigger] entries[j]).0.deep_view()
}

impl View for Recency {
    type V = Map<Seq<Seq<char>>, u64>;

    closed spec fn view(&self) -> Map<Seq<Seq<char>>, u64> {
        times_of(self.entries@)
    }
}

proof fn lemma_times(entries: Seq<(Vec<String>, u64)>, key: Seq<Seq<char>>)
    requires
        unique_keys(entries),
    ensures
        times_of(entries).contains_key(key) <==> exists|i: int|
            0 <= i < entries.len() && (#[trigger] entries[i]).0.deep_view() == key,
        forall|i: int|
            0 <= i < entries.len() && (#[trigger] entries[i]).0.deep_view() == key ==> times_of(entries)[key]
                == entries[i].1,
    decreases entries.len(),
{
    if entries.len() > 0 {
        let rest = entries.drop_last();
        let n = entries.len() - 1;
        assert(unique_keys(rest)) by {
            assert forall|a: int, b: int| 0 <= a < b < rest.len() implies (#[trigger] rest[a]).0.deep_view()
                != (#[trigger] rest[b]).0.deep_view() by {
                assert(rest[a] == entries[a]);
                assert(rest[b] == entries[b]);
            }
        }
        lemma_times(rest, key);
        assert forall|i: int| 0 <= i < entries.len() && (#[trigger] entries[i]).0.deep_view() == key implies
            times_of(entries)[key] == entries[i].1 && times_of(entries).contains_key(key) by {
            if i < n {
                assert(rest[i].0.deep_view() == key);
                assert(entries[n].0.deep_view() != key);
            }
        }
        if times_of(entries).contains_key(key) {
            if entries[n].0.deep_view() != key {
                let i = choose|i: int| 0 <= i < rest.len() && (#[trigger] rest[i]).0.deep_view() == key;
                assert(entries[i].0.deep_view() == key);
            }
        }
    }
}

impl Recency {
    /// Every key has one entry.
    #[verifier::type_invariant]
    spec fn unique(self) -> bool {
        unique_keys(self.entries@)
    }

    /// Nothing was seen yet.
    pub fn new() -> (r: Recency)
        ensures
            r@ == Map::<Seq<Seq<char>>, u64>::empty(),
    {
        Recency { entries: Vec::new() }
    }

    /// When the key was last seen.
    pub fn last(&self, key: &Vec<String>) -> (r: Option<u64>)
        ensures
            match r {
                Some(t) => self@.contains_key(key.deep_view()) && self@[key.deep_view()] == t,
                None => !self@.contains_key(key.deep_view()),
            },
    {
        proof {
            use_type_invariant(self);
            lemma_times(self.entries@, key.deep_view());
        }
        let mut i: usize = 0;
        while i < self.entries.len()
            invariant
                i <= self.entries.len(),
                forall|j: int| 0 <= j < i ==> (#[trigger] self.entries@[j]).0.deep_view() != key.deep_view(),
            decreases self.entries.len() - i,
        {
            if text::same_list(&self.entries[i].0, key) {
                proof {
                    use_type_invariant(self);
                    lemma_times(self.entries@, key.deep_view());
                }
                return Some(self.entries[i].1);
            }
            i += 1;
        }
        None
    }

    /// Whether the key was seen less than a window of time before `now`.
    pub fn is_repeated(&self, key: &Vec<String>, now: u64, window: u64) -> (r: bool)
        ensures
            r == repeated(self@, key.deep_view(), now, window),
    {
        match self.last(key) {
            Some(last) => now.saturating_sub(last) < window,
            None => false,
        }
    }

    /// Remembers that the key was seen at `now`, and forgets what was not seen
    /// for long.
    pub fn note(&mut self, key: &Vec<String>, now: u64, window: u64)
        ensures
            final(self)@ == noted(old(self)@, key.deep_view(), now, window),
    {
        proof {
            use_type_invariant(&*self);
        }
        let long: u64 = match window.checked_mul(EVICT_MULTIPLIER) {
            Some(n) => n,
            None => u64::MAX,
        };
        let before: u64 = now.saturating_sub(long);
        let mut rest: Vec<(Vec<String>, u64)> = Vec::new();
        std::mem::swap(&mut rest, &mut self.entries);
        let ghost all = rest@;
        let mut kept: Vec<(Vec<String>, u64)> = Vec::new();
        let mut i: usize = 0;
        while i < rest.len()
            invariant
                i <= rest.len(),
                rest@ == all,
                unique_keys(all),
                unique_keys(kept@),
                forall|j: int|
                    0 <= j < kept.len() ==> exists|k: int|
                        0 <= k < i && (#[trigger] kept@[j]).0.deep_view() == (#[trigger] all[k]).0.deep_view(),
                forall|j: int| 0 <= j < kept.len() ==> (#[trigger] kept@[j]).0.deep_view() != key.deep_view(),
                times_of(kept@) == others(times_of(all.take(i as int)), key.deep_view(), before),
            decreases rest.len() - i,
        {
            let ghost so_far = times_of(all.take(i as int));
            proof {
                assert(all.take(i + 1).drop_last() =~= all.take(i as int));
                lemma_times(all.take(i as int), all[i as int].0.deep_view());
                assert(!so_far.contains_key(all[i as int].0.deep_view()));
            }
            if !text::same_list(&rest[i].0, key) && (before == 0 || rest[i].1 >= before) {
                let ghost kept_before = kept@;
                kept.push((text::copy_list(&rest[i].0), rest[i].1));
                assert(kept@.drop_last() =~= kept_before);
                assert(times_of(kept@) =~= others(
                    so_far.insert(all[i as int].0.deep_view(), all[i as int].1),
                    key.deep_view(),
                    before,
                ));
            } else {
                assert(times_of(kept@) =~= others(
                    so_far.insert(all[i as int].0.deep_view(), all[i as int].1),
                    key.deep_view(),
                    before,
                ));
            }
            i += 1;
        }
        assert(all.take(all.len() as int) =~= all);
        let ghost kept_before = kept@;
        kept.push((text::copy_list(key), now));
        assert(kept@.drop_last() =~= kept_before);
        assert(times_of(kept@) =~= evicted(times_of(all).insert(key.deep_view(), now), before));
        self.entries = kept;
    }
}

impl Recency {
    /// Remembers that the key was seen at `now`, and forgets nothing.
    pub fn set(&mut self, key: &Vec<String>, now: u64)
        ensures
            final(self)@ == old(self)@.insert(key.deep_view(), now),
    {
        self.note(key, now, u64::MAX);
    }
}

/// The memory holds the times of `all`, but for some that are too old to matter
/// at the time `now`.
pub open spec fn recalls(
    memory: Map<Seq<Seq<char>>, u64>,
    all: Map<Seq<Seq<char>>, u64>,
    window: u64,
    now: u64,
) -> bool {
    &&& forall|k: Seq<Seq<char>>| #[trigger]
        memory.contains_key(k) ==> all.contains_key(k) && all[k] == memory[k]
    &&& forall|k: Seq<Seq<char>>| #[trigger]
        all.contains_key(k) ==> all[k] <= now && (memory.contains_key(k) || now - all[k]
            >= window)
}

/// A memory that forgets what is too old answers as one that holds all, and goes
/// on doing so after another key was seen.
pub proof fn lemma_recalls(
    memory: Map<Seq<Seq<char>>, u64>,
    all: Map<Seq<Seq<char>>, u64>,
    window: u64,
    now: u64,
    key: Seq<Seq<char>>,
    at: u64,
)
    requires
        recalls(memory, all, window, now),
        now <= at,
    ensures
        repeated(memory, key, at, window) == repeated(all, key, at, window),
        recalls(memory, all, window, at),
        recalls(noted(memory, key, at, window), all.insert(key, at), window, at),
{
    assert(memory.contains_key(key) ==> all.contains_key(key));
    assert(all.contains_key(key) ==> all[key] <= now);
    let later = noted(memory, key, at, window);
    let before = less(at, times(window, EVICT_MULTIPLIER));
    assert(times(window, EVICT_MULTIPLIER) >= window);
    assert forall|k: Seq<Seq<char>>| #[trigger] later.contains_key(k) implies all.insert(
        key,
        at,
    ).contains_key(k) && all.insert(key, at)[k] == later[k] by {
        if k != key {
            assert(memory.contains_key(k));
        }
    }
    assert forall|k: Seq<Seq<char>>| #[trigger] all.insert(key, at).contains_key(k) implies
        all.insert(key, at)[k] <= at && (later.contains_key(k) || at - all.insert(key, at)[k]
        >= window) by {
        if k == key {
            law_noted_is_known(memory, key, at, window);
        } else {
            assert(all.contains_key(k));
            if memory.contains_key(k) && !later.contains_key(k) {
                assert(memory[k] < before);
            }
        }
    }
}

/// After a key was seen at `now`, it is known with that time, and nothing is
/// known that was last seen more than the kept number of windows before.
pub proof fn law_noted_is_known(m: Map<Seq<Seq<char>>, u64>, key: Seq<Seq<char>>, now: u64, window: u64)
    ensures
        noted(m, key, now, window).contains_key(key),
        noted(m, key, now, window)[key] == now,
        forall|k: Seq<Seq<char>>| #[trigger]
            noted(m, key, now, window).contains_key(k) ==> noted(m, key, now, window)[k] >= less(
                now,
                times(window, EVICT_MULTIPLIER),
            ),
{
}

/// An event is a repetition if it was noted less than the window ago.
pub proof fn law_repetitions_come_within_the_window(
    m: Map<Seq<Seq<char>>, u64>,
    key: Seq<Seq<char>>,
    then: u64,
    now: u64,
    window: u64,
)
    requires
        then <= now,
    ensures
        repeated(noted(m, key, then, window), key, now, window) <==> now - then < window,
        !m.contains_key(key) ==> !repeated(m, key, now, window),
{
    law_noted_is_known(m, key, then, window);
}

/// To note one event forgets no other that was noted within sixty windows.
pub proof fn law_recent_events_are_kept(
    m: Map<Seq<Seq<char>>, u64>,
    key: Seq<Seq<char>>,
    other: Seq<Seq<char>>,
    now: u64,
    window: u64,
)
    requires
        other != key,
    ensures
        m.contains_key(other) && m[other] + 60 * window >= now ==>
            noted(m, key, now, window).contains_key(other)
            && noted(m, key, now, window)[other] == m[other],
        60 * window < now && m.contains_key(other) && m[other] + 60 * window < now ==>
            !noted(m, key, now, window).contains_key(other),
{
    assert(window * EVICT_MULTIPLIER == 60 * window) by (nonlinear_arith)
        requires
            EVICT_MULTIPLIER == 60,
    ;
}

} // verus!
