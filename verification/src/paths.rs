//! Paths as texts, with the components that a Unix path has.

use crate::text;
use vstd::prelude::*;

verus! {

/// The path starts at the root.
pub open spec fn absolute(s: Seq<char>) -> bool {
    s.len() > 0 && s[0] == '/'
}

/// Where the components of a path from position `from` on begin and end.
/// Repeated separators and inner dots make no component.
pub open spec fn spans_from(s: Seq<char>, from: int) -> Seq<(int, int)>
    decreases s.len() - from,
    via spans_from_shrinks
{
    let i = text::index_from(s, '/', from);
    if from < 0 || from > s.len() {
        Seq::empty()
    } else {
        let piece = s.subrange(from, i);
        let rest = if i < s.len() {
            spans_from(s, i + 1)
        } else {
            Seq::empty()
        };
        if piece.len() == 0 || (piece == "."@ && from > 0) {
            rest
        } else {
            seq![(from, i)] + rest
        }
    }
}

#[via_fn]
proof fn spans_from_shrinks(s: Seq<char>, from: int) {
    if 0 <= from <= s.len() {
        text::lemma_index_from(s, '/', from);
    }
}

/// Where the components of a path begin and end. The root is one.
pub open spec fn spans(s: Seq<char>) -> Seq<(int, int)> {
    if absolute(s) {
        seq![(0int, 1int)] + spans_from(s, 1)
    } else {
        spans_from(s, 0)
    }
}

/// The components of a path.
pub open spec fn components(s: Seq<char>) -> Seq<Seq<char>> {
    spans(s).map_values(|p: (int, int)| s.subrange(p.0, p.1))
}

/// The path without its first `k` components.
pub open spec fn after_components(s: Seq<char>, k: int) -> Seq<char> {
    if k >= spans(s).len() {
        Seq::empty()
    } else {
        s.subrange(spans(s)[k].0, spans(s).last().1)
    }
}

/// The path lies at or below `root`.
pub open spec fn is_below(path: Seq<char>, root: Seq<char>) -> bool {
    &&& components(root).len() <= components(path).len()
    &&& components(path).take(components(root).len() as int) == components(root)
}

/// The path as seen from `root`; one that does not lie below it stays as it is.
pub open spec fn relative_to(path: Seq<char>, root: Seq<char>) -> Seq<char> {
    if is_below(path, root) {
        after_components(path, components(root).len() as int)
    } else {
        path
    }
}

/// The path `b` taken from the directory `a`.
pub open spec fn joined(a: Seq<char>, b: Seq<char>) -> Seq<char> {
    if absolute(b) || a.len() == 0 {
        b
    } else if a.last() == '/' {
        a + b
    } else {
        a + "/"@ + b
    }
}

/// The path without the extension of its last component.
pub open spec fn without_extension(s: Seq<char>) -> Seq<char> {
    if spans(s).len() == 0 {
        s
    } else {
        let (from, to) = spans(s).last();
        let name = s.subrange(from, to);
        let dot = text::last_index_before(name, '.', name.len() as int);
        if name == "/"@ || name == "."@ || name == ".."@ {
            s
        } else if dot > 0 {
            s.subrange(0, from + dot)
        } else {
            s.subrange(0, to)
        }
    }
}

/// The directory that holds the path; the root and the empty path have none.
pub open spec fn parent(s: Seq<char>) -> Option<Seq<char>> {
    let n = spans(s).len();
    if n == 0 || components(s).last() == "/"@ {
        None
    } else if n == 1 {
        Some(Seq::empty())
    } else {
        Some(s.subrange(0, spans(s)[n - 2].1))
    }
}

/// The last component, where it is a name.
pub open spec fn leaf(s: Seq<char>) -> Option<Seq<char>> {
    let all = components(s);
    if all.len() == 0 || all.last() == "/"@ || all.last() == "."@ || all.last() == ".."@ {
        None
    } else {
        Some(all.last())
    }
}

/// The extension of the last component.
pub open spec fn extension(s: Seq<char>) -> Option<Seq<char>> {
    match leaf(s) {
        Some(name) => {
            let dot = text::last_index_before(name, '.', name.len() as int);
            if dot > 0 {
                Some(name.subrange(dot + 1, name.len() as int))
            } else {
                None
            }
        },
        None => None,
    }
}

proof fn lemma_spans_from(s: Seq<char>, from: int)
    requires
        0 <= from <= s.len(),
    ensures
        forall|k: int|
            0 <= k < spans_from(s, from).len() ==> from <= (#[trigger] spans_from(s, from)[k]).0
                < spans_from(s, from)[k].1 <= s.len(),
        forall|k: int, m: int|
            0 <= k < m < spans_from(s, from).len() ==> (#[trigger] spans_from(s, from)[k]).1 < (
            #[trigger] spans_from(s, from)[m]).0,
    decreases s.len() - from,
{
    text::lemma_index_from(s, '/', from);
    let i = text::index_from(s, '/', from);
    let rest = if i < s.len() {
        spans_from(s, i + 1)
    } else {
        Seq::empty()
    };
    if i < s.len() {
        lemma_spans_from(s, i + 1);
    }
    let all = spans_from(s, from);
    assert(all == rest || (all == seq![(from, i)] + rest && from < i));
    if all == seq![(from, i)] + rest && from < i {
        assert forall|k: int| 0 <= k < all.len() implies from <= (#[trigger] all[k]).0 < all[k].1
            <= s.len() by {
            if k > 0 {
                assert(all[k] == rest[k - 1]);
            }
        }
        assert forall|k: int, m: int| 0 <= k < m < all.len() implies (#[trigger] all[k]).1 < (
        #[trigger] all[m]).0 by {
            assert(all[m] == rest[m - 1]);
            if k > 0 {
                assert(all[k] == rest[k - 1]);
            }
        }
    }
}

/// Components lie within the path, one after the other.
pub proof fn lemma_spans(s: Seq<char>)
    ensures
        forall|k: int|
            0 <= k < spans(s).len() ==> 0 <= (#[trigger] spans(s)[k]).0 < spans(s)[k].1 <= s.len(),
        forall|k: int, m: int|
            0 <= k < m < spans(s).len() ==> (#[trigger] spans(s)[k]).1 <= (
            #[trigger] spans(s)[m]).0,
{
    if absolute(s) {
        lemma_spans_from(s, 1);
    } else {
        lemma_spans_from(s, 0);
    }
}

/// What positions stand for.
pub open spec fn positions(v: Seq<(usize, usize)>) -> Seq<(int, int)> {
    v.map_values(|p: (usize, usize)| (p.0 as int, p.1 as int))
}

fn find_spans(v: &Vec<char>) -> (r: Vec<(usize, usize)>)
    ensures
        positions(r@) == spans(v@),
{
    proof {
        reveal_strlit(".");
    }
    let mut r: Vec<(usize, usize)> = Vec::new();
    let mut from: usize = 0;
    if v.len() > 0 && v[0] == '/' {
        r.push((0, 1));
        from = 1;
        assert(positions(r@) =~= seq![(0int, 1int)]);
    } else {
        assert(positions(r@) =~= Seq::empty());
        assert(Seq::<(int, int)>::empty() + spans_from(v@, 0) =~= spans_from(v@, 0));
    }
    loop
        invariant
            from <= v.len(),
            positions(r@) + spans_from(v@, from as int) == spans(v@),
            "."@.len() == 1,
            "."@[0] == '.',
        decreases v.len() - from,
    {
        let i: usize = text::index_of(v, '/', from);
        let ghost before = positions(r@);
        let ghost piece = v@.subrange(from as int, i as int);
        let dot = i - from == 1 && v[from] == '.';
        assert(dot == (piece == "."@)) by {
            if dot {
                assert(piece =~= "."@);
            }
        }
        if i > from && !(dot && from > 0) {
            r.push((from, i));
            assert(positions(r@) =~= before.push((from as int, i as int)));
        }
        let ghost rest = if i < v.len() {
            spans_from(v@, i + 1)
        } else {
            Seq::empty()
        };
        assert(before + (seq![(from as int, i as int)] + rest) =~= before.push(
            (from as int, i as int),
        ) + rest);
        if i == v.len() {
            assert(positions(r@) + Seq::<(int, int)>::empty() =~= positions(r@));
            return r;
        }
        from = i + 1;
    }
}

/// The components of a path.
pub fn components_of(path: &str) -> (r: Vec<String>)
    ensures
        r.deep_view() == components(path@),
{
    let v = text::chars_of(path);
    let found = find_spans(&v);
    let mut r: Vec<String> = Vec::new();
    let mut i: usize = 0;
    proof {
        lemma_spans(path@);
    }
    while i < found.len()
        invariant
            i <= found.len(),
            v@ == path@,
            positions(found@) == spans(path@),
            r.deep_view() == components(path@).take(i as int),
            forall|k: int|
                0 <= k < spans(path@).len() ==> 0 <= (#[trigger] spans(path@)[k]).0 < spans(
                    path@,
                )[k].1 <= path@.len(),
        decreases found.len() - i,
    {
        assert(positions(found@)[i as int] == (found@[i as int].0 as int, found@[i as int].1 as int));
        assert(spans(path@)[i as int].1 <= path@.len());
        let ghost before = r.deep_view();
        r.push(text::slice(&v, found[i].0, found[i].1));
        assert(r.deep_view() =~= before.push(components(path@)[i as int]));
        assert(components(path@).take(i + 1) =~= components(path@).take(i as int).push(
            components(path@)[i as int],
        ));
        i += 1;
    }
    assert(components(path@).take(components(path@).len() as int) =~= components(path@));
    r
}

/// Whether the path lies at or below `root`.
pub fn starts_with(path: &str, root: &str) -> (r: bool)
    ensures
        r == is_below(path@, root@),
{
    let a = components_of(path);
    let b = components_of(root);
    if b.len() > a.len() {
        return false;
    }
    let mut i: usize = 0;
    while i < b.len()
        invariant
            i <= b.len() <= a.len(),
            a.deep_view() == components(path@),
            b.deep_view() == components(root@),
            forall|k: int| 0 <= k < i ==> components(path@)[k] == components(root@)[k],
        decreases b.len() - i,
    {
        assert(components(path@)[i as int] == a@[i as int]@);
        assert(components(root@)[i as int] == b@[i as int]@);
        if !a[i].eq(&b[i]) {
            assert(components(path@).take(components(root@).len() as int)[i as int]
                != components(root@)[i as int]);
            return false;
        }
        i += 1;
    }
    assert(components(path@).take(components(root@).len() as int) =~= components(root@));
    true
}

/// The path as seen from `root`; one that does not lie below it stays as it is.
pub fn strip_root(path: &str, root: &str) -> (r: String)
    ensures
        r@ == relative_to(path@, root@),
{
    if !starts_with(path, root) {
        return path.to_owned();
    }
    let v = text::chars_of(path);
    let found = find_spans(&v);
    let k: usize = components_of(root).len();
    proof {
        lemma_spans(path@);
        assert(positions(found@).len() == found@.len());
    }
    if k >= found.len() {
        let r = String::new();
        assert(r@ =~= Seq::empty());
        return r;
    }
    let n: usize = found.len() - 1;
    assert(positions(found@)[k as int] == (found@[k as int].0 as int, found@[k as int].1 as int));
    assert(positions(found@)[n as int] == (found@[n as int].0 as int, found@[n as int].1 as int));
    text::slice(&v, found[k].0, found[n].1)
}

/// The path `b` taken from the directory `a`.
pub fn join(a: &str, b: &str) -> (r: String)
    ensures
        r@ == joined(a@, b@),
{
    let x = text::chars_of(a);
    let y = text::chars_of(b);
    if x.len() == 0 || (y.len() > 0 && y[0] == '/') {
        b.to_owned()
    } else if x[x.len() - 1] == '/' {
        text::concat(a, b)
    } else {
        text::concat3(a, "/", b)
    }
}

/// The path without the extension of its last component.
pub fn drop_extension(path: &str) -> (r: String)
    ensures
        r@ == without_extension(path@),
{
    let v = text::chars_of(path);
    let found = find_spans(&v);
    proof {
        lemma_spans(path@);
        assert(positions(found@).len() == found@.len());
    }
    if found.len() == 0 {
        return path.to_owned();
    }
    let n: usize = found.len() - 1;
    assert(positions(found@)[n as int] == (found@[n as int].0 as int, found@[n as int].1 as int));
    assert(spans(path@)[n as int] == spans(path@).last());
    let from: usize = found[n].0;
    let to: usize = found[n].1;
    let name = text::slice(&v, from, to);
    if text::same(name.as_str(), "/") || text::same(name.as_str(), ".") || text::same(
        name.as_str(),
        "..",
    ) {
        return path.to_owned();
    }
    let chars = text::chars_of(name.as_str());
    match text::last_index_of(&chars, '.') {
        Some(dot) if dot > 0 => text::slice(&v, 0, from + dot),
        _ => text::slice(&v, 0, to),
    }
}

/// The first component of a path, if it has one.
pub fn first_component(path: &str) -> (r: Option<String>)
    ensures
        r.deep_view() == (if components(path@).len() > 0 {
            Some(components(path@)[0])
        } else {
            None
        }),
{
    let all = components_of(path);
    if all.len() > 0 {
        assert(components(path@)[0] == all@[0]@);
        Some(all[0].clone())
    } else {
        None
    }
}

/// The last component, where it is a name.
pub fn file_name(path: &str) -> (r: Option<String>)
    ensures
        r.deep_view() == leaf(path@),
{
    let all = components_of(path);
    assert(components(path@).len() == all@.len());
    if all.len() == 0 {
        return None;
    }
    let last = all[all.len() - 1].as_str();
    assert(components(path@).last() == all@[all@.len() - 1]@);
    if text::same(last, "/") || text::same(last, ".") || text::same(last, "..") {
        None
    } else {
        Some(last.to_owned())
    }
}

/// The directory that holds the path; the root and the empty path have none.
pub fn parent_of(path: &str) -> (r: Option<String>)
    ensures
        r.deep_view() == parent(path@),
{
    let v = text::chars_of(path);
    let found = find_spans(&v);
    proof {
        lemma_spans(path@);
        assert(positions(found@).len() == found@.len());
    }
    let n: usize = found.len();
    if n == 0 {
        return None;
    }
    assert(positions(found@)[n - 1] == (found@[n - 1].0 as int, found@[n - 1].1 as int));
    assert(spans(path@)[n - 1].1 <= path@.len());
    let last = text::slice(&v, found[n - 1].0, found[n - 1].1);
    assert(components(path@).last() == last@);
    if text::same(last.as_str(), "/") {
        None
    } else if n == 1 {
        let r = String::new();
        assert(r@ =~= Seq::empty());
        Some(r)
    } else {
        assert(positions(found@)[n - 2] == (found@[n - 2].0 as int, found@[n - 2].1 as int));
        assert(spans(path@)[n - 2].1 <= path@.len());
        Some(text::slice(&v, 0, found[n - 2].1))
    }
}

/// The extension of the last component.
pub fn extension_of(path: &str) -> (r: Option<String>)
    ensures
        r.deep_view() == extension(path@),
{
    match file_name(path) {
        Some(name) => {
            let v = text::chars_of(name.as_str());
            match text::last_index_of(&v, '.') {
                Some(dot) if dot > 0 => Some(text::slice(&v, dot + 1, v.len())),
                _ => None,
            }
        },
        None => None,
    }
}

/// The list of names comes before the other in the order of names.
pub open spec fn names_precede(a: Seq<Seq<char>>, b: Seq<Seq<char>>) -> bool
    decreases a.len(),
{
    if b.len() == 0 {
        false
    } else if a.len() == 0 {
        true
    } else if a[0] == b[0] {
        names_precede(a.drop_first(), b.drop_first())
    } else {
        text::precedes(a[0], b[0])
    }
}

/// The order of lists of names is transitive.
pub proof fn lemma_names_precede_transitive(
    a: Seq<Seq<char>>,
    b: Seq<Seq<char>>,
    c: Seq<Seq<char>>,
)
    requires
        names_precede(a, b),
        names_precede(b, c),
    ensures
        names_precede(a, c),
    decreases a.len(),
{
    if a.len() > 0 {
        text::lemma_precedes_total(a[0], b[0]);
        text::lemma_precedes_total(b[0], c[0]);
        if a[0] == b[0] && b[0] == c[0] {
            lemma_names_precede_transitive(a.drop_first(), b.drop_first(), c.drop_first());
        } else if a[0] != b[0] && b[0] != c[0] {
            text::lemma_precedes_transitive(a[0], b[0], c[0]);
            text::lemma_precedes_total(a[0], c[0]);
        }
    }
}

/// Of two lists of names one comes before the other, or they are the same.
pub proof fn lemma_names_precede_total(a: Seq<Seq<char>>, b: Seq<Seq<char>>)
    ensures
        names_precede(a, b) || names_precede(b, a) || a == b,
        !(names_precede(a, b) && names_precede(b, a)),
        a == b ==> !names_precede(a, b),
    decreases a.len(),
{
    if a.len() > 0 && b.len() > 0 {
        text::lemma_precedes_total(a[0], b[0]);
        if a[0] == b[0] {
            lemma_names_precede_total(a.drop_first(), b.drop_first());
            if a.drop_first() == b.drop_first() {
                assert(a =~= seq![a[0]] + a.drop_first());
                assert(b =~= seq![b[0]] + b.drop_first());
            }
        }
    } else if a.len() == 0 && b.len() == 0 {
        assert(a =~= b);
    }
}

/// The path comes before the other: its components do, or they are the same and
/// its text does.
pub open spec fn path_precedes(a: Seq<char>, b: Seq<char>) -> bool {
    names_precede(components(a), components(b)) || (components(a) == components(b)
        && text::precedes(a, b))
}

fn names_before(a: &Vec<String>, b: &Vec<String>, i: usize) -> (r: bool)
    requires
        i <= a.len(),
        i <= b.len(),
    ensures
        r == names_precede(
            a.deep_view().subrange(i as int, a.len() as int),
            b.deep_view().subrange(i as int, b.len() as int),
        ),
    decreases a.len() - i,
{
    let ghost x = a.deep_view().subrange(i as int, a.len() as int);
    let ghost y = b.deep_view().subrange(i as int, b.len() as int);
    if i == b.len() {
        return false;
    }
    if i == a.len() {
        return true;
    }
    assert(x[0] == a@[i as int]@);
    assert(y[0] == b@[i as int]@);
    if text::same(a[i].as_str(), b[i].as_str()) {
        assert(x.drop_first() =~= a.deep_view().subrange(i + 1, a.len() as int));
        assert(y.drop_first() =~= b.deep_view().subrange(i + 1, b.len() as int));
        names_before(a, b, i + 1)
    } else {
        text::is_before(a[i].as_str(), b[i].as_str())
    }
}

/// The path comes before the other.
pub fn comes_before(a: &str, b: &str) -> (r: bool)
    ensures
        r == path_precedes(a@, b@),
{
    let x = components_of(a);
    let y = components_of(b);
    proof {
        assert(x.deep_view().subrange(0, x.len() as int) =~= components(a@));
        assert(y.deep_view().subrange(0, y.len() as int) =~= components(b@));
        lemma_names_precede_total(components(a@), components(b@));
    }
    names_before(&x, &y, 0) || (!names_before(&y, &x, 0) && text::is_before(a, b))
}

/// What a name adds to a path: one component at its end. The name holds no slash, and is
/// no `.`; the path is not empty and does not end in a slash.
pub proof fn law_join_adds_a_component(a: Seq<char>, b: Seq<char>)
    requires
        a.len() > 0,
        a.last() != '/',
        b.len() > 0,
        !b.contains('/'),
        b != "."@,
    ensures
        joined(a, b) == a + "/"@ + b,
        components(joined(a, b)) == components(a).push(b),
        spans(joined(a, b)) == spans(a).push((a.len() as int + 1, joined(a, b).len() as int)),
        is_below(joined(a, b), a),
        relative_to(joined(a, b), a) == b,
        b != ".."@ ==> leaf(joined(a, b)) == Some(b),
        components(a).len() > 0 && spans(a).last().1 == a.len() ==>
            parent(joined(a, b)) == Some(a),
{
    let s = joined(a, b);
    reveal_strlit("/");
    assert("/"@ =~= seq!['/']);
    assert(b[0] != '/') by {
        assert(b.contains(b[0]));
    }
    assert(s =~= a + seq!['/'] + b);
    assert(s[0] == a[0]);
    let from = if absolute(a) {
        1int
    } else {
        0
    };
    lemma_spans_joined(a, b, from);
    let last = (a.len() as int + 1, s.len() as int);
    assert(spans(s) =~= spans(a).push(last));
    lemma_spans_within(a, from);
    assert forall|k: int| 0 <= k < spans(a).len() implies s.subrange(spans(a)[k].0, spans(a)[k].1)
        == a.subrange(spans(a)[k].0, spans(a)[k].1) by {
        let p = spans(a)[k];
        if absolute(a) {
            if k > 0 {
                assert(p == spans_from(a, 1)[k - 1]);
            }
        } else {
            assert(p == spans_from(a, 0)[k]);
        }
        assert(0 <= p.0 <= p.1 <= a.len());
        assert(s.subrange(p.0, p.1) =~= a.subrange(p.0, p.1));
    }
    assert(s.subrange(last.0, last.1) =~= b);
    assert(components(s) =~= components(a).push(b));
    assert(components(s).take(components(a).len() as int) =~= components(a));
    assert(b != "/"@) by {
        if b == "/"@ {
            assert(b[0] == '/');
        }
    }
    if components(a).len() > 0 && spans(a).last().1 == a.len() {
        assert(spans(s)[spans(s).len() - 2] == spans(a).last());
        assert(s.subrange(0, a.len() as int) =~= a);
    }
}

proof fn lemma_spans_joined(a: Seq<char>, b: Seq<char>, from: int)
    requires
        0 <= from <= a.len(),
        b.len() > 0,
        !b.contains('/'),
        b != "."@,
    ensures
        spans_from(a + seq!['/'] + b, from) == spans_from(a, from).push(
            (a.len() as int + 1, (a + seq!['/'] + b).len() as int),
        ),
    decreases a.len() - from,
{
    let s = a + seq!['/'] + b;
    let i = text::index_from(a, '/', from);
    let j = text::index_from(s, '/', from);
    text::lemma_index_from(a, '/', from);
    text::lemma_index_from(s, '/', from);
    assert(s[a.len() as int] == '/');
    assert(j == i) by {
        if j < i {
            assert(a[j] == s[j]);
        } else if i < j {
            assert(i <= a.len());
            if i < a.len() {
                assert(s[i] == a[i]);
            }
            assert(s[i] == '/');
        }
    }
    assert(s.subrange(from, j) =~= a.subrange(from, i));
    if i < a.len() {
        lemma_spans_joined(a, b, i + 1);
    } else {
        let next = a.len() as int + 1;
        text::lemma_index_from(s, '/', next);
        let k = text::index_from(s, '/', next);
        if k < s.len() {
            assert(s[k] == b[k - next]);
            assert(b.contains(b[k - next]));
        }
        assert(s.subrange(next, s.len() as int) =~= b);
        assert(spans_from(s, next) =~= seq![(next, s.len() as int)]);
    }
    assert(spans_from(s, from) =~= spans_from(a, from).push((a.len() as int + 1,
        s.len() as int)));
}

proof fn lemma_spans_within(s: Seq<char>, from: int)
    requires
        0 <= from <= s.len(),
    ensures
        forall|k: int|
            0 <= k < spans_from(s, from).len() ==> from <= (#[trigger] spans_from(s, from)[k]).0
                < spans_from(s, from)[k].1 <= s.len(),
    decreases s.len() - from,
{
    text::lemma_index_from(s, '/', from);
    let i = text::index_from(s, '/', from);
    if i < s.len() {
        lemma_spans_within(s, i + 1);
        let rest = spans_from(s, i + 1);
        let all = spans_from(s, from);
        assert forall|k: int| 0 <= k < all.len() implies from <= (#[trigger] all[k]).0 < all[k].1
            <= s.len() by {
            if all.len() == rest.len() {
                assert(all[k] == rest[k]);
            } else if k > 0 {
                assert(all[k] == rest[k - 1]);
            }
        }
    }
}

/// Every path lies below itself, and one that lies below a path below another lies below
/// that one.
pub proof fn law_below_is_an_order(a: Seq<char>, b: Seq<char>, c: Seq<char>)
    ensures
        is_below(a, a),
        is_below(a, b) && is_below(b, c) ==> is_below(a, c),
{
    assert(components(a).take(components(a).len() as int) =~= components(a));
    if is_below(a, b) && is_below(b, c) {
        let n = components(c).len() as int;
        assert(components(a).take(n) =~= components(a).take(components(b).len() as int).take(n));
    }
}

/// A path that starts at the root replaces the one it is joined to.
pub proof fn law_absolute_path_replaces(a: Seq<char>, b: Seq<char>)
    ensures
        absolute(b) ==> joined(a, b) == b,
        joined(Seq::empty(), b) == b,
        !absolute(b) && a.len() > 0 && a.last() == '/' ==> joined(a, b) == a + b,
        "/"@ == seq!['/'],
{
    reveal_strlit("/");
    assert("/"@ =~= seq!['/']);
}

/// The extension of a file name is what stands behind its last dot, unless that is the
/// first character.
pub proof fn law_extension_follows_the_last_dot(dir: Seq<char>, stem: Seq<char>, ext: Seq<char>)
    requires
        dir.len() > 0,
        dir.last() != '/',
        stem.len() > 0,
        !stem.contains('/'),
        !ext.contains('/'),
        !ext.contains('.'),
        ext.len() > 0,
    ensures
        extension(joined(dir, stem + "."@ + ext)) == Some(ext),
        without_extension(joined(dir, stem + "."@ + ext)) == joined(dir, stem),
{
    reveal_strlit(".");
    reveal_strlit("..");
    reveal_strlit("/");
    let name = stem + "."@ + ext;
    assert(name.len() >= 3);
    assert(!name.contains('/')) by {
        if name.contains('/') {
            let k = choose|k: int| 0 <= k < name.len() && name[k] == '/';
            if k < stem.len() {
                assert(stem.contains(stem[k]));
            } else if k > stem.len() {
                assert(ext.contains(ext[k - stem.len() - 1]));
            } else {
                assert(name[k] == '.');
            }
        }
    }
    assert("."@.len() == 1 && ".."@.len() == 2 && "/"@.len() == 1);
    law_join_adds_a_component(dir, name);
    lemma_last_dot(stem, ext, name.len() as int);
    assert(name.subrange(stem.len() as int + 1, name.len() as int) =~= ext);
    let s = joined(dir, name);
    assert(components(s).last() == name);
    assert(stem[0] != '/') by {
        assert(stem.contains(stem[0]));
    }
    assert("/"@ =~= seq!['/']);
    let from = if absolute(dir) {
        1int
    } else {
        0
    };
    assert(s =~= dir + seq!['/'] + name);
    assert(s[0] == dir[0]);
    lemma_spans_joined(dir, name, from);
    assert(spans(s).last() == (dir.len() as int + 1, s.len() as int));
    assert(s.subrange(dir.len() as int + 1, s.len() as int) =~= name);
    assert(s.subrange(0, dir.len() as int + 1 + stem.len() as int) =~= dir + "/"@ + stem);
}

proof fn lemma_last_dot(stem: Seq<char>, ext: Seq<char>, end: int)
    requires
        !ext.contains('.'),
        stem.len() < end <= stem.len() + 1 + ext.len(),
    ensures
        text::last_index_before(stem + "."@ + ext, '.', end) == stem.len(),
    decreases end,
{
    reveal_strlit(".");
    let name = stem + "."@ + ext;
    assert("."@.len() == 1);
    if end > stem.len() + 1 {
        assert(name[end - 1] == ext[end - 2 - stem.len()]);
        assert(ext.contains(ext[end - 2 - stem.len()]));
        lemma_last_dot(stem, ext, end - 1);
    } else {
        assert(name[end - 1] == '.');
    }
}

/// A name without slashes is a path of one component, and loses its extension as such.
pub proof fn law_plain_name_is_one_component(stem: Seq<char>, ext: Seq<char>)
    requires
        stem.len() > 0,
        !stem.contains('/'),
        !ext.contains('/'),
        !ext.contains('.'),
        ext.len() > 0,
    ensures
        components(stem + "."@ + ext) == seq![stem + "."@ + ext],
        without_extension(stem + "."@ + ext) == stem,
{
    reveal_strlit(".");
    reveal_strlit("..");
    reveal_strlit("/");
    let name = stem + "."@ + ext;
    assert("."@.len() == 1 && ".."@.len() == 2 && "/"@.len() == 1);
    assert(stem[0] != '/') by {
        assert(stem.contains(stem[0]));
    }
    assert(name[0] == stem[0]);
    text::lemma_index_from(name, '/', 0);
    let k = text::index_from(name, '/', 0);
    if k < name.len() {
        if k < stem.len() {
            assert(stem.contains(stem[k]));
        } else if k > stem.len() {
            assert(ext.contains(ext[k - stem.len() - 1]));
        } else {
            assert(name[k] == '.');
        }
    }
    assert(name.subrange(0, name.len() as int) =~= name);
    assert(spans(name) =~= seq![(0int, name.len() as int)]);
    assert(components(name) =~= seq![name]);
    lemma_last_dot(stem, ext, name.len() as int);
    assert(name.subrange(0, stem.len() as int) =~= stem);
}

/// Files of one directory are in the order of their names, and a directory goes before
/// what it holds.
pub proof fn law_files_are_ordered_by_name(dir: Seq<char>, a: Seq<char>, b: Seq<char>)
    requires
        dir.len() > 0,
        dir.last() != '/',
        a.len() > 0,
        !a.contains('/'),
        a != "."@,
        b.len() > 0,
        !b.contains('/'),
        b != "."@,
    ensures
        a != b ==> (path_precedes(joined(dir, a), joined(dir, b)) <==> text::precedes(a, b)),
        path_precedes(dir, joined(dir, a)),
        !path_precedes(joined(dir, a), dir),
{
    law_join_adds_a_component(dir, a);
    law_join_adds_a_component(dir, b);
    lemma_names_part(components(dir), a, b);
    if a != b {
        assert(components(joined(dir, a)).last() == a);
        assert(components(joined(dir, b)).last() == b);
    }
    assert(components(joined(dir, a)).len() == components(dir).len() + 1);
}

proof fn lemma_names_part(common: Seq<Seq<char>>, a: Seq<char>, b: Seq<char>)
    ensures
        a != b ==> (names_precede(common.push(a), common.push(b)) <==> text::precedes(a, b)),
        names_precede(common, common.push(a)),
        !names_precede(common.push(a), common),
    decreases common.len(),
{
    if common.len() > 0 {
        let rest = common.drop_first();
        lemma_names_part(rest, a, b);
        assert(common.push(a).drop_first() =~= rest.push(a));
        assert(common.push(b).drop_first() =~= rest.push(b));
    }
}

} // verus!
