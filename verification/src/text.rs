//! Text as sequences of characters: searching, splitting and joining.

use vstd::prelude::*;

verus! {

/// `String::push` appends one character to the end of the string.
pub assume_specification[ String::push ](s: &mut String, c: char)
    ensures
        final(s)@ == old(s)@.push(c),
;

/// `str` equality holds exactly when both texts have the same characters.
pub assume_specification[ <str as PartialEq>::eq ](a: &str, b: &str) -> (r: bool)
    ensures
        r == (a@ == b@),
;

/// `p` occurs in `s` at position `i`.
pub open spec fn occurs_at(s: Seq<char>, i: int, p: Seq<char>) -> bool {
    &&& 0 <= i
    &&& i + p.len() <= s.len()
    &&& s.subrange(i, i + p.len()) == p
}

/// `s` begins with `p`.
pub open spec fn has_prefix(s: Seq<char>, p: Seq<char>) -> bool {
    occurs_at(s, 0, p)
}

/// `s` ends with `p`.
pub open spec fn has_suffix(s: Seq<char>, p: Seq<char>) -> bool {
    occurs_at(s, s.len() - p.len(), p)
}

/// `p` occurs somewhere in `s`.
pub open spec fn contains(s: Seq<char>, p: Seq<char>) -> bool {
    exists|i: int| occurs_at(s, i, p)
}

/// The first position at or after `from` where `p` occurs in `s`, or -1 when there is none.
pub open spec fn find_from(s: Seq<char>, p: Seq<char>, from: int) -> int
    decreases s.len() - from + 1,
{
    if from < 0 || from + p.len() > s.len() {
        -1
    } else if occurs_at(s, from, p) {
        from
    } else {
        find_from(s, p, from + 1)
    }
}

/// The first position at or after `from` that holds `c`, or the length of `s` when there is none.
pub open spec fn index_from(s: Seq<char>, c: char, from: int) -> int
    decreases s.len() - from,
{
    if from < 0 || from >= s.len() {
        s.len() as int
    } else if s[from] == c {
        from
    } else {
        index_from(s, c, from + 1)
    }
}

/// The last position before `end` that holds `c`, or -1 when there is none.
pub open spec fn last_index_before(s: Seq<char>, c: char, end: int) -> int
    decreases end,
{
    if end <= 0 || end > s.len() {
        -1
    } else if s[end - 1] == c {
        end - 1
    } else {
        last_index_before(s, c, end - 1)
    }
}

/// The pieces of `s` from position `from` on that lie between occurrences of `sep`.
pub open spec fn split_from(s: Seq<char>, sep: char, from: int) -> Seq<Seq<char>>
    decreases s.len() - from,
    via split_from_shrinks
{
    let i = index_from(s, sep, from);
    if from < 0 || from > s.len() || i >= s.len() {
        seq![s.subrange(from, s.len() as int)]
    } else {
        seq![s.subrange(from, i)] + split_from(s, sep, i + 1)
    }
}

#[via_fn]
proof fn split_from_shrinks(s: Seq<char>, sep: char, from: int) {
    if 0 <= from <= s.len() {
        lemma_index_from(s, sep, from);
    }
}

/// The pieces of `s` between occurrences of `sep`.
pub open spec fn split(s: Seq<char>, sep: char) -> Seq<Seq<char>> {
    split_from(s, sep, 0)
}

/// The pieces of `s` from position `from` on that lie between occurrences of
/// the text `sep`.
pub open spec fn split_by_from(s: Seq<char>, sep: Seq<char>, from: int) -> Seq<Seq<char>>
    decreases s.len() - from,
    via split_by_from_shrinks
{
    let i = find_from(s, sep, from);
    if from < 0 || from > s.len() || sep.len() == 0 || i < 0 {
        seq![s.subrange(from, s.len() as int)]
    } else {
        seq![s.subrange(from, i)] + split_by_from(s, sep, i + sep.len())
    }
}

#[via_fn]
proof fn split_by_from_shrinks(s: Seq<char>, sep: Seq<char>, from: int) {
    if 0 <= from <= s.len() {
        lemma_find_from(s, sep, from);
    }
}

/// The pieces of `s` between occurrences of the text `sep`.
pub open spec fn split_by(s: Seq<char>, sep: Seq<char>) -> Seq<Seq<char>> {
    split_by_from(s, sep, 0)
}

/// The texts `parts` with `sep` between each two of them.
pub open spec fn join(parts: Seq<Seq<char>>, sep: Seq<char>) -> Seq<char>
    decreases parts.len(),
{
    if parts.len() == 0 {
        Seq::empty()
    } else if parts.len() == 1 {
        parts[0]
    } else {
        join(parts.drop_last(), sep) + sep + parts.last()
    }
}

/// `index_from` stays within bounds and names the first occurrence.
pub proof fn lemma_index_from(s: Seq<char>, c: char, from: int)
    requires
        0 <= from <= s.len(),
    ensures
        from <= index_from(s, c, from) <= s.len(),
        index_from(s, c, from) < s.len() ==> s[index_from(s, c, from)] == c,
        forall|k: int| from <= k < index_from(s, c, from) ==> s[k] != c,
    decreases s.len() - from,
{
    if from < s.len() && s[from] != c {
        lemma_index_from(s, c, from + 1);
    }
}

proof fn lemma_index_after(a: Seq<char>, c: char, b: Seq<char>, k: int)
    requires
        0 <= k <= b.len(),
    ensures
        index_from(a + seq![c] + b, c, a.len() + 1 + k) == a.len() + 1 + index_from(b, c, k),
    decreases b.len() - k,
{
    if k < b.len() {
        assert((a + seq![c] + b)[a.len() + 1 + k] == b[k]);
        lemma_index_after(a, c, b, k + 1);
    }
}

proof fn lemma_index_before(a: Seq<char>, c: char, b: Seq<char>, k: int)
    requires
        0 <= k <= a.len(),
    ensures
        index_from(a + seq![c] + b, c, k) == index_from(a, c, k),
    decreases a.len() - k,
{
    let s = a + seq![c] + b;
    if k < a.len() {
        assert(s[k] == a[k]);
        lemma_index_before(a, c, b, k + 1);
    } else {
        assert(s[k] == c);
    }
}

proof fn lemma_split_after(a: Seq<char>, c: char, b: Seq<char>, k: int)
    requires
        0 <= k <= b.len(),
    ensures
        split_from(a + seq![c] + b, c, a.len() + 1 + k) == split_from(b, c, k),
    decreases b.len() - k,
{
    let s = a + seq![c] + b;
    let i = index_from(b, c, k);
    lemma_index_after(a, c, b, k);
    lemma_index_from(b, c, k);
    if i < b.len() {
        lemma_split_after(a, c, b, i + 1);
        assert(s.subrange(a.len() + 1 + k, a.len() + 1 + i) =~= b.subrange(k, i));
    } else {
        assert(s.subrange(a.len() + 1 + k, s.len() as int) =~= b.subrange(k, b.len() as int));
    }
}

proof fn lemma_split_before(a: Seq<char>, c: char, b: Seq<char>, k: int)
    requires
        0 <= k <= a.len(),
    ensures
        split_from(a + seq![c] + b, c, k) == split_from(a, c, k) + split(b, c),
    decreases a.len() - k,
{
    let s = a + seq![c] + b;
    let i = index_from(a, c, k);
    lemma_index_before(a, c, b, k);
    lemma_index_from(a, c, k);
    assert(s.subrange(k, i) =~= a.subrange(k, i));
    if i < a.len() {
        lemma_split_before(a, c, b, i + 1);
        assert(split_from(s, c, k) =~= split_from(a, c, k) + split(b, c));
    } else {
        lemma_split_after(a, c, b, 0);
        assert(split_from(s, c, k) =~= split_from(a, c, k) + split(b, c));
    }
}

/// The pieces of two texts that the separator joins are those of the one and then
/// those of the other.
pub proof fn lemma_split_joined(a: Seq<char>, c: char, b: Seq<char>)
    ensures
        split(a + seq![c] + b, c) == split(a, c) + split(b, c),
{
    lemma_split_before(a, c, b, 0);
}

/// `find_from` names an occurrence, the first one, or says that there is none.
pub proof fn lemma_find_from(s: Seq<char>, p: Seq<char>, from: int)
    requires
        0 <= from,
    ensures
        find_from(s, p, from) == -1 || (from <= find_from(s, p, from) && occurs_at(
            s,
            find_from(s, p, from),
            p,
        )),
        find_from(s, p, from) == -1 ==> forall|k: int| from <= k ==> !occurs_at(s, k, p),
        forall|k: int| from <= k < find_from(s, p, from) ==> !occurs_at(s, k, p),
    decreases s.len() - from + 1,
{
    if from + p.len() <= s.len() && !occurs_at(s, from, p) {
        lemma_find_from(s, p, from + 1);
    }
}

/// The characters of a text.
pub fn chars_of(s: &str) -> (r: Vec<char>)
    ensures
        r@ == s@,
{
    let mut r: Vec<char> = Vec::new();
    for c in it: s.chars()
        invariant
            it.seq() == s@,
            r@ == s@.take(it.index() as int),
    {
        r.push(c);
    }
    assert(s@.take(s@.len() as int) =~= s@);
    r
}

/// The text made of the characters from position `from` up to `to`.
pub fn slice(v: &Vec<char>, from: usize, to: usize) -> (r: String)
    requires
        from <= to <= v.len(),
    ensures
        r@ == v@.subrange(from as int, to as int),
{
    let mut r = String::new();
    let mut i: usize = from;
    while i < to
        invariant
            from <= i <= to <= v.len(),
            r@ == v@.subrange(from as int, i as int),
        decreases to - i,
    {
        r.push(v[i]);
        i += 1;
        assert(v@.subrange(from as int, i as int) =~= v@.subrange(from as int, i - 1).push(
            v@[i - 1],
        ));
    }
    r
}

/// The text made of all the characters.
pub fn text_of(v: &Vec<char>) -> (r: String)
    ensures
        r@ == v@,
{
    assert(v@.subrange(0, v@.len() as int) =~= v@);
    slice(v, 0, v.len())
}

/// Whether two texts are the same.
pub fn same(a: &str, b: &str) -> (r: bool)
    ensures
        r == (a@ == b@),
{
    a.eq(b)
}

/// The text `a` followed by the text `b`.
pub fn concat(a: &str, b: &str) -> (r: String)
    ensures
        r@ == a@ + b@,
{
    let mut r = a.to_owned();
    r.append(b);
    r
}

/// The texts `a`, `b` and `c` in a row.
pub fn concat3(a: &str, b: &str, c: &str) -> (r: String)
    ensures
        r@ == a@ + b@ + c@,
{
    let mut r = a.to_owned();
    r.append(b);
    r.append(c);
    r
}

/// Whether `s` begins with `p`.
pub fn starts_with(s: &str, p: &str) -> (r: bool)
    ensures
        r == has_prefix(s@, p@),
{
    let n: usize = p.unicode_len();
    n <= s.unicode_len() && s.substring_char(0, n).eq(p)
}

/// Whether `s` ends with `p`.
pub fn ends_with(s: &str, p: &str) -> (r: bool)
    ensures
        r == has_suffix(s@, p@),
{
    let n: usize = p.unicode_len();
    let m: usize = s.unicode_len();
    n <= m && s.substring_char(m - n, m).eq(p)
}

/// What follows `p` in `s`, when `s` begins with `p`.
pub fn strip_prefix<'a>(s: &'a str, p: &str) -> (r: Option<&'a str>)
    ensures
        match r {
            Some(rest) => has_prefix(s@, p@) && rest@ == s@.subrange(
                p@.len() as int,
                s@.len() as int,
            ),
            None => !has_prefix(s@, p@),
        },
{
    if starts_with(s, p) {
        Some(s.substring_char(p.unicode_len(), s.unicode_len()))
    } else {
        None
    }
}

/// What precedes `p` in `s`, when `s` ends with `p`.
pub fn strip_suffix<'a>(s: &'a str, p: &str) -> (r: Option<&'a str>)
    ensures
        match r {
            Some(rest) => has_suffix(s@, p@) && rest@ == s@.subrange(0, s@.len() - p@.len()),
            None => !has_suffix(s@, p@),
        },
{
    if ends_with(s, p) {
        Some(s.substring_char(0, s.unicode_len() - p.unicode_len()))
    } else {
        None
    }
}

/// Whether the characters `p` stand in `v` at position `i`.
pub fn occurs(v: &Vec<char>, i: usize, p: &Vec<char>) -> (r: bool)
    ensures
        r == occurs_at(v@, i as int, p@),
{
    if p.len() > v.len() || i > v.len() - p.len() {
        return false;
    }
    let mut k: usize = 0;
    while k < p.len()
        invariant
            k <= p.len(),
            i + p.len() <= v.len(),
            forall|j: int| 0 <= j < k ==> v@[i + j] == p@[j],
        decreases p.len() - k,
    {
        if v[i + k] != p[k] {
            proof {
                if v@.subrange(i as int, i + p@.len()) == p@ {
                    assert(v@.subrange(i as int, i + p@.len())[k as int] == v@[i + k]);
                }
            }
            return false;
        }
        k += 1;
    }
    assert(v@.subrange(i as int, i + p@.len()) =~= p@);
    true
}

/// The first position at or after `from` where `p` stands in `v`.
pub fn find(v: &Vec<char>, p: &Vec<char>, from: usize) -> (r: Option<usize>)
    requires
        from <= v.len(),
    ensures
        match r {
            Some(i) => i == find_from(v@, p@, from as int) && occurs_at(v@, i as int, p@),
            None => find_from(v@, p@, from as int) == -1,
        },
{
    if p.len() > v.len() {
        return None;
    }
    let mut i: usize = from;
    while i <= v.len() - p.len()
        invariant
            p.len() <= v.len(),
            from <= i <= v.len() + 1,
            from <= v.len(),
            find_from(v@, p@, from as int) == find_from(v@, p@, i as int),
        decreases v.len() + 1 - i,
    {
        if occurs(v, i, p) {
            return Some(i);
        }
        if i == v.len() {
            assert(find_from(v@, p@, i + 1) == -1);
            return None;
        }
        i += 1;
    }
    None
}

/// Whether `p` occurs in `s`.
pub fn has(s: &str, p: &str) -> (r: bool)
    ensures
        r == contains(s@, p@),
{
    let v = chars_of(s);
    let q = chars_of(p);
    proof {
        lemma_find_from(s@, p@, 0);
    }
    match find(&v, &q, 0) {
        Some(i) => true,
        None => false,
    }
}

/// The first position at or after `from` that holds `c`, or the length when there is none.
pub fn index_of(v: &Vec<char>, c: char, from: usize) -> (r: usize)
    requires
        from <= v.len(),
    ensures
        r == index_from(v@, c, from as int),
        from <= r <= v.len(),
        r < v.len() ==> v@[r as int] == c,
        forall|k: int| from <= k < r ==> v@[k] != c,
{
    let mut i: usize = from;
    while i < v.len()
        invariant
            from <= i <= v.len(),
            index_from(v@, c, from as int) == index_from(v@, c, i as int),
            forall|k: int| from <= k < i ==> v@[k] != c,
        decreases v.len() - i,
    {
        if v[i] == c {
            return i;
        }
        i += 1;
    }
    i
}

/// The last position that holds `c`, if any does.
pub fn last_index_of(v: &Vec<char>, c: char) -> (r: Option<usize>)
    ensures
        match r {
            Some(i) => i == last_index_before(v@, c, v@.len() as int) && i < v.len() && v@[i as int]
                == c,
            None => last_index_before(v@, c, v@.len() as int) == -1,
        },
{
    let mut i: usize = v.len();
    while i > 0
        invariant
            i <= v.len(),
            last_index_before(v@, c, v@.len() as int) == last_index_before(v@, c, i as int),
        decreases i,
    {
        if v[i - 1] == c {
            return Some(i - 1);
        }
        i -= 1;
    }
    None
}

/// The pieces of `s` between occurrences of `sep`.
pub fn split_on(s: &str, sep: char) -> (r: Vec<String>)
    ensures
        r.deep_view() == split(s@, sep),
        r.len() >= 1,
{
    let v = chars_of(s);
    let mut r: Vec<String> = Vec::new();
    let mut from: usize = 0;
    loop
        invariant
            v@ == s@,
            from <= v.len(),
            r.deep_view() + split_from(s@, sep, from as int) == split(s@, sep),
        decreases v.len() - from,
    {
        let i: usize = index_of(&v, sep, from);
        let ghost before = r.deep_view();
        r.push(slice(&v, from, i));
        assert(r.deep_view() =~= before.push(s@.subrange(from as int, i as int)));
        if i == v.len() {
            assert(r.deep_view() =~= before + seq![s@.subrange(from as int, i as int)]);
            return r;
        }
        assert(before + (seq![s@.subrange(from as int, i as int)] + split_from(s@, sep, i + 1))
            =~= before.push(s@.subrange(from as int, i as int)) + split_from(s@, sep, i + 1));
        from = i + 1;
    }
}

/// The pieces of `s` between occurrences of the text `sep`.
pub fn split_on_text(s: &str, sep: &str) -> (r: Vec<String>)
    requires
        sep@.len() > 0,
    ensures
        r.deep_view() == split_by(s@, sep@),
        r.len() >= 1,
{
    let v = chars_of(s);
    let p = chars_of(sep);
    let mut r: Vec<String> = Vec::new();
    let mut from: usize = 0;
    loop
        invariant
            v@ == s@,
            p@ == sep@,
            sep@.len() > 0,
            from <= v.len(),
            r.deep_view() + split_by_from(s@, sep@, from as int) == split_by(s@, sep@),
        decreases v.len() - from,
    {
        let ghost before = r.deep_view();
        proof {
            lemma_find_from(s@, sep@, from as int);
        }
        match find(&v, &p, from) {
            None => {
                r.push(slice(&v, from, v.len()));
                assert(r.deep_view() =~= before + seq![s@.subrange(from as int, s@.len() as int)]);
                return r;
            },
            Some(i) => {
                r.push(slice(&v, from, i));
                assert(r.deep_view() =~= before.push(s@.subrange(from as int, i as int)));
                let ghost rest = split_by_from(s@, sep@, i + sep@.len());
                assert(before + (seq![s@.subrange(from as int, i as int)] + rest)
                    =~= before.push(s@.subrange(from as int, i as int)) + rest);
                from = i + p.len();
            },
        }
    }
}

/// The texts `parts` with `sep` between each two of them.
pub fn join_with(parts: &Vec<String>, sep: &str) -> (r: String)
    ensures
        r@ == join(parts.deep_view(), sep@),
{
    let mut r = String::new();
    let mut i: usize = 0;
    while i < parts.len()
        invariant
            i <= parts.len(),
            r@ == join(parts.deep_view().take(i as int), sep@),
        decreases parts.len() - i,
    {
        if i > 0 {
            r.append(sep);
        }
        r.append(parts[i].as_str());
        i += 1;
        proof {
            let t = parts.deep_view().take(i as int);
            assert(t.drop_last() =~= parts.deep_view().take(i - 1));
            assert(t.last() == parts@[i - 1]@);
            assert(Seq::<char>::empty() + parts@[i - 1]@ =~= parts@[i - 1]@);
        }
    }
    assert(parts.deep_view().take(parts@.len() as int) =~= parts.deep_view());
    r
}

/// `s` with every `from` replaced by `to`.
pub open spec fn replaced(s: Seq<char>, from: char, to: char) -> Seq<char> {
    s.map_values(|c: char| if c == from { to } else { c })
}

/// `s` with every `from` replaced by `to`.
pub fn replace_char(s: &str, from: char, to: char) -> (r: String)
    ensures
        r@ == replaced(s@, from, to),
{
    let v = chars_of(s);
    let mut r = String::new();
    let mut i: usize = 0;
    while i < v.len()
        invariant
            v@ == s@,
            i <= v.len(),
            r@ == replaced(s@, from, to).take(i as int),
        decreases v.len() - i,
    {
        let c = v[i];
        r.push(if c == from { to } else { c });
        i += 1;
        assert(replaced(s@, from, to).take(i as int) =~= replaced(s@, from, to).take(i - 1).push(
            replaced(s@, from, to)[i - 1],
        ));
    }
    assert(replaced(s@, from, to).take(s@.len() as int) =~= replaced(s@, from, to));
    r
}

/// The text holds ASCII characters only.
pub open spec fn is_ascii(s: Seq<char>) -> bool {
    forall|i: int| 0 <= i < s.len() ==> (#[trigger] s[i]) <= '\u{7f}'
}

/// The lower-case form of a text without the letters `A` to `Z`, as
/// `str::to_lowercase` maps it.
pub uninterp spec fn lowercase(s: Seq<char>) -> Seq<char>;

/// The text in lower case.
pub open spec fn lowered(s: Seq<char>) -> Seq<char> {
    if is_ascii(s) {
        in_small_letters(s)
    } else {
        lowercase(in_small_letters(s))
    }
}

/// `str::to_lowercase` gives the lower-case form of the text under Unicode's
/// mapping, which depends on the text alone. The letters `A` to `Z` become `a` to
/// `z`, which is all that happens to a text of ASCII characters. What becomes of
/// other characters does not depend on the case of these letters: only the Greek
/// capital sigma is mapped by what stands around it, and there the letters of
/// either case count alike. How other characters are mapped is left unsaid.
#[verifier::external_body]
pub(crate) fn to_lowercase(s: &str) -> (r: String)
    ensures
        r@ == (if is_ascii(s@) {
            in_small_letters(s@)
        } else {
            lowercase(in_small_letters(s@))
        }),
{
    s.to_lowercase()
}

/// Texts that are the same but for the case of English letters have the same
/// lower-case form.
pub proof fn law_case_is_lost(a: Seq<char>, b: Seq<char>)
    requires
        same_but_case(a, b),
    ensures
        lowered(a) == lowered(b),
{
    let small_a = in_small_letters(a);
    let small_b = in_small_letters(b);
    assert(small_a.len() == a.len() && small_b.len() == b.len());
    assert forall|i: int| 0 <= i < a.len() implies ((#[trigger] a[i]) <= '\u{7f}' <==> b[i]
        <= '\u{7f}') by {
        assert(small_a[i] == small(a[i]));
        assert(small_b[i] == small(b[i]));
    }
    if is_ascii(b) {
        assert forall|i: int| 0 <= i < a.len() implies (#[trigger] a[i]) <= '\u{7f}' by {
            assert(b[i] <= '\u{7f}');
        }
    }
    if is_ascii(a) {
        assert forall|i: int| 0 <= i < b.len() implies (#[trigger] b[i]) <= '\u{7f}' by {
            assert(a[i] <= '\u{7f}');
        }
    }
}

/// The character is white space: one of those with Unicode's White_Space
/// property.
pub open spec fn whitespace(c: char) -> bool {
    ||| '\u{9}' <= c && c <= '\u{d}'
    ||| c == ' '
    ||| c == '\u{85}'
    ||| c == '\u{a0}'
    ||| c == '\u{1680}'
    ||| '\u{2000}' <= c && c <= '\u{200a}'
    ||| c == '\u{2028}'
    ||| c == '\u{2029}'
    ||| c == '\u{202f}'
    ||| c == '\u{205f}'
    ||| c == '\u{3000}'
}

/// Whether the character is white space.
pub fn is_whitespace(c: char) -> (r: bool)
    ensures
        r == whitespace(c),
{
    ('\u{9}' <= c && c <= '\u{d}') || c == ' ' || c == '\u{85}' || c == '\u{a0}' || c
        == '\u{1680}' || ('\u{2000}' <= c && c <= '\u{200a}') || c == '\u{2028}' || c
        == '\u{2029}' || c == '\u{202f}' || c == '\u{205f}' || c == '\u{3000}'
}

/// The first position at or after `i` that holds no white space, or the length.
pub open spec fn skip_blank(s: Seq<char>, i: int) -> int
    decreases s.len() - i,
{
    if i < 0 || i >= s.len() || !whitespace(s[i]) {
        i
    } else {
        skip_blank(s, i + 1)
    }
}

/// The position after the last character before `end` that is not white space.
pub open spec fn drop_blank(s: Seq<char>, end: int) -> int
    decreases end,
{
    if end <= 0 || end > s.len() || !whitespace(s[end - 1]) {
        end
    } else {
        drop_blank(s, end - 1)
    }
}

/// `s` without the white space at its beginning.
pub open spec fn trimmed_start(s: Seq<char>) -> Seq<char> {
    s.subrange(skip_blank(s, 0), s.len() as int)
}

/// `s` without the white space at its end.
pub open spec fn trimmed_end(s: Seq<char>) -> Seq<char> {
    s.subrange(0, drop_blank(s, s.len() as int))
}

/// `s` without the white space at either end.
pub open spec fn trimmed(s: Seq<char>) -> Seq<char> {
    trimmed_end(trimmed_start(s))
}

/// `s` without the white space at its beginning.
pub fn trim_start(s: &str) -> (r: String)
    ensures
        r@ == trimmed_start(s@),
{
    let v = chars_of(s);
    let mut i: usize = 0;
    while i < v.len() && is_whitespace(v[i])
        invariant
            v@ == s@,
            i <= v.len(),
            skip_blank(s@, 0) == skip_blank(s@, i as int),
        decreases v.len() - i,
    {
        i += 1;
    }
    slice(&v, i, v.len())
}

/// `s` without the white space at its end.
pub fn trim_end(s: &str) -> (r: String)
    ensures
        r@ == trimmed_end(s@),
{
    let v = chars_of(s);
    let mut i: usize = v.len();
    while i > 0 && is_whitespace(v[i - 1])
        invariant
            v@ == s@,
            i <= v.len(),
            drop_blank(s@, s@.len() as int) == drop_blank(s@, i as int),
        decreases i,
    {
        i -= 1;
    }
    slice(&v, 0, i)
}

/// `s` without the white space at either end.
pub fn trim(s: &str) -> (r: String)
    ensures
        r@ == trimmed(s@),
{
    trim_end(trim_start(s).as_str())
}

/// The digit that a character stands for in base ten.
pub open spec fn digit(c: char) -> Option<nat> {
    if '0' <= c && c <= '9' {
        Some((c as int - '0' as int) as nat)
    } else {
        None
    }
}

/// The number that a row of decimal digits stands for.
pub open spec fn number(s: Seq<char>) -> Option<nat>
    decreases s.len(),
{
    if s.len() == 0 {
        Some(0)
    } else {
        match (number(s.drop_last()), digit(s.last())) {
            (Some(n), Some(d)) => Some(n * 10 + d),
            _ => None,
        }
    }
}

/// The unsigned number that a text stands for: at least one digit, after an
/// optional plus sign, with a value of at most `max`.
pub open spec fn unsigned(s: Seq<char>, max: nat) -> Option<nat> {
    let digits = if s.len() > 0 && s[0] == '+' {
        s.subrange(1, s.len() as int)
    } else {
        s
    };
    if digits.len() == 0 {
        None
    } else {
        match number(digits) {
            Some(n) if n <= max => Some(n),
            _ => None,
        }
    }
}

proof fn lemma_number_grows(s: Seq<char>, i: int)
    requires
        0 <= i <= s.len(),
        number(s) is Some,
    ensures
        number(s.take(i)) is Some,
        number(s.take(i))->0 <= number(s)->0,
    decreases s.len() - i,
{
    if i == s.len() {
        assert(s.take(i) =~= s);
    } else {
        lemma_number_grows(s, i + 1);
        assert(s.take(i + 1).drop_last() =~= s.take(i));
    }
}

/// The unsigned 64-bit number that a text stands for.
pub fn parse_u64(s: &str) -> (r: Option<u64>)
    ensures
        match r {
            Some(n) => unsigned(s@, u64::MAX as nat) == Some(n as nat),
            None => unsigned(s@, u64::MAX as nat) is None,
        },
{
    let v = chars_of(s);
    let start: usize = if v.len() > 0 && v[0] == '+' {
        1
    } else {
        0
    };
    let ghost digits = s@.subrange(start as int, s@.len() as int);
    assert(start == 0 ==> digits =~= s@);
    if start == v.len() {
        return None;
    }
    let mut n: u64 = 0;
    let mut i: usize = start;
    while i < v.len()
        invariant
            v@ == s@,
            start <= i <= v.len(),
            start < v.len(),
            start <= 1,
            digits == s@.subrange(start as int, s@.len() as int),
            number(digits.take(i - start)) == Some(n as nat),
            unsigned(s@, u64::MAX as nat) == (match number(digits) {
                Some(n) if n <= u64::MAX as nat => Some(n),
                _ => None,
            }),
        decreases v.len() - i,
    {
        let c = v[i];
        proof {
            assert(digits.take(i + 1 - start).drop_last() =~= digits.take(i - start));
            assert(digits.take(i + 1 - start).last() == c);
            if number(digits) is Some {
                lemma_number_grows(digits, i + 1 - start);
            }
        }
        if !('0' <= c && c <= '9') {
            return None;
        }
        let d: u64 = c as u64 - 48;
        if n > (u64::MAX - d) / 10 {
            return None;
        }
        n = n * 10 + d;
        i += 1;
    }
    assert(digits.take(digits.len() as int) =~= digits);
    Some(n)
}

/// The decimal digits of a number.
pub open spec fn decimal(n: nat) -> Seq<char>
    decreases n,
{
    let d = ('0' as int + (n % 10) as int) as char;
    if n < 10 {
        seq![d]
    } else {
        decimal(n / 10).push(d)
    }
}

fn digit_char(d: u64) -> (c: char)
    requires
        d < 10,
    ensures
        c == ('0' as int + d) as char,
{
    (48u8 + d as u8) as char
}

/// The decimal digits of a number.
pub fn decimal_u64(n: u64) -> (r: String)
    ensures
        r@ == decimal(n as nat),
    decreases n,
{
    if n < 10 {
        let mut r = String::new();
        r.push(digit_char(n));
        assert(r@ =~= decimal(n as nat));
        r
    } else {
        let mut r = decimal_u64(n / 10);
        r.push(digit_char(n % 10));
        r
    }
}

/// `a` comes before `b` in the order of texts: at the first difference it has
/// the smaller character, or it ends there.
pub open spec fn precedes(a: Seq<char>, b: Seq<char>) -> bool
    decreases a.len(),
{
    if b.len() == 0 {
        false
    } else if a.len() == 0 {
        true
    } else if a[0] != b[0] {
        a[0] < b[0]
    } else {
        precedes(a.subrange(1, a.len() as int), b.subrange(1, b.len() as int))
    }
}

/// The order of texts is transitive.
pub proof fn lemma_precedes_transitive(a: Seq<char>, b: Seq<char>, c: Seq<char>)
    requires
        precedes(a, b),
        precedes(b, c),
    ensures
        precedes(a, c),
    decreases a.len(),
{
    if a.len() > 0 && a[0] == b[0] && b[0] == c[0] {
        lemma_precedes_transitive(
            a.subrange(1, a.len() as int),
            b.subrange(1, b.len() as int),
            c.subrange(1, c.len() as int),
        );
    }
}

/// Of two different texts exactly one comes before the other, and no text
/// comes before itself.
pub proof fn lemma_precedes_total(a: Seq<char>, b: Seq<char>)
    ensures
        precedes(a, b) || precedes(b, a) || a == b,
        !(precedes(a, b) && precedes(b, a)),
        a == b ==> !precedes(a, b),
    decreases a.len(),
{
    if a.len() > 0 && b.len() > 0 && a[0] == b[0] {
        let x = a.subrange(1, a.len() as int);
        let y = b.subrange(1, b.len() as int);
        lemma_precedes_total(x, y);
        assert(a =~= seq![a[0]] + x);
        assert(b =~= seq![b[0]] + y);
    } else if a.len() == 0 && b.len() == 0 {
        assert(a =~= b);
    }
}

/// Whether `a` comes before `b` in the order of texts.
pub fn is_before(a: &str, b: &str) -> (r: bool)
    ensures
        r == precedes(a@, b@),
{
    let x = chars_of(a);
    let y = chars_of(b);
    let mut i: usize = 0;
    assert(x@.subrange(0, x@.len() as int) =~= a@);
    assert(y@.subrange(0, y@.len() as int) =~= b@);
    loop
        invariant
            x@ == a@,
            y@ == b@,
            i <= x.len(),
            i <= y.len(),
            precedes(a@, b@) == precedes(
                x@.subrange(i as int, x@.len() as int),
                y@.subrange(i as int, y@.len() as int),
            ),
        decreases x.len() - i,
    {
        if i == y.len() {
            return false;
        }
        if i == x.len() {
            return true;
        }
        if x[i] != y[i] {
            return x[i] < y[i];
        }
        proof {
            let p = x@.subrange(i as int, x@.len() as int);
            let q = y@.subrange(i as int, y@.len() as int);
            assert(p.subrange(1, p.len() as int) =~= x@.subrange(i + 1, x@.len() as int));
            assert(q.subrange(1, q.len() as int) =~= y@.subrange(i + 1, y@.len() as int));
        }
        i += 1;
    }
}

/// Whether the text is among those of a list.
pub fn list_has(v: &Vec<String>, s: &str) -> (r: bool)
    ensures
        r == v.deep_view().contains(s@),
{
    let mut i: usize = 0;
    while i < v.len()
        invariant
            i <= v.len(),
            forall|k: int| 0 <= k < i ==> (#[trigger] v.deep_view()[k]) != s@,
        decreases v.len() - i,
    {
        assert(v.deep_view()[i as int] == v@[i as int]@);
        if same(v[i].as_str(), s) {
            assert(v.deep_view()[i as int] == s@);
            return true;
        }
        i += 1;
    }
    false
}

/// Whether the lists hold the same texts.
pub fn same_list(a: &Vec<String>, b: &Vec<String>) -> (r: bool)
    ensures
        r == (a.deep_view() == b.deep_view()),
{
    if a.len() != b.len() {
        assert(a.deep_view().len() != b.deep_view().len());
        return false;
    }
    let mut i: usize = 0;
    while i < a.len()
        invariant
            i <= a.len(),
            a.len() == b.len(),
            forall|k: int| 0 <= k < i ==> a.deep_view()[k] == b.deep_view()[k],
        decreases a.len() - i,
    {
        assert(a.deep_view()[i as int] == a@[i as int]@);
        assert(b.deep_view()[i as int] == b@[i as int]@);
        if !same(a[i].as_str(), b[i].as_str()) {
            return false;
        }
        i += 1;
    }
    assert(a.deep_view() =~= b.deep_view());
    true
}

/// A list of the same texts.
pub fn copy_list(v: &Vec<String>) -> (r: Vec<String>)
    ensures
        r.deep_view() == v.deep_view(),
{
    let mut r: Vec<String> = Vec::new();
    let mut i: usize = 0;
    while i < v.len()
        invariant
            i <= v.len(),
            r.len() == i,
            forall|k: int| 0 <= k < i ==> (#[trigger] r@[k])@ == v@[k]@,
        decreases v.len() - i,
    {
        r.push(v[i].clone());
        i += 1;
    }
    assert(r.deep_view() =~= v.deep_view());
    r
}

/// The first position at or after `i` that holds white space, or the length.
pub open spec fn word_end(s: Seq<char>, i: int) -> int
    decreases s.len() - i,
{
    if i < 0 || i >= s.len() || whitespace(s[i]) {
        i
    } else {
        word_end(s, i + 1)
    }
}

/// White space ends within the text.
pub proof fn lemma_skip_blank(s: Seq<char>, i: int)
    requires
        0 <= i <= s.len(),
    ensures
        i <= skip_blank(s, i) <= s.len(),
        skip_blank(s, i) < s.len() ==> !whitespace(s[skip_blank(s, i)]),
    decreases s.len() - i,
{
    if i < s.len() && whitespace(s[i]) {
        lemma_skip_blank(s, i + 1);
    }
}

/// A word ends within the text.
pub proof fn lemma_word_end(s: Seq<char>, i: int)
    requires
        0 <= i <= s.len(),
    ensures
        i <= word_end(s, i) <= s.len(),
        i < s.len() && !whitespace(s[i]) ==> i < word_end(s, i),
    decreases s.len() - i,
{
    if i < s.len() && !whitespace(s[i]) {
        lemma_word_end(s, i + 1);
    }
}

/// The words of a text from position `from` on, which white space separates.
pub open spec fn words_from(s: Seq<char>, from: int) -> Seq<Seq<char>>
    decreases s.len() - from,
    via words_from_shrinks
{
    let i = skip_blank(s, from);
    if from < 0 || from > s.len() || i >= s.len() {
        Seq::empty()
    } else {
        seq![s.subrange(i, word_end(s, i))] + words_from(s, word_end(s, i))
    }
}

#[via_fn]
proof fn words_from_shrinks(s: Seq<char>, from: int) {
    if 0 <= from <= s.len() {
        lemma_skip_blank(s, from);
        if skip_blank(s, from) < s.len() {
            lemma_word_end(s, skip_blank(s, from));
        }
    }
}

/// The words of a text, which white space separates.
pub open spec fn words(s: Seq<char>) -> Seq<Seq<char>> {
    words_from(s, 0)
}

/// The words of a text, which white space separates.
pub fn words_of(s: &str) -> (r: Vec<String>)
    ensures
        r.deep_view() == words(s@),
{
    let v = chars_of(s);
    let mut r: Vec<String> = Vec::new();
    let mut from: usize = 0;
    assert(r.deep_view() =~= Seq::empty());
    assert(Seq::<Seq<char>>::empty() + words_from(s@, 0) =~= words(s@));
    loop
        invariant
            v@ == s@,
            from <= v.len(),
            r.deep_view() + words_from(s@, from as int) == words(s@),
        decreases v.len() - from,
    {
        proof {
            lemma_skip_blank(s@, from as int);
        }
        let mut i: usize = from;
        while i < v.len() && is_whitespace(v[i])
            invariant
                v@ == s@,
                from <= i <= v.len(),
                skip_blank(s@, from as int) == skip_blank(s@, i as int),
            decreases v.len() - i,
        {
            i += 1;
        }
        if i == v.len() {
            assert(r.deep_view() + Seq::<Seq<char>>::empty() =~= r.deep_view());
            return r;
        }
        let mut end: usize = i;
        while end < v.len() && !is_whitespace(v[end])
            invariant
                v@ == s@,
                i <= end <= v.len(),
                word_end(s@, i as int) == word_end(s@, end as int),
            decreases v.len() - end,
        {
            end += 1;
        }
        let ghost before = r.deep_view();
        let ghost word = s@.subrange(i as int, end as int);
        proof {
            lemma_word_end(s@, i as int);
        }
        r.push(slice(&v, i, end));
        assert(r.deep_view() =~= before.push(word));
        assert(before + (seq![word] + words_from(s@, end as int)) =~= before.push(word)
            + words_from(s@, end as int));
        from = end;
    }
}

/// The unsigned 32-bit number that a text stands for.
pub fn parse_u32(s: &str) -> (r: Option<u32>)
    ensures
        match r {
            Some(n) => unsigned(s@, u32::MAX as nat) == Some(n as nat),
            None => unsigned(s@, u32::MAX as nat) is None,
        },
{
    match parse_u64(s) {
        Some(n) if n <= u32::MAX as u64 => Some(n as u32),
        _ => None,
    }
}

/// The unsigned 8-bit number that a text stands for.
pub fn parse_u8(s: &str) -> (r: Option<u8>)
    ensures
        match r {
            Some(n) => unsigned(s@, u8::MAX as nat) == Some(n as nat),
            None => unsigned(s@, u8::MAX as nat) is None,
        },
{
    match parse_u64(s) {
        Some(n) if n <= u8::MAX as u64 => Some(n as u8),
        _ => None,
    }
}

/// The decimal digits of an integer, behind a minus sign where it is negative.
pub open spec fn signed_decimal(n: int) -> Seq<char> {
    if n < 0 {
        "-"@ + decimal((-n) as nat)
    } else {
        decimal(n as nat)
    }
}

/// The decimal digits of an integer, behind a minus sign where it is negative.
pub fn decimal_i64(n: i64) -> (r: String)
    ensures
        r@ == signed_decimal(n as int),
{
    if n < 0 {
        concat("-", decimal_u64((-(n as i128)) as u64).as_str())
    } else {
        decimal_u64(n as u64)
    }
}

/// The small letter of a letter of the English alphabet; any other character
/// stays as it is.
pub open spec fn small(c: char) -> char {
    if 'A' <= c && c <= 'Z' {
        (c as int + 32) as char
    } else {
        c
    }
}

/// The text with English letters as small letters.
pub open spec fn in_small_letters(s: Seq<char>) -> Seq<char> {
    s.map_values(|c: char| small(c))
}

/// The texts are the same but for the case of English letters.
pub open spec fn same_but_case(a: Seq<char>, b: Seq<char>) -> bool {
    in_small_letters(a) == in_small_letters(b)
}

/// The small letter of a letter of the English alphabet; any other character
/// stays as it is.
pub fn small_char(c: char) -> (r: char)
    ensures
        r == small(c),
{
    if 'A' <= c && c <= 'Z' {
        ((c as u8) + 32) as char
    } else {
        c
    }
}

/// Whether the texts are the same but for the case of English letters.
pub fn equal_ignoring_case(a: &str, b: &str) -> (r: bool)
    ensures
        r == same_but_case(a@, b@),
{
    let x = chars_of(a);
    let y = chars_of(b);
    let ghost p = in_small_letters(a@);
    let ghost q = in_small_letters(b@);
    if x.len() != y.len() {
        assert(p.len() != q.len());
        return false;
    }
    let mut i: usize = 0;
    while i < x.len()
        invariant
            x@ == a@,
            y@ == b@,
            x.len() == y.len(),
            i <= x.len(),
            p == in_small_letters(a@),
            q == in_small_letters(b@),
            forall|k: int| 0 <= k < i ==> p[k] == q[k],
        decreases x.len() - i,
    {
        if small_char(x[i]) != small_char(y[i]) {
            assert(p[i as int] != q[i as int]);
            return false;
        }
        i += 1;
    }
    assert(p =~= q);
    true
}

/// The first position at or after `i` that holds no white space.
pub fn blank_end(v: &Vec<char>, i: usize) -> (r: usize)
    requires
        i <= v.len(),
    ensures
        r == skip_blank(v@, i as int),
        i <= r <= v.len(),
{
    let mut k: usize = i;
    while k < v.len() && is_whitespace(v[k])
        invariant
            i <= k <= v.len(),
            skip_blank(v@, i as int) == skip_blank(v@, k as int),
        decreases v.len() - k,
    {
        k += 1;
    }
    k
}

/// A number is written with decimal digits, at least one.
pub proof fn lemma_decimal_is_digits(n: nat)
    ensures
        decimal(n).len() > 0,
        forall|i: int| 0 <= i < decimal(n).len() ==> '0' <= (#[trigger] decimal(n)[i]) <= '9',
    decreases n,
{
    if n >= 10 {
        lemma_decimal_is_digits(n / 10);
    }
}

proof fn lemma_decimal_number(n: nat)
    ensures
        number(decimal(n)) == Some(n),
    decreases n,
{
    let d = ('0' as int + (n % 10) as int) as char;
    assert(digit(d) == Some((n % 10) as nat));
    if n < 10 {
        assert(seq![d].drop_last() =~= Seq::empty());
        assert(number(Seq::empty()) == Some(0nat));
    } else {
        lemma_decimal_number(n / 10);
        assert(decimal(n).drop_last() =~= decimal(n / 10));
    }
}

/// A number that is written down reads back as the number.
pub proof fn law_numbers_read_back(n: nat, max: nat)
    requires
        n <= max,
    ensures
        unsigned(decimal(n), max) == Some(n),
{
    lemma_decimal_is_digits(n);
    lemma_decimal_number(n);
}

/// The pieces of a text hold no separator, and with separators between them they are the
/// text again.
pub proof fn law_pieces_make_up_the_text(s: Seq<char>, sep: char)
    ensures
        forall|k: int| 0 <= k < split(s, sep).len() ==>
            !(#[trigger] split(s, sep)[k]).contains(sep),
        split(s, sep).len() > 0,
        join(split(s, sep), seq![sep]) == s,
{
    lemma_pieces_from(s, sep, 0);
    assert(s.subrange(0, s.len() as int) =~= s);
}

proof fn lemma_pieces_from(s: Seq<char>, sep: char, from: int)
    requires
        0 <= from <= s.len(),
    ensures
        split_from(s, sep, from).len() > 0,
        forall|k: int|
            0 <= k < split_from(s, sep, from).len() ==>
                !(#[trigger] split_from(s, sep, from)[k]).contains(sep),
        join(split_from(s, sep, from), seq![sep]) == s.subrange(from, s.len() as int),
    decreases s.len() - from,
{
    lemma_index_from(s, sep, from);
    let i = index_from(s, sep, from);
    let first = s.subrange(from, i);
    let all = split_from(s, sep, from);
    assert(!first.contains(sep)) by {
        if first.contains(sep) {
            let k = choose|k: int| 0 <= k < first.len() && first[k] == sep;
            assert(s[from + k] == sep);
        }
    }
    if i < s.len() {
        let rest = split_from(s, sep, i + 1);
        lemma_pieces_from(s, sep, i + 1);
        assert(all =~= seq![first] + rest);
        assert forall|k: int| 0 <= k < all.len() implies !(#[trigger] all[k]).contains(sep) by {
            if k > 0 {
                assert(all[k] == rest[k - 1]);
            }
        }
        lemma_join_first(first, rest, seq![sep]);
        assert(first + seq![sep] + s.subrange(i + 1, s.len() as int) =~= s.subrange(
            from,
            s.len() as int,
        ));
    } else {
        assert(all =~= seq![first]);
    }
}

/// A joined list begins with its first text, the separator and the rest joined.
proof fn lemma_join_first(first: Seq<char>, rest: Seq<Seq<char>>, sep: Seq<char>)
    requires
        rest.len() > 0,
    ensures
        join(seq![first] + rest, sep) == first + sep + join(rest, sep),
    decreases rest.len(),
{
    let all = seq![first] + rest;
    assert(all.last() == rest.last());
    if rest.len() == 1 {
        assert(all.drop_last() =~= seq![first]);
        assert(join(seq![first], sep) == first);
        assert(join(rest, sep) == rest[0]);
    } else {
        assert(all.drop_last() =~= seq![first] + rest.drop_last());
        lemma_join_first(first, rest.drop_last(), sep);
        assert(join(all, sep) =~= first + sep + join(rest, sep));
    }
}

/// A trimmed text neither begins nor ends with white space, and only white space was
/// taken from the text at either end.
pub proof fn law_only_white_space_is_trimmed(s: Seq<char>)
    ensures
        ({
            let t = trimmed(s);
            &&& t.len() > 0 ==> !whitespace(t[0]) && !whitespace(t.last())
            &&& exists|i: int, j: int| is_trimmed_between(s, i, j) && t == s.subrange(i, j)
        }),
{
    lemma_blank_skipped(s, 0);
    let i = skip_blank(s, 0);
    let a = trimmed_start(s);
    lemma_blank_dropped(a, a.len() as int);
    let n = drop_blank(a, a.len() as int);
    let t = trimmed(s);
    assert(t =~= s.subrange(i, i + n));
    assert forall|k: int| i + n <= k < s.len() implies whitespace(#[trigger] s[k]) by {
        assert(whitespace(a[k - i]));
    }
    assert(is_trimmed_between(s, i, i + n));
    if n > 0 {
        assert(a[0] == s[i]);
    }
}

/// All of the text before the one position and from the other on is white space.
pub open spec fn is_trimmed_between(s: Seq<char>, i: int, j: int) -> bool {
    &&& 0 <= i <= j <= s.len()
    &&& forall|k: int| 0 <= k < i ==> whitespace(#[trigger] s[k])
    &&& forall|k: int| j <= k < s.len() ==> whitespace(#[trigger] s[k])
}

proof fn lemma_blank_skipped(s: Seq<char>, i: int)
    requires
        0 <= i <= s.len(),
    ensures
        i <= skip_blank(s, i) <= s.len(),
        skip_blank(s, i) < s.len() ==> !whitespace(s[skip_blank(s, i)]),
        forall|k: int| i <= k < skip_blank(s, i) ==> whitespace(#[trigger] s[k]),
    decreases s.len() - i,
{
    if i < s.len() && whitespace(s[i]) {
        lemma_blank_skipped(s, i + 1);
    }
}

proof fn lemma_blank_dropped(s: Seq<char>, end: int)
    requires
        0 <= end <= s.len(),
    ensures
        0 <= drop_blank(s, end) <= end,
        drop_blank(s, end) > 0 ==> !whitespace(s[drop_blank(s, end) - 1]),
        forall|k: int| drop_blank(s, end) <= k < end ==> whitespace(#[trigger] s[k]),
    decreases end,
{
    if end > 0 && whitespace(s[end - 1]) {
        lemma_blank_dropped(s, end - 1);
    }
}

/// The words of a text are not empty and hold no white space.
pub proof fn law_words_hold_no_white_space(s: Seq<char>, k: int)
    requires
        0 <= k < words(s).len(),
    ensures
        words(s)[k].len() > 0,
        forall|i: int| 0 <= i < words(s)[k].len() ==> !whitespace(#[trigger] words(s)[k][i]),
{
    lemma_words_from(s, 0, k);
}

proof fn lemma_words_from(s: Seq<char>, from: int, k: int)
    requires
        0 <= from <= s.len(),
        0 <= k < words_from(s, from).len(),
    ensures
        words_from(s, from)[k].len() > 0,
        forall|i: int| 0 <= i < words_from(s, from)[k].len() ==>
            !whitespace(#[trigger] words_from(s, from)[k][i]),
    decreases s.len() - from,
{
    lemma_skip_blank(s, from);
    let i = skip_blank(s, from);
    lemma_word_end(s, i);
    lemma_word_is_dark(s, i);
    let word = s.subrange(i, word_end(s, i));
    if k > 0 {
        assert(words_from(s, from)[k] == words_from(s, word_end(s, i))[k - 1]);
        lemma_words_from(s, word_end(s, i), k - 1);
    } else {
        assert(words_from(s, from)[k] == word);
    }
}

proof fn lemma_word_is_dark(s: Seq<char>, i: int)
    requires
        0 <= i <= s.len(),
    ensures
        forall|k: int| i <= k < word_end(s, i) ==> !whitespace(#[trigger] s[k]),
    decreases s.len() - i,
{
    if i < s.len() && !whitespace(s[i]) {
        lemma_word_is_dark(s, i + 1);
    }
}

/// A command starts with the word before its first blank.
pub proof fn law_first_word_is_before_the_blank(word: Seq<char>, rest: Seq<char>)
    requires
        word.len() > 0,
        forall|i: int| 0 <= i < word.len() ==> !whitespace(#[trigger] word[i]),
    ensures
        words(word + seq![' '] + rest).len() > 0,
        words(word + seq![' '] + rest)[0] == word,
{
    let s = word + seq![' '] + rest;
    assert(s[0] == word[0]);
    assert(skip_blank(s, 0) == 0);
    lemma_word_until(s, word.len() as int, 0);
    assert(s.subrange(0, word.len() as int) =~= word);
}

proof fn lemma_word_until(s: Seq<char>, n: int, i: int)
    requires
        0 <= i <= n < s.len(),
        whitespace(s[n]),
        forall|k: int| 0 <= k < n ==> !whitespace(#[trigger] s[k]),
    ensures
        word_end(s, i) == n,
    decreases n - i,
{
    if i < n {
        lemma_word_until(s, n, i + 1);
    }
}

/// Of two texts that part at a character, the one with the smaller character goes first;
/// a text goes before every longer one that begins with it.
pub proof fn law_texts_are_ordered_by_their_characters(
    common: Seq<char>,
    a: Seq<char>,
    b: Seq<char>,
)
    ensures
        a.len() > 0 && b.len() > 0 && a[0] != b[0] ==> (precedes(common + a, common + b)
            <==> a[0] < b[0]),
        b.len() > 0 ==> precedes(common, common + b),
        !precedes(common + b, common),
    decreases common.len(),
{
    if common.len() == 0 {
        assert(common + a =~= a);
        assert(common + b =~= b);
    } else {
        let rest = common.subrange(1, common.len() as int);
        law_texts_are_ordered_by_their_characters(rest, a, b);
        assert((common + a).subrange(1, (common + a).len() as int) =~= rest + a);
        assert((common + b).subrange(1, (common + b).len() as int) =~= rest + b);
    }
}

/// A text that neither begins nor ends with white space stays as it is when trimmed.
pub proof fn lemma_already_trimmed(s: Seq<char>)
    requires
        s.len() > 0,
        !whitespace(s[0]),
        !whitespace(s.last()),
    ensures
        trimmed(s) == s,
{
    assert(trimmed_start(s) =~= s);
    assert(trimmed_end(s) =~= s);
}

/// A blank before a text goes when it is trimmed.
pub proof fn lemma_blank_before(s: Seq<char>)
    requires
        s.len() > 0,
        !whitespace(s[0]),
        !whitespace(s.last()),
    ensures
        trimmed(seq![' '] + s) == s,
{
    let t = seq![' '] + s;
    assert(t[1] == s[0]);
    assert(skip_blank(t, 1) == 1);
    assert(skip_blank(t, 0) == 1);
    assert(trimmed_start(t) =~= s);
    assert(trimmed_end(s) =~= s);
}

/// A text that does not begin with white space begins the same way when trimmed.
pub proof fn lemma_first_is_kept(s: Seq<char>)
    requires
        s.len() > 0,
        !whitespace(s[0]),
    ensures
        trimmed(s).len() > 0,
        trimmed(s)[0] == s[0],
{
    assert(trimmed_start(s) =~= s);
    lemma_blank_dropped(s, s.len() as int);
    let n = drop_blank(s, s.len() as int);
    if n == 0 {
        assert(whitespace(s[0]));
    }
}

/// The digits of a number are no white space.
pub proof fn lemma_decimal_is_dark(n: nat)
    ensures
        decimal(n).len() > 0,
        forall|i: int| 0 <= i < decimal(n).len() ==> !whitespace(#[trigger] decimal(n)[i]),
    decreases n,
{
    if n >= 10 {
        lemma_decimal_is_dark(n / 10);
        let before = decimal(n / 10);
        assert forall|i: int| 0 <= i < decimal(n).len() implies !whitespace(#[trigger] decimal(n)[i]) by {
            if i < before.len() {
                assert(decimal(n)[i] == before[i]);
            }
        }
    }
}

/// Two words with a blank between them are the words of the text.
pub proof fn law_two_words(a: Seq<char>, b: Seq<char>)
    requires
        a.len() > 0,
        b.len() > 0,
        forall|i: int| 0 <= i < a.len() ==> !whitespace(#[trigger] a[i]),
        forall|i: int| 0 <= i < b.len() ==> !whitespace(#[trigger] b[i]),
    ensures
        words(a + seq![' '] + b) == seq![a, b],
{
    let s = a + seq![' '] + b;
    let n = a.len() as int;
    assert(s[0] == a[0]);
    assert(s[n] == ' ');
    assert(s[n + 1] == b[0]);
    assert(skip_blank(s, 0) == 0);
    assert forall|k: int| 0 <= k < n implies !whitespace(#[trigger] s[k]) by {
        assert(s[k] == a[k]);
    }
    lemma_word_until(s, n, 0);
    assert(skip_blank(s, n + 1) == n + 1);
    assert(skip_blank(s, n) == n + 1);
    assert forall|k: int| n + 1 <= k < s.len() implies !whitespace(#[trigger] s[k]) by {
        assert(s[k] == b[k - n - 1]);
    }
    lemma_word_to_the_end(s, n + 1);
    assert(s.subrange(0, n) =~= a);
    assert(s.subrange(n + 1, s.len() as int) =~= b);
    assert(skip_blank(s, s.len() as int) == s.len());
    assert(words_from(s, s.len() as int) =~= Seq::empty());
    assert(words_from(s, n) =~= seq![b]);
    assert(words(s) =~= seq![a, b]);
}

proof fn lemma_word_to_the_end(s: Seq<char>, i: int)
    requires
        0 <= i <= s.len(),
        forall|k: int| i <= k < s.len() ==> !whitespace(#[trigger] s[k]),
    ensures
        word_end(s, i) == s.len(),
    decreases s.len() - i,
{
    if i < s.len() {
        lemma_word_to_the_end(s, i + 1);
    }
}

/// A negative number is written behind a minus sign, and any other as its digits.
pub proof fn law_minus_goes_before_the_digits(n: nat)
    ensures
        signed_decimal(n as int) == decimal(n),
        n > 0 ==> signed_decimal(-(n as int)) == seq!['-'] + decimal(n),
{
    reveal_strlit("-");
    assert("-"@ =~= seq!['-']);
}

/// A text of ASCII characters is put into small letters one by one.
pub proof fn law_ascii_letters_become_small(s: Seq<char>, i: int)
    requires
        forall|k: int| 0 <= k < s.len() ==> (#[trigger] s[k]) < '\u{80}',
        0 <= i < s.len(),
    ensures
        lowered(s).len() == s.len(),
        'A' <= s[i] <= 'Z' ==> lowered(s)[i] as int == s[i] as int + ('a' as int - 'A' as int),
        !('A' <= s[i] <= 'Z') ==> lowered(s)[i] == s[i],
{
}

/// The pieces between occurrences of a text, with the text between them, are the whole
/// again.
pub proof fn law_parts_make_up_the_text(s: Seq<char>, sep: Seq<char>)
    requires
        sep.len() > 0,
    ensures
        split_by(s, sep).len() > 0,
        join(split_by(s, sep), sep) == s,
        !contains(s, sep) ==> split_by(s, sep) == seq![s],
        occurs_at(s, 0, sep) ==> split_by(s, sep).len() > 1 && split_by(s, sep)[0].len() == 0,
{
    lemma_parts_from(s, sep, 0);
    lemma_find_from(s, sep, 0);
    assert(s.subrange(0, s.len() as int) =~= s);
    let i = find_from(s, sep, 0);
    if occurs_at(s, 0, sep) {
        assert(i == 0);
        lemma_parts_from(s, sep, sep.len() as int);
    }
    if !contains(s, sep) && i >= 0 {
        assert(occurs_at(s, i, sep));
    }
}

proof fn lemma_parts_from(s: Seq<char>, sep: Seq<char>, from: int)
    requires
        0 <= from <= s.len(),
        sep.len() > 0,
    ensures
        split_by_from(s, sep, from).len() > 0,
        join(split_by_from(s, sep, from), sep) == s.subrange(from, s.len() as int),
    decreases s.len() - from,
{
    lemma_find_from(s, sep, from);
    let i = find_from(s, sep, from);
    if i >= 0 {
        let first = s.subrange(from, i);
        let next = i + sep.len();
        let rest = split_by_from(s, sep, next);
        lemma_parts_from(s, sep, next);
        lemma_join_first(first, rest, sep);
        assert(s.subrange(i, next) == sep);
        assert(first + sep + s.subrange(next, s.len() as int) =~= s.subrange(from,
            s.len() as int));
    }
}

} // verus!
