//! Matching of event names against patterns.
//!
//! `*` stands for any characters of one segment of a name, `?` for one such
//! character and `**` for anything; segments are separated by dots.

use crate::text;
use vstd::prelude::*;
use vstd::slice::slice_subrange;

verus! {

/// The byte of `*`.
pub const STAR: u8 = 42;

/// The byte of `?`.
pub const ANY: u8 = 63;

/// The byte of `.`, which separates the segments of a name.
pub const DOT: u8 = 46;

/// `pattern` starts with two stars.
pub open spec fn double_star(pattern: Seq<u8>) -> bool {
    pattern.len() >= 2 && pattern[0] == STAR && pattern[1] == STAR
}

/// What is left of `text` after its first `k` bytes.
pub open spec fn tail(text: Seq<u8>, k: int) -> Seq<u8> {
    text.subrange(k, text.len() as int)
}

/// `text` matches `pattern`. Two stars match nothing or one byte and what they
/// match in turn; one star and `?` pass over no dot.
pub open spec fn glob(pattern: Seq<u8>, text: Seq<u8>) -> bool
    decreases pattern.len() + text.len(),
{
    if pattern.len() == 0 {
        text.len() == 0
    } else if double_star(pattern) {
        glob(tail(pattern, 2), text) || (text.len() > 0 && glob(pattern, tail(text, 1)))
    } else if pattern[0] == STAR {
        glob(tail(pattern, 1), text) || (text.len() > 0 && text[0] != DOT && glob(
            pattern,
            tail(text, 1),
        ))
    } else if pattern[0] == ANY {
        text.len() > 0 && text[0] != DOT && glob(tail(pattern, 1), tail(text, 1))
    } else {
        text.len() > 0 && text[0] == pattern[0] && glob(tail(pattern, 1), tail(text, 1))
    }
}

/// The event name `name` matches `pattern`. A pattern that ends in `.*`
/// matches everything below what precedes the star; one that ends in `.**`
/// matches what precedes these three characters and everything below it.
pub open spec fn pattern_matches(pattern: Seq<char>, name: Seq<char>) -> bool {
    if text::has_suffix(pattern, ".*"@) {
        text::has_prefix(name, pattern.subrange(0, pattern.len() - 1))
    } else if text::has_suffix(pattern, ".**"@) {
        let prefix = pattern.subrange(0, pattern.len() - 3);
        name == prefix || text::has_prefix(name, prefix + "."@)
    } else {
        glob(vstd::utf8::encode_utf8(pattern), vstd::utf8::encode_utf8(name))
    }
}

/// Whether `text` matches `pattern`.
pub fn matches_glob_filter(pattern: &[u8], text: &[u8]) -> (r: bool)
    ensures
        r == glob(pattern@, text@),
    decreases pattern@.len(),
{
    if pattern.len() == 0 {
        return text.len() == 0;
    }
    if pattern[0] == STAR {
        let double = pattern.len() >= 2 && pattern[1] == STAR;
        let rest = slice_subrange(
            pattern,
            if double {
                2
            } else {
                1
            },
            pattern.len(),
        );
        let mut offset: usize = 0;
        assert(tail(text@, 0) =~= text@);
        loop
            invariant
                pattern@.len() > 0,
                pattern@[0] == STAR,
                double == double_star(pattern@),
                rest@ == tail(
                    pattern@,
                    if double {
                        2
                    } else {
                        1
                    },
                ),
                offset <= text.len(),
                glob(pattern@, text@) == glob(pattern@, tail(text@, offset as int)),
            decreases text.len() - offset,
        {
            if matches_glob_filter(rest, slice_subrange(text, offset, text.len())) {
                return true;
            }
            if offset == text.len() || (!double && text[offset] == DOT) {
                return false;
            }
            assert(tail(tail(text@, offset as int), 1) =~= tail(text@, offset + 1));
            offset += 1;
        }
    }
    if text.len() == 0 {
        return false;
    }
    if pattern[0] == ANY {
        if text[0] == DOT {
            return false;
        }
    } else if text[0] != pattern[0] {
        return false;
    }
    matches_glob_filter(
        slice_subrange(pattern, 1, pattern.len()),
        slice_subrange(text, 1, text.len()),
    )
}

/// Whether the event name matches the pattern.
pub fn matches_pattern(pattern: &str, event_name: &str) -> (r: bool)
    ensures
        r == pattern_matches(pattern@, event_name@),
{
    proof {
        reveal_strlit(".*");
        reveal_strlit(".**");
    }
    if text::ends_with(pattern, ".*") {
        let prefix = pattern.substring_char(0, pattern.unicode_len() - 1);
        return text::starts_with(event_name, prefix);
    }
    if let Some(prefix) = text::strip_suffix(pattern, ".**") {
        let below = text::concat(prefix, ".");
        return text::same(event_name, prefix) || text::starts_with(event_name, below.as_str());
    }
    matches_glob_filter(pattern.as_bytes(), event_name.as_bytes())
}

/// Whether the event name passes the filter. A filter selects what a
/// subscription with the same pattern would receive.
pub fn matches_filter(event_name: &str, pattern: &str) -> (r: bool)
    ensures
        r == pattern_matches(pattern@, event_name@),
{
    matches_pattern(pattern, event_name)
}

/// The number of dots in a byte text.
pub open spec fn dots(s: Seq<u8>) -> nat
    decreases s.len(),
{
    if s.len() == 0 {
        0
    } else if s[0] == DOT {
        dots(tail(s, 1)) + 1
    } else {
        dots(tail(s, 1))
    }
}

/// A pattern without two stars in a row matches only names with exactly as
/// many segments as it has itself: no wildcard crosses a dot.
pub proof fn law_wildcards_stay_in_segment(pattern: Seq<u8>, name: Seq<u8>)
    requires
        forall|i: int|
            0 <= i < pattern.len() - 1 ==> !(#[trigger] pattern[i] == STAR && pattern[i + 1]
                == STAR),
        glob(pattern, name),
    ensures
        dots(pattern) == dots(name),
    decreases pattern.len() + name.len(),
{
    if pattern.len() > 0 {
        let rest = tail(pattern, 1);
        assert forall|i: int| 0 <= i < rest.len() - 1 implies !(#[trigger] rest[i] == STAR
            && rest[i + 1] == STAR) by {
            assert(rest[i] == pattern[i + 1]);
            assert(rest[i + 1] == pattern[i + 1 + 1]);
        }
        if double_star(pattern) {
            assert(pattern[0] == STAR && pattern[0int + 1] == STAR);
        }
        if pattern[0] == STAR {
            if glob(rest, name) {
                law_wildcards_stay_in_segment(rest, name);
            } else {
                law_wildcards_stay_in_segment(pattern, tail(name, 1));
            }
        } else {
            law_wildcards_stay_in_segment(rest, tail(name, 1));
        }
    }
}

/// A pattern without wildcards matches exactly the name that it spells.
pub proof fn law_literal_pattern(pattern: Seq<u8>, name: Seq<u8>)
    requires
        forall|i: int| 0 <= i < pattern.len() ==> pattern[i] != STAR && pattern[i] != ANY,
    ensures
        glob(pattern, name) <==> pattern == name,
    decreases pattern.len(),
{
    if pattern.len() == 0 {
        assert(name.len() == 0 ==> pattern =~= name);
    } else if name.len() > 0 {
        let rest = tail(pattern, 1);
        law_literal_pattern(rest, tail(name, 1));
        assert(pattern =~= seq![pattern[0]] + rest);
        assert(name =~= seq![name[0]] + tail(name, 1));
    }
}

/// Two stars match every name.
pub proof fn law_double_star_matches_all(name: Seq<u8>)
    ensures
        glob(seq![STAR, STAR], name),
    decreases name.len(),
{
    if name.len() == 0 {
        assert(glob(tail(seq![STAR, STAR], 2), name));
    } else {
        law_double_star_matches_all(tail(name, 1));
    }
}

/// A pattern that ends in `.**` matches what precedes these characters, and
/// everything below it.
pub proof fn law_subtree_pattern(prefix: Seq<char>, rest: Seq<char>)
    ensures
        pattern_matches(prefix + ".**"@, prefix),
        pattern_matches(prefix + ".**"@, prefix + "."@ + rest),
{
    reveal_strlit(".*");
    reveal_strlit(".**");
    reveal_strlit(".");
    let pattern = prefix + ".**"@;
    assert(pattern.subrange(pattern.len() - 2, pattern.len() as int)[0] == '*');
    assert(pattern.subrange(pattern.len() - 3, pattern.len() as int) =~= ".**"@);
    assert(pattern.subrange(0, pattern.len() - 3) =~= prefix);
    let name = prefix + "."@ + rest;
    assert(name.subrange(0, prefix.len() as int + 1) =~= prefix + "."@);
}

proof fn lemma_glob_itself(p: Seq<u8>)
    ensures
        glob(p, p),
    decreases p.len(),
{
    if p.len() > 0 {
        if double_star(p) {
            lemma_glob_itself(tail(p, 2));
            assert(glob(p, tail(p, 2)));
            assert(tail(tail(p, 1), 1) =~= tail(p, 2));
            assert(glob(p, tail(p, 1)));
        } else {
            lemma_glob_itself(tail(p, 1));
            if p[0] == STAR {
                assert(glob(p, tail(p, 1)));
            }
        }
    }
}

/// Read as an event name, every pattern matches itself. So a name that is used
/// as a pattern matches that name, whatever characters it holds.
pub proof fn law_pattern_matches_itself(pattern: Seq<char>)
    ensures
        pattern_matches(pattern, pattern),
{
    reveal_strlit(".*");
    reveal_strlit(".**");
    reveal_strlit(".");
    if text::has_suffix(pattern, ".**"@) {
        let prefix = pattern.subrange(0, pattern.len() - 3);
        assert(pattern.subrange(pattern.len() - 3, pattern.len() as int)[0] == '.');
        assert(pattern.subrange(0, prefix.len() as int + 1) =~= prefix + "."@);
    }
    lemma_glob_itself(vstd::utf8::encode_utf8(pattern));
}

/// `?` stands for one character that is no dot, and `*` for any number of them.
pub proof fn law_wildcards_stand_for_characters(name: Seq<u8>)
    ensures
        glob(seq![ANY], name) <==> name.len() == 1 && name[0] != DOT,
        glob(seq![STAR], name) <==> forall|i: int| 0 <= i < name.len() ==>
            #[trigger] name[i] != DOT,
    decreases name.len(),
{
    let star = seq![STAR];
    let any = seq![ANY];
    assert(tail(star, 1) =~= Seq::empty());
    assert(tail(any, 1) =~= Seq::empty());
    assert(!double_star(star) && !double_star(any));
    assert(glob(tail(star, 1), name) <==> name.len() == 0);
    if name.len() > 0 {
        let rest = tail(name, 1);
        law_wildcards_stand_for_characters(rest);
        assert(glob(tail(any, 1), rest) <==> rest.len() == 0);
        assert(glob(star, name) <==> name[0] != DOT && glob(star, rest));
        assert forall|i: int| 0 <= i < rest.len() implies #[trigger] rest[i] == name[i + 1] by {}
        if name[0] != DOT && (forall|i: int| 0 <= i < rest.len() ==> #[trigger] rest[i] != DOT) {
            assert forall|i: int| 0 <= i < name.len() implies #[trigger] name[i] != DOT by {
                if i > 0 {
                    assert(rest[i - 1] != DOT);
                }
            }
        }
        if forall|i: int| 0 <= i < name.len() ==> #[trigger] name[i] != DOT {
            assert(name[0] != DOT);
            assert forall|i: int| 0 <= i < rest.len() implies #[trigger] rest[i] != DOT by {
                assert(name[i + 1] != DOT);
            }
        }
    }
}

/// A pattern that ends in `.*` takes every name that begins with what stands before the
/// star, and no other; one that ends in `.**` takes the name before it too.
pub proof fn law_final_stars_take_what_begins_so(prefix: Seq<char>, name: Seq<char>)
    ensures
        pattern_matches(prefix + ".*"@, name) <==> text::has_prefix(name, prefix + "."@),
        pattern_matches(prefix + ".**"@, name) <==> name == prefix
            || text::has_prefix(name, prefix + "."@),
{
    reveal_strlit(".*");
    reveal_strlit(".**");
    reveal_strlit(".");
    let one = prefix + ".*"@;
    assert(one.subrange(one.len() - 2, one.len() as int) =~= ".*"@);
    assert(one.subrange(0, one.len() - 1) =~= prefix + "."@);
    let two = prefix + ".**"@;
    assert(two.subrange(two.len() - 2, two.len() as int)[0] == '*');
    assert(two.subrange(two.len() - 3, two.len() as int) =~= ".**"@);
    assert(two.subrange(0, two.len() - 3) =~= prefix);
}

} // verus!
