//! The surface that a source file offers: the functions and tables of the Lua
//! API, the methods of the IPC protocol and the commands of the command line.
//!
//! The files are scanned for a small set of textual patterns; they are not
//! parsed.

use crate::ordered;
use crate::text;
use vstd::prelude::*;

verus! {

/// The character may stand in an identifier.
pub open spec fn word_char(c: char) -> bool {
    ('a' <= c && c <= 'z') || ('A' <= c && c <= 'Z') || ('0' <= c && c <= '9') || c == '_'
}

fn is_word_char(c: char) -> (r: bool)
    ensures
        r == word_char(c),
{
    ('a' <= c && c <= 'z') || ('A' <= c && c <= 'Z') || ('0' <= c && c <= '9') || c == '_'
}

/// The first position at or after `i` that holds no character of an identifier.
pub open spec fn ident_end(s: Seq<char>, i: int) -> int
    decreases s.len() - i,
{
    if i < 0 || i >= s.len() || !word_char(s[i]) {
        i
    } else {
        ident_end(s, i + 1)
    }
}

/// The identifier at a position.
pub open spec fn ident(s: Seq<char>, start: int) -> Seq<char> {
    s.subrange(start, ident_end(s, start))
}

/// The text from a position up to the next quotation mark.
pub open spec fn quoted(s: Seq<char>, start: int) -> Seq<char> {
    s.subrange(start, text::index_from(s, '"', start))
}

fn end_of_ident(v: &Vec<char>, start: usize) -> (r: usize)
    requires
        start <= v.len(),
    ensures
        r == ident_end(v@, start as int),
        start <= r <= v.len(),
{
    let mut i: usize = start;
    while i < v.len() && is_word_char(v[i])
        invariant
            start <= i <= v.len(),
            ident_end(v@, start as int) == ident_end(v@, i as int),
        decreases v.len() - i,
    {
        i += 1;
    }
    i
}

/// The identifier at a position.
pub fn ident_at(v: &Vec<char>, start: usize) -> (r: String)
    requires
        start <= v.len(),
    ensures
        r@ == ident(v@, start as int),
{
    let end = end_of_ident(v, start);
    text::slice(v, start, end)
}

/// The text from a position up to the next quotation mark.
pub fn ident_upto_quote(v: &Vec<char>, start: usize) -> (r: String)
    requires
        start <= v.len(),
    ensures
        r@ == quoted(v@, start as int),
{
    let end = text::index_of(v, '"', start);
    text::slice(v, start, end)
}

/// An item of the surface: its kind and its name.
pub type Item = (Seq<char>, Seq<char>);

/// A name of the Lua API is that of a table.
pub open spec fn is_table(name: Seq<char>) -> bool {
    ||| name == "state"@
    ||| name == "profile"@
    ||| name == "hyprland"@
    ||| name == "widget"@
    ||| name == "machine"@
    ||| name == "fs"@
    ||| name == "json"@
    ||| name == "bluetooth"@
}

/// The name that is bound at the top level at a position.
pub open spec fn top_binding(s: Seq<char>, i: int) -> Option<Item> {
    let mark = "bread.set(\""@;
    let name = quoted(s, i + mark.len());
    if !text::occurs_at(s, i, mark) || name.len() == 0 || text::has_prefix(name, "__"@) {
        None
    } else if is_table(name) {
        Some(("lua_table"@, name))
    } else {
        Some(("lua_function"@, name))
    }
}

/// The name that is bound at a position in the table that the variable holds.
pub open spec fn nested_binding(
    s: Seq<char>,
    i: int,
    variable: Seq<char>,
    parent: Seq<char>,
) -> Option<Item> {
    let mark = variable + ".set(\""@;
    let name = quoted(s, i + mark.len());
    if !text::occurs_at(s, i, mark) || name.len() == 0 {
        None
    } else {
        Some(("lua_function"@, parent + "."@ + name))
    }
}

/// The function that Lua code defines at a position, behind the given words.
pub open spec fn lua_definition(s: Seq<char>, i: int, mark: Seq<char>) -> Option<Item> {
    let name = ident(s, i + mark.len());
    if !text::occurs_at(s, i, mark) || name.len() == 0 {
        None
    } else {
        Some(("lua_function"@, name))
    }
}

/// Lua code assigns a function to the name that ends at a position.
pub open spec fn assigned(s: Seq<char>, end: int) -> bool {
    text::occurs_at(s, text::skip_blank(s, end), "= function"@)
}

/// The function that Lua code assigns at a position at the top level.
pub open spec fn top_assignment(s: Seq<char>, i: int) -> Option<Item> {
    let from = i + "bread."@.len();
    let name = ident(s, from);
    if text::occurs_at(s, i, "bread."@) && name.len() > 0 && name != "workflow"@ && assigned(
        s,
        ident_end(s, from),
    ) {
        Some(("lua_function"@, name))
    } else {
        None
    }
}

/// The function that Lua code assigns at a position in the workflow table.
pub open spec fn workflow_assignment(s: Seq<char>, i: int) -> Option<Item> {
    let from = i + "bread.workflow."@.len();
    let name = ident(s, from);
    if text::occurs_at(s, i, "bread.workflow."@) && name.len() > 0 && assigned(
        s,
        ident_end(s, from),
    ) {
        Some(("lua_function"@, "workflow."@ + name))
    } else {
        None
    }
}

/// The set with the value added, where there is one.
pub open spec fn added<V>(s: Set<V>, x: Option<V>) -> Set<V> {
    match x {
        Some(v) => s.insert(v),
        None => s,
    }
}

/// The set with what is bound at a position in one of the known tables.
pub open spec fn with_nested(all: Set<Item>, s: Seq<char>, i: int) -> Set<Item> {
    let a = added(all, nested_binding(s, i, "state_tbl"@, "state"@));
    let b = added(a, nested_binding(s, i, "profile_tbl"@, "profile"@));
    let c = added(b, nested_binding(s, i, "hyprland_tbl"@, "hyprland"@));
    let d = added(c, nested_binding(s, i, "widget_tbl"@, "widget"@));
    let e = added(d, nested_binding(s, i, "machine_tbl"@, "machine"@));
    let f = added(e, nested_binding(s, i, "fs_tbl"@, "fs"@));
    let g = added(f, nested_binding(s, i, "json_tbl"@, "json"@));
    added(g, nested_binding(s, i, "bluetooth_tbl"@, "bluetooth"@))
}

/// The set with what Lua code defines at a position.
pub open spec fn with_definitions(all: Set<Item>, s: Seq<char>, i: int) -> Set<Item> {
    let a = added(all, lua_definition(s, i, "function _bread."@));
    let b = added(a, lua_definition(s, i, "function bread."@));
    let c = added(b, top_assignment(s, i));
    added(c, workflow_assignment(s, i))
}

/// What the first `n` positions of a source bind.
pub open spec fn bound_before(s: Seq<char>, n: int) -> Set<Item>
    decreases n,
{
    if n <= 0 {
        Set::empty()
    } else {
        let i = n - 1;
        with_definitions(with_nested(added(bound_before(s, i), top_binding(s, i)), s, i), s, i)
    }
}

/// The functions and tables of the Lua API that a source binds.
pub open spec fn lua_bindings(s: Seq<char>) -> Set<Item> {
    let all = bound_before(s, s.len() as int);
    if text::contains(s, "bread.workflow = {}"@) {
        all.insert(("lua_table"@, "workflow"@))
    } else {
        all
    }
}

fn keep(all: &mut Vec<(String, String)>, item: Option<(String, String)>)
    requires
        ordered::ascending::<(String, String)>(old(all).deep_view()),
    ensures
        ordered::ascending::<(String, String)>(final(all).deep_view()),
        final(all).deep_view().to_set() == added(old(all).deep_view().to_set(), item.deep_view()),
{
    if let Some(found) = item {
        ordered::insert(all, found);
    }
}

fn is_table_name(name: &str) -> (r: bool)
    ensures
        r == is_table(name@),
{
    text::same(name, "state") || text::same(name, "profile") || text::same(name, "hyprland")
        || text::same(name, "widget") || text::same(name, "machine") || text::same(name, "fs")
        || text::same(name, "json") || text::same(name, "bluetooth")
}

fn lua_function(name: String) -> (r: Option<(String, String)>)
    ensures
        r.deep_view() == Some(("lua_function"@, name@)),
{
    Some(("lua_function".to_owned(), name))
}

fn find_top_binding(v: &Vec<char>, i: usize) -> (r: Option<(String, String)>)
    ensures
        r.deep_view() == top_binding(v@, i as int),
{
    let mark = text::chars_of("bread.set(\"");
    if !text::occurs(v, i, &mark) {
        return None;
    }
    assert(i + mark@.len() <= v.len());
    let name = ident_upto_quote(v, i + mark.len());
    if name.as_str().is_empty() || text::starts_with(name.as_str(), "__") {
        None
    } else if is_table_name(name.as_str()) {
        Some(("lua_table".to_owned(), name))
    } else {
        lua_function(name)
    }
}

fn find_nested_binding(v: &Vec<char>, i: usize, variable: &str, parent: &str) -> (r: Option<
    (String, String),
>)
    ensures
        r.deep_view() == nested_binding(v@, i as int, variable@, parent@),
{
    let mark = text::chars_of(text::concat(variable, ".set(\"").as_str());
    if !text::occurs(v, i, &mark) {
        return None;
    }
    assert(i + mark@.len() <= v.len());
    let name = ident_upto_quote(v, i + mark.len());
    if name.as_str().is_empty() {
        None
    } else {
        lua_function(text::concat3(parent, ".", name.as_str()))
    }
}

fn find_definition(v: &Vec<char>, i: usize, words: &str) -> (r: Option<(String, String)>)
    ensures
        r.deep_view() == lua_definition(v@, i as int, words@),
{
    let mark = text::chars_of(words);
    if !text::occurs(v, i, &mark) {
        return None;
    }
    assert(i + mark@.len() <= v.len());
    let name = ident_at(v, i + mark.len());
    if name.as_str().is_empty() {
        None
    } else {
        lua_function(name)
    }
}

fn is_assigned(v: &Vec<char>, end: usize) -> (r: bool)
    requires
        end <= v.len(),
    ensures
        r == assigned(v@, end as int),
{
    let at = text::blank_end(v, end);
    text::occurs(v, at, &text::chars_of("= function"))
}

fn find_top_assignment(v: &Vec<char>, i: usize) -> (r: Option<(String, String)>)
    ensures
        r.deep_view() == top_assignment(v@, i as int),
{
    let mark = text::chars_of("bread.");
    if !text::occurs(v, i, &mark) {
        return None;
    }
    assert(i + mark@.len() <= v.len());
    let name = ident_at(v, i + mark.len());
    let end = end_of_ident(v, i + mark.len());
    if name.as_str().is_empty() || text::same(name.as_str(), "workflow") || !is_assigned(v, end) {
        None
    } else {
        lua_function(name)
    }
}

fn find_workflow_assignment(v: &Vec<char>, i: usize) -> (r: Option<(String, String)>)
    ensures
        r.deep_view() == workflow_assignment(v@, i as int),
{
    let mark = text::chars_of("bread.workflow.");
    if !text::occurs(v, i, &mark) {
        return None;
    }
    assert(i + mark@.len() <= v.len());
    let name = ident_at(v, i + mark.len());
    let end = end_of_ident(v, i + mark.len());
    if name.as_str().is_empty() || !is_assigned(v, end) {
        None
    } else {
        lua_function(text::concat("workflow.", name.as_str()))
    }
}

fn keep_nested(all: &mut Vec<(String, String)>, v: &Vec<char>, i: usize)
    requires
        ordered::ascending::<(String, String)>(old(all).deep_view()),
    ensures
        ordered::ascending::<(String, String)>(final(all).deep_view()),
        final(all).deep_view().to_set() == with_nested(
            old(all).deep_view().to_set(),
            v@,
            i as int,
        ),
{
    keep(all, find_nested_binding(v, i, "state_tbl", "state"));
    keep(all, find_nested_binding(v, i, "profile_tbl", "profile"));
    keep(all, find_nested_binding(v, i, "hyprland_tbl", "hyprland"));
    keep(all, find_nested_binding(v, i, "widget_tbl", "widget"));
    keep(all, find_nested_binding(v, i, "machine_tbl", "machine"));
    keep(all, find_nested_binding(v, i, "fs_tbl", "fs"));
    keep(all, find_nested_binding(v, i, "json_tbl", "json"));
    keep(all, find_nested_binding(v, i, "bluetooth_tbl", "bluetooth"));
}

/// The functions and tables of the Lua API that a source binds, in order and
/// each once.
pub fn extract_lua_bindings(src: &str) -> (r: Vec<(String, String)>)
    ensures
        ordered::ascending::<(String, String)>(r.deep_view()),
        r.deep_view().to_set() == lua_bindings(src@),
{
    let v = text::chars_of(src);
    let mut all: Vec<(String, String)> = Vec::new();
    let mut i: usize = 0;
    assert(all.deep_view().to_set() =~= Set::empty());
    while i < v.len()
        invariant
            i <= v.len(),
            ordered::ascending::<(String, String)>(all.deep_view()),
            all.deep_view().to_set() == bound_before(v@, i as int),
        decreases v.len() - i,
    {
        keep(&mut all, find_top_binding(&v, i));
        keep_nested(&mut all, &v, i);
        keep(&mut all, find_definition(&v, i, "function _bread."));
        keep(&mut all, find_definition(&v, i, "function bread."));
        keep(&mut all, find_top_assignment(&v, i));
        keep(&mut all, find_workflow_assignment(&v, i));
        i += 1;
    }
    if text::has(src, "bread.workflow = {}") {
        ordered::insert(&mut all, ("lua_table".to_owned(), "workflow".to_owned()));
    }
    all
}

/// How many more braces open than close between two positions.
pub open spec fn balance(s: Seq<char>, from: int, to: int) -> int
    decreases to - from,
{
    if from >= to {
        0
    } else if s[to - 1] == '{' {
        balance(s, from, to - 1) + 1
    } else if s[to - 1] == '}' {
        balance(s, from, to - 1) - 1
    } else {
        balance(s, from, to - 1)
    }
}

/// Of the lines from position `p` on, those that begin directly inside the
/// block that opens at or after `start`, up to the line that closes it.
pub open spec fn block_lines(s: Seq<char>, start: int, p: int) -> Seq<Seq<char>>
    decreases s.len() - p,
    via block_lines_shrinks
{
    if p < 0 || p > s.len() {
        Seq::empty()
    } else {
        let end = text::index_from(s, '\n', p);
        let before = balance(s, start, p);
        let here = if before == 1 {
            seq![s.subrange(p, end)]
        } else {
            Seq::empty()
        };
        if (before >= 1 && balance(s, start, end) <= 0) || end >= s.len() {
            here
        } else {
            here + block_lines(s, start, end + 1)
        }
    }
}

#[via_fn]
proof fn block_lines_shrinks(s: Seq<char>, start: int, p: int) {
    if 0 <= p <= s.len() {
        text::lemma_index_from(s, '\n', p);
    }
}

fn lines_in_block(v: &Vec<char>, start: usize) -> (r: Vec<String>)
    requires
        start <= v.len(),
    ensures
        r.deep_view() == block_lines(v@, start as int, start as int),
{
    let mut r: Vec<String> = Vec::new();
    let mut p: usize = start;
    let mut depth: i128 = 0;
    let ghost whole = block_lines(v@, start as int, start as int);
    assert(r.deep_view() + whole =~= whole);
    loop
        invariant
            start <= p <= v.len(),
            depth == balance(v@, start as int, p as int),
            -(p - start) <= depth <= p - start,
            whole == block_lines(v@, start as int, start as int),
            r.deep_view() + block_lines(v@, start as int, p as int) == whole,
        decreases v.len() - p,
    {
        let end = text::index_of(v, '\n', p);
        let before = depth;
        let mut k: usize = p;
        while k < end
            invariant
                start <= p <= k <= end <= v.len(),
                depth == balance(v@, start as int, k as int),
                -(k - start) <= depth <= k - start,
            decreases end - k,
        {
            if v[k] == '{' {
                depth += 1;
            } else if v[k] == '}' {
                depth -= 1;
            }
            k += 1;
        }
        let ghost kept = r.deep_view();
        let ghost rest = block_lines(v@, start as int, end + 1);
        if before == 1 {
            r.push(text::slice(v, p, end));
            assert(r.deep_view() =~= kept + seq![v@.subrange(p as int, end as int)]);
        } else {
            assert(r.deep_view() =~= kept + Seq::empty());
        }
        if (before >= 1 && depth <= 0) || end == v.len() {
            return r;
        }
        assert(kept + (seq![v@.subrange(p as int, end as int)] + rest) =~= kept + seq![
            v@.subrange(p as int, end as int),
        ] + rest);
        assert(kept + (Seq::<Seq<char>>::empty() + rest) =~= kept + Seq::<Seq<char>>::empty() + rest);
        p = end + 1;
    }
}

/// The method that a line of the dispatch handles.
pub open spec fn arm(line: Seq<char>) -> Option<Seq<char>> {
    let t = text::trimmed_start(line);
    let end = text::index_from(t, '"', 1);
    if t.len() > 0 && t[0] == '"' && end < t.len() && text::occurs_at(
        t,
        text::skip_blank(t, end + 1),
        "=>"@,
    ) {
        Some(t.subrange(1, end))
    } else {
        None
    }
}

/// The set with the methods that the lines handle.
pub open spec fn with_arms(all: Set<Seq<char>>, lines: Seq<Seq<char>>) -> Set<Seq<char>>
    decreases lines.len(),
{
    if lines.len() == 0 {
        all
    } else {
        added(with_arms(all, lines.drop_last()), arm(lines.last()))
    }
}

/// The methods of the protocol that a source handles.
pub open spec fn ipc_methods(s: Seq<char>) -> Set<Seq<char>> {
    let streamed = if text::contains(s, "req.method == \"events.subscribe\""@) {
        set!["events.subscribe"@]
    } else {
        Set::empty()
    };
    let start = text::find_from(s, "match req.method.as_str() {"@, 0);
    if start < 0 {
        streamed
    } else {
        with_arms(streamed, block_lines(s, start, start))
    }
}

fn find_arm(line: &str) -> (r: Option<String>)
    ensures
        r.deep_view() == arm(line@),
{
    let t = text::chars_of(text::trim_start(line).as_str());
    if t.len() == 0 || t[0] != '"' {
        return None;
    }
    let end = text::index_of(&t, '"', 1);
    if end == t.len() {
        return None;
    }
    let at = text::blank_end(&t, end + 1);
    if text::occurs(&t, at, &text::chars_of("=>")) {
        Some(text::slice(&t, 1, end))
    } else {
        None
    }
}

/// The methods of the protocol that a source handles, in order and each once.
pub fn extract_ipc_methods(src: &str) -> (r: Vec<String>)
    ensures
        ordered::ascending::<String>(r.deep_view()),
        r.deep_view().to_set() == ipc_methods(src@),
{
    let v = text::chars_of(src);
    let mut all: Vec<String> = Vec::new();
    assert(all.deep_view().to_set() =~= Set::empty());
    if text::has(src, "req.method == \"events.subscribe\"") {
        ordered::insert(&mut all, "events.subscribe".to_owned());
        assert(all.deep_view().to_set() =~= set!["events.subscribe"@]);
    }
    let ghost streamed = all.deep_view().to_set();
    let start: usize = match text::find(&v, &text::chars_of("match req.method.as_str() {"), 0) {
        Some(i) => i,
        None => {
            return all;
        },
    };
    let lines = lines_in_block(&v, start);
    let mut i: usize = 0;
    assert(lines.deep_view().take(0) =~= Seq::empty());
    while i < lines.len()
        invariant
            i <= lines.len(),
            ordered::ascending::<String>(all.deep_view()),
            all.deep_view().to_set() == with_arms(streamed, lines.deep_view().take(i as int)),
        decreases lines.len() - i,
    {
        proof {
            let t = lines.deep_view().take(i + 1);
            assert(t.drop_last() =~= lines.deep_view().take(i as int));
            assert(t.last() == lines@[i as int]@);
        }
        if let Some(name) = find_arm(lines[i].as_str()) {
            ordered::insert(&mut all, name);
        }
        i += 1;
    }
    assert(lines.deep_view().take(lines@.len() as int) =~= lines.deep_view());
    all
}

/// The character is a capital letter of the English alphabet.
pub open spec fn capital(c: char) -> bool {
    'A' <= c && c <= 'Z'
}

/// A name in capitalised words with hyphens between its words.
pub open spec fn hyphenated(s: Seq<char>) -> Seq<char>
    decreases s.len(),
{
    if s.len() == 0 {
        Seq::empty()
    } else {
        let rest = hyphenated(s.drop_last());
        if capital(s.last()) && s.len() > 1 {
            rest.push('-').push(text::small(s.last()))
        } else {
            rest.push(text::small(s.last()))
        }
    }
}

/// A name in capitalised words with hyphens between its words.
pub fn kebab(pascal: &str) -> (r: String)
    ensures
        r@ == hyphenated(pascal@),
{
    let v = text::chars_of(pascal);
    let mut r: Vec<char> = Vec::new();
    let mut i: usize = 0;
    assert(r@ =~= Seq::empty());
    assert(v@.take(0) =~= Seq::empty());
    while i < v.len()
        invariant
            i <= v.len(),
            r@ == hyphenated(v@.take(i as int)),
        decreases v.len() - i,
    {
        proof {
            assert(v@.take(i + 1).drop_last() =~= v@.take(i as int));
            assert(v@.take(i + 1).last() == v@[i as int]);
        }
        let c = v[i];
        if 'A' <= c && c <= 'Z' && i != 0 {
            r.push('-');
        }
        r.push(text::small_char(c));
        i += 1;
    }
    assert(v@.take(v@.len() as int) =~= v@);
    text::text_of(&r)
}

/// The variant that a line of an enum declares.
pub open spec fn variant(line: Seq<char>) -> Option<Seq<char>> {
    let name = ident(text::trimmed_start(line), 0);
    if name.len() > 0 && capital(name[0]) {
        Some(name)
    } else {
        None
    }
}

/// The variants that the lines of an enum declare.
pub open spec fn variants(lines: Seq<Seq<char>>) -> Seq<Seq<char>>
    decreases lines.len(),
{
    if lines.len() == 0 {
        Seq::empty()
    } else {
        match variant(lines.last()) {
            Some(name) => variants(lines.drop_last()).push(name),
            None => variants(lines.drop_last()),
        }
    }
}

/// The variants of the enum of the given name, in the order of the source.
pub open spec fn enum_variants(s: Seq<char>, name: Seq<char>) -> Seq<Seq<char>> {
    let start = text::find_from(s, "enum "@ + name + " {"@, 0);
    if start < 0 {
        Seq::empty()
    } else {
        variants(block_lines(s, start, start))
    }
}

fn find_variant(line: &str) -> (r: Option<String>)
    ensures
        r.deep_view() == variant(line@),
{
    let t = text::chars_of(text::trim_start(line).as_str());
    let end = end_of_ident(&t, 0);
    if end > 0 && 'A' <= t[0] && t[0] <= 'Z' {
        Some(text::slice(&t, 0, end))
    } else {
        None
    }
}

/// The variants of the enum of the given name, in the order of the source.
pub fn extract_enum_variants(src: &str, enum_name: &str) -> (r: Vec<String>)
    ensures
        r.deep_view() == enum_variants(src@, enum_name@),
{
    let v = text::chars_of(src);
    let mark = text::chars_of(text::concat3("enum ", enum_name, " {").as_str());
    let mut r: Vec<String> = Vec::new();
    assert(r.deep_view() =~= Seq::empty());
    let start: usize = match text::find(&v, &mark, 0) {
        Some(i) => i,
        None => {
            return r;
        },
    };
    let lines = lines_in_block(&v, start);
    let mut i: usize = 0;
    assert(lines.deep_view().take(0) =~= Seq::empty());
    while i < lines.len()
        invariant
            i <= lines.len(),
            r.deep_view() == variants(lines.deep_view().take(i as int)),
        decreases lines.len() - i,
    {
        let ghost before = r.deep_view();
        proof {
            let t = lines.deep_view().take(i + 1);
            assert(t.drop_last() =~= lines.deep_view().take(i as int));
            assert(t.last() == lines@[i as int]@);
        }
        if let Some(name) = find_variant(lines[i].as_str()) {
            let ghost view = name@;
            r.push(name);
            assert(r.deep_view() =~= before.push(view));
        }
        i += 1;
    }
    assert(lines.deep_view().take(lines@.len() as int) =~= lines.deep_view());
    r
}

/// The enum of the commands below a command, where it has such.
pub open spec fn subcommands(name: Seq<char>) -> Option<Seq<char>> {
    if name == "Modules"@ {
        Some("ModulesCommand"@)
    } else if name == "Hooks"@ {
        Some("HooksCommand"@)
    } else {
        None
    }
}

/// The set with the commands below a group.
pub open spec fn with_group(
    all: Set<Seq<char>>,
    group: Seq<char>,
    names: Seq<Seq<char>>,
) -> Set<Seq<char>>
    decreases names.len(),
{
    if names.len() == 0 {
        all
    } else {
        with_group(all, group, names.drop_last()).insert(
            hyphenated(group) + "."@ + hyphenated(names.last()),
        )
    }
}

/// The commands that the variants stand for.
pub open spec fn commands(s: Seq<char>, names: Seq<Seq<char>>) -> Set<Seq<char>>
    decreases names.len(),
{
    if names.len() == 0 {
        Set::empty()
    } else {
        let rest = commands(s, names.drop_last());
        match subcommands(names.last()) {
            Some(sub) => with_group(rest, names.last(), enum_variants(s, sub)),
            None => rest.insert(hyphenated(names.last())),
        }
    }
}

/// The commands of the command line that a source declares.
pub open spec fn cli_commands(s: Seq<char>) -> Set<Seq<char>> {
    commands(s, enum_variants(s, "Commands"@))
}

fn subcommand_enum(name: &str) -> (r: Option<&'static str>)
    ensures
        match r {
            Some(e) => subcommands(name@) == Some(e@),
            None => subcommands(name@) is None,
        },
{
    if text::same(name, "Modules") {
        Some("ModulesCommand")
    } else if text::same(name, "Hooks") {
        Some("HooksCommand")
    } else {
        None
    }
}

fn insert_group(all: &mut Vec<String>, group: &str, names: &Vec<String>)
    requires
        ordered::ascending::<String>(old(all).deep_view()),
    ensures
        ordered::ascending::<String>(final(all).deep_view()),
        final(all).deep_view().to_set() == with_group(
            old(all).deep_view().to_set(),
            group@,
            names.deep_view(),
        ),
{
    let ghost before = all.deep_view().to_set();
    let prefix = kebab(group);
    let mut i: usize = 0;
    assert(names.deep_view().take(0) =~= Seq::empty());
    while i < names.len()
        invariant
            i <= names.len(),
            prefix@ == hyphenated(group@),
            ordered::ascending::<String>(all.deep_view()),
            all.deep_view().to_set() == with_group(
                before,
                group@,
                names.deep_view().take(i as int),
            ),
        decreases names.len() - i,
    {
        proof {
            let t = names.deep_view().take(i + 1);
            assert(t.drop_last() =~= names.deep_view().take(i as int));
            assert(t.last() == names@[i as int]@);
        }
        ordered::insert(
            all,
            text::concat3(prefix.as_str(), ".", kebab(names[i].as_str()).as_str()),
        );
        i += 1;
    }
    assert(names.deep_view().take(names@.len() as int) =~= names.deep_view());
}

/// The commands of the command line that a source declares, in order and each
/// once.
pub fn extract_cli_commands(src: &str) -> (r: Vec<String>)
    ensures
        ordered::ascending::<String>(r.deep_view()),
        r.deep_view().to_set() == cli_commands(src@),
{
    let names = extract_enum_variants(src, "Commands");
    let mut all: Vec<String> = Vec::new();
    let mut i: usize = 0;
    assert(all.deep_view().to_set() =~= Set::empty());
    assert(names.deep_view().take(0) =~= Seq::empty());
    while i < names.len()
        invariant
            i <= names.len(),
            ordered::ascending::<String>(all.deep_view()),
            all.deep_view().to_set() == commands(src@, names.deep_view().take(i as int)),
        decreases names.len() - i,
    {
        proof {
            let t = names.deep_view().take(i + 1);
            assert(t.drop_last() =~= names.deep_view().take(i as int));
            assert(t.last() == names@[i as int]@);
        }
        let name = names[i].as_str();
        match subcommand_enum(name) {
            Some(sub) => insert_group(&mut all, name, &extract_enum_variants(src, sub)),
            None => ordered::insert(&mut all, kebab(name)),
        }
        i += 1;
    }
    assert(names.deep_view().take(names@.len() as int) =~= names.deep_view());
    all
}

/// What is found at a place of a source stays found: what follows only adds to it.
proof fn lemma_bindings_stay(s: Seq<char>, n: int, m: int, item: Item)
    requires
        0 <= n <= m,
        bound_before(s, n).contains(item),
    ensures
        bound_before(s, m).contains(item),
    decreases m - n,
{
    if n < m {
        lemma_bindings_stay(s, n, m - 1, item);
    }
}

/// A binding that a source sets on the table of the API is found: under its name, as a
/// table for the tables of the API, and as a function otherwise. Names that begin with two
/// underscores are not part of the API.
pub proof fn law_bindings_are_found(s: Seq<char>, i: int, name: Seq<char>)
    requires
        text::occurs_at(s, i, "bread.set(\""@),
        quoted(s, i + "bread.set(\""@.len()) == name,
        name.len() > 0,
        !text::has_prefix(name, "__"@),
    ensures
        lua_bindings(s).contains(("lua_table"@, name))
            || lua_bindings(s).contains(("lua_function"@, name)),
        name == "state"@ || name == "profile"@ || name == "hyprland"@ || name == "widget"@
            || name == "machine"@ || name == "fs"@ || name == "json"@ || name == "bluetooth"@ ==>
            lua_bindings(s).contains(("lua_table"@, name)),
        !(name == "state"@ || name == "profile"@ || name == "hyprland"@ || name == "widget"@
            || name == "machine"@ || name == "fs"@ || name == "json"@ || name == "bluetooth"@) ==>
            lua_bindings(s).contains(("lua_function"@, name)),
{
    reveal_strlit("bread.set(\"");
    let item = if is_table(name) {
        ("lua_table"@, name)
    } else {
        ("lua_function"@, name)
    };
    assert(top_binding(s, i) == Some(item));
    assert(bound_before(s, i + 1).contains(item));
    lemma_bindings_stay(s, i + 1, s.len() as int, item);
}

/// A binding that a source sets on one of the inner tables of the API is found as a
/// function of that table.
pub proof fn law_inner_bindings_are_found(s: Seq<char>, i: int, name: Seq<char>)
    requires
        name.len() > 0,
    ensures
        text::occurs_at(s, i, "state_tbl.set(\""@)
            && quoted(s, i + "state_tbl.set(\""@.len()) == name ==>
            lua_bindings(s).contains(("lua_function"@, "state."@ + name)),
        text::occurs_at(s, i, "profile_tbl.set(\""@)
            && quoted(s, i + "profile_tbl.set(\""@.len()) == name ==>
            lua_bindings(s).contains(("lua_function"@, "profile."@ + name)),
        text::occurs_at(s, i, "hyprland_tbl.set(\""@)
            && quoted(s, i + "hyprland_tbl.set(\""@.len()) == name ==>
            lua_bindings(s).contains(("lua_function"@, "hyprland."@ + name)),
        text::occurs_at(s, i, "widget_tbl.set(\""@)
            && quoted(s, i + "widget_tbl.set(\""@.len()) == name ==>
            lua_bindings(s).contains(("lua_function"@, "widget."@ + name)),
        text::occurs_at(s, i, "machine_tbl.set(\""@)
            && quoted(s, i + "machine_tbl.set(\""@.len()) == name ==>
            lua_bindings(s).contains(("lua_function"@, "machine."@ + name)),
        text::occurs_at(s, i, "fs_tbl.set(\""@) && quoted(s, i + "fs_tbl.set(\""@.len()) == name ==>
            lua_bindings(s).contains(("lua_function"@, "fs."@ + name)),
        text::occurs_at(s, i, "json_tbl.set(\""@)
            && quoted(s, i + "json_tbl.set(\""@.len()) == name ==>
            lua_bindings(s).contains(("lua_function"@, "json."@ + name)),
        text::occurs_at(s, i, "bluetooth_tbl.set(\""@)
            && quoted(s, i + "bluetooth_tbl.set(\""@.len()) == name ==>
            lua_bindings(s).contains(("lua_function"@, "bluetooth."@ + name)),
{
    reveal_strlit(".set(\"");
    reveal_strlit(".");
    reveal_strlit("state");
    reveal_strlit("state.");
    reveal_strlit("state_tbl");
    reveal_strlit("state_tbl.set(\"");
    assert("state_tbl.set(\""@ =~= "state_tbl"@ + ".set(\""@);
    assert("state."@ =~= "state"@ + "."@);
    if text::occurs_at(s, i, "state_tbl.set(\""@)
        && quoted(s, i + "state_tbl.set(\""@.len()) == name {
        let item = ("lua_function"@, "state."@ + name);
        assert(nested_binding(s, i, "state_tbl"@, "state"@) == Some(item));
        assert(bound_before(s, i + 1).contains(item));
        lemma_bindings_stay(s, i + 1, s.len() as int, item);
    }
    reveal_strlit("profile");
    reveal_strlit("profile.");
    reveal_strlit("profile_tbl");
    reveal_strlit("profile_tbl.set(\"");
    assert("profile_tbl.set(\""@ =~= "profile_tbl"@ + ".set(\""@);
    assert("profile."@ =~= "profile"@ + "."@);
    if text::occurs_at(s, i, "profile_tbl.set(\""@)
        && quoted(s, i + "profile_tbl.set(\""@.len()) == name {
        let item = ("lua_function"@, "profile."@ + name);
        assert(nested_binding(s, i, "profile_tbl"@, "profile"@) == Some(item));
        assert(bound_before(s, i + 1).contains(item));
        lemma_bindings_stay(s, i + 1, s.len() as int, item);
    }
    reveal_strlit("hyprland");
    reveal_strlit("hyprland.");
    reveal_strlit("hyprland_tbl");
    reveal_strlit("hyprland_tbl.set(\"");
    assert("hyprland_tbl.set(\""@ =~= "hyprland_tbl"@ + ".set(\""@);
    assert("hyprland."@ =~= "hyprland"@ + "."@);
    if text::occurs_at(s, i, "hyprland_tbl.set(\""@)
        && quoted(s, i + "hyprland_tbl.set(\""@.len()) == name {
        let item = ("lua_function"@, "hyprland."@ + name);
        assert(nested_binding(s, i, "hyprland_tbl"@, "hyprland"@) == Some(item));
        assert(bound_before(s, i + 1).contains(item));
        lemma_bindings_stay(s, i + 1, s.len() as int, item);
    }
    reveal_strlit("widget");
    reveal_strlit("widget.");
    reveal_strlit("widget_tbl");
    reveal_strlit("widget_tbl.set(\"");
    assert("widget_tbl.set(\""@ =~= "widget_tbl"@ + ".set(\""@);
    assert("widget."@ =~= "widget"@ + "."@);
    if text::occurs_at(s, i, "widget_tbl.set(\""@)
        && quoted(s, i + "widget_tbl.set(\""@.len()) == name {
        let item = ("lua_function"@, "widget."@ + name);
        assert(nested_binding(s, i, "widget_tbl"@, "widget"@) == Some(item));
        assert(bound_before(s, i + 1).contains(item));
        lemma_bindings_stay(s, i + 1, s.len() as int, item);
    }
    reveal_strlit("machine");
    reveal_strlit("machine.");
    reveal_strlit("machine_tbl");
    reveal_strlit("machine_tbl.set(\"");
    assert("machine_tbl.set(\""@ =~= "machine_tbl"@ + ".set(\""@);
    assert("machine."@ =~= "machine"@ + "."@);
    if text::occurs_at(s, i, "machine_tbl.set(\""@)
        && quoted(s, i + "machine_tbl.set(\""@.len()) == name {
        let item = ("lua_function"@, "machine."@ + name);
        assert(nested_binding(s, i, "machine_tbl"@, "machine"@) == Some(item));
        assert(bound_before(s, i + 1).contains(item));
        lemma_bindings_stay(s, i + 1, s.len() as int, item);
    }
    reveal_strlit("fs");
    reveal_strlit("fs.");
    reveal_strlit("fs_tbl");
    reveal_strlit("fs_tbl.set(\"");
    assert("fs_tbl.set(\""@ =~= "fs_tbl"@ + ".set(\""@);
    assert("fs."@ =~= "fs"@ + "."@);
    if text::occurs_at(s, i, "fs_tbl.set(\""@) && quoted(s, i + "fs_tbl.set(\""@.len()) == name {
        let item = ("lua_function"@, "fs."@ + name);
        assert(nested_binding(s, i, "fs_tbl"@, "fs"@) == Some(item));
        assert(bound_before(s, i + 1).contains(item));
        lemma_bindings_stay(s, i + 1, s.len() as int, item);
    }
    reveal_strlit("json");
    reveal_strlit("json.");
    reveal_strlit("json_tbl");
    reveal_strlit("json_tbl.set(\"");
    assert("json_tbl.set(\""@ =~= "json_tbl"@ + ".set(\""@);
    assert("json."@ =~= "json"@ + "."@);
    if text::occurs_at(s, i, "json_tbl.set(\""@)
        && quoted(s, i + "json_tbl.set(\""@.len()) == name {
        let item = ("lua_function"@, "json."@ + name);
        assert(nested_binding(s, i, "json_tbl"@, "json"@) == Some(item));
        assert(bound_before(s, i + 1).contains(item));
        lemma_bindings_stay(s, i + 1, s.len() as int, item);
    }
    reveal_strlit("bluetooth");
    reveal_strlit("bluetooth.");
    reveal_strlit("bluetooth_tbl");
    reveal_strlit("bluetooth_tbl.set(\"");
    assert("bluetooth_tbl.set(\""@ =~= "bluetooth_tbl"@ + ".set(\""@);
    assert("bluetooth."@ =~= "bluetooth"@ + "."@);
    if text::occurs_at(s, i, "bluetooth_tbl.set(\""@)
        && quoted(s, i + "bluetooth_tbl.set(\""@.len()) == name {
        let item = ("lua_function"@, "bluetooth."@ + name);
        assert(nested_binding(s, i, "bluetooth_tbl"@, "bluetooth"@) == Some(item));
        assert(bound_before(s, i + 1).contains(item));
        lemma_bindings_stay(s, i + 1, s.len() as int, item);
    }
}

/// A function that a source defines on the table of the API, in either form, is found, and
/// so is one of its workflows.
pub proof fn law_definitions_are_found(s: Seq<char>, i: int, name: Seq<char>)
    requires
        name.len() > 0,
    ensures
        text::occurs_at(s, i, "function bread."@)
            && ident(s, i + "function bread."@.len()) == name ==>
            lua_bindings(s).contains(("lua_function"@, name)),
        text::occurs_at(s, i, "function _bread."@)
            && ident(s, i + "function _bread."@.len()) == name ==>
            lua_bindings(s).contains(("lua_function"@, name)),
        text::occurs_at(s, i, "bread."@) && ident(s, i + "bread."@.len()) == name
            && name != "workflow"@
            && assigned(s, ident_end(s, i + "bread."@.len())) ==>
                lua_bindings(s).contains(("lua_function"@, name)),
        text::occurs_at(s, i, "bread.workflow."@)
            && ident(s, i + "bread.workflow."@.len()) == name
            && assigned(s, ident_end(s, i + "bread.workflow."@.len())) ==>
                lua_bindings(s).contains(("lua_function"@, "workflow."@ + name)),
        text::occurs_at(s, i, "bread.workflow = {}"@) ==>
            lua_bindings(s).contains(("lua_table"@, "workflow"@)),
{
    reveal_strlit("function bread.");
    reveal_strlit("function _bread.");
    reveal_strlit("bread.");
    reveal_strlit("bread.workflow.");
    let plain = ("lua_function"@, name);
    let flow = ("lua_function"@, "workflow."@ + name);
    if lua_definition(s, i, "function bread."@) == Some(plain)
        || lua_definition(s, i, "function _bread."@) == Some(plain)
        || top_assignment(s, i) == Some(plain) {
        assert(bound_before(s, i + 1).contains(plain));
        if 0 <= i < s.len() {
            lemma_bindings_stay(s, i + 1, s.len() as int, plain);
        }
    }
    if workflow_assignment(s, i) == Some(flow) {
        assert(bound_before(s, i + 1).contains(flow));
        if 0 <= i < s.len() {
            lemma_bindings_stay(s, i + 1, s.len() as int, flow);
        }
    }
}

/// Nothing but tables and functions is found in a source of the API.
pub proof fn law_bindings_are_tables_or_functions(s: Seq<char>, item: Item)
    requires
        lua_bindings(s).contains(item),
    ensures
        item.0 == "lua_table"@ || item.0 == "lua_function"@,
{
    if bound_before(s, s.len() as int).contains(item) {
        lemma_bindings_have_kinds(s, s.len() as int, item);
    }
}

proof fn lemma_bindings_have_kinds(s: Seq<char>, n: int, item: Item)
    requires
        bound_before(s, n).contains(item),
    ensures
        item.0 == "lua_table"@ || item.0 == "lua_function"@,
    decreases n,
{
    if n > 0 && bound_before(s, n - 1).contains(item) {
        lemma_bindings_have_kinds(s, n - 1, item);
    }
}

/// A command goes by its name in small letters, with a hyphen before each capital but the
/// first.
pub proof fn law_commands_are_hyphenated(a: Seq<char>, c: char)
    ensures
        hyphenated(Seq::empty()).len() == 0,
        a.len() > 0 && 'A' <= c <= 'Z' ==>
            hyphenated(a.push(c)) == hyphenated(a) + seq!['-', (c as int + 32) as char],
        a.len() == 0 && 'A' <= c <= 'Z' ==>
            hyphenated(a.push(c)) == seq![(c as int + 32) as char],
        !('A' <= c <= 'Z') ==> hyphenated(a.push(c)) == hyphenated(a).push(c),
{
    assert(a.push(c).drop_last() =~= a);
    assert(hyphenated(a).push('-').push(text::small(c)) =~= hyphenated(a) + seq!['-',
        text::small(c)]);
    if a.len() == 0 {
        assert(a =~= Seq::empty());
        assert(hyphenated(a) =~= Seq::empty());
        assert(hyphenated(a).push(text::small(c)) =~= seq![text::small(c)]);
    }
}

/// Each variant of the enum of commands is a command, except the two groups: their
/// commands are those of the enum of the group, behind the name of the group and a dot.
pub proof fn law_groups_hold_their_commands(
    s: Seq<char>,
    names: Seq<Seq<char>>,
    i: int,
    subs: Seq<Seq<char>>,
    k: int,
)
    requires
        0 <= i < names.len(),
    ensures
        names[i] != "Modules"@ && names[i] != "Hooks"@ ==>
            commands(s, names).contains(hyphenated(names[i])),
        names[i] == "Modules"@ && subs == enum_variants(s, "ModulesCommand"@)
            && 0 <= k < subs.len() ==>
            commands(s, names).contains(hyphenated("Modules"@) + "."@ + hyphenated(subs[k])),
        names[i] == "Hooks"@ && subs == enum_variants(s, "HooksCommand"@) && 0 <= k < subs.len() ==>
            commands(s, names).contains(hyphenated("Hooks"@) + "."@ + hyphenated(subs[k])),
    decreases names.len(),
{
    reveal_strlit("Modules");
    reveal_strlit("Hooks");
    assert("Modules"@.len() == 7 && "Hooks"@.len() == 5);
    let rest = names.drop_last();
    if i < rest.len() {
        law_groups_hold_their_commands(s, rest, i, subs, k);
        let before = commands(s, rest);
        match subcommands(names.last()) {
            Some(sub) => {
                lemma_group_adds(before, names.last(), enum_variants(s, sub));
            },
            None => {},
        }
    } else {
        match subcommands(names.last()) {
            Some(sub) => {
                if 0 <= k < enum_variants(s, sub).len() {
                    lemma_group_holds(commands(s, rest), names.last(), enum_variants(s, sub), k);
                }
            },
            None => {},
        }
    }
}

proof fn lemma_group_adds(all: Set<Seq<char>>, group: Seq<char>, names: Seq<Seq<char>>)
    ensures
        all.subset_of(with_group(all, group, names)),
    decreases names.len(),
{
    if names.len() > 0 {
        lemma_group_adds(all, group, names.drop_last());
    }
}

proof fn lemma_group_holds(all: Set<Seq<char>>, group: Seq<char>, names: Seq<Seq<char>>, k: int)
    requires
        0 <= k < names.len(),
    ensures
        with_group(all, group, names).contains(hyphenated(group) + "."@ + hyphenated(names[k])),
    decreases names.len(),
{
    if k < names.len() - 1 {
        lemma_group_holds(all, group, names.drop_last(), k);
    }
}

/// An arm of the method table is a quoted text and an arrow; its text is a method.
pub proof fn law_arms_name_methods(name: Seq<char>, rest: Seq<char>)
    requires
        !name.contains('"'),
    ensures
        arm("\""@ + name + "\" =>"@ + rest) == Some(name),
{
    reveal_strlit("\"");
    reveal_strlit("\" =>");
    reveal_strlit("=>");
    let line = "\""@ + name + "\" =>"@ + rest;
    assert(line[0] == '"');
    assert(!text::whitespace('"'));
    assert(text::skip_blank(line, 0) == 0);
    assert(text::trimmed_start(line) =~= line);
    text::lemma_index_from(line, '"', 1);
    let end = text::index_from(line, '"', 1);
    let at = name.len() as int + 1;
    assert(line[at] == '"');
    if end < at {
        assert(line[end] == name[end - 1]);
        assert(name.contains(name[end - 1]));
    }
    assert(end == at);
    assert(line[at + 1] == ' ');
    assert(line[at + 2] == '=');
    assert(text::whitespace(' '));
    assert(!text::whitespace('='));
    assert(text::skip_blank(line, at + 2) == at + 2);
    assert(text::skip_blank(line, at + 1) == at + 2);
    assert(line.subrange(at + 2, at + 4) =~= "=>"@);
    assert(line.subrange(1, at) =~= name);
}

/// The method that turns a connection into a stream of events stands apart from the table
/// of methods, and is found where the source asks for it.
pub proof fn law_streaming_is_a_method(s: Seq<char>, i: int)
    ensures
        text::occurs_at(s, i, "req.method == \"events.subscribe\""@) ==>
            ipc_methods(s).contains("events.subscribe"@),
{
    if text::occurs_at(s, i, "req.method == \"events.subscribe\""@) {
        let start = text::find_from(s, "match req.method.as_str() {"@, 0);
        if start >= 0 {
            lemma_arms_add(set!["events.subscribe"@], block_lines(s, start, start));
        }
    }
}

proof fn lemma_arms_add(all: Set<Seq<char>>, lines: Seq<Seq<char>>)
    ensures
        all.subset_of(with_arms(all, lines)),
    decreases lines.len(),
{
    if lines.len() > 0 {
        lemma_arms_add(all, lines.drop_last());
    }
}

/// The arms of the table of methods are methods.
pub proof fn law_every_arm_is_a_method(s: Seq<char>, start: int, k: int, name: Seq<char>)
    requires
        start == text::find_from(s, "match req.method.as_str() {"@, 0),
        start >= 0,
        0 <= k < block_lines(s, start, start).len(),
        arm(block_lines(s, start, start)[k]) == Some(name),
    ensures
        ipc_methods(s).contains(name),
{
    let streamed = if text::contains(s, "req.method == \"events.subscribe\""@) {
        set!["events.subscribe"@]
    } else {
        Set::empty()
    };
    lemma_arm_is_held(streamed, block_lines(s, start, start), k);
}

proof fn lemma_arm_is_held(all: Set<Seq<char>>, lines: Seq<Seq<char>>, k: int)
    requires
        0 <= k < lines.len(),
        arm(lines[k]) is Some,
    ensures
        with_arms(all, lines).contains(arm(lines[k])->0),
    decreases lines.len(),
{
    if k < lines.len() - 1 {
        lemma_arm_is_held(all, lines.drop_last(), k);
    }
}

} // verus!
