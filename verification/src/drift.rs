//! Drift between what the sources offer, the registry of the API and the
//! documentation.

use crate::json::{self, Json, JsonValue};
use crate::ordered;
use crate::paths;
use crate::surface;
use crate::text;
use crate::wire;
use vstd::prelude::*;

verus! {

/// What the program prints when it does not know what to do.
pub fn usage() -> (r: &'static str)
    ensures
        r@ == "usage: cargo run -p xtask -- <command>\n\nAvailable commands:\n  check-docs   verify api-schema.toml matches breadd's Lua/IPC surface and Documentation.md"@,
{
    "usage: cargo run -p xtask -- <command>\n\nAvailable commands:\n  check-docs   verify api-schema.toml matches breadd's Lua/IPC surface and Documentation.md"
}

/// The root of the repository: the directory that holds the one of the program.
pub fn repo_root(manifest_dir: &str) -> (r: Option<String>)
    ensures
        r.deep_view() == paths::parent(manifest_dir@),
{
    paths::parent_of(manifest_dir)
}

/// An entry of the registry.
#[derive(Debug)]
pub struct SchemaEntry {
    pub name: String,
    pub kind: String,
    pub since: String,
}

/// What an entry of the registry stands for.
#[verifier::ext_equal]
pub struct EntryView {
    pub name: Seq<char>,
    pub kind: Seq<char>,
    pub since: Seq<char>,
}

impl DeepView for SchemaEntry {
    type V = EntryView;

    open spec fn deep_view(&self) -> EntryView {
        EntryView { name: self.name@, kind: self.kind@, since: self.since@ }
    }
}

impl EntryView {
    /// The kind and the name of the entry.
    pub open spec fn item(self) -> surface::Item {
        (self.kind, self.name)
    }
}

impl SchemaEntry {
    fn item(&self) -> (r: (String, String))
        ensures
            r.deep_view() == self.deep_view().item(),
    {
        (self.kind.clone(), self.name.clone())
    }
}

/// Why a text is no registry.
#[derive(Debug)]
pub enum SchemaError {
    /// It is no TOML document.
    Syntax(String),
    /// It is a document, but not one of entries, as the deserializer says.
    Shape(String),
}

/// The text that a value holds.
pub open spec fn text_in(v: Option<Json>) -> Option<Seq<char>> {
    match v {
        Some(Json::Text(s)) => Some(s),
        _ => None,
    }
}

/// The value at a place of a list.
pub open spec fn item_at(items: Seq<Json>, i: int) -> Option<Json> {
    if 0 <= i < items.len() {
        Some(items[i])
    } else {
        None
    }
}

/// The entry with the given parts: name and kind are texts, and since when it
/// is there is a text or left out.
pub open spec fn entry_from(
    name: Option<Json>,
    kind: Option<Json>,
    since: Option<Json>,
) -> Option<EntryView> {
    match (text_in(name), text_in(kind)) {
        (Some(name), Some(kind)) => match since {
            None => Some(EntryView { name, kind, since: Seq::empty() }),
            Some(Json::Text(since)) => Some(EntryView { name, kind, since }),
            _ => None,
        },
        _ => None,
    }
}

/// The entry that a value describes: its parts are given by name, or in order.
pub open spec fn entry_of(v: Json) -> Option<EntryView> {
    match v {
        Json::Object(m) => entry_from(v.get("name"@), v.get("kind"@), v.get("since"@)),
        Json::Array(items) => entry_from(item_at(items, 0), item_at(items, 1), item_at(items, 2)),
        _ => None,
    }
}

/// The entries that the values describe, where each describes one.
pub open spec fn entries_of(items: Seq<Json>) -> Option<Seq<EntryView>>
    decreases items.len(),
{
    if items.len() == 0 {
        Some(Seq::empty())
    } else {
        match (entries_of(items.drop_last()), entry_of(items.last())) {
            (Some(rest), Some(e)) => Some(rest.push(e)),
            _ => None,
        }
    }
}

/// The entries of a registry. One without entries is empty.
pub open spec fn registry(v: Json) -> Option<Seq<EntryView>> {
    match v.get("entry"@) {
        None => Some(Seq::empty()),
        Some(Json::Array(items)) => entries_of(items),
        _ => None,
    }
}

fn make_entry(
    name: Option<&JsonValue>,
    kind: Option<&JsonValue>,
    since: Option<&JsonValue>,
) -> (r: Option<SchemaEntry>)
    ensures
        r.deep_view() == entry_from(
            (match name {
                Some(v) => Some(v@),
                None => None,
            }),
            (match kind {
                Some(v) => Some(v@),
                None => None,
            }),
            (match since {
                Some(v) => Some(v@),
                None => None,
            }),
        ),
{
    match (name, kind) {
        (Some(JsonValue::Text(name)), Some(JsonValue::Text(kind))) => match since {
            None => {
                let since = String::new();
                assert(since@ =~= Seq::empty());
                Some(SchemaEntry { name: name.clone(), kind: kind.clone(), since })
            },
            Some(JsonValue::Text(since)) => Some(
                SchemaEntry { name: name.clone(), kind: kind.clone(), since: since.clone() },
            ),
            _ => None,
        },
        _ => None,
    }
}

fn value_at(items: &Vec<JsonValue>, i: usize) -> (r: Option<&JsonValue>)
    ensures
        match r {
            Some(v) => item_at(json::item_models(items@), i as int) == Some(v@),
            None => item_at(json::item_models(items@), i as int) is None,
        },
{
    proof {
        json::lemma_item_models(items@);
    }
    if i < items.len() {
        Some(&items[i])
    } else {
        None
    }
}

fn read_entry(v: &JsonValue) -> (r: Option<SchemaEntry>)
    ensures
        r.deep_view() == entry_of(v@),
{
    match v {
        JsonValue::Object(_) => make_entry(v.get("name"), v.get("kind"), v.get("since")),
        JsonValue::Array(items) => make_entry(
            value_at(items, 0),
            value_at(items, 1),
            value_at(items, 2),
        ),
        _ => None,
    }
}

proof fn lemma_entries_of(items: Seq<Json>, k: int)
    requires
        0 <= k < items.len(),
        entry_of(items[k]) is None,
    ensures
        entries_of(items) is None,
    decreases items.len(),
{
    if k < items.len() - 1 {
        lemma_entries_of(items.drop_last(), k);
    }
}

/// The entries of a registry, where the value is one.
pub fn read_schema(v: &JsonValue) -> (r: Option<Vec<SchemaEntry>>)
    ensures
        r.deep_view() == registry(v@),
{
    let mut r: Vec<SchemaEntry> = Vec::new();
    assert(r.deep_view() =~= Seq::empty());
    match v.get("entry") {
        None => Some(r),
        Some(JsonValue::Array(items)) => {
            let ghost all = json::item_models(items@);
            proof {
                json::lemma_item_models(items@);
                assert(all.take(0) =~= Seq::empty());
            }
            let mut i: usize = 0;
            while i < items.len()
                invariant
                    i <= items.len(),
                    items.len() == all.len(),
                    all == json::item_models(items@),
                    v@.get("entry"@) == Some(Json::Array(all)),
                    entries_of(all.take(i as int)) == Some(r.deep_view()),
                decreases items.len() - i,
            {
                let ghost before = r.deep_view();
                proof {
                    json::lemma_item_models(items@);
                    assert(all.take(i + 1).drop_last() =~= all.take(i as int));
                    assert(all.take(i + 1).last() == items@[i as int]@);
                }
                match read_entry(&items[i]) {
                    Some(e) => {
                        let ghost view = e.deep_view();
                        r.push(e);
                        assert(r.deep_view() =~= before.push(view));
                    },
                    None => {
                        proof {
                            lemma_entries_of(all, i as int);
                        }
                        return None;
                    },
                }
                i += 1;
            }
            assert(all.take(all.len() as int) =~= all);
            Some(r)
        },
        Some(_) => None,
    }
}

/// The kinds of an entry.
pub open spec fn valid_kind(kind: Seq<char>) -> bool {
    ||| kind == "lua_function"@
    ||| kind == "lua_table"@
    ||| kind == "ipc_method"@
    ||| kind == "cli_command"@
}

fn is_valid_kind(kind: &str) -> (r: bool)
    ensures
        r == valid_kind(kind@),
{
    text::same(kind, "lua_function") || text::same(kind, "lua_table") || text::same(
        kind,
        "ipc_method",
    ) || text::same(kind, "cli_command")
}

/// The part of a document from a heading up to the next one of the second
/// level.
pub open spec fn section_of(doc: Seq<char>, heading: Seq<char>) -> Seq<char> {
    let start = text::find_from(doc, heading, 0);
    if start < 0 {
        Seq::empty()
    } else {
        let rest = doc.subrange(start, doc.len() as int);
        let end = text::find_from(rest, "\n## "@, 3);
        if end < 0 {
            rest
        } else {
            rest.subrange(0, end)
        }
    }
}

/// The part of a document from a heading up to the next one of the second
/// level. The heading begins with three characters of ASCII.
pub fn section(doc: &str, heading: &str) -> (r: String)
    requires
        heading@.len() >= 3,
        heading@[0] < '\u{80}' && heading@[1] < '\u{80}' && heading@[2] < '\u{80}',
    ensures
        r@ == section_of(doc@, heading@),
{
    let v = text::chars_of(doc);
    match text::find(&v, &text::chars_of(heading), 0) {
        None => {
            let r = String::new();
            assert(r@ =~= Seq::empty());
            r
        },
        Some(start) => {
            let rest = text::slice(&v, start, v.len());
            let w = text::chars_of(rest.as_str());
            match text::find(&w, &text::chars_of("\n## "), 3) {
                None => rest,
                Some(end) => text::slice(&w, 0, end),
            }
        },
    }
}

/// The part of the documentation on the Lua API.
pub fn lua_api_section(doc: &str) -> (r: String)
    ensures
        r@ == section_of(doc@, "## Dictionary: Lua API"@),
{
    proof {
        reveal_strlit("## Dictionary: Lua API");
    }
    section(doc, "## Dictionary: Lua API")
}

/// The part of the documentation on the protocol.
pub fn ipc_section(doc: &str) -> (r: String)
    ensures
        r@ == section_of(doc@, "## Dictionary: IPC protocol"@),
{
    proof {
        reveal_strlit("## Dictionary: IPC protocol");
    }
    section(doc, "## Dictionary: IPC protocol")
}

/// The part of the readme file on the command line.
pub fn readme_cli_section(readme: &str) -> (r: String)
    ensures
        r@ == section_of(readme@, "## CLI reference"@),
{
    proof {
        reveal_strlit("## CLI reference");
    }
    section(readme, "## CLI reference")
}

/// The entry is of no known kind.
pub open spec fn unknown_kind() -> spec_fn(EntryView) -> bool {
    |e: EntryView| !valid_kind(e.kind)
}

/// The entry does not say since when it is there.
pub open spec fn undated() -> spec_fn(EntryView) -> bool {
    |e: EntryView| valid_kind(e.kind) && text::trimmed(e.since).len() == 0
}

/// The entry is missing from the documentation.
pub open spec fn missing_in_docs(lua: Seq<char>, ipc: Seq<char>) -> spec_fn(EntryView) -> bool {
    |e: EntryView|
        valid_kind(e.kind) && e.kind != "cli_command"@ && !(if e.kind == "ipc_method"@ {
            text::contains(ipc, "`"@ + e.name + "`"@)
        } else {
            text::contains(lua, "bread."@ + e.name)
        })
}

/// The command is missing from the readme file.
pub open spec fn missing_in_readme(cli: Seq<char>) -> spec_fn(EntryView) -> bool {
    |e: EntryView|
        e.kind == "cli_command"@ && !text::contains(cli, "bread "@ + text::replaced(e.name, '.', ' '))
}

/// The entries that the condition holds of.
pub open spec fn picked(entries: Seq<EntryView>, f: spec_fn(EntryView) -> bool) -> Seq<surface::Item>
    decreases entries.len(),
{
    if entries.len() == 0 {
        Seq::empty()
    } else if f(entries.last()) {
        picked(entries.drop_last(), f).push(entries.last().item())
    } else {
        picked(entries.drop_last(), f)
    }
}

/// What the registry holds, as far as its kinds are known.
pub open spec fn registered(entries: Seq<EntryView>) -> Set<surface::Item>
    decreases entries.len(),
{
    if entries.len() == 0 {
        Set::empty()
    } else if valid_kind(entries.last().kind) {
        registered(entries.drop_last()).insert(entries.last().item())
    } else {
        registered(entries.drop_last())
    }
}

/// The names as items of one kind.
pub open spec fn of_kind(kind: Seq<char>, names: Set<Seq<char>>) -> Set<surface::Item> {
    Set::new(|p: surface::Item| p.0 == kind && names.contains(p.1))
}

/// All that the sources offer.
pub open spec fn offered(lua: Seq<char>, ipc: Seq<char>, cli: Seq<char>) -> Set<surface::Item> {
    surface::lua_bindings(lua).union(of_kind("ipc_method"@, surface::ipc_methods(ipc))).union(
        of_kind("cli_command"@, surface::cli_commands(cli)),
    )
}

/// What was found to differ. Each list is in order.
#[derive(Debug)]
pub struct CheckReport {
    /// Offered, but not in the registry.
    pub missing_from_schema: Vec<(String, String)>,
    /// In the registry, but not offered.
    pub stale_in_schema: Vec<(String, String)>,
    /// In the registry, but not in the documentation.
    pub undocumented: Vec<(String, String)>,
    /// In the registry, but not in the readme file.
    pub missing_from_readme: Vec<(String, String)>,
    /// Entries of an unknown kind.
    pub bad_kind: Vec<(String, String)>,
    /// Entries that do not say since when they are there.
    pub missing_since: Vec<(String, String)>,
}

/// What a report stands for.
#[verifier::ext_equal]
pub struct ReportView {
    pub missing_from_schema: Seq<surface::Item>,
    pub stale_in_schema: Seq<surface::Item>,
    pub undocumented: Seq<surface::Item>,
    pub missing_from_readme: Seq<surface::Item>,
    pub bad_kind: Seq<surface::Item>,
    pub missing_since: Seq<surface::Item>,
}

impl DeepView for CheckReport {
    type V = ReportView;

    open spec fn deep_view(&self) -> ReportView {
        ReportView {
            missing_from_schema: self.missing_from_schema.deep_view(),
            stale_in_schema: self.stale_in_schema.deep_view(),
            undocumented: self.undocumented.deep_view(),
            missing_from_readme: self.missing_from_readme.deep_view(),
            bad_kind: self.bad_kind.deep_view(),
            missing_since: self.missing_since.deep_view(),
        }
    }
}

/// The list holds the items of the set, in order and each once.
pub open spec fn lists(s: Seq<surface::Item>, items: Set<surface::Item>) -> bool {
    ordered::ascending::<(String, String)>(s) && s.to_set() == items
}

/// The list holds the given items, in order and each as often.
pub open spec fn arranges(s: Seq<surface::Item>, items: Seq<surface::Item>) -> bool {
    ordered::sorted::<(String, String)>(s) && s.to_multiset() == items.to_multiset()
}

/// The report on what the sources offer, the entries of the registry and the
/// parts of the documentation.
pub open spec fn reports(
    r: ReportView,
    items: Set<surface::Item>,
    entries: Seq<EntryView>,
    doc: Seq<char>,
    readme: Seq<char>,
) -> bool {
    let lua = section_of(doc, "## Dictionary: Lua API"@);
    let ipc = section_of(doc, "## Dictionary: IPC protocol"@);
    let cli = section_of(readme, "## CLI reference"@);
    &&& lists(r.missing_from_schema, items.difference(registered(entries)))
    &&& lists(r.stale_in_schema, registered(entries).difference(items))
    &&& arranges(r.undocumented, picked(entries, missing_in_docs(lua, ipc)))
    &&& arranges(r.missing_from_readme, picked(entries, missing_in_readme(cli)))
    &&& arranges(r.bad_kind, picked(entries, unknown_kind()))
    &&& arranges(r.missing_since, picked(entries, undated()))
}

impl ReportView {
    /// Nothing was found to differ.
    pub open spec fn clean(self) -> bool {
        &&& self.missing_from_schema.len() == 0
        &&& self.stale_in_schema.len() == 0
        &&& self.undocumented.len() == 0
        &&& self.missing_from_readme.len() == 0
        &&& self.bad_kind.len() == 0
        &&& self.missing_since.len() == 0
    }

    /// The text of the report, line by line.
    pub open spec fn lines(self) -> Seq<Seq<char>> {
        if self.clean() {
            seq![
                "check-docs: OK — api-schema.toml matches breadd's Lua/IPC/CLI surface, Documentation.md, and README.md."@,
            ]
        } else {
            kinds_part(self.bad_kind) + part(
                "Added but undocumented in api-schema.toml (present in code, missing from schema):"@,
                self.missing_from_schema,
            ) + part(
                "Stale in api-schema.toml (no longer found in code):"@,
                self.stale_in_schema,
            ) + part(
                "In api-schema.toml but missing from Documentation.md (no `#### bread.<name>` heading for a lua_function/lua_table, or no `<name>` row in the IPC Methods table):"@,
                self.undocumented,
            ) + part(
                "In api-schema.toml but missing from README.md's \"CLI reference\" section (no `bread <name>` line):"@,
                self.missing_from_readme,
            ) + part("Schema entries with an empty `since`:"@, self.missing_since) + seq![
                "check-docs: FAILED — see above."@,
            ]
        }
    }
}

/// The line on an item.
pub open spec fn item_line() -> spec_fn(surface::Item) -> Seq<char> {
    |p: surface::Item| "  - ["@ + p.0 + "] "@ + p.1
}

/// The line on an entry of an unknown kind.
pub open spec fn kind_line() -> spec_fn(surface::Item) -> Seq<char> {
    |p: surface::Item| "  - "@ + p.1 + " (kind = \""@ + p.0 + "\")"@
}

/// The lines on a list of items.
pub open spec fn part(heading: Seq<char>, items: Seq<surface::Item>) -> Seq<Seq<char>> {
    if items.len() == 0 {
        Seq::empty()
    } else {
        seq![heading] + items.map_values(item_line()) + seq![Seq::empty()]
    }
}

/// The lines on the entries of an unknown kind.
pub open spec fn kinds_part(items: Seq<surface::Item>) -> Seq<Seq<char>> {
    if items.len() == 0 {
        Seq::empty()
    } else {
        seq![
            "Schema entries with an unrecognized `kind` (expected one of [\"lua_function\", \"lua_table\", \"ipc_method\", \"cli_command\"]):"@,
        ] + items.map_values(kind_line()) + seq![Seq::empty()]
    }
}

fn add_line(lines: &mut Vec<String>, line: String)
    ensures
        final(lines).deep_view() == old(lines).deep_view().push(line@),
{
    let ghost before = lines.deep_view();
    let ghost view = line@;
    lines.push(line);
    assert(lines.deep_view() =~= before.push(view));
}

fn add_part(lines: &mut Vec<String>, heading: &str, items: &Vec<(String, String)>)
    ensures
        final(lines).deep_view() == old(lines).deep_view() + part(heading@, items.deep_view()),
{
    let ghost before = lines.deep_view();
    assert(items.deep_view().len() == items@.len());
    if items.len() == 0 {
        assert(before + Seq::empty() =~= before);
        return;
    }
    add_line(lines, heading.to_owned());
    let mut i: usize = 0;
    let ghost all = items.deep_view().map_values(item_line());
    assert(lines.deep_view() =~= before + (seq![heading@] + all.take(0)));
    while i < items.len()
        invariant
            i <= items.len(),
            items.len() == all.len(),
            all == items.deep_view().map_values(item_line()),
            lines.deep_view() =~= before + (seq![heading@] + all.take(i as int)),
        decreases items.len() - i,
    {
        let head = text::concat3("  - [", items[i].0.as_str(), "] ");
        let line = text::concat(head.as_str(), items[i].1.as_str());
        assert(items.deep_view()[i as int] == items@[i as int].deep_view());
        assert(line@ == all[i as int]);
        add_line(lines, line);
        assert(all.take(i + 1) =~= all.take(i as int).push(all[i as int]));
        i += 1;
    }
    let empty = String::new();
    assert(empty@ =~= Seq::empty());
    add_line(lines, empty);
    assert(all.take(all.len() as int) =~= all);
    assert(lines.deep_view() =~= before + part(heading@, items.deep_view()));
}

fn add_kinds_part(lines: &mut Vec<String>, items: &Vec<(String, String)>)
    ensures
        final(lines).deep_view() == old(lines).deep_view() + kinds_part(items.deep_view()),
{
    let ghost before = lines.deep_view();
    assert(items.deep_view().len() == items@.len());
    if items.len() == 0 {
        assert(before + Seq::empty() =~= before);
        return;
    }
    let heading =
        "Schema entries with an unrecognized `kind` (expected one of [\"lua_function\", \"lua_table\", \"ipc_method\", \"cli_command\"]):";
    add_line(lines, heading.to_owned());
    let mut i: usize = 0;
    let ghost all = items.deep_view().map_values(kind_line());
    assert(lines.deep_view() =~= before + (seq![heading@] + all.take(0)));
    while i < items.len()
        invariant
            i <= items.len(),
            items.len() == all.len(),
            all == items.deep_view().map_values(kind_line()),
            lines.deep_view() =~= before + (seq![heading@] + all.take(i as int)),
        decreases items.len() - i,
    {
        let head = text::concat3("  - ", items[i].1.as_str(), " (kind = \"");
        let line = text::concat3(head.as_str(), items[i].0.as_str(), "\")");
        assert(items.deep_view()[i as int] == items@[i as int].deep_view());
        assert(line@ == all[i as int]);
        add_line(lines, line);
        assert(all.take(i + 1) =~= all.take(i as int).push(all[i as int]));
        i += 1;
    }
    let empty = String::new();
    assert(empty@ =~= Seq::empty());
    add_line(lines, empty);
    assert(all.take(all.len() as int) =~= all);
    assert(lines.deep_view() =~= before + kinds_part(items.deep_view()));
}

impl CheckReport {
    /// Nothing was found to differ.
    pub fn is_clean(&self) -> (r: bool)
        ensures
            r == self.deep_view().clean(),
    {
        self.missing_from_schema.len() == 0 && self.stale_in_schema.len() == 0
            && self.undocumented.len() == 0 && self.missing_from_readme.len() == 0
            && self.bad_kind.len() == 0 && self.missing_since.len() == 0
    }

    /// The text of the report, line by line.
    pub fn lines(&self) -> (r: Vec<String>)
        ensures
            r.deep_view() == self.deep_view().lines(),
    {
        let mut lines: Vec<String> = Vec::new();
        assert(lines.deep_view() =~= Seq::empty());
        if self.is_clean() {
            add_line(
                &mut lines,
                "check-docs: OK — api-schema.toml matches breadd's Lua/IPC/CLI surface, Documentation.md, and README.md.".to_owned(),
            );
            assert(lines.deep_view() =~= self.deep_view().lines());
            return lines;
        }
        add_kinds_part(&mut lines, &self.bad_kind);
        assert(lines.deep_view() =~= kinds_part(self.bad_kind.deep_view()));
        add_part(
            &mut lines,
            "Added but undocumented in api-schema.toml (present in code, missing from schema):",
            &self.missing_from_schema,
        );
        add_part(
            &mut lines,
            "Stale in api-schema.toml (no longer found in code):",
            &self.stale_in_schema,
        );
        add_part(
            &mut lines,
            "In api-schema.toml but missing from Documentation.md (no `#### bread.<name>` heading for a lua_function/lua_table, or no `<name>` row in the IPC Methods table):",
            &self.undocumented,
        );
        add_part(
            &mut lines,
            "In api-schema.toml but missing from README.md's \"CLI reference\" section (no `bread <name>` line):",
            &self.missing_from_readme,
        );
        add_part(&mut lines, "Schema entries with an empty `since`:", &self.missing_since);
        add_line(&mut lines, "check-docs: FAILED — see above.".to_owned());
        assert(lines.deep_view() =~= self.deep_view().lines());
        lines
    }
}

fn insert_names(all: &mut Vec<(String, String)>, kind: &str, names: &Vec<String>)
    requires
        ordered::ascending::<(String, String)>(old(all).deep_view()),
    ensures
        ordered::ascending::<(String, String)>(final(all).deep_view()),
        final(all).deep_view().to_set() == old(all).deep_view().to_set().union(
            of_kind(kind@, names.deep_view().to_set()),
        ),
{
    let ghost before = all.deep_view().to_set();
    let mut i: usize = 0;
    assert(all.deep_view().to_set() =~= before.union(
        of_kind(kind@, names.deep_view().take(0).to_set()),
    ));
    while i < names.len()
        invariant
            i <= names.len(),
            ordered::ascending::<(String, String)>(all.deep_view()),
            all.deep_view().to_set() =~= before.union(
                of_kind(kind@, names.deep_view().take(i as int).to_set()),
            ),
        decreases names.len() - i,
    {
        let ghost so_far = names.deep_view().take(i as int);
        let ghost more = names.deep_view().take(i + 1);
        proof {
            assert(more =~= so_far.push(names@[i as int]@));
            assert forall|x: Seq<char>|
                more.contains(x) == (so_far.contains(x) || x == names@[i as int]@) by {
                if so_far.contains(x) {
                    let k = choose|k: int| 0 <= k < so_far.len() && so_far[k] == x;
                    assert(more[k] == x);
                }
                assert(more[i as int] == names@[i as int]@);
            }
        }
        ordered::insert(all, (kind.to_owned(), names[i].clone()));
        i += 1;
    }
    assert(names.deep_view().take(names@.len() as int) =~= names.deep_view());
}

fn collect_offered(lua_src: &str, ipc_src: &str, cli_src: &str) -> (r: Vec<(String, String)>)
    ensures
        lists(r.deep_view(), offered(lua_src@, ipc_src@, cli_src@)),
{
    let mut all = surface::extract_lua_bindings(lua_src);
    insert_names(&mut all, "ipc_method", &surface::extract_ipc_methods(ipc_src));
    insert_names(&mut all, "cli_command", &surface::extract_cli_commands(cli_src));
    all
}

fn add_item(list: &mut Vec<(String, String)>, e: &SchemaEntry)
    ensures
        final(list).deep_view() == old(list).deep_view().push(e.deep_view().item()),
{
    let ghost before = list.deep_view();
    list.push(e.item());
    assert(list.deep_view() =~= before.push(e.deep_view().item()));
}

fn is_documented(e: &SchemaEntry, lua: &str, ipc: &str) -> (r: bool)
    requires
        valid_kind(e.deep_view().kind),
        e.deep_view().kind != "cli_command"@,
    ensures
        r != missing_in_docs(lua@, ipc@)(e.deep_view()),
{
    if text::same(e.kind.as_str(), "ipc_method") {
        text::has(ipc, text::concat3("`", e.name.as_str(), "`").as_str())
    } else {
        text::has(lua, text::concat("bread.", e.name.as_str()).as_str())
    }
}

/// The report on what the sources offer, the entries of the registry and the
/// documentation.
pub fn compare(
    lua_src: &str,
    ipc_src: &str,
    cli_src: &str,
    entries: &Vec<SchemaEntry>,
    doc_md: &str,
    readme_md: &str,
) -> (r: CheckReport)
    ensures
        reports(
            r.deep_view(),
            offered(lua_src@, ipc_src@, cli_src@),
            entries.deep_view(),
            doc_md@,
            readme_md@,
        ),
{
    let lua = lua_api_section(doc_md);
    let ipc = ipc_section(doc_md);
    let cli = readme_cli_section(readme_md);
    let mut known: Vec<(String, String)> = Vec::new();
    let mut undocumented: Vec<(String, String)> = Vec::new();
    let mut missing_from_readme: Vec<(String, String)> = Vec::new();
    let mut bad_kind: Vec<(String, String)> = Vec::new();
    let mut missing_since: Vec<(String, String)> = Vec::new();
    let mut i: usize = 0;
    assert(entries.deep_view().take(0) =~= Seq::empty());
    assert(known.deep_view() =~= Seq::empty());
    assert(known.deep_view().to_set() =~= Set::empty());
    while i < entries.len()
        invariant
            i <= entries.len(),
            ordered::ascending::<(String, String)>(known.deep_view()),
            known.deep_view().to_set() == registered(entries.deep_view().take(i as int)),
            undocumented.deep_view() == picked(
                entries.deep_view().take(i as int),
                missing_in_docs(lua@, ipc@),
            ),
            missing_from_readme.deep_view() == picked(
                entries.deep_view().take(i as int),
                missing_in_readme(cli@),
            ),
            bad_kind.deep_view() == picked(entries.deep_view().take(i as int), unknown_kind()),
            missing_since.deep_view() == picked(entries.deep_view().take(i as int), undated()),
        decreases entries.len() - i,
    {
        let e = &entries[i];
        proof {
            let t = entries.deep_view().take(i + 1);
            assert(t.drop_last() =~= entries.deep_view().take(i as int));
            assert(t.last() == e.deep_view());
        }
        if !is_valid_kind(e.kind.as_str()) {
            add_item(&mut bad_kind, e);
        } else {
            if text::trim(e.since.as_str()).as_str().is_empty() {
                add_item(&mut missing_since, e);
            }
            ordered::insert(&mut known, e.item());
            if text::same(e.kind.as_str(), "cli_command") {
                let name = text::replace_char(e.name.as_str(), '.', ' ');
                if !text::has(cli.as_str(), text::concat("bread ", name.as_str()).as_str()) {
                    add_item(&mut missing_from_readme, e);
                }
            } else if !is_documented(e, lua.as_str(), ipc.as_str()) {
                add_item(&mut undocumented, e);
            }
        }
        i += 1;
    }
    assert(entries.deep_view().take(entries@.len() as int) =~= entries.deep_view());
    let code = collect_offered(lua_src, ipc_src, cli_src);
    CheckReport {
        missing_from_schema: ordered::difference(&code, &known),
        stale_in_schema: ordered::difference(&known, &code),
        undocumented: ordered::sort(undocumented),
        missing_from_readme: ordered::sort(missing_from_readme),
        bad_kind: ordered::sort(bad_kind),
        missing_since: ordered::sort(missing_since),
    }
}

/// The report on the sources, the text of the registry and the documentation,
/// or why the registry cannot be read. `misfit` is what the deserializer says of a
/// document that is no registry; of any other it is not looked at.
pub fn check(
    lua_src: &str,
    ipc_src: &str,
    cli_src: &str,
    schema_toml: &str,
    doc_md: &str,
    readme_md: &str,
    misfit: &str,
) -> (r: Result<CheckReport, SchemaError>)
    ensures
        match wire::toml_parsed(schema_toml@) {
            Err(e) => r matches Err(SchemaError::Syntax(s)) && s@ == e,
            Ok(v) => match registry(v) {
                None => r matches Err(SchemaError::Shape(s)) && s@ == misfit@,
                Some(entries) => r matches Ok(report) && reports(
                    report.deep_view(),
                    offered(lua_src@, ipc_src@, cli_src@),
                    entries,
                    doc_md@,
                    readme_md@,
                ),
            },
        },
{
    match wire::parse_toml(schema_toml) {
        Err(e) => Err(SchemaError::Syntax(e)),
        Ok(v) => match read_schema(&v) {
            None => Err(SchemaError::Shape(misfit.to_owned())),
            Some(entries) => Ok(
                compare(lua_src, ipc_src, cli_src, &entries, doc_md, readme_md),
            ),
        },
    }
}

proof fn lemma_none_picked(entries: Seq<EntryView>, f: spec_fn(EntryView) -> bool)
    ensures
        picked(entries, f).len() == 0 <==> forall|k: int|
            0 <= k < entries.len() ==> !f(#[trigger] entries[k]),
    decreases entries.len(),
{
    if entries.len() > 0 {
        let rest = entries.drop_last();
        lemma_none_picked(rest, f);
        assert forall|k: int| 0 <= k < rest.len() implies rest[k] == #[trigger] entries[k] by {}
        if picked(entries, f).len() == 0 {
            assert forall|k: int| 0 <= k < entries.len() implies !f(#[trigger] entries[k]) by {
                if k < rest.len() {
                    assert(!f(rest[k]));
                }
            }
        } else if forall|k: int| 0 <= k < entries.len() ==> !f(#[trigger] entries[k]) {
            assert forall|k: int| 0 <= k < rest.len() implies !f(#[trigger] rest[k]) by {
                assert(!f(entries[k]));
            }
            assert(!f(entries[entries.len() - 1]));
        }
    }
}

proof fn lemma_empty_list(s: Seq<surface::Item>, items: Set<surface::Item>)
    requires
        lists(s, items),
    ensures
        s.len() == 0 <==> items == Set::<surface::Item>::empty(),
{
    if s.len() == 0 {
        assert(s.to_set() =~= Set::<surface::Item>::empty());
    } else {
        assert(s.contains(s[0]));
        assert(s.to_set().contains(s[0]));
    }
}

proof fn lemma_empty_arranged(s: Seq<surface::Item>, items: Seq<surface::Item>)
    requires
        arranges(s, items),
    ensures
        s.len() == items.len(),
{
    s.to_multiset_ensures();
    items.to_multiset_ensures();
}

/// A report is clean exactly where the registry holds what the sources offer
/// and no entry is of an unknown kind, undated, or missing from the
/// documentation or the readme file.
pub proof fn law_clean_means_no_drift(
    r: ReportView,
    items: Set<surface::Item>,
    entries: Seq<EntryView>,
    doc: Seq<char>,
    readme: Seq<char>,
)
    requires
        reports(r, items, entries, doc, readme),
    ensures
        r.clean() <==> {
            let lua = section_of(doc, "## Dictionary: Lua API"@);
            let ipc = section_of(doc, "## Dictionary: IPC protocol"@);
            let cli = section_of(readme, "## CLI reference"@);
            &&& items == registered(entries)
            &&& forall|k: int|
                0 <= k < entries.len() ==> {
                    let e = #[trigger] entries[k];
                    &&& !unknown_kind()(e)
                    &&& !undated()(e)
                    &&& !missing_in_docs(lua, ipc)(e)
                    &&& !missing_in_readme(cli)(e)
                }
        },
{
    let lua = section_of(doc, "## Dictionary: Lua API"@);
    let ipc = section_of(doc, "## Dictionary: IPC protocol"@);
    let cli = section_of(readme, "## CLI reference"@);
    let known = registered(entries);
    lemma_empty_list(r.missing_from_schema, items.difference(known));
    lemma_empty_list(r.stale_in_schema, known.difference(items));
    lemma_empty_arranged(r.undocumented, picked(entries, missing_in_docs(lua, ipc)));
    lemma_empty_arranged(r.missing_from_readme, picked(entries, missing_in_readme(cli)));
    lemma_empty_arranged(r.bad_kind, picked(entries, unknown_kind()));
    lemma_empty_arranged(r.missing_since, picked(entries, undated()));
    lemma_none_picked(entries, missing_in_docs(lua, ipc));
    lemma_none_picked(entries, missing_in_readme(cli));
    lemma_none_picked(entries, unknown_kind());
    lemma_none_picked(entries, undated());
    if items.difference(known) == Set::<surface::Item>::empty() && known.difference(items) == Set::<
        surface::Item,
    >::empty() {
        assert forall|p: surface::Item| items.contains(p) == known.contains(p) by {
            assert(!items.difference(known).contains(p));
            assert(!known.difference(items).contains(p));
        }
        assert(items =~= known);
    }
    if items == known {
        assert(items.difference(known) =~= Set::<surface::Item>::empty());
        assert(known.difference(items) =~= Set::<surface::Item>::empty());
    }
}

/// What the sources gain, and the registry lacks, is reported, and so is what
/// the registry holds, and the sources have lost.
pub proof fn law_renamed_item_is_reported(
    r: ReportView,
    items: Set<surface::Item>,
    entries: Seq<EntryView>,
    doc: Seq<char>,
    readme: Seq<char>,
    lost: surface::Item,
    gained: surface::Item,
)
    requires
        reports(r, items, entries, doc, readme),
        items.contains(gained) && !registered(entries).contains(gained),
        !items.contains(lost) && registered(entries).contains(lost),
    ensures
        r.missing_from_schema.contains(gained),
        r.stale_in_schema.contains(lost),
        !r.clean(),
{
    assert(r.missing_from_schema.to_set().contains(gained));
    assert(r.stale_in_schema.to_set().contains(lost));
}

/// An entry is read by its keys, or by its places where it is written as a list. It need
/// not say since when it is there.
pub proof fn law_entries_are_read_by_their_keys(v: Json, name: Seq<char>, kind: Seq<char>,
    since: Seq<char>)
    ensures
        v.get("name"@) == Some(Json::Text(name)) && v.get("kind"@) == Some(Json::Text(kind))
            && v.get("since"@) == Some(Json::Text(since))
            ==> entry_of(v) == Some(EntryView { name, kind, since }),
        v.get("name"@) == Some(Json::Text(name)) && v.get("kind"@) == Some(Json::Text(kind))
            && v.get("since"@) is None
            ==> entry_of(v) == Some(EntryView { name, kind, since: Seq::empty() }),
        v is Object && v.get("name"@) is None ==> entry_of(v) is None,
        v is Object && v.get("kind"@) is None ==> entry_of(v) is None,
        entry_of(Json::Array(seq![Json::Text(name), Json::Text(kind), Json::Text(since)]))
            == Some(EntryView { name, kind, since }),
{
}

/// A registry holds its entries under `entry`, one after the other.
pub proof fn law_entries_are_listed_under_their_key(v: Json, items: Seq<Json>, i: int)
    requires
        v.get("entry"@) == Some(Json::Array(items)),
        0 <= i < items.len(),
    ensures
        registry(v) matches Some(entries) ==> entries.len() == items.len()
            && entry_of(items[i]) == Some(entries[i]),
        entry_of(items[i]) is None ==> registry(v) is None,
{
    lemma_entries_read(items, i);
}

proof fn lemma_entries_read(items: Seq<Json>, i: int)
    requires
        0 <= i < items.len(),
    ensures
        entries_of(items) matches Some(entries) ==> entries.len() == items.len()
            && entry_of(items[i]) == Some(entries[i]),
        entry_of(items[i]) is None ==> entries_of(items) is None,
    decreases items.len(),
{
    let rest = items.drop_last();
    if i < rest.len() {
        assert(rest[i] == items[i]);
        lemma_entries_read(rest, i);
    } else if rest.len() > 0 {
        lemma_entries_read(rest, 0);
    } else {
        reveal_with_fuel(entries_of, 2);
    }
}

/// An entry whose kind is known is registered under its kind and its name, and nothing
/// else is.
pub proof fn law_known_entries_are_registered(entries: Seq<EntryView>, kind: Seq<char>,
    name: Seq<char>)
    ensures
        registered(entries).contains((kind, name)) <==> (kind == "lua_function"@
            || kind == "lua_table"@ || kind == "ipc_method"@ || kind == "cli_command"@)
            && exists|k: int| 0 <= k < entries.len() && (#[trigger] entries[k]).kind == kind
                && entries[k].name == name,
    decreases entries.len(),
{
    if entries.len() > 0 {
        let rest = entries.drop_last();
        law_known_entries_are_registered(rest, kind, name);
        assert(forall|k: int| 0 <= k < rest.len() ==> rest[k] == #[trigger] entries[k]);
        if exists|k: int| 0 <= k < rest.len() && (#[trigger] rest[k]).kind == kind
            && rest[k].name == name {
            let k = choose|k: int| 0 <= k < rest.len() && (#[trigger] rest[k]).kind == kind
                && rest[k].name == name;
            assert(entries[k].kind == kind);
        }
        if entries.last().kind == kind && entries.last().name == name {
            assert(entries[entries.len() - 1].kind == kind);
        }
        if exists|k: int| 0 <= k < entries.len() && (#[trigger] entries[k]).kind == kind
            && entries[k].name == name {
            let k = choose|k: int| 0 <= k < entries.len() && (#[trigger] entries[k]).kind == kind
                && entries[k].name == name;
            if k < rest.len() {
                assert(rest[k].kind == kind);
            }
        }
    }
}

/// The sources offer what their bindings, methods and commands are, each under its kind.
pub proof fn law_sources_offer_each_kind(lua: Seq<char>, ipc: Seq<char>, cli: Seq<char>,
    name: Seq<char>)
    ensures
        offered(lua, ipc, cli).contains(("lua_function"@, name))
            <==> surface::lua_bindings(lua).contains(("lua_function"@, name)),
        offered(lua, ipc, cli).contains(("lua_table"@, name))
            <==> surface::lua_bindings(lua).contains(("lua_table"@, name)),
        offered(lua, ipc, cli).contains(("ipc_method"@, name))
            <==> surface::ipc_methods(ipc).contains(name),
        offered(lua, ipc, cli).contains(("cli_command"@, name))
            <==> surface::cli_commands(cli).contains(name),
{
    reveal_strlit("lua_function");
    reveal_strlit("lua_table");
    reveal_strlit("ipc_method");
    reveal_strlit("cli_command");
    assert("lua_function"@.len() == 12);
    assert("lua_table"@.len() == 9);
    assert("ipc_method"@.len() == 10);
    assert("cli_command"@.len() == 11);
    if surface::lua_bindings(lua).contains(("ipc_method"@, name)) {
        surface::law_bindings_are_tables_or_functions(lua, ("ipc_method"@, name));
    }
    if surface::lua_bindings(lua).contains(("cli_command"@, name)) {
        surface::law_bindings_are_tables_or_functions(lua, ("cli_command"@, name));
    }
}

/// Whatever is wrong with an entry is reported in its list: an unknown kind, no date, no
/// place in the documentation or none in the readme file.
pub proof fn law_faults_are_listed(
    r: ReportView,
    items: Set<surface::Item>,
    entries: Seq<EntryView>,
    doc: Seq<char>,
    readme: Seq<char>,
    k: int,
)
    requires
        reports(r, items, entries, doc, readme),
        0 <= k < entries.len(),
    ensures
        ({
            let e = entries[k];
            let item = (e.kind, e.name);
            let lua = section_of(doc, "## Dictionary: Lua API"@);
            let ipc = section_of(doc, "## Dictionary: IPC protocol"@);
            let cli = section_of(readme, "## CLI reference"@);
            &&& e.kind == "lua_function"@ && !text::contains(lua, "bread."@ + e.name) ==>
                r.undocumented.contains(item)
            &&& e.kind == "lua_table"@ && !text::contains(lua, "bread."@ + e.name) ==>
                r.undocumented.contains(item)
            &&& e.kind == "ipc_method"@ && !text::contains(ipc, "`"@ + e.name + "`"@) ==>
                r.undocumented.contains(item)
            &&& e.kind == "cli_command"@
                && !text::contains(cli, "bread "@ + text::replaced(e.name, '.', ' ')) ==>
                r.missing_from_readme.contains(item)
            &&& e.kind != "lua_function"@ && e.kind != "lua_table"@ && e.kind != "ipc_method"@
                && e.kind != "cli_command"@ ==> r.bad_kind.contains(item)
            &&& (e.kind == "lua_function"@ || e.kind == "lua_table"@ || e.kind == "ipc_method"@
                || e.kind == "cli_command"@) && e.since.len() == 0 ==>
                r.missing_since.contains(item)
        }),
{
    reveal_strlit("lua_function");
    reveal_strlit("lua_table");
    reveal_strlit("ipc_method");
    reveal_strlit("cli_command");
    assert("lua_function"@.len() == 12);
    assert("lua_table"@.len() == 9);
    assert("ipc_method"@.len() == 10);
    assert("cli_command"@.len() == 11);
    let e = entries[k];
    let lua = section_of(doc, "## Dictionary: Lua API"@);
    let ipc = section_of(doc, "## Dictionary: IPC protocol"@);
    let cli = section_of(readme, "## CLI reference"@);
    lemma_fault_is_listed(r.undocumented, entries, missing_in_docs(lua, ipc), k);
    lemma_fault_is_listed(r.missing_from_readme, entries, missing_in_readme(cli), k);
    lemma_fault_is_listed(r.bad_kind, entries, unknown_kind(), k);
    lemma_fault_is_listed(r.missing_since, entries, undated(), k);
    if e.since.len() == 0 {
        text::law_only_white_space_is_trimmed(e.since);
        assert(text::trimmed(e.since).len() == 0);
    }
}

proof fn lemma_fault_is_listed(
    s: Seq<surface::Item>,
    entries: Seq<EntryView>,
    f: spec_fn(EntryView) -> bool,
    k: int,
)
    requires
        arranges(s, picked(entries, f)),
        0 <= k < entries.len(),
    ensures
        f(entries[k]) ==> s.contains((entries[k].kind, entries[k].name)),
{
    if f(entries[k]) {
        lemma_picked(entries, f, k);
        s.to_multiset_ensures();
        let all = picked(entries, f);
        all.to_multiset_ensures();
        let item = entries[k].item();
        assert(all.to_multiset().count(item) > 0);
        assert(s.to_multiset().count(item) > 0);
    }
}

proof fn lemma_picked(entries: Seq<EntryView>, f: spec_fn(EntryView) -> bool, k: int)
    requires
        0 <= k < entries.len(),
        f(entries[k]),
    ensures
        picked(entries, f).contains(entries[k].item()),
    decreases entries.len(),
{
    let rest = entries.drop_last();
    let before = picked(rest, f);
    let all = picked(entries, f);
    if k < rest.len() {
        assert(rest[k] == entries[k]);
        lemma_picked(rest, f, k);
        let m = choose|m: int| 0 <= m < before.len() && before[m] == entries[k].item();
        assert(all[m] == entries[k].item());
    } else {
        assert(all[before.len() as int] == entries[k].item());
    }
}

/// A section begins with its heading and ends before the next heading of its rank.
pub proof fn law_section_ends_before_the_next(before: Seq<char>, heading: Seq<char>,
    body: Seq<char>, rest: Seq<char>)
    requires
        heading.len() >= 3,
        text::find_from(before + heading + body + "\n## "@ + rest, heading, 0) == before.len(),
        text::find_from(heading + body + "\n## "@ + rest, "\n## "@, 3) == (heading + body).len(),
    ensures
        section_of(before + heading + body + "\n## "@ + rest, heading) == heading + body,
{
    let doc = before + heading + body + "\n## "@ + rest;
    let part = heading + body + "\n## "@ + rest;
    assert(doc.subrange(before.len() as int, doc.len() as int) =~= part);
    assert(part.subrange(0, (heading + body).len() as int) =~= heading + body);
}

/// A document without the heading has no such section, and one that ends with it has all
/// that is left.
pub proof fn law_last_section_is_the_rest(before: Seq<char>, heading: Seq<char>, body: Seq<char>,
    doc: Seq<char>)
    ensures
        text::find_from(doc, heading, 0) < 0 ==> section_of(doc, heading).len() == 0,
        text::find_from(before + heading + body, heading, 0) == before.len()
            && text::find_from(heading + body, "\n## "@, 3) < 0
            ==> section_of(before + heading + body, heading) == heading + body,
{
    let doc = before + heading + body;
    assert(doc.subrange(before.len() as int, doc.len() as int) =~= heading + body);
}

/// What is printed of a report that is clean is that all is well; of any other, a line for
/// each item, under its heading, and that the check failed.
pub proof fn law_every_fault_is_printed(r: ReportView, i: int)
    ensures
        r.clean() ==> r.lines().len() == 1,
        !r.clean() ==> r.lines().last() == "check-docs: FAILED — see above."@,
        0 <= i < r.missing_from_schema.len() ==>
            r.lines().contains("  - ["@ + r.missing_from_schema[i].0 + "] "@ + r.missing_from_schema[i].1),
        0 <= i < r.stale_in_schema.len() ==>
            r.lines().contains("  - ["@ + r.stale_in_schema[i].0 + "] "@ + r.stale_in_schema[i].1),
        0 <= i < r.undocumented.len() ==>
            r.lines().contains("  - ["@ + r.undocumented[i].0 + "] "@ + r.undocumented[i].1),
        0 <= i < r.missing_from_readme.len() ==>
            r.lines().contains("  - ["@ + r.missing_from_readme[i].0 + "] "@ + r.missing_from_readme[i].1),
        0 <= i < r.missing_since.len() ==>
            r.lines().contains("  - ["@ + r.missing_since[i].0 + "] "@ + r.missing_since[i].1),
        0 <= i < r.bad_kind.len() ==>
            r.lines().contains("  - "@ + r.bad_kind[i].1 + " (kind = \""@ + r.bad_kind[i].0 + "\")"@),
{
    if !r.clean() {
        let a = kinds_part(r.bad_kind);
        let b = part("Added but undocumented in api-schema.toml (present in code, missing from schema):"@, r.missing_from_schema);
        let c = part("Stale in api-schema.toml (no longer found in code):"@, r.stale_in_schema);
        let d = part("In api-schema.toml but missing from Documentation.md (no `#### bread.<name>` heading for a lua_function/lua_table, or no `<name>` row in the IPC Methods table):"@, r.undocumented);
        let e = part("In api-schema.toml but missing from README.md's \"CLI reference\" section (no `bread <name>` line):"@, r.missing_from_readme);
        let f = part("Schema entries with an empty `since`:"@, r.missing_since);
        let all = r.lines();
        assert(all == a + b + c + d + e + f + seq!["check-docs: FAILED — see above."@]);
        if 0 <= i < r.bad_kind.len() {
            assert(a[i + 1] == kind_line()(r.bad_kind[i]));
            assert(all[i + 1] == a[i + 1]);
        }
        if 0 <= i < r.missing_from_schema.len() {
            assert(b[i + 1] == item_line()(r.missing_from_schema[i]));
            assert(all[a.len() + i + 1] == b[i + 1]);
        }
        if 0 <= i < r.stale_in_schema.len() {
            assert(c[i + 1] == item_line()(r.stale_in_schema[i]));
            assert(all[a.len() + b.len() + i + 1] == c[i + 1]);
        }
        if 0 <= i < r.undocumented.len() {
            assert(d[i + 1] == item_line()(r.undocumented[i]));
            assert(all[a.len() + b.len() + c.len() + i + 1] == d[i + 1]);
        }
        if 0 <= i < r.missing_from_readme.len() {
            assert(e[i + 1] == item_line()(r.missing_from_readme[i]));
            assert(all[a.len() + b.len() + c.len() + d.len() + i + 1] == e[i + 1]);
        }
        if 0 <= i < r.missing_since.len() {
            assert(f[i + 1] == item_line()(r.missing_since[i]));
            assert(all[a.len() + b.len() + c.len() + d.len() + e.len() + i + 1] == f[i + 1]);
        }
    }
}

/// Each list of a report is printed under its heading, and a clean report says that all is
/// well.
pub proof fn law_lists_have_headings(r: ReportView)
    ensures
        r.clean() ==>
            r.lines()
            == seq!["check-docs: OK — api-schema.toml matches breadd's Lua/IPC/CLI surface, Documentation.md, and README.md."@],
        r.bad_kind.len() > 0 ==> r.lines().contains(
            "Schema entries with an unrecognized `kind` (expected one of [\"lua_function\", \"lua_table\", \"ipc_method\", \"cli_command\"]):"@),
        r.missing_from_schema.len() > 0 ==> r.lines().contains(
            "Added but undocumented in api-schema.toml (present in code, missing from schema):"@),
        r.stale_in_schema.len() > 0 ==>
            r.lines().contains("Stale in api-schema.toml (no longer found in code):"@),
        r.undocumented.len() > 0 ==> r.lines().contains(
            "In api-schema.toml but missing from Documentation.md (no `#### bread.<name>` heading for a lua_function/lua_table, or no `<name>` row in the IPC Methods table):"@),
        r.missing_from_readme.len() > 0 ==> r.lines().contains(
            "In api-schema.toml but missing from README.md's \"CLI reference\" section (no `bread <name>` line):"@),
        r.missing_since.len() > 0 ==>
            r.lines().contains("Schema entries with an empty `since`:"@),
{
    if !r.clean() {
        let a = kinds_part(r.bad_kind);
        let b = part("Added but undocumented in api-schema.toml (present in code, missing from schema):"@, r.missing_from_schema);
        let c = part("Stale in api-schema.toml (no longer found in code):"@, r.stale_in_schema);
        let d = part("In api-schema.toml but missing from Documentation.md (no `#### bread.<name>` heading for a lua_function/lua_table, or no `<name>` row in the IPC Methods table):"@, r.undocumented);
        let e = part("In api-schema.toml but missing from README.md's \"CLI reference\" section (no `bread <name>` line):"@, r.missing_from_readme);
        let f = part("Schema entries with an empty `since`:"@, r.missing_since);
        let all = r.lines();
        assert(all == a + b + c + d + e + f + seq!["check-docs: FAILED — see above."@]);
        if r.bad_kind.len() > 0 {
            assert(all[0] == a[0]);
        }
        if r.missing_from_schema.len() > 0 {
            assert(all[a.len() as int] == b[0]);
        }
        if r.stale_in_schema.len() > 0 {
            assert(all[(a.len() + b.len()) as int] == c[0]);
        }
        if r.undocumented.len() > 0 {
            assert(all[(a.len() + b.len() + c.len()) as int] == d[0]);
        }
        if r.missing_from_readme.len() > 0 {
            assert(all[(a.len() + b.len() + c.len() + d.len()) as int] == e[0]);
        }
        if r.missing_since.len() > 0 {
            assert(all[(a.len() + b.len() + c.len() + d.len() + e.len()) as int] == f[0]);
        }
    }
}

/// Nothing is listed as a fault without one: what is listed is an entry of the kind for
/// which the list is, and what is said of it holds.
pub proof fn law_only_faults_are_listed(
    r: ReportView,
    items: Set<surface::Item>,
    entries: Seq<EntryView>,
    doc: Seq<char>,
    readme: Seq<char>,
    item: surface::Item,
)
    requires
        reports(r, items, entries, doc, readme),
    ensures
        r.undocumented.contains(item) ==> (item.0 == "ipc_method"@
            && !text::contains(section_of(doc, "## Dictionary: IPC protocol"@),
            "`"@ + item.1 + "`"@))
            || ((item.0 == "lua_function"@ || item.0 == "lua_table"@)
                && !text::contains(section_of(doc, "## Dictionary: Lua API"@),
                "bread."@ + item.1)),
        r.missing_from_readme.contains(item) ==> item.0 == "cli_command"@
            && !text::contains(section_of(readme, "## CLI reference"@),
                "bread "@ + text::replaced(item.1, '.', ' ')),
        r.bad_kind.contains(item) ==> item.0 != "lua_function"@ && item.0 != "lua_table"@
            && item.0 != "ipc_method"@ && item.0 != "cli_command"@,
        r.missing_since.contains(item) ==> item.0 == "lua_function"@ || item.0 == "lua_table"@
            || item.0 == "ipc_method"@ || item.0 == "cli_command"@,
{
    let lua = section_of(doc, "## Dictionary: Lua API"@);
    let ipc = section_of(doc, "## Dictionary: IPC protocol"@);
    let cli = section_of(readme, "## CLI reference"@);
    lemma_listed_is_at_fault(r.undocumented, entries, missing_in_docs(lua, ipc), item);
    lemma_listed_is_at_fault(r.missing_from_readme, entries, missing_in_readme(cli), item);
    lemma_listed_is_at_fault(r.bad_kind, entries, unknown_kind(), item);
    lemma_listed_is_at_fault(r.missing_since, entries, undated(), item);
}

proof fn lemma_listed_is_at_fault(
    s: Seq<surface::Item>,
    entries: Seq<EntryView>,
    f: spec_fn(EntryView) -> bool,
    item: surface::Item,
)
    requires
        arranges(s, picked(entries, f)),
    ensures
        s.contains(item) ==> exists|k: int| 0 <= k < entries.len() && f(#[trigger] entries[k])
            && entries[k].item() == item,
{
    if s.contains(item) {
        let all = picked(entries, f);
        s.to_multiset_ensures();
        all.to_multiset_ensures();
        assert(s.to_multiset().count(item) > 0);
        assert(all.to_multiset().count(item) > 0);
        assert(all.contains(item));
        let m = choose|m: int| 0 <= m < all.len() && all[m] == item;
        lemma_picked_from(entries, f, m);
    }
}

proof fn lemma_picked_from(entries: Seq<EntryView>, f: spec_fn(EntryView) -> bool, m: int)
    requires
        0 <= m < picked(entries, f).len(),
    ensures
        exists|k: int| 0 <= k < entries.len() && f(#[trigger] entries[k])
            && entries[k].item() == picked(entries, f)[m],
    decreases entries.len(),
{
    let rest = entries.drop_last();
    let before = picked(rest, f);
    if m < before.len() {
        lemma_picked_from(rest, f, m);
        let k = choose|k: int| 0 <= k < rest.len() && f(#[trigger] rest[k])
            && rest[k].item() == before[m];
        assert(entries[k] == rest[k]);
    } else {
        assert(entries[entries.len() - 1] == entries.last());
    }
}

} // verus!
