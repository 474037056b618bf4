//! Which modules are loaded, in which order, and what became of each.

use crate::builtin;
use crate::engine::StateCommand;
use crate::modules::{self, DeclView, ModuleDecl};
use crate::ordered::{self, Ordered};
use crate::paths;
use crate::rules::{self, IssueView, RulesLoadOutcome};
use crate::state_engine;
use crate::text;
use crate::types::{DeviceRule, ModuleLoadState, RuleView};
use vstd::prelude::*;

verus! {

/// What is noted of a module.
#[derive(Debug)]
pub struct StatusChange {
    pub name: String,
    pub status: ModuleLoadState,
    pub last_error: Option<String>,
    pub builtin: bool,
}

/// What a note on a module stands for.
#[verifier::ext_equal]
pub struct StatusView {
    pub name: Seq<char>,
    pub status: ModuleLoadState,
    pub last_error: Option<Seq<char>>,
    pub builtin: bool,
}

impl DeepView for StatusChange {
    type V = StatusView;

    open spec fn deep_view(&self) -> StatusView {
        StatusView {
            name: self.name@,
            status: self.status,
            last_error: self.last_error.deep_view(),
            builtin: self.builtin,
        }
    }
}

impl StatusChange {
    /// The command that has the engine take down the note.
    pub fn command(self) -> (r: StateCommand)
        ensures
            r matches StateCommand::SetModuleStatus { name, status, last_error, builtin }
                && (StatusView {
                name: name@,
                status,
                last_error: last_error.deep_view(),
                builtin,
            }) == self.deep_view(),
    {
        StateCommand::SetModuleStatus {
            name: self.name,
            status: self.status,
            last_error: self.last_error,
            builtin: self.builtin,
        }
    }
}

/// The file holds Lua code.
pub fn is_lua_file(path: &str) -> (r: bool)
    ensures
        r == (paths::extension(path@) == Some("lua"@)),
{
    match paths::extension_of(path) {
        Some(e) => text::same(e.as_str(), "lua"),
        None => false,
    }
}

/// A file of the modules' directory.
#[derive(Debug)]
pub struct ModuleFile {
    pub path: String,
}

impl DeepView for ModuleFile {
    type V = Seq<char>;

    open spec fn deep_view(&self) -> Seq<char> {
        self.path@
    }
}

impl Ordered for ModuleFile {
    open spec fn before(a: Seq<char>, b: Seq<char>) -> bool {
        paths::path_precedes(a, b)
    }

    proof fn before_total(a: Seq<char>, b: Seq<char>) {
        paths::lemma_names_precede_total(paths::components(a), paths::components(b));
        text::lemma_precedes_total(a, b);
    }

    proof fn before_transitive(a: Seq<char>, b: Seq<char>, c: Seq<char>) {
        let (x, y, z) = (paths::components(a), paths::components(b), paths::components(c));
        if paths::names_precede(x, y) && paths::names_precede(y, z) {
            paths::lemma_names_precede_transitive(x, y, z);
        }
        if text::precedes(a, b) && text::precedes(b, c) {
            text::lemma_precedes_transitive(a, b, c);
        }
    }

    fn comes_before(&self, other: &Self) -> (r: bool) {
        paths::comes_before(self.path.as_str(), other.path.as_str())
    }

    fn copy(&self) -> (r: Self) {
        ModuleFile { path: self.path.clone() }
    }
}

/// The files in the order of their paths.
pub fn sort_files(files: Vec<ModuleFile>) -> (r: Vec<ModuleFile>)
    ensures
        ordered::sorted::<ModuleFile>(r.deep_view()),
        r.deep_view().to_multiset() == files.deep_view().to_multiset(),
{
    ordered::sort(files)
}

/// The module in a file is not wanted: the list names it, or the file.
pub open spec fn unwanted(root: Seq<char>, path: Seq<char>, disabled: Seq<Seq<char>>) -> bool {
    disabled.contains(modules::path_name(root, path)) || disabled.contains(
        match paths::leaf(path) {
            Some(name) => name,
            None => Seq::empty(),
        },
    )
}

fn is_unwanted(root: &str, path: &str, disabled: &Vec<String>) -> (r: bool)
    ensures
        r == unwanted(root@, path@, disabled.deep_view()),
{
    let name = modules::module_name_from_path(root, path);
    let file = match paths::file_name(path) {
        Some(name) => name,
        None => {
            let none = String::new();
            assert(none@ =~= Seq::empty());
            none
        },
    };
    text::list_has(disabled, name.as_str()) || text::list_has(disabled, file.as_str())
}

/// The note on a module that is not wanted.
pub open spec fn disabled_note(root: Seq<char>, path: Seq<char>) -> StatusView {
    StatusView {
        name: modules::path_name(root, path),
        status: ModuleLoadState::Disabled,
        last_error: None,
        builtin: false,
    }
}

/// The files with a module that is wanted.
pub open spec fn wanted_files(root: Seq<char>, files: Seq<Seq<char>>, disabled: Seq<Seq<char>>) -> Seq<
    Seq<char>,
>
    decreases files.len(),
{
    if files.len() == 0 {
        Seq::empty()
    } else {
        let rest = wanted_files(root, files.drop_last(), disabled);
        let path = files.last();
        if modules::is_library(root, path) || unwanted(root, path, disabled) {
            rest
        } else {
            rest.push(path)
        }
    }
}

/// The notes on the modules that are not wanted.
pub open spec fn disabled_notes(
    root: Seq<char>,
    files: Seq<Seq<char>>,
    disabled: Seq<Seq<char>>,
) -> Seq<StatusView>
    decreases files.len(),
{
    if files.len() == 0 {
        Seq::empty()
    } else {
        let rest = disabled_notes(root, files.drop_last(), disabled);
        let path = files.last();
        if !modules::is_library(root, path) && unwanted(root, path, disabled) {
            rest.push(disabled_note(root, path))
        } else {
            rest
        }
    }
}

/// The files whose module is to be loaded, and the notes on those whose module
/// is not wanted. Files of libraries are passed over.
pub fn select_files(root: &str, files: &Vec<ModuleFile>, disabled: &Vec<String>) -> (r: (
    Vec<String>,
    Vec<StatusChange>,
))
    ensures
        r.0.deep_view() == wanted_files(root@, files.deep_view(), disabled.deep_view()),
        r.1.deep_view() == disabled_notes(root@, files.deep_view(), disabled.deep_view()),
{
    let mut wanted: Vec<String> = Vec::new();
    let mut notes: Vec<StatusChange> = Vec::new();
    let mut i: usize = 0;
    assert(files.deep_view().take(0) =~= Seq::empty());
    assert(wanted.deep_view() =~= Seq::empty());
    assert(notes.deep_view() =~= Seq::empty());
    while i < files.len()
        invariant
            i <= files.len(),
            wanted.deep_view() == wanted_files(
                root@,
                files.deep_view().take(i as int),
                disabled.deep_view(),
            ),
            notes.deep_view() == disabled_notes(
                root@,
                files.deep_view().take(i as int),
                disabled.deep_view(),
            ),
        decreases files.len() - i,
    {
        let path = files[i].path.as_str();
        let ghost before = (wanted.deep_view(), notes.deep_view());
        proof {
            let t = files.deep_view().take(i + 1);
            assert(t.drop_last() =~= files.deep_view().take(i as int));
            assert(t.last() == path@);
        }
        if !modules::is_lib_path(root, path) {
            if is_unwanted(root, path, disabled) {
                let note = StatusChange {
                    name: modules::module_name_from_path(root, path),
                    status: ModuleLoadState::Disabled,
                    last_error: None,
                    builtin: false,
                };
                assert(note.deep_view() == disabled_note(root@, path@));
                notes.push(note);
                assert(notes.deep_view() =~= before.1.push(disabled_note(root@, path@)));
            } else {
                wanted.push(path.to_owned());
                assert(wanted.deep_view() =~= before.0.push(path@));
            }
        }
        i += 1;
    }
    assert(files.deep_view().take(files@.len() as int) =~= files.deep_view());
    (wanted, notes)
}

/// What the look into a file for the declaration of its module found.
#[derive(Debug)]
pub struct Scanned {
    pub path: String,
    pub found: Result<ModuleDecl, String>,
}

/// What the result of a look stands for.
#[verifier::ext_equal]
pub struct ScannedView {
    pub path: Seq<char>,
    pub found: Result<DeclView, Seq<char>>,
}

impl DeepView for Scanned {
    type V = ScannedView;

    open spec fn deep_view(&self) -> ScannedView {
        ScannedView {
            path: self.path@,
            found: match self.found {
                Ok(d) => Ok(d.deep_view()),
                Err(e) => Err(e@),
            },
        }
    }
}

/// The declarations that were found.
pub open spec fn found_decls(scanned: Seq<ScannedView>) -> Seq<DeclView>
    decreases scanned.len(),
{
    if scanned.len() == 0 {
        Seq::empty()
    } else {
        match scanned.last().found {
            Ok(d) => found_decls(scanned.drop_last()).push(d),
            Err(e) => found_decls(scanned.drop_last()),
        }
    }
}

/// The note on a module that cannot be loaded.
pub open spec fn error_note(name: Seq<char>, error: Seq<char>, builtin: bool) -> StatusView {
    StatusView { name, status: ModuleLoadState::LoadError, last_error: Some(error), builtin }
}

fn make_error_note(name: String, error: String, builtin: bool) -> (r: StatusChange)
    ensures
        r.deep_view() == error_note(name@, error@, builtin),
{
    StatusChange { name, status: ModuleLoadState::LoadError, last_error: Some(error), builtin }
}

/// The notes on the files without a declaration.
pub open spec fn scan_notes(root: Seq<char>, scanned: Seq<ScannedView>) -> Seq<StatusView>
    decreases scanned.len(),
{
    if scanned.len() == 0 {
        Seq::empty()
    } else {
        match scanned.last().found {
            Ok(d) => scan_notes(root, scanned.drop_last()),
            Err(e) => scan_notes(root, scanned.drop_last()).push(
                error_note(modules::path_name(root, scanned.last().path), e, false),
            ),
        }
    }
}

/// The notes on modules that have no place in the order.
pub open spec fn order_notes(errors: Seq<(Seq<char>, Seq<char>)>) -> Seq<StatusView> {
    errors.map_values(|e: (Seq<char>, Seq<char>)| error_note(e.0, e.1, false))
}

/// All that is declared: the built-in modules, where they are wanted, and those
/// that were found.
pub open spec fn all_decls(
    with_builtin: bool,
    disabled: Seq<Seq<char>>,
    scanned: Seq<ScannedView>,
) -> Seq<DeclView> {
    (if with_builtin {
        builtin::builtin_decls(disabled)
    } else {
        Seq::empty()
    }) + found_decls(scanned)
}

/// The modules to load, in order, and the notes on those that cannot be.
#[derive(Debug)]
pub struct LoadPlan {
    pub ordered: Vec<ModuleDecl>,
    pub notes: Vec<StatusChange>,
}

/// The plan for the modules that were found and the built-in ones.
pub fn plan_modules(
    root: &str,
    with_builtin: bool,
    disabled: &Vec<String>,
    scanned: Vec<Scanned>,
) -> (r: LoadPlan)
    ensures
        ({
            let decls = all_decls(with_builtin, disabled.deep_view(), scanned.deep_view());
            let kept = modules::firsts(decls);
            &&& modules::is_load_order(kept, r.ordered.deep_view())
            &&& r.notes.deep_view() == scan_notes(root@, scanned.deep_view()) + order_notes(
                modules::repeats(decls) + modules::lacking(kept, kept.len() as int)
                    + modules::stuck(kept, r.ordered.deep_view(), kept.len() as int),
            )
        }),
{
    let ghost all = scanned.deep_view();
    let ghost items = scanned@;
    let mut decls: Vec<ModuleDecl> = Vec::new();
    let mut notes: Vec<StatusChange> = Vec::new();
    if with_builtin {
        decls = builtin::builtin_module_decls(disabled);
    }
    let ghost first = decls.deep_view();
    proof {
        assert(all.take(0) =~= Seq::empty());
        assert(first =~= if with_builtin {
            builtin::builtin_decls(disabled.deep_view())
        } else {
            Seq::empty()
        });
        assert(first + Seq::empty() =~= first);
        assert(notes.deep_view() =~= Seq::empty());
    }
    for s in it: scanned
        invariant
            it.seq() == items,
            items.len() == all.len(),
            forall|k: int| 0 <= k < all.len() ==> (#[trigger] items[k]).deep_view() == all[k],
            decls.deep_view() == first + found_decls(all.take(it.index() as int)),
            notes.deep_view() == scan_notes(root@, all.take(it.index() as int)),
    {
        let ghost n = it.index() as int;
        let ghost before = (decls.deep_view(), notes.deep_view());
        proof {
            assert(items[n].deep_view() == all[n]);
            assert(all.take(n + 1).drop_last() =~= all.take(n));
            assert(all.take(n + 1).last() == all[n]);
        }
        let Scanned { path, found } = s;
        match found {
            Ok(d) => {
                let ghost view = d.deep_view();
                decls.push(d);
                assert(decls.deep_view() =~= before.0.push(view));
                assert(decls.deep_view() =~= first + found_decls(all.take(n)).push(view));
            },
            Err(e) => {
                let name = modules::module_name_from_path(root, path.as_str());
                let ghost view = error_note(name@, e@, false);
                notes.push(make_error_note(name, e, false));
                assert(notes.deep_view() =~= before.1.push(view));
            },
        }
    }
    assert(all.take(all.len() as int) =~= all);
    let (ordered, errors) = modules::order_module_decls(decls);
    let ghost told = errors.deep_view();
    let ghost reasons = errors@;
    let ghost scan = notes.deep_view();
    assert(notes.deep_view() =~= scan + order_notes(told).take(0));
    for e in it: errors
        invariant
            it.seq() == reasons,
            reasons.len() == told.len(),
            forall|k: int| 0 <= k < told.len() ==> (#[trigger] reasons[k]).deep_view() == told[k],
            notes.deep_view() =~= scan + order_notes(told).take(it.index() as int),
    {
        let ghost n = it.index() as int;
        let ghost before = notes.deep_view();
        assert(reasons[n].deep_view() == told[n]);
        let (name, error) = e;
        let ghost view = error_note(name@, error@, false);
        notes.push(make_error_note(name, error, false));
        assert(notes.deep_view() =~= before.push(view));
        assert(order_notes(told).take(n + 1) =~= order_notes(told).take(n).push(view));
    }
    assert(order_notes(told).take(told.len() as int) =~= order_notes(told));
    LoadPlan { ordered, notes }
}

/// How the loading of a module went.
#[derive(Debug)]
pub enum LoadOutcome {
    /// Its code failed.
    Failed(String),
    /// Its code did not declare the module.
    NotRegistered,
    /// The hook that follows the loading failed.
    HookFailed(String),
    /// All went well.
    Done,
}

/// The note on a module after it was loaded.
pub open spec fn load_note(name: Seq<char>, builtin: bool, outcome: LoadOutcome) -> StatusView {
    match outcome {
        LoadOutcome::Failed(e) => error_note(name, e@, builtin),
        LoadOutcome::NotRegistered => error_note(
            name,
            "module did not call bread.module"@,
            builtin,
        ),
        LoadOutcome::HookFailed(e) => error_note(name, e@, builtin),
        LoadOutcome::Done => StatusView {
            name,
            status: ModuleLoadState::Loaded,
            last_error: None,
            builtin,
        },
    }
}

/// The note on a module after it was loaded.
pub fn load_status(decl: &ModuleDecl, outcome: LoadOutcome) -> (r: StatusChange)
    ensures
        r.deep_view() == load_note(decl.name@, decl.builtin, outcome),
{
    let name = decl.name.clone();
    match outcome {
        LoadOutcome::Failed(e) => make_error_note(name, e, decl.builtin),
        LoadOutcome::NotRegistered => make_error_note(
            name,
            "module did not call bread.module".to_owned(),
            decl.builtin,
        ),
        LoadOutcome::HookFailed(e) => make_error_note(name, e, decl.builtin),
        LoadOutcome::Done => StatusChange {
            name,
            status: ModuleLoadState::Loaded,
            last_error: None,
            builtin: decl.builtin,
        },
    }
}

/// The note on a file that is not there.
pub fn missing_status(name: &str, builtin: bool) -> (r: StatusChange)
    ensures
        r.deep_view() == (StatusView {
            name: name@,
            status: ModuleLoadState::NotFound,
            last_error: None,
            builtin,
        }),
{
    StatusChange {
        name: name.to_owned(),
        status: ModuleLoadState::NotFound,
        last_error: None,
        builtin,
    }
}

/// The note on a module that is loaded but does not do all it should.
pub open spec fn degraded_note(name: Seq<char>, error: Seq<char>, builtin: bool) -> StatusView {
    StatusView { name, status: ModuleLoadState::Degraded, last_error: Some(error), builtin }
}

/// The note on a module of which a hook or a handler failed.
pub fn degraded_status(name: &str, error: &str, builtin: bool) -> (r: StatusChange)
    ensures
        r.deep_view() == degraded_note(name@, error@, builtin),
{
    StatusChange {
        name: name.to_owned(),
        status: ModuleLoadState::Degraded,
        last_error: Some(error.to_owned()),
        builtin,
    }
}

/// The texts that tell of the issues.
pub open spec fn issue_texts(issues: Seq<IssueView>) -> Seq<Seq<char>> {
    issues.map_values(|issue: IssueView| rules::issue_text(issue))
}

/// The note on the rules module after the rules file was loaded: none where
/// there is no file or all is in order, else why there are no rules, or what is
/// wrong with those that are left out.
pub fn rules_status(outcome: &RulesLoadOutcome) -> (r: Option<StatusChange>)
    ensures
        r.deep_view() == (match outcome {
            RulesLoadOutcome::Absent => None,
            RulesLoadOutcome::Fatal(message) => Some(
                degraded_note("bread.rules"@, message@, true),
            ),
            RulesLoadOutcome::Loaded { rules, issues } => if issues.deep_view().len() == 0 {
                None
            } else {
                Some(
                    degraded_note(
                        "bread.rules"@,
                        text::join(issue_texts(issues.deep_view()), "; "@),
                        true,
                    ),
                )
            },
        }),
{
    match outcome {
        RulesLoadOutcome::Absent => None,
        RulesLoadOutcome::Fatal(message) => Some(
            degraded_status("bread.rules", message.as_str(), true),
        ),
        RulesLoadOutcome::Loaded { rules: _, issues } => {
            if issues.len() == 0 {
                return None;
            }
            let ghost all = issue_texts(issues.deep_view());
            let mut texts: Vec<String> = Vec::new();
            let mut i: usize = 0;
            while i < issues.len()
                invariant
                    i <= issues.len(),
                    all == issue_texts(issues.deep_view()),
                    texts.deep_view() =~= all.take(i as int),
                decreases issues.len() - i,
            {
                let ghost before = texts.deep_view();
                assert(issues.deep_view()[i as int] == issues@[i as int].deep_view());
                let line = issues[i].to_string();
                assert(line@ == all[i as int]);
                texts.push(line);
                assert(texts.deep_view() =~= before.push(all[i as int]));
                i += 1;
            }
            assert(texts.deep_view() =~= all);
            Some(degraded_status("bread.rules", text::join_with(&texts, "; ").as_str(), true))
        },
    }
}

/// The order in which the hooks that precede a reload are called: that of the
/// loading backwards.
pub fn unload_order(loaded: &Vec<String>) -> (r: Vec<String>)
    ensures
        r.deep_view() == loaded.deep_view().reverse(),
{
    let ghost all = loaded.deep_view();
    let mut r: Vec<String> = Vec::new();
    let mut i: usize = loaded.len();
    while i > 0
        invariant
            i <= loaded.len(),
            all == loaded.deep_view(),
            r.deep_view() =~= all.reverse().take(all.len() - i),
        decreases i,
    {
        let ghost before = r.deep_view();
        i -= 1;
        r.push(loaded[i].clone());
        assert(r.deep_view() =~= before.push(all[i as int]));
        assert(all.reverse().take(all.len() - i) =~= all.reverse().take(all.len() - i - 1).push(
            all[i as int],
        ));
    }
    assert(all.reverse().take(all.len() as int) =~= all.reverse());
    r
}

/// The first module of that name is built in.
pub open spec fn builtin_in(decls: Seq<DeclView>, name: Seq<char>) -> bool {
    let i = state_engine::first_where(decls, |d: DeclView| d.name == name, 0);
    i < decls.len() && decls[i].builtin
}

/// Whether the module of that name is built in.
pub fn module_is_builtin(decls: &Vec<ModuleDecl>, name: &str) -> (r: bool)
    ensures
        r == builtin_in(decls.deep_view(), name@),
{
    let ghost p = |d: DeclView| d.name == name@;
    let mut i: usize = 0;
    while i < decls.len()
        invariant
            i <= decls.len(),
            p == (|d: DeclView| d.name == name@),
            state_engine::first_where(decls.deep_view(), p, 0)
                == state_engine::first_where(decls.deep_view(), p, i as int),
        decreases decls.len() - i,
    {
        assert(decls.deep_view()[i as int] == decls@[i as int].deep_view());
        if text::same(decls[i].name.as_str(), name) {
            return decls[i].builtin;
        }
        i += 1;
    }
    assert(decls.deep_view().len() == decls@.len());
    false
}

/// The rules that name a device and have a condition.
pub open spec fn usable_rules(rules: Seq<RuleView>) -> Seq<RuleView>
    decreases rules.len(),
{
    if rules.len() == 0 {
        Seq::empty()
    } else if rules.last().device.len() > 0 && rules.last().conditions.len() > 0 {
        usable_rules(rules.drop_last()).push(rules.last())
    } else {
        usable_rules(rules.drop_last())
    }
}

/// The rules that name a device and have a condition.
pub fn keep_usable_rules(rules: Vec<DeviceRule>) -> (r: Vec<DeviceRule>)
    ensures
        r.deep_view() == usable_rules(rules.deep_view()),
{
    let ghost all = rules.deep_view();
    let ghost items = rules@;
    let mut r: Vec<DeviceRule> = Vec::new();
    assert(all.take(0) =~= Seq::empty());
    assert(r.deep_view() =~= Seq::empty());
    for rule in it: rules
        invariant
            it.seq() == items,
            items.len() == all.len(),
            forall|k: int| 0 <= k < all.len() ==> (#[trigger] items[k]).deep_view() == all[k],
            r.deep_view() == usable_rules(all.take(it.index() as int)),
    {
        let ghost n = it.index() as int;
        let ghost before = r.deep_view();
        proof {
            assert(items[n].deep_view() == all[n]);
            assert(all.take(n + 1).drop_last() =~= all.take(n));
            assert(all.take(n + 1).last() == all[n]);
            assert(all[n].conditions.len() == rule.conditions@.len());
        }
        if !rule.device.as_str().is_empty() && rule.conditions.len() > 0 {
            r.push(rule);
            assert(r.deep_view() =~= before.push(all[n]));
        }
    }
    assert(all.take(all.len() as int) =~= all);
    r
}

/// The text without the prefix, as often as it begins with it.
pub open spec fn without_prefixes(s: Seq<char>, p: Seq<char>) -> Seq<char>
    decreases s.len(),
{
    if p.len() > 0 && text::has_prefix(s, p) {
        without_prefixes(s.subrange(p.len() as int, s.len() as int), p)
    } else {
        s
    }
}

fn strip_prefixes(s: &str, p: &str) -> (r: String)
    requires
        p@.len() > 0,
    ensures
        r@ == without_prefixes(s@, p@),
    decreases s@.len(),
{
    match text::strip_prefix(s, p) {
        Some(rest) => strip_prefixes(rest, p),
        None => s.to_owned(),
    }
}

/// The file that Lua's `require` loads for a name; none where the name is not
/// one of a module.
pub fn require_path(root: &str, name: &str) -> (r: Option<String>)
    ensures
        r.deep_view() == (if text::has_prefix(name@, "bread."@) {
            Some(
                paths::joined(
                    root@,
                    text::replaced(without_prefixes(name@, "bread."@), '.', '/') + ".lua"@,
                ),
            )
        } else {
            None
        }),
{
    if !text::starts_with(name, "bread.") {
        return None;
    }
    proof {
        reveal_strlit("bread.");
    }
    let rel = text::replace_char(strip_prefixes(name, "bread.").as_str(), '.', '/');
    Some(paths::join(root, text::concat(rel.as_str(), ".lua").as_str()))
}

/// Every file that is not one of a library is either to be loaded or noted as
/// not wanted, and never both.
pub proof fn law_every_file_is_accounted(
    root: Seq<char>,
    files: Seq<Seq<char>>,
    disabled: Seq<Seq<char>>,
    path: Seq<char>,
)
    requires
        files.contains(path),
        !modules::is_library(root, path),
    ensures
        wanted_files(root, files, disabled).contains(path) <==> !unwanted(root, path, disabled),
        unwanted(root, path, disabled) ==> disabled_notes(root, files, disabled).contains(
            disabled_note(root, path),
        ),
    decreases files.len(),
{
    let rest = files.drop_last();
    let wanted = wanted_files(root, files, disabled);
    let notes = disabled_notes(root, files, disabled);
    let last = files.last();
    if rest.contains(path) {
        law_every_file_is_accounted(root, rest, disabled, path);
        let before = wanted_files(root, rest, disabled);
        if before.contains(path) {
            let k = choose|k: int| 0 <= k < before.len() && before[k] == path;
            assert(wanted[k] == path);
        } else if wanted.contains(path) {
            let k = choose|k: int| 0 <= k < wanted.len() && wanted[k] == path;
            if k < before.len() {
                assert(before[k] == path);
            }
            assert(false);
        }
        let noted = disabled_notes(root, rest, disabled);
        if noted.contains(disabled_note(root, path)) {
            let k = choose|k: int| 0 <= k < noted.len() && noted[k] == disabled_note(root, path);
            assert(notes[k] == disabled_note(root, path));
        }
    } else {
        let k = choose|k: int| 0 <= k < files.len() && files[k] == path;
        if k < rest.len() {
            assert(rest[k] == path);
        }
        assert(last == path);
        if unwanted(root, path, disabled) {
            assert(notes.last() == disabled_note(root, path));
            lemma_wanted(root, files, disabled, path);
        } else {
            assert(wanted.last() == path);
        }
    }
}

proof fn lemma_wanted(
    root: Seq<char>,
    files: Seq<Seq<char>>,
    disabled: Seq<Seq<char>>,
    path: Seq<char>,
)
    ensures
        wanted_files(root, files, disabled).contains(path) ==> !unwanted(root, path, disabled),
    decreases files.len(),
{
    if files.len() > 0 {
        let before = wanted_files(root, files.drop_last(), disabled);
        let wanted = wanted_files(root, files, disabled);
        lemma_wanted(root, files.drop_last(), disabled, path);
        if wanted.contains(path) {
            let k = choose|k: int| 0 <= k < wanted.len() && wanted[k] == path;
            if k < before.len() {
                assert(before[k] == path);
            }
        }
    }
}

/// A file that is no library is not loaded if its name, or that of its module, is among
/// the disabled ones, and is then noted as disabled under the name of its module.
pub proof fn law_disabled_files_are_noted(
    root: Seq<char>,
    path: Seq<char>,
    name: Seq<char>,
    disabled: Seq<Seq<char>>,
)
    requires
        paths::leaf(path) == Some(name),
    ensures
        unwanted(root, path, disabled) <==> disabled.contains(name)
            || disabled.contains(modules::path_name(root, path)),
        disabled_note(root, path).name == modules::path_name(root, path),
        disabled_note(root, path).status == ModuleLoadState::Disabled,
        disabled_note(root, path).last_error is None,
        !disabled_note(root, path).builtin,
{
}

/// Libraries are never loaded by themselves, and the files that are loaded are among
/// those that were found.
pub proof fn law_only_found_files_load(
    root: Seq<char>,
    files: Seq<Seq<char>>,
    disabled: Seq<Seq<char>>,
    i: int,
)
    requires
        0 <= i < wanted_files(root, files, disabled).len(),
    ensures
        files.contains(wanted_files(root, files, disabled)[i]),
        !modules::is_library(root, wanted_files(root, files, disabled)[i]),
    decreases files.len(),
{
    let rest = files.drop_last();
    let before = wanted_files(root, rest, disabled);
    if i < before.len() {
        law_only_found_files_load(root, rest, disabled, i);
        let k = choose|k: int| 0 <= k < rest.len() && rest[k] == before[i];
        assert(files[k] == before[i]);
    } else {
        assert(files[files.len() - 1] == files.last());
    }
}

/// A file that declares a module gives that module; one that cannot be read is noted
/// as not loaded, with the reason, under the name that its path gives.
pub proof fn law_scanned_files_are_accounted(root: Seq<char>, scanned: Seq<ScannedView>, i: int)
    requires
        0 <= i < scanned.len(),
    ensures
        scanned[i].found matches Ok(d) ==> found_decls(scanned).contains(d),
        scanned[i].found matches Err(e) ==> scan_notes(root, scanned).contains(
            (StatusView {
                name: modules::path_name(root, scanned[i].path),
                status: ModuleLoadState::LoadError,
                last_error: Some(e),
                builtin: false,
            }),
        ),
        found_decls(scanned).len() + scan_notes(root, scanned).len() == scanned.len(),
    decreases scanned.len(),
{
    let rest = scanned.drop_last();
    let decls = found_decls(rest);
    let notes = scan_notes(root, rest);
    if rest.len() > 0 {
        law_scanned_files_are_accounted(root, rest, if i < rest.len() { i } else { 0 });
    } else {
        reveal_with_fuel(found_decls, 2);
        reveal_with_fuel(scan_notes, 2);
    }
    if i < rest.len() {
        assert(rest[i] == scanned[i]);
        if let Ok(d) = scanned[i].found {
            let k = choose|k: int| 0 <= k < decls.len() && decls[k] == d;
            assert(found_decls(scanned)[k] == d);
        }
        if let Err(e) = scanned[i].found {
            let note = error_note(modules::path_name(root, scanned[i].path), e, false);
            let k = choose|k: int| 0 <= k < notes.len() && notes[k] == note;
            assert(scan_notes(root, scanned)[k] == note);
        }
    } else {
        assert(scanned.last() == scanned[i]);
        if let Ok(d) = scanned[i].found {
            assert(found_decls(scanned)[decls.len() as int] == d);
        }
        if let Err(e) = scanned[i].found {
            let note = error_note(modules::path_name(root, scanned[i].path), e, false);
            assert(scan_notes(root, scanned)[notes.len() as int] == note);
        }
    }
}

/// The modules that come with the daemon go before those that were found, and are left
/// out where the settings say so.
pub proof fn law_builtin_modules_go_first(disabled: Seq<Seq<char>>, scanned: Seq<ScannedView>)
    ensures
        all_decls(false, disabled, scanned) == found_decls(scanned),
        all_decls(true, disabled, scanned).len()
            == builtin::builtin_decls(disabled).len() + found_decls(scanned).len(),
        forall|i: int| 0 <= i < builtin::builtin_decls(disabled).len() ==>
            #[trigger] all_decls(true, disabled, scanned)[i]
            == builtin::builtin_decls(disabled)[i],
{
    assert(all_decls(false, disabled, scanned) =~= found_decls(scanned));
}

/// Each fault of the order is noted under the module's name, as not loaded and with
/// what is wrong.
pub proof fn law_order_faults_are_noted(errors: Seq<(Seq<char>, Seq<char>)>, i: int)
    requires
        0 <= i < errors.len(),
    ensures
        order_notes(errors).len() == errors.len(),
        order_notes(errors)[i].name == errors[i].0,
        order_notes(errors)[i].last_error == Some(errors[i].1),
        order_notes(errors)[i].status == ModuleLoadState::LoadError,
        !order_notes(errors)[i].builtin,
{
}

/// A module whose loading went well is loaded. Any other is not, and the note says
/// what went wrong.
pub proof fn law_outcomes_are_noted(name: Seq<char>, b: bool, e: String)
    ensures
        load_note(name, b, LoadOutcome::Done) == (StatusView { name,
            status: ModuleLoadState::Loaded, last_error: None, builtin: b }),
        load_note(name, b, LoadOutcome::Failed(e)) == (StatusView { name,
            status: ModuleLoadState::LoadError, last_error: Some(e@), builtin: b }),
        load_note(name, b, LoadOutcome::HookFailed(e)) == (StatusView { name,
            status: ModuleLoadState::LoadError, last_error: Some(e@), builtin: b }),
        load_note(name, b, LoadOutcome::NotRegistered) == (StatusView {
            name,
            status: ModuleLoadState::LoadError,
            last_error: Some("module did not call bread.module"@),
            builtin: b,
        }),
        degraded_note(name, e@, b) == (StatusView { name, status: ModuleLoadState::Degraded,
            last_error: Some(e@), builtin: b }),
{
}

/// The first module of a name decides whether the name is that of a module that comes
/// with the daemon; a name that no module has is not.
pub proof fn law_first_module_decides(decls: Seq<DeclView>, name: Seq<char>, i: int)
    ensures
        0 <= i < decls.len() && decls[i].name == name && (forall|k: int| 0 <= k < i ==>
            (#[trigger] decls[k]).name != name) ==> builtin_in(decls, name) == decls[i].builtin,
        (forall|k: int| 0 <= k < decls.len() ==> (#[trigger] decls[k]).name != name) ==>
            !builtin_in(decls, name),
{
    let p = |d: DeclView| d.name == name;
    state_engine::lemma_first_where(decls, p, 0);
    let f = state_engine::first_where(decls, p, 0);
    if 0 <= i < decls.len() && decls[i].name == name && (forall|k: int| 0 <= k < i ==>
        (#[trigger] decls[k]).name != name) {
        assert(p(decls[i]));
        if f < i {
            assert(p(decls[f]));
            assert(decls[f].name != name);
        }
        assert(f == i);
    }
    if f < decls.len() {
        assert(p(decls[f]));
    }
}

/// A rule for devices counts if and only if it names a device and has a condition.
pub proof fn law_usable_rules_count(rules: Seq<RuleView>, r: RuleView)
    ensures
        usable_rules(rules).contains(r) <==> rules.contains(r) && r.device.len() > 0
            && r.conditions.len() > 0,
    decreases rules.len(),
{
    if rules.len() > 0 {
        let rest = rules.drop_last();
        let before = usable_rules(rest);
        let all = usable_rules(rules);
        law_usable_rules_count(rest, r);
        if before.contains(r) {
            let k = choose|k: int| 0 <= k < before.len() && before[k] == r;
            assert(all[k] == r);
            let m = choose|m: int| 0 <= m < rest.len() && rest[m] == r;
            assert(rules[m] == r);
        }
        if rules.contains(r) && !rest.contains(r) {
            let m = choose|m: int| 0 <= m < rules.len() && rules[m] == r;
            if m < rest.len() {
                assert(rest[m] == r);
            }
            assert(rules.last() == r);
            if r.device.len() > 0 && r.conditions.len() > 0 {
                assert(all[before.len() as int] == r);
            }
        }
        if all.contains(r) && !before.contains(r) {
            let k = choose|k: int| 0 <= k < all.len() && all[k] == r;
            if k < before.len() {
                assert(before[k] == r);
            }
            assert(rules[rules.len() - 1] == r);
        }
    }
}

/// What is left when a beginning was taken away as often as it stood there does not
/// begin that way, and is the end of the text.
pub proof fn law_beginnings_are_taken_away(s: Seq<char>, p: Seq<char>)
    requires
        p.len() > 0,
    ensures
        !text::has_prefix(without_prefixes(s, p), p),
        without_prefixes(s, p).len() <= s.len(),
        without_prefixes(s, p) == s.subrange(s.len() - without_prefixes(s, p).len(),
            s.len() as int),
        !text::has_prefix(s, p) ==> without_prefixes(s, p) == s,
        without_prefixes(p + s, p) == without_prefixes(s, p),
    decreases s.len(),
{
    if text::has_prefix(s, p) {
        let rest = s.subrange(p.len() as int, s.len() as int);
        law_beginnings_are_taken_away(rest, p);
    } else {
        assert(s.subrange(0, s.len() as int) =~= s);
    }
    let whole = p + s;
    assert(whole.subrange(0, p.len() as int) =~= p);
    assert(text::has_prefix(whole, p));
    assert(whole.subrange(p.len() as int, whole.len() as int) =~= s);
}

} // verus!
