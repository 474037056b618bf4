//! Modules that run in a process of their own: what they were granted, how such
//! a process is started, and how it proves which module it is.

use crate::config;
use crate::events::{AdapterSource, BreadEvent, EventView, Source};
use crate::json::{self, Json, JsonValue, Numeral};
use crate::paths;
use crate::snapshot::{self, Snapshot};
use crate::table::Table;
use crate::text;
use vstd::prelude::*;

verus! {

/// The seconds within which a module must say that it is ready.
pub const READY_TIMEOUT_SECS: u64 = 25;

/// What a module can be granted.
#[derive(Debug, Clone, Copy, PartialEq, Eq, Structural)]
pub enum PermissionKind {
    StateRead,
    FsRead,
    FsWrite,
    Exec,
    Notify,
    Machine,
    Hyprland,
    Widget,
    Bluetooth,
    ProfileActivate,
}

impl PermissionKind {
    /// The name of the kind.
    pub open spec fn spec_name(self) -> Seq<char> {
        match self {
            PermissionKind::StateRead => "state.read"@,
            PermissionKind::FsRead => "fs.read"@,
            PermissionKind::FsWrite => "fs.write"@,
            PermissionKind::Exec => "exec"@,
            PermissionKind::Notify => "notify"@,
            PermissionKind::Machine => "machine"@,
            PermissionKind::Hyprland => "hyprland"@,
            PermissionKind::Widget => "widget"@,
            PermissionKind::Bluetooth => "bluetooth"@,
            PermissionKind::ProfileActivate => "profile.activate"@,
        }
    }

    /// The name of the kind.
    pub fn name(self) -> (r: &'static str)
        ensures
            r@ == self.spec_name(),
    {
        match self {
            PermissionKind::StateRead => "state.read",
            PermissionKind::FsRead => "fs.read",
            PermissionKind::FsWrite => "fs.write",
            PermissionKind::Exec => "exec",
            PermissionKind::Notify => "notify",
            PermissionKind::Machine => "machine",
            PermissionKind::Hyprland => "hyprland",
            PermissionKind::Widget => "widget",
            PermissionKind::Bluetooth => "bluetooth",
            PermissionKind::ProfileActivate => "profile.activate",
        }
    }
}

/// Something that a module was granted, and where: below which path, or for
/// which program.
#[derive(Debug)]
pub struct ModulePermission {
    pub kind: PermissionKind,
    pub path: Option<String>,
    pub bin: Option<String>,
}

/// What a permission stands for.
#[verifier::ext_equal]
pub struct PermissionView {
    pub kind: PermissionKind,
    pub path: Option<Seq<char>>,
    pub bin: Option<Seq<char>>,
}

impl DeepView for ModulePermission {
    type V = PermissionView;

    open spec fn deep_view(&self) -> PermissionView {
        PermissionView {
            kind: self.kind,
            path: self.path.deep_view(),
            bin: self.bin.deep_view(),
        }
    }
}

impl ModulePermission {
    /// The permission once more.
    pub fn duplicate(&self) -> (r: ModulePermission)
        ensures
            r.deep_view() == self.deep_view(),
    {
        ModulePermission { kind: self.kind, path: self.path.clone(), bin: self.bin.clone() }
    }
}

impl Snapshot for ModulePermission {
    open spec fn json(v: PermissionView) -> Json {
        snapshot::with_text(
            snapshot::with_text(
                Json::empty().with("type"@, Json::Text(v.kind.spec_name())),
                "path"@,
                v.path,
            ),
            "bin"@,
            v.bin,
        )
    }

    fn to_value(&self) -> JsonValue {
        let named = JsonValue::empty().with("type", JsonValue::of_text(self.kind.name()));
        let with_path = match &self.path {
            Some(p) => named.with("path", JsonValue::of_text(p.as_str())),
            None => named,
        };
        match &self.bin {
            Some(b) => with_path.with("bin", JsonValue::of_text(b.as_str())),
            None => with_path,
        }
    }
}

fn duplicate_permissions(v: &Vec<ModulePermission>) -> (r: Vec<ModulePermission>)
    ensures
        r.deep_view() == v.deep_view(),
{
    let mut r: Vec<ModulePermission> = Vec::new();
    let mut i: usize = 0;
    while i < v.len()
        invariant
            i <= v.len(),
            r.deep_view() =~= v.deep_view().take(i as int),
        decreases v.len() - i,
    {
        let ghost so_far = r.deep_view();
        let p = v[i].duplicate();
        let ghost view = p.deep_view();
        r.push(p);
        assert(r.deep_view() =~= so_far.push(view));
        assert(v.deep_view().take(i + 1) =~= v.deep_view().take(i as int).push(view));
        i += 1;
    }
    assert(v.deep_view().take(v@.len() as int) =~= v.deep_view());
    r
}

/// A module with a list of grants, be it empty, runs in a process of its own;
/// one without such a list runs among the others.
pub fn runs_apart(permissions: &Option<Vec<ModulePermission>>) -> (r: bool)
    ensures
        r == (permissions is Some),
{
    permissions.is_some()
}

/// How the start of a module's process ended.
#[derive(Debug)]
pub enum ModuleHostOutcome {
    Ready,
    LoadError(String),
}

/// What an outcome stands for.
pub enum HostOutcomeView {
    Ready,
    LoadError(Seq<char>),
}

impl DeepView for ModuleHostOutcome {
    type V = HostOutcomeView;

    open spec fn deep_view(&self) -> HostOutcomeView {
        match self {
            ModuleHostOutcome::Ready => HostOutcomeView::Ready,
            ModuleHostOutcome::LoadError(e) => HostOutcomeView::LoadError(e@),
        }
    }
}

/// A module whose process was started and has not yet said which it is.
#[derive(Debug)]
pub struct PendingModuleHost {
    pub module_name: String,
    pub permissions: Vec<ModulePermission>,
}

/// What a module that is waited for stands for.
#[verifier::ext_equal]
pub struct PendingView {
    pub module_name: Seq<char>,
    pub permissions: Seq<PermissionView>,
}

impl DeepView for PendingModuleHost {
    type V = PendingView;

    open spec fn deep_view(&self) -> PendingView {
        PendingView {
            module_name: self.module_name@,
            permissions: self.permissions.deep_view(),
        }
    }
}

/// The processes of modules: those that are waited for, by the token that each
/// was given, and those that run, by the name of the module.
#[derive(Debug)]
pub struct ModuleHostRegistry {
    pub pending: Table<PendingModuleHost>,
    pub active: Table<u32>,
}

/// What the registry stands for.
#[verifier::ext_equal]
pub struct RegistryView {
    pub pending: Map<Seq<char>, PendingView>,
    pub active: Map<Seq<char>, u32>,
}

impl View for ModuleHostRegistry {
    type V = RegistryView;

    open spec fn view(&self) -> RegistryView {
        RegistryView { pending: self.pending@, active: self.active@ }
    }
}

impl RegistryView {
    /// The registry without processes.
    pub open spec fn empty() -> RegistryView {
        RegistryView { pending: Map::empty(), active: Map::empty() }
    }

    /// The registry after a module's process is waited for.
    pub open spec fn awaiting(self, token: Seq<char>, p: PendingView) -> RegistryView {
        RegistryView { pending: self.pending.insert(token, p), ..self }
    }

    /// What is waited for under a token.
    pub open spec fn behind(self, token: Seq<char>) -> Option<PendingView> {
        if self.pending.contains_key(token) {
            Some(self.pending[token])
        } else {
            None
        }
    }

    /// The registry after a token was used.
    pub open spec fn used(self, token: Seq<char>) -> RegistryView {
        RegistryView { pending: self.pending.remove(token), ..self }
    }
}

impl Default for ModuleHostRegistry {
    fn default() -> (r: Self)
        ensures
            r@ == RegistryView::empty(),
    {
        ModuleHostRegistry::new()
    }
}

impl ModuleHostRegistry {
    /// The registry without processes.
    pub fn new() -> (r: Self)
        ensures
            r@ == RegistryView::empty(),
    {
        ModuleHostRegistry { pending: Table::new(), active: Table::new() }
    }

    /// Waits for a module's process under a token.
    pub fn insert_pending(&mut self, token: String, pending: PendingModuleHost)
        ensures
            final(self)@ == old(self)@.awaiting(token@, pending.deep_view()),
    {
        self.pending.insert(token, pending);
    }

    /// Uses up a token: gives what is waited for under it, and forgets it.
    pub fn take_pending(&mut self, token: &str) -> (r: Option<PendingModuleHost>)
        ensures
            r.deep_view() == old(self)@.behind(token@),
            final(self)@ == old(self)@.used(token@),
    {
        self.pending.remove(token)
    }

    /// Notes that a module's process runs.
    pub fn insert_active(&mut self, name: String, pid: u32)
        ensures
            final(self)@ == (RegistryView {
                active: old(self)@.active.insert(name@, pid),
                ..old(self)@
            }),
    {
        self.active.insert(name, pid);
    }

    /// Notes that a module's process has ended.
    pub fn remove_active(&mut self, name: &str)
        ensures
            final(self)@ == (RegistryView {
                active: old(self)@.active.remove(name@),
                ..old(self)@
            }),
    {
        let _ = self.active.remove(name);
    }

    /// The process of a module that still runs, which is to be ended before
    /// another is started for it.
    pub fn existing(&self, name: &str) -> (r: Option<u32>)
        ensures
            match r {
                Some(pid) => self@.active.contains_key(name@) && self@.active[name@] == pid,
                None => !self@.active.contains_key(name@),
            },
    {
        match self.active.get(name) {
            Some(pid) => Some(*pid),
            None => None,
        }
    }

    /// All processes that still run, which are to be ended with the daemon.
    pub fn shutdown_all(&self) -> (r: Vec<u32>)
        ensures
            forall|name: Seq<char>| #[trigger]
                self@.active.contains_key(name) ==> r@.contains(self@.active[name]),
            forall|pid: u32| #[trigger]
                r@.contains(pid) ==> exists|name: Seq<char>| #[trigger]
                    self@.active.contains_key(name) && self@.active[name] == pid,
    {
        let names = self.active.names();
        let ghost all = names.deep_view();
        let mut r: Vec<u32> = Vec::new();
        let mut i: usize = 0;
        while i < names.len()
            invariant
                i <= names.len(),
                all == names.deep_view(),
                all.to_set() == self@.active.dom(),
                r.len() == i,
                forall|k: int|
                    0 <= k < i ==> self@.active.contains_key(#[trigger] all[k]) && r@[k]
                        == self@.active[all[k]],
            decreases names.len() - i,
        {
            assert(all[i as int] == names@[i as int]@);
            assert(all.contains(all[i as int]));
            assert(all.to_set().contains(all[i as int]));
            match self.active.get(names[i].as_str()) {
                Some(pid) => r.push(*pid),
                None => {
                    assert(false);
                },
            }
            i += 1;
        }
        proof {
            assert forall|name: Seq<char>| #[trigger] self@.active.contains_key(name) implies r@.contains(
                self@.active[name],
            ) by {
                assert(all.to_set().contains(name));
                let k = choose|k: int| 0 <= k < all.len() && all[k] == name;
                assert(r@[k] == self@.active[name]);
            }
            assert forall|pid: u32| #[trigger] r@.contains(pid) implies exists|name: Seq<char>|
                #[trigger] self@.active.contains_key(name) && self@.active[name] == pid by {
                let k = choose|k: int| 0 <= k < r@.len() && r@[k] == pid;
                assert(self@.active.contains_key(all[k]));
            }
        }
        r
    }
}

/// `uuid::Uuid::new_v4` makes a random identifier; written out by its `Display`
/// it is 36 characters long. Which one it is is left to chance.
#[verifier::external_body]
pub(crate) fn random_token() -> (r: String)
    ensures
        r@.len() == 36,
{
    uuid::Uuid::new_v4().to_string()
}

/// What a kernel rule lets a process do with the files below a path.
#[derive(Debug, Clone, Copy, PartialEq, Eq, Structural)]
pub enum Access {
    /// Reading files.
    ReadFile,
    /// Reading files and directories.
    Read,
    /// Reading and running files.
    Run,
    /// What the dynamic linker needs of the directories of libraries.
    Link,
    /// Reading and writing files, and making files and directories.
    Write,
}

/// The single rights that an access is made of.
#[derive(Debug, Clone, Copy, PartialEq, Eq, Structural)]
pub struct Rights {
    pub read_file: bool,
    pub read_dir: bool,
    pub execute: bool,
    pub write_file: bool,
    pub make_file: bool,
    pub make_dir: bool,
}

impl Access {
    /// The single rights that the access is made of.
    pub open spec fn spec_rights(self) -> Rights {
        Rights {
            read_file: true,
            read_dir: self == Access::Read || self == Access::Link || self == Access::Write,
            execute: self == Access::Run || self == Access::Link,
            write_file: self == Access::Write,
            make_file: self == Access::Write,
            make_dir: self == Access::Write,
        }
    }

    /// The single rights that the access is made of.
    pub fn rights(self) -> (r: Rights)
        ensures
            r == self.spec_rights(),
    {
        let writes = self == Access::Write;
        Rights {
            read_file: true,
            read_dir: self == Access::Read || self == Access::Link || writes,
            execute: self == Access::Run || self == Access::Link,
            write_file: writes,
            make_file: writes,
            make_dir: writes,
        }
    }
}

/// A rule that the kernel is given for a process. What is not there is passed
/// over.
#[derive(Debug)]
pub struct SandboxRule {
    pub path: String,
    pub access: Access,
    /// What the rule is for, in messages.
    pub label: String,
}

/// What a rule stands for.
#[verifier::ext_equal]
pub struct SandboxRuleView {
    pub path: Seq<char>,
    pub access: Access,
    pub label: Seq<char>,
}

impl DeepView for SandboxRule {
    type V = SandboxRuleView;

    open spec fn deep_view(&self) -> SandboxRuleView {
        SandboxRuleView {
            path: self.path@,
            access: self.access,
            label: self.label@,
        }
    }
}

/// A rule for a path.
pub open spec fn path_rule(path: Seq<char>, access: Access, label: Seq<char>) -> SandboxRuleView {
    SandboxRuleView { path, access, label }
}

/// What every process of a module needs: the libraries, its own program, and the
/// directory of the module.
pub open spec fn baseline_rules(program: Seq<char>, entry: Seq<char>) -> Seq<SandboxRuleView> {
    seq![
        path_rule("/usr/lib"@, Access::Link, "rule for /usr/lib"@),
        path_rule("/usr/lib64"@, Access::Link, "rule for /usr/lib64"@),
        path_rule("/lib"@, Access::Link, "rule for /lib"@),
        path_rule("/lib64"@, Access::Link, "rule for /lib64"@),
        path_rule("/etc/ld.so.cache"@, Access::ReadFile, "rule for /etc/ld.so.cache"@),
        path_rule("/etc/ld.so.preload"@, Access::ReadFile, "rule for /etc/ld.so.preload"@),
        path_rule(program, Access::Run, "rule for module-host binary"@),
    ] + (match paths::parent(entry) {
        Some(dir) => seq![path_rule(dir, Access::Read, "rule for module directory "@ + dir)],
        None => Seq::empty(),
    })
}

/// The rule that a permission stands for. Without a path, or a program that was
/// found, there is nothing that a rule could be tied to.
pub open spec fn granted_rule(
    p: PermissionView,
    program: Option<Seq<char>>,
    home: Option<Seq<char>>,
) -> Option<SandboxRuleView> {
    match (p.kind, p.path, p.bin, program) {
        (PermissionKind::FsRead, Some(path), _, _) => {
            let full = config::tilde_expanded(path, home);
            Some(path_rule(full, Access::Read, "fs.read rule for "@ + full))
        },
        (PermissionKind::FsWrite, Some(path), _, _) => {
            let full = config::tilde_expanded(path, home);
            Some(path_rule(full, Access::Write, "fs.write rule for "@ + full))
        },
        (PermissionKind::Exec, _, Some(bin), Some(found)) => Some(
            path_rule(found, Access::Run, "exec rule for "@ + found),
        ),
        _ => None,
    }
}

/// The rules that the permissions stand for, given where the program of each was
/// found.
pub open spec fn granted_rules(
    perms: Seq<PermissionView>,
    programs: Seq<Option<Seq<char>>>,
    home: Option<Seq<char>>,
) -> Seq<SandboxRuleView>
    decreases perms.len(),
{
    if perms.len() == 0 {
        Seq::empty()
    } else {
        let rest = granted_rules(perms.drop_last(), programs, home);
        match granted_rule(perms.last(), programs[perms.len() - 1], home) {
            Some(r) => rest.push(r),
            None => rest,
        }
    }
}

fn push_rule(rules: &mut Vec<SandboxRule>, path: &str, access: Access, label: String)
    ensures
        final(rules).deep_view() == old(rules).deep_view().push(path_rule(path@, access, label@)),
{
    let ghost before = rules.deep_view();
    let rule = SandboxRule { path: path.to_owned(), access, label };
    let ghost view = rule.deep_view();
    rules.push(rule);
    assert(rules.deep_view() =~= before.push(view));
}

fn make_granted_rule(
    p: &ModulePermission,
    program: &Option<String>,
    home: Option<&str>,
) -> (r: Option<SandboxRule>)
    ensures
        r.deep_view() == granted_rule(p.deep_view(), program.deep_view(), home.deep_view()),
{
    match (p.kind, &p.path, &p.bin, program) {
        (PermissionKind::FsRead, Some(path), _, _) => {
            let full = config::lua_expand_path(path.as_str(), home);
            let label = text::concat("fs.read rule for ", full.as_str());
            Some(SandboxRule { path: full, access: Access::Read, label })
        },
        (PermissionKind::FsWrite, Some(path), _, _) => {
            let full = config::lua_expand_path(path.as_str(), home);
            let label = text::concat("fs.write rule for ", full.as_str());
            Some(SandboxRule { path: full, access: Access::Write, label })
        },
        (PermissionKind::Exec, _, Some(_), Some(found)) => Some(
            SandboxRule {
                path: found.clone(),
                access: Access::Run,
                label: text::concat("exec rule for ", found.as_str()),
            },
        ),
        _ => None,
    }
}

/// The rules that the kernel is given for the process of a module: what every
/// such process needs, and what the module was granted. `programs` says of each
/// permission where its program was found.
pub fn sandbox_rules(
    program: &str,
    entry: &str,
    permissions: &Vec<ModulePermission>,
    programs: &Vec<Option<String>>,
    home: Option<&str>,
) -> (r: Vec<SandboxRule>)
    requires
        programs.len() == permissions.len(),
    ensures
        r.deep_view() == baseline_rules(program@, entry@) + granted_rules(
            permissions.deep_view(),
            programs.deep_view(),
            home.deep_view(),
        ),
{
    let mut r: Vec<SandboxRule> = Vec::new();
    push_rule(&mut r, "/usr/lib", Access::Link, "rule for /usr/lib".to_owned());
    push_rule(&mut r, "/usr/lib64", Access::Link, "rule for /usr/lib64".to_owned());
    push_rule(&mut r, "/lib", Access::Link, "rule for /lib".to_owned());
    push_rule(&mut r, "/lib64", Access::Link, "rule for /lib64".to_owned());
    push_rule(
        &mut r,
        "/etc/ld.so.cache",
        Access::ReadFile,
        "rule for /etc/ld.so.cache".to_owned(),
    );
    push_rule(
        &mut r,
        "/etc/ld.so.preload",
        Access::ReadFile,
        "rule for /etc/ld.so.preload".to_owned(),
    );
    push_rule(&mut r, program, Access::Run, "rule for module-host binary".to_owned());
    if let Some(dir) = paths::parent_of(entry) {
        let label = text::concat("rule for module directory ", dir.as_str());
        push_rule(&mut r, dir.as_str(), Access::Read, label);
    }
    let ghost base = baseline_rules(program@, entry@);
    assert(r.deep_view() =~= base);
    let ghost all = permissions.deep_view();
    let ghost found = programs.deep_view();
    let mut i: usize = 0;
    assert(all.take(0) =~= Seq::empty());
    assert(r.deep_view() =~= base + granted_rules(all.take(0), found, home.deep_view()));
    while i < permissions.len()
        invariant
            i <= permissions.len(),
            programs.len() == permissions.len(),
            all == permissions.deep_view(),
            found == programs.deep_view(),
            r.deep_view() == base + granted_rules(all.take(i as int), found, home.deep_view()),
        decreases permissions.len() - i,
    {
        let ghost so_far = r.deep_view();
        let ghost grants = granted_rules(all.take(i as int), found, home.deep_view());
        proof {
            assert(all.take(i + 1).drop_last() =~= all.take(i as int));
            assert(all.take(i + 1).last() == permissions@[i as int].deep_view());
            assert(found[i as int] == programs@[i as int].deep_view());
        }
        if let Some(rule) = make_granted_rule(&permissions[i], &programs[i], home) {
            let ghost view = rule.deep_view();
            r.push(rule);
            assert(r.deep_view() =~= so_far.push(view));
            assert(base + grants.push(view) =~= (base + grants).push(view));
        }
        i += 1;
    }
    assert(all.take(all.len() as int) =~= all);
    r
}

/// Where a program is looked for: at its path, or by its name in the directories
/// of the search path.
pub open spec fn candidates(bin: Seq<char>, search: Option<Seq<char>>) -> Seq<Seq<char>> {
    if paths::absolute(bin) {
        seq![bin]
    } else {
        match search {
            Some(s) => text::split(s, ':').map_values(|dir: Seq<char>| paths::joined(dir, bin)),
            None => Seq::empty(),
        }
    }
}

/// Where a program is looked for.
pub fn bin_candidates(bin: &str, search: Option<&str>) -> (r: Vec<String>)
    ensures
        r.deep_view() == candidates(bin@, search.deep_view()),
{
    let v = text::chars_of(bin);
    let mut r: Vec<String> = Vec::new();
    if v.len() > 0 && v[0] == '/' {
        r.push(bin.to_owned());
        assert(r.deep_view() =~= seq![bin@]);
        return r;
    }
    match search {
        None => {
            assert(r.deep_view() =~= Seq::empty());
        },
        Some(s) => {
            let dirs = text::split_on(s, ':');
            let mut i: usize = 0;
            while i < dirs.len()
                invariant
                    i <= dirs.len(),
                    r.len() == i,
                    forall|k: int|
                        0 <= k < i ==> (#[trigger] r@[k])@ == paths::joined(dirs@[k]@, bin@),
                decreases dirs.len() - i,
            {
                r.push(paths::join(dirs[i].as_str(), bin));
                i += 1;
            }
            assert(r.deep_view() =~= text::split(s@, ':').map_values(
                |dir: Seq<char>| paths::joined(dir, bin@),
            ));
        },
    }
    r
}

/// The path that a program is taken to have: an absolute one as it is, else the
/// first of those that are files. `is_file` says of each place whether there is
/// one.
pub fn resolve_bin_path(bin: &str, places: &Vec<String>, is_file: &Vec<bool>) -> (r: Option<String>)
    requires
        is_file.len() == places.len(),
    ensures
        match r {
            Some(p) => (paths::absolute(bin@) && p@ == bin@) || (!paths::absolute(bin@) && exists|
                i: int,
            |
                {
                    &&& 0 <= i < places.len()
                    &&& is_file@[i]
                    &&& p@ == (#[trigger] places@[i])@
                    &&& forall|k: int| 0 <= k < i ==> !#[trigger] is_file@[k]
                }),
            None => !paths::absolute(bin@) && forall|k: int|
                0 <= k < places.len() ==> !#[trigger] is_file@[k],
        },
{
    let v = text::chars_of(bin);
    if v.len() > 0 && v[0] == '/' {
        return Some(bin.to_owned());
    }
    let mut i: usize = 0;
    while i < places.len()
        invariant
            i <= places.len(),
            is_file.len() == places.len(),
            !paths::absolute(bin@),
            forall|k: int| 0 <= k < i ==> !#[trigger] is_file@[k],
        decreases places.len() - i,
    {
        if is_file[i] {
            let p = places[i].clone();
            assert(p@ == places@[i as int]@);
            return Some(p);
        }
        i += 1;
    }
    None
}

/// How the process of a module is to be started.
#[derive(Debug)]
pub struct SpawnPlan {
    /// A process of the module that still runs and is to be ended first.
    pub terminate: Option<u32>,
    /// The token under which the process is waited for.
    pub token: String,
    pub program: String,
    /// The variables of its environment.
    pub env: Vec<(String, String)>,
    pub rules: Vec<SandboxRule>,
}

/// The variables that the process of a module is given.
pub open spec fn host_env(
    token: Seq<char>,
    entry: Seq<char>,
    socket: Seq<char>,
    module: Seq<char>,
) -> Seq<(Seq<char>, Seq<char>)> {
    seq![
        ("BREAD_MODULE_TOKEN"@, token),
        ("BREAD_MODULE_ENTRY"@, entry),
        ("BREAD_MODULE_SOCKET"@, socket),
        ("BREAD_MODULE_NAME"@, module),
    ]
}

/// The plan is the one for starting the module's process under the token.
pub open spec fn is_plan(
    p: SpawnPlan,
    before: RegistryView,
    token: Seq<char>,
    module: Seq<char>,
    entry: Seq<char>,
    permissions: Seq<PermissionView>,
    programs: Seq<Option<Seq<char>>>,
    socket: Seq<char>,
    program: Seq<char>,
    home: Option<Seq<char>>,
) -> bool {
    &&& p.token@ == token
    &&& p.program@ == program
    &&& p.env.deep_view() == host_env(token, entry, socket, module)
    &&& p.rules.deep_view() == baseline_rules(program, entry) + granted_rules(
        permissions,
        programs,
        home,
    )
    &&& match p.terminate {
        Some(pid) => before.active.contains_key(module) && before.active[module] == pid,
        None => !before.active.contains_key(module),
    }
}

/// Prepares the start of a module's process that is to prove itself by the given
/// token.
pub fn prepare_spawn(
    registry: &mut ModuleHostRegistry,
    token: String,
    module_name: &str,
    entry_path: &str,
    permissions: &Vec<ModulePermission>,
    programs: &Vec<Option<String>>,
    socket_path: &str,
    program: &str,
    home: Option<&str>,
) -> (r: SpawnPlan)
    requires
        programs.len() == permissions.len(),
    ensures
        final(registry)@ == old(registry)@.awaiting(
            token@,
            (PendingView { module_name: module_name@, permissions: permissions.deep_view() }),
        ),
        is_plan(
            r,
            old(registry)@,
            token@,
            module_name@,
            entry_path@,
            permissions.deep_view(),
            programs.deep_view(),
            socket_path@,
            program@,
            home.deep_view(),
        ),
{
    let terminate = registry.existing(module_name);
    registry.insert_pending(
        token.clone(),
        PendingModuleHost {
            module_name: module_name.to_owned(),
            permissions: duplicate_permissions(permissions),
        },
    );
    let mut env: Vec<(String, String)> = Vec::new();
    env.push(("BREAD_MODULE_TOKEN".to_owned(), token.clone()));
    env.push(("BREAD_MODULE_ENTRY".to_owned(), entry_path.to_owned()));
    env.push(("BREAD_MODULE_SOCKET".to_owned(), socket_path.to_owned()));
    env.push(("BREAD_MODULE_NAME".to_owned(), module_name.to_owned()));
    assert(env.deep_view() =~= host_env(token@, entry_path@, socket_path@, module_name@));
    SpawnPlan {
        terminate,
        token,
        program: program.to_owned(),
        env,
        rules: sandbox_rules(program, entry_path, permissions, programs, home),
    }
}

/// Prepares the start of a module's process, which is to prove itself by a fresh
/// token.
pub fn spawn_module_host(
    registry: &mut ModuleHostRegistry,
    module_name: &str,
    entry_path: &str,
    permissions: &Vec<ModulePermission>,
    programs: &Vec<Option<String>>,
    socket_path: &str,
    program: &str,
    home: Option<&str>,
) -> (r: SpawnPlan)
    requires
        programs.len() == permissions.len(),
    ensures
        r.token@.len() == 36,
        final(registry)@ == old(registry)@.awaiting(
            r.token@,
            (PendingView { module_name: module_name@, permissions: permissions.deep_view() }),
        ),
        is_plan(
            r,
            old(registry)@,
            r.token@,
            module_name@,
            entry_path@,
            permissions.deep_view(),
            programs.deep_view(),
            socket_path@,
            program@,
            home.deep_view(),
        ),
{
    prepare_spawn(
        registry,
        random_token(),
        module_name,
        entry_path,
        permissions,
        programs,
        socket_path,
        program,
        home,
    )
}

/// What is said of a process that could not be started; nobody waits for it any
/// more.
pub fn spawn_failed(
    registry: &mut ModuleHostRegistry,
    token: &str,
    program: &str,
    error: &str,
) -> (r: String)
    ensures
        final(registry)@ == old(registry)@.used(token@),
        r@ == "failed to spawn bread-module-host at "@ + program@ + ": "@ + error@,
{
    let _ = registry.take_pending(token);
    text::concat(
        text::concat3("failed to spawn bread-module-host at ", program, ": ").as_str(),
        error,
    )
}

/// The outcome for a process that did not say in time that it is ready; nobody
/// waits for it any more.
pub fn not_ready(registry: &mut ModuleHostRegistry, token: &str, module_name: &str) -> (r:
    ModuleHostOutcome)
    ensures
        final(registry)@ == old(registry)@.used(token@),
        r.deep_view() == HostOutcomeView::LoadError(
            "module-host for '"@ + module_name@ + "' did not report ready within 25s"@,
        ),
        r.deep_view() == late_outcome(module_name@),
{
    let _ = registry.take_pending(token);
    ModuleHostOutcome::LoadError(
        text::concat3("module-host for '", module_name, "' did not report ready within 25s"),
    )
}

/// The first characters of a name, for use in the name of a thread.
pub fn short(name: &str) -> (r: String)
    ensures
        r@ == (if name@.len() <= 12 {
            name@
        } else {
            name@.subrange(0, 12)
        }),
{
    let v = text::chars_of(name);
    if v.len() <= 12 {
        name.to_owned()
    } else {
        text::slice(&v, 0, 12)
    }
}

/// How a process has ended.
#[derive(Debug)]
pub enum Exit {
    /// By itself, with a code.
    Code(i32),
    /// By a signal.
    Signal(i32),
    /// In a way that is not known.
    Unknown,
    /// It could not be waited for.
    Failed(String),
}

/// What is said of the end of a process, with its code and its signal.
pub open spec fn exit_reason(exit: Exit) -> (Seq<char>, Option<i32>, Option<i32>) {
    match exit {
        Exit::Code(c) => (
            "exited with code "@ + text::signed_decimal(c as int),
            Some(c),
            None,
        ),
        Exit::Signal(s) => (
            "killed by signal "@ + text::signed_decimal(s as int),
            None,
            Some(s),
        ),
        Exit::Unknown => ("exited (unknown reason)"@, None, None),
        Exit::Failed(e) => ("wait() failed: "@ + e@, None, None),
    }
}

/// What is said of the end of a process, with its code and its signal.
pub fn describe_exit(exit: &Exit) -> (r: (String, Option<i32>, Option<i32>))
    ensures
        (r.0@, r.1, r.2) == exit_reason(*exit),
{
    match exit {
        Exit::Code(c) => (
            text::concat("exited with code ", text::decimal_i64(*c as i64).as_str()),
            Some(*c),
            None,
        ),
        Exit::Signal(s) => (
            text::concat("killed by signal ", text::decimal_i64(*s as i64).as_str()),
            None,
            Some(*s),
        ),
        Exit::Unknown => ("exited (unknown reason)".to_owned(), None, None),
        Exit::Failed(e) => (text::concat("wait() failed: ", e.as_str()), None, None),
    }
}

/// The number, or null.
pub open spec fn integer_or_null(n: Option<i32>) -> Json {
    match n {
        Some(n) => snapshot::integer_json(n as int),
        None => Json::Null,
    }
}

fn number_or_null(n: Option<i32>) -> (r: JsonValue)
    ensures
        r@ == integer_or_null(n),
{
    match n {
        Some(n) => snapshot::integer_value(n as i64),
        None => JsonValue::Null,
    }
}

/// The event that tells that the process of a module has ended; the module is
/// no longer among those that run.
pub fn process_ended(
    registry: &mut ModuleHostRegistry,
    module_name: &str,
    pid: u32,
    exit: &Exit,
    now: u64,
) -> (r: BreadEvent)
    ensures
        final(registry)@ == (RegistryView {
            active: old(registry)@.active.remove(module_name@),
            ..old(registry)@
        }),
        r.deep_view() == ({
            let (reason, code, signal) = exit_reason(*exit);
            EventView {
                event: "bread.module.crashed"@,
                timestamp: now,
                source: Source::System,
                data: Json::empty().with("module"@, Json::Text(module_name@)).with(
                    "pid"@,
                    Json::Num(Numeral::PosInt(pid as u64)),
                ).with("reason"@, Json::Text(reason)).with(
                    "exit_code"@,
                    integer_or_null(code),
                ).with("signal"@, integer_or_null(signal)),
            }
        }),
{
    registry.remove_active(module_name);
    let (reason, code, signal) = describe_exit(exit);
    BreadEvent::new(
        "bread.module.crashed",
        AdapterSource::System,
        JsonValue::empty().with("module", JsonValue::of_text(module_name)).with(
            "pid",
            JsonValue::of_u64(pid as u64),
        ).with("reason", JsonValue::of_text(reason.as_str())).with(
            "exit_code",
            number_or_null(code),
        ).with("signal", number_or_null(signal)),
        now,
    )
}

/// The program of a module's process: the one beside the daemon's own, where it
/// is there, else the one that the search path gives.
pub fn resolve_module_host_binary(own_program: Option<&str>, beside_exists: bool) -> (r: String)
    ensures
        r@ == (match own_program.deep_view() {
            Some(exe) => match paths::parent(exe) {
                Some(dir) if beside_exists => paths::joined(dir, "bread-module-host"@),
                _ => "bread-module-host"@,
            },
            None => "bread-module-host"@,
        }),
{
    if let Some(exe) = own_program {
        if let Some(dir) = paths::parent_of(exe) {
            if beside_exists {
                return paths::join(dir.as_str(), "bread-module-host");
            }
        }
    }
    "bread-module-host".to_owned()
}

/// A token is good once: whoever comes first with it is taken for the module
/// that it was made for, and nobody after that.
pub proof fn law_token_is_used_once(before: RegistryView, token: Seq<char>, p: PendingView)
    ensures
        before.awaiting(token, p).behind(token) == Some(p),
        before.awaiting(token, p).used(token).behind(token) is None,
{
}

/// A token that was never given out, or was used, proves nothing; and using it
/// changes nothing.
pub proof fn law_unknown_token_proves_nothing(r: RegistryView, token: Seq<char>)
    requires
        !r.pending.contains_key(token),
    ensures
        r.behind(token) is None,
        r.used(token) == r,
{
    assert(r.pending.remove(token) =~= r.pending);
}

/// The use of one token leaves the others as they were.
pub proof fn law_tokens_are_separate(r: RegistryView, token: Seq<char>, other: Seq<char>)
    requires
        other != token,
    ensures
        r.used(token).behind(other) == r.behind(other),
{
}

proof fn lemma_granted_rules(
    perms: Seq<PermissionView>,
    programs: Seq<Option<Seq<char>>>,
    home: Option<Seq<char>>,
    k: int,
)
    requires
        0 <= k < granted_rules(perms, programs, home).len(),
    ensures
        exists|i: int|
            0 <= i < perms.len() && granted_rule(#[trigger] perms[i], programs[i], home) == Some(
                granted_rules(perms, programs, home)[k],
            ),
    decreases perms.len(),
{
    let rest = perms.drop_last();
    let rules = granted_rules(rest, programs, home);
    if k < rules.len() {
        lemma_granted_rules(rest, programs, home, k);
        let i = choose|i: int|
            0 <= i < rest.len() && granted_rule(#[trigger] rest[i], programs[i], home) == Some(
                rules[k],
            );
        assert(perms[i] == rest[i]);
    } else {
        assert(perms[perms.len() - 1] == perms.last());
    }
}

/// The kernel lets the process of a module write only where the module was
/// granted to write.
pub proof fn law_writing_is_granted(
    program: Seq<char>,
    entry: Seq<char>,
    perms: Seq<PermissionView>,
    programs: Seq<Option<Seq<char>>>,
    home: Option<Seq<char>>,
    rule: SandboxRuleView,
)
    requires
        (baseline_rules(program, entry) + granted_rules(perms, programs, home)).contains(rule),
        ({
            let rights = rule.access.spec_rights();
            rights.write_file || rights.make_file || rights.make_dir
        }),
    ensures
        exists|i: int|
            {
                &&& 0 <= i < perms.len()
                &&& (#[trigger] perms[i]).kind == PermissionKind::FsWrite
                &&& perms[i].path matches Some(p) && rule.path == config::tilde_expanded(p, home)
            },
{
    let base = baseline_rules(program, entry);
    let grants = granted_rules(perms, programs, home);
    let k = choose|k: int| 0 <= k < (base + grants).len() && (base + grants)[k] == rule;
    if k < base.len() {
        assert(base[k] == rule);
        assert(rule.access != Access::Write);
    } else {
        let j = k - base.len();
        assert(grants[j] == rule);
        lemma_granted_rules(perms, programs, home, j);
        let i = choose|i: int|
            0 <= i < perms.len() && granted_rule(#[trigger] perms[i], programs[i], home) == Some(
                grants[j],
            );
        assert(perms[i].kind == PermissionKind::FsWrite);
    }
}

/// Without a grant to run a program, the kernel lets the process of a module run
/// only what lies in the directories of libraries, and its own program.
pub proof fn law_running_is_granted(
    program: Seq<char>,
    entry: Seq<char>,
    perms: Seq<PermissionView>,
    programs: Seq<Option<Seq<char>>>,
    home: Option<Seq<char>>,
    rule: SandboxRuleView,
)
    requires
        (baseline_rules(program, entry) + granted_rules(perms, programs, home)).contains(rule),
        rule.access.spec_rights().execute,
        forall|i: int| 0 <= i < perms.len() ==> (#[trigger] perms[i]).kind != PermissionKind::Exec,
    ensures
        rule.path == program || rule.path == "/usr/lib"@ || rule.path == "/usr/lib64"@ || rule.path
            == "/lib"@ || rule.path == "/lib64"@,
{
    let base = baseline_rules(program, entry);
    let grants = granted_rules(perms, programs, home);
    let k = choose|k: int| 0 <= k < (base + grants).len() && (base + grants)[k] == rule;
    if k < base.len() {
        assert(base[k] == rule);
    } else {
        let j = k - base.len();
        assert(grants[j] == rule);
        lemma_granted_rules(perms, programs, home, j);
    }
}

/// A permission is written under `type` by its name, with its path under `path` and
/// its program under `bin` where it has them.
pub proof fn law_permission_form(v: PermissionView)
    ensures
        v.kind == PermissionKind::StateRead ==>
            <ModulePermission as Snapshot>::json(v).get("type"@)
            == Some(Json::Text("state.read"@)),
        v.kind == PermissionKind::FsRead ==>
            <ModulePermission as Snapshot>::json(v).get("type"@) == Some(Json::Text("fs.read"@)),
        v.kind == PermissionKind::FsWrite ==>
            <ModulePermission as Snapshot>::json(v).get("type"@) == Some(Json::Text("fs.write"@)),
        v.kind == PermissionKind::Exec ==>
            <ModulePermission as Snapshot>::json(v).get("type"@) == Some(Json::Text("exec"@)),
        v.kind == PermissionKind::Notify ==>
            <ModulePermission as Snapshot>::json(v).get("type"@) == Some(Json::Text("notify"@)),
        v.kind == PermissionKind::Machine ==>
            <ModulePermission as Snapshot>::json(v).get("type"@) == Some(Json::Text("machine"@)),
        v.kind == PermissionKind::Hyprland ==>
            <ModulePermission as Snapshot>::json(v).get("type"@) == Some(Json::Text("hyprland"@)),
        v.kind == PermissionKind::Widget ==>
            <ModulePermission as Snapshot>::json(v).get("type"@) == Some(Json::Text("widget"@)),
        v.kind == PermissionKind::Bluetooth ==>
            <ModulePermission as Snapshot>::json(v).get("type"@)
            == Some(Json::Text("bluetooth"@)),
        v.kind == PermissionKind::ProfileActivate ==>
            <ModulePermission as Snapshot>::json(v).get("type"@)
            == Some(Json::Text("profile.activate"@)),
        v.path matches Some(p) ==>
            <ModulePermission as Snapshot>::json(v).get("path"@) == Some(Json::Text(p)),
        v.bin matches Some(b) ==>
            <ModulePermission as Snapshot>::json(v).get("bin"@) == Some(Json::Text(b)),
        v.path is None ==> <ModulePermission as Snapshot>::json(v).get("path"@) is None,
        v.bin is None ==> <ModulePermission as Snapshot>::json(v).get("bin"@) is None,
{
    reveal_strlit("type");
    reveal_strlit("path");
    reveal_strlit("bin");
    assert("type"@.len() == 4);
    assert("path"@.len() == 4);
    assert("bin"@.len() == 3);
    assert("type"@[0] != "path"@[0]);
}

/// A grant to read files opens its path for reading, and one to write files for
/// reading and writing; neither for running. A grant to run a program opens the file
/// where it was found for reading and running. No other grant opens anything.
pub proof fn law_grants_open_their_paths(
    p: PermissionView,
    path: Seq<char>,
    bin: Seq<char>,
    found: Seq<char>,
    program: Option<Seq<char>>,
    home: Option<Seq<char>>,
)
    ensures
        p.kind == PermissionKind::FsRead && p.path == Some(path) ==>
            (granted_rule(p, program, home) matches Some(r)
            && r.path == config::tilde_expanded(path, home)
            && r.access.spec_rights().read_file && r.access.spec_rights().read_dir
                && !r.access.spec_rights().execute
            && !r.access.spec_rights().write_file && !r.access.spec_rights().make_file
                && !r.access.spec_rights().make_dir),
        p.kind == PermissionKind::FsWrite && p.path == Some(path) ==>
            (granted_rule(p, program, home) matches Some(r)
            && r.path == config::tilde_expanded(path, home)
            && r.access.spec_rights().read_file && r.access.spec_rights().read_dir
                && !r.access.spec_rights().execute
            && r.access.spec_rights().write_file && r.access.spec_rights().make_file
                && r.access.spec_rights().make_dir),
        p.kind == PermissionKind::Exec && p.bin == Some(bin) && program == Some(found) ==>
            (granted_rule(p, program, home) matches Some(r) && r.path == found
            && r.access.spec_rights().read_file && !r.access.spec_rights().read_dir
                && r.access.spec_rights().execute
            && !r.access.spec_rights().write_file && !r.access.spec_rights().make_file
                && !r.access.spec_rights().make_dir),
        p.kind != PermissionKind::FsRead && p.kind != PermissionKind::FsWrite
            && p.kind != PermissionKind::Exec ==> granted_rule(p, program, home) is None,
        p.kind == PermissionKind::Exec && program is None ==>
            granted_rule(p, program, home) is None,
{
}

/// Every grant's rule is among the rules of the process.
pub proof fn law_every_grant_has_its_rule(
    perms: Seq<PermissionView>,
    programs: Seq<Option<Seq<char>>>,
    home: Option<Seq<char>>,
    i: int,
)
    requires
        0 <= i < perms.len(),
        granted_rule(perms[i], programs[i], home) is Some,
    ensures
        granted_rules(perms, programs, home).contains(granted_rule(perms[i], programs[i],
            home)->0),
    decreases perms.len(),
{
    let rule = granted_rule(perms[i], programs[i], home)->0;
    let rest = granted_rules(perms.drop_last(), programs, home);
    let all = granted_rules(perms, programs, home);
    if i < perms.len() - 1 {
        assert(perms.drop_last()[i] == perms[i]);
        law_every_grant_has_its_rule(perms.drop_last(), programs, home, i);
        let k = choose|k: int| 0 <= k < rest.len() && rest[k] == rule;
        assert(all[k] == rule);
    } else {
        assert(all[rest.len() as int] == rule);
    }
}

/// Without any grant a process reads and runs its own program and the shared
/// libraries, reads the two files of the dynamic linker, and reads the directory of
/// its module.
pub proof fn law_every_process_may_run(program: Seq<char>, entry: Seq<char>, dir: Seq<char>)
    ensures
        may(baseline_rules(program, entry), program, true, false),
        may(baseline_rules(program, entry), "/usr/lib"@, true, true),
        may(baseline_rules(program, entry), "/usr/lib64"@, true, true),
        may(baseline_rules(program, entry), "/lib"@, true, true),
        may(baseline_rules(program, entry), "/lib64"@, true, true),
        may(baseline_rules(program, entry), "/etc/ld.so.cache"@, false, false),
        may(baseline_rules(program, entry), "/etc/ld.so.preload"@, false, false),
        paths::parent(entry) == Some(dir) ==>
            may(baseline_rules(program, entry), dir, false, true),
        baseline_rules(program, entry).len()
            == (if paths::parent(entry) is Some { 8int } else { 7 }),
{
    let rules = baseline_rules(program, entry);
    assert(rules[0].path == "/usr/lib"@);
    assert(rules[1].path == "/usr/lib64"@);
    assert(rules[2].path == "/lib"@);
    assert(rules[3].path == "/lib64"@);
    assert(rules[4].path == "/etc/ld.so.cache"@);
    assert(rules[5].path == "/etc/ld.so.preload"@);
    assert(rules[6].path == program);
    if paths::parent(entry) is Some {
        assert(rules[7].path == paths::parent(entry)->0);
    }
}

/// Whether one of the rules opens the path for reading files, for running them or not
/// and for listing directories or not, and for nothing else.
pub open spec fn may(rules: Seq<SandboxRuleView>, path: Seq<char>, run: bool,
    list: bool) -> bool {
    exists|i: int|
        {
            &&& 0 <= i < rules.len()
            &&& (#[trigger] rules[i]).path == path
            &&& rules[i].access.spec_rights().read_file
            &&& rules[i].access.spec_rights().execute == run
            &&& rules[i].access.spec_rights().read_dir == list
            &&& !rules[i].access.spec_rights().write_file
            &&& !rules[i].access.spec_rights().make_file
            &&& !rules[i].access.spec_rights().make_dir
        }
}

/// The process learns its token, the file of its module, the socket and its name from
/// the variables of its environment.
pub proof fn law_processes_learn_who_they_are(
    p: SpawnPlan,
    before: RegistryView,
    token: Seq<char>,
    module: Seq<char>,
    entry: Seq<char>,
    permissions: Seq<PermissionView>,
    programs: Seq<Option<Seq<char>>>,
    socket: Seq<char>,
    program: Seq<char>,
    home: Option<Seq<char>>,
)
    requires
        is_plan(p, before, token, module, entry, permissions, programs, socket, program, home),
    ensures
        p.env.deep_view().contains(("BREAD_MODULE_TOKEN"@, token)),
        p.env.deep_view().contains(("BREAD_MODULE_ENTRY"@, entry)),
        p.env.deep_view().contains(("BREAD_MODULE_SOCKET"@, socket)),
        p.env.deep_view().contains(("BREAD_MODULE_NAME"@, module)),
        p.env.len() == 4,
        p.token@ == token,
        p.program@ == program,
        forall|pid: u32| #![trigger before.active.insert(module, pid)] p.terminate == Some(pid)
            <==> before.active.contains_key(module)
            && before.active[module] == pid,
        may(p.rules.deep_view(), program, true, false),
{
    let env = p.env.deep_view();
    assert(env[0] == ("BREAD_MODULE_TOKEN"@, token));
    assert(env[1] == ("BREAD_MODULE_ENTRY"@, entry));
    assert(env[2] == ("BREAD_MODULE_SOCKET"@, socket));
    assert(env[3] == ("BREAD_MODULE_NAME"@, module));
    assert(env.len() == p.env.len());
    assert(p.rules.deep_view()[6] == baseline_rules(program, entry)[6]);
}

/// What is said of the end of a process tells its code or its signal, whichever there
/// was, as a number and in words.
pub proof fn law_ends_are_told_apart(n: i32, e: String)
    ensures
        exit_reason(Exit::Code(n)).1 == Some(n),
        exit_reason(Exit::Code(n)).2 is None,
        exit_reason(Exit::Code(n)).0 == "exited with code "@ + text::signed_decimal(n as int),
        exit_reason(Exit::Signal(n)).1 is None,
        exit_reason(Exit::Signal(n)).2 == Some(n),
        exit_reason(Exit::Signal(n)).0 == "killed by signal "@ + text::signed_decimal(n as int),
        exit_reason(Exit::Unknown).1 is None,
        exit_reason(Exit::Unknown).2 is None,
        exit_reason(Exit::Unknown).0 == "exited (unknown reason)"@,
        exit_reason(Exit::Failed(e)).1 is None,
        exit_reason(Exit::Failed(e)).2 is None,
        exit_reason(Exit::Failed(e)).0 == "wait() failed: "@ + e@,
{
}

/// A program that is named by its whole path is looked for there alone; any other in
/// each directory of the search path, in order.
pub proof fn law_programs_are_looked_for_in_order(bin: Seq<char>, search: Seq<char>, i: int)
    ensures
        paths::absolute(bin) ==> candidates(bin, Some(search)) == seq![bin]
            && candidates(bin, None) == seq![bin],
        !paths::absolute(bin) ==> candidates(bin, None).len() == 0
            && candidates(bin, Some(search)).len() == text::split(search, ':').len(),
        !paths::absolute(bin) && 0 <= i < text::split(search, ':').len() ==>
            candidates(bin, Some(search))[i] == paths::joined(text::split(search, ':')[i], bin),
{
}

/// What is told of a module that did not say in time that it is ready.
pub open spec fn late_outcome(module: Seq<char>) -> HostOutcomeView {
    HostOutcomeView::LoadError("module-host for '"@ + module + "' did not report ready within 25s"@)
}

/// A module that is late was not loaded, and the message tells which and how long it had.
pub proof fn law_late_modules_are_named(module: Seq<char>)
    ensures
        late_outcome(module) == HostOutcomeView::LoadError(
            "module-host for '"@ + module + "' did not report ready within "@ + text::decimal(READY_TIMEOUT_SECS as nat) + "s"@,
        ),
{
    reveal_strlit("' did not report ready within 25s");
    reveal_strlit("' did not report ready within ");
    reveal_strlit("s");
    reveal_with_fuel(text::decimal, 3);
    assert(text::decimal(25) =~= seq!['2', '5']);
    let head = "module-host for '"@ + module;
    assert(head + "' did not report ready within 25s"@ =~= head + "' did not report ready within "@ + text::decimal(25) + "s"@);
}

/// Every rule says in its label what it is for.
pub proof fn law_rules_say_what_they_are_for(
    program: Seq<char>,
    entry: Seq<char>,
    p: PermissionView,
    found: Option<Seq<char>>,
    home: Option<Seq<char>>,
    i: int,
)
    ensures
        0 <= i < 6 ==>
            baseline_rules(program, entry)[i].label == "rule for "@ + baseline_rules(program,
            entry)[i].path,
        baseline_rules(program, entry)[6].label == "rule for module-host binary"@,
        i == 7 && i < baseline_rules(program, entry).len() ==>
            baseline_rules(program, entry)[i].label
            == "rule for module directory "@ + baseline_rules(program, entry)[i].path,
        granted_rule(p, found, home) matches Some(r) ==> {
            &&& p.kind == PermissionKind::FsRead ==> r.label == "fs.read rule for "@ + r.path
            &&& p.kind == PermissionKind::FsWrite ==> r.label == "fs.write rule for "@ + r.path
            &&& p.kind == PermissionKind::Exec ==> r.label == "exec rule for "@ + r.path
        },
{
    reveal_strlit("rule for ");
    reveal_strlit("/usr/lib");
    reveal_strlit("rule for /usr/lib");
    assert("rule for /usr/lib"@ =~= "rule for "@ + "/usr/lib"@);
    reveal_strlit("/usr/lib64");
    reveal_strlit("rule for /usr/lib64");
    assert("rule for /usr/lib64"@ =~= "rule for "@ + "/usr/lib64"@);
    reveal_strlit("/lib");
    reveal_strlit("rule for /lib");
    assert("rule for /lib"@ =~= "rule for "@ + "/lib"@);
    reveal_strlit("/lib64");
    reveal_strlit("rule for /lib64");
    assert("rule for /lib64"@ =~= "rule for "@ + "/lib64"@);
    reveal_strlit("/etc/ld.so.cache");
    reveal_strlit("rule for /etc/ld.so.cache");
    assert("rule for /etc/ld.so.cache"@ =~= "rule for "@ + "/etc/ld.so.cache"@);
    reveal_strlit("/etc/ld.so.preload");
    reveal_strlit("rule for /etc/ld.so.preload");
    assert("rule for /etc/ld.so.preload"@ =~= "rule for "@ + "/etc/ld.so.preload"@);
    let rules = baseline_rules(program, entry);
    assert(rules[0].path == "/usr/lib"@ && rules[1].path == "/usr/lib64"@
        && rules[2].path == "/lib"@);
    assert(rules[3].path == "/lib64"@ && rules[4].path == "/etc/ld.so.cache"@
        && rules[5].path == "/etc/ld.so.preload"@);
}

} // verus!
