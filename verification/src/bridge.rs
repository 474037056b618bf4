//! The conversation with a module that runs in a process of its own.

use crate::config;
use crate::events::{BreadEvent, EventView, Source};
use crate::glob;
use crate::ipc::{self, IpcResponse};
use crate::json::{self, Json, JsonValue, Numeral};
use crate::loading::{StatusChange, StatusView};
use crate::module_host::{
    self, HostOutcomeView, ModuleHostOutcome, ModuleHostRegistry, ModulePermission, PermissionKind,
    PermissionView,
};
use crate::paths;
use crate::snapshot::{self, Snapshot};
use crate::text;
use crate::types::{ModuleLoadState, RuntimeState, RuntimeView};
use crate::wire;
use vstd::prelude::*;

verus! {

/// A conversation with a module: what it was granted, and whether it has said
/// how its loading went.
#[derive(Debug)]
pub struct HostSession {
    pub module: String,
    pub permissions: Vec<ModulePermission>,
    pub reported: bool,
}

/// What a conversation stands for.
#[verifier::ext_equal]
pub struct SessionView {
    pub module: Seq<char>,
    pub permissions: Seq<PermissionView>,
    pub reported: bool,
}

impl View for HostSession {
    type V = SessionView;

    open spec fn view(&self) -> SessionView {
        SessionView {
            module: self.module@,
            permissions: self.permissions.deep_view(),
            reported: self.reported,
        }
    }
}

/// The answer to a module that has proved which it is.
pub open spec fn hello_json(
    module: Seq<char>,
    permissions: Seq<PermissionView>,
    api_version: Seq<char>,
) -> Json {
    Json::empty().with("module"@, Json::Text(module)).with(
        "permissions"@,
        snapshot::list_json::<ModulePermission>(permissions),
    ).with("api_version"@, Json::Text(api_version))
}

/// Begins a conversation with whoever has a good token, which is used up by
/// that. Anyone else is refused.
pub fn hello(
    registry: &mut ModuleHostRegistry,
    id: String,
    params: &JsonValue,
    api_version: &str,
) -> (r: (IpcResponse, Option<HostSession>))
    ensures
        match params@.text("token"@) {
            None => {
                &&& r.0.deep_view() == ipc::answer(id@, Err("module_host.hello: missing token"@))
                &&& r.1 is None
                &&& final(registry)@ == old(registry)@
            },
            Some(token) => {
                &&& final(registry)@ == old(registry)@.used(token)
                &&& match old(registry)@.behind(token) {
                    None => {
                        &&& r.0.deep_view() == ipc::answer(
                            id@,
                            Err("invalid or expired module-host token"@),
                        )
                        &&& r.1 is None
                    },
                    Some(p) => {
                        &&& r.0.deep_view() == ipc::answer(
                            id@,
                            Ok(hello_json(p.module_name, p.permissions, api_version@)),
                        )
                        &&& r.1 matches Some(session) && session@ == (SessionView {
                            module: p.module_name,
                            permissions: p.permissions,
                            reported: false,
                        })
                    },
                }
            },
        },
{
    match params.text("token") {
        None => (
            ipc::respond(id, Err("module_host.hello: missing token".to_owned())),
            None,
        ),
        Some(token) => match registry.take_pending(token) {
            None => (
                ipc::respond(id, Err("invalid or expired module-host token".to_owned())),
                None,
            ),
            Some(p) => {
                let reply = JsonValue::empty().with(
                    "module",
                    JsonValue::of_text(p.module_name.as_str()),
                ).with("permissions", snapshot::list_value(&p.permissions)).with(
                    "api_version",
                    JsonValue::of_text(api_version),
                );
                (
                    ipc::respond(id, Ok(reply)),
                    Some(
                        HostSession {
                            module: p.module_name,
                            permissions: p.permissions,
                            reported: false,
                        },
                    ),
                )
            },
        },
    }
}

/// The module was granted something of the kind.
pub open spec fn granted(perms: Seq<PermissionView>, kind: PermissionKind) -> bool {
    exists|i: int| 0 <= i < perms.len() && (#[trigger] perms[i]).kind == kind
}

fn is_granted(perms: &Vec<ModulePermission>, kind: PermissionKind) -> (r: bool)
    ensures
        r == granted(perms.deep_view(), kind),
{
    let mut i: usize = 0;
    while i < perms.len()
        invariant
            i <= perms.len(),
            forall|k: int| 0 <= k < i ==> (#[trigger] perms.deep_view()[k]).kind != kind,
        decreases perms.len() - i,
    {
        assert(perms.deep_view()[i as int] == perms@[i as int].deep_view());
        if perms[i].kind == kind {
            return true;
        }
        i += 1;
    }
    false
}

/// The grant is of the kind and tied to a path.
pub open spec fn tied_to_path(p: PermissionView, kind: PermissionKind) -> bool {
    p.kind == kind && p.path is Some
}

/// The grant is of the kind and covers the path.
pub open spec fn covers_path(
    p: PermissionView,
    kind: PermissionKind,
    path: Seq<char>,
    home: Option<Seq<char>>,
) -> bool {
    tied_to_path(p, kind) && paths::is_below(
        config::tilde_expanded(path, home),
        config::tilde_expanded(p.path->0, home),
    )
}

/// The path lies where the grants of the kind allow it: below one of their
/// paths, or anywhere where none of them is tied to a path.
pub open spec fn path_in_scope(
    perms: Seq<PermissionView>,
    kind: PermissionKind,
    path: Seq<char>,
    home: Option<Seq<char>>,
) -> bool {
    (exists|i: int| 0 <= i < perms.len() && covers_path(#[trigger] perms[i], kind, path, home))
        || (forall|i: int| 0 <= i < perms.len() ==> !tied_to_path(#[trigger] perms[i], kind))
}

/// Whether the path lies where the grants of the kind allow it.
pub fn path_allowed(
    perms: &Vec<ModulePermission>,
    kind: PermissionKind,
    path: &str,
    home: Option<&str>,
) -> (r: bool)
    ensures
        r == path_in_scope(perms.deep_view(), kind, path@, home.deep_view()),
{
    let full = config::lua_expand_path(path, home);
    let ghost all = perms.deep_view();
    let mut tied = false;
    let mut i: usize = 0;
    while i < perms.len()
        invariant
            i <= perms.len(),
            all == perms.deep_view(),
            full@ == config::tilde_expanded(path@, home.deep_view()),
            tied == exists|k: int| 0 <= k < i && tied_to_path(#[trigger] all[k], kind),
            forall|k: int|
                0 <= k < i ==> !covers_path(#[trigger] all[k], kind, path@, home.deep_view()),
        decreases perms.len() - i,
    {
        assert(all[i as int] == perms@[i as int].deep_view());
        if perms[i].kind == kind {
            if let Some(hint) = &perms[i].path {
                assert(tied_to_path(all[i as int], kind));
                let below = config::lua_expand_path(hint.as_str(), home);
                if paths::starts_with(full.as_str(), below.as_str()) {
                    assert(covers_path(all[i as int], kind, path@, home.deep_view()));
                    return true;
                }
                tied = true;
            }
        }
        i += 1;
    }
    !tied
}

/// The first word of a command line, or nothing.
pub open spec fn first_word(cmd: Seq<char>) -> Seq<char> {
    let w = text::words(cmd);
    if w.len() > 0 {
        w[0]
    } else {
        Seq::empty()
    }
}

/// The name of a program without its directory.
pub open spec fn program_name(s: Seq<char>) -> Seq<char> {
    match paths::leaf(s) {
        Some(name) => name,
        None => s,
    }
}

/// The grant is to run a given program.
pub open spec fn tied_to_program(p: PermissionView) -> bool {
    p.kind == PermissionKind::Exec && p.bin is Some
}

/// The grant covers the program that a command line runs.
pub open spec fn covers_program(p: PermissionView, cmd: Seq<char>) -> bool {
    tied_to_program(p) && (program_name(first_word(cmd)) == program_name(p.bin->0) || first_word(
        cmd,
    ) == p.bin->0)
}

/// The command line runs a program that the grants allow: one of those that they
/// name, or any where none of them names one.
pub open spec fn program_in_scope(perms: Seq<PermissionView>, cmd: Seq<char>) -> bool {
    (exists|i: int| 0 <= i < perms.len() && covers_program(#[trigger] perms[i], cmd)) || (forall|
        i: int,
    |
        0 <= i < perms.len() ==> !tied_to_program(#[trigger] perms[i]))
}

fn name_of_program(s: &str) -> (r: String)
    ensures
        r@ == program_name(s@),
{
    match paths::file_name(s) {
        Some(name) => name,
        None => s.to_owned(),
    }
}

fn first_word_of(cmd: &str) -> (r: String)
    ensures
        r@ == first_word(cmd@),
{
    let w = text::words_of(cmd);
    assert(w.deep_view().len() == w@.len());
    if w.len() > 0 {
        assert(w.deep_view()[0] == w@[0]@);
        w[0].clone()
    } else {
        let r = String::new();
        assert(r@ =~= Seq::empty());
        r
    }
}

/// Whether the command line runs a program that the grants allow.
pub fn bin_allowed(perms: &Vec<ModulePermission>, cmd: &str) -> (r: bool)
    ensures
        r == program_in_scope(perms.deep_view(), cmd@),
{
    let word = first_word_of(cmd);
    let name = name_of_program(word.as_str());
    let ghost all = perms.deep_view();
    let mut tied = false;
    let mut i: usize = 0;
    while i < perms.len()
        invariant
            i <= perms.len(),
            all == perms.deep_view(),
            word@ == first_word(cmd@),
            name@ == program_name(word@),
            tied == exists|k: int| 0 <= k < i && tied_to_program(#[trigger] all[k]),
            forall|k: int| 0 <= k < i ==> !covers_program(#[trigger] all[k], cmd@),
        decreases perms.len() - i,
    {
        assert(all[i as int] == perms@[i as int].deep_view());
        if perms[i].kind == PermissionKind::Exec {
            if let Some(hint) = &perms[i].bin {
                assert(tied_to_program(all[i as int]));
                let hint_name = name_of_program(hint.as_str());
                if text::same(name.as_str(), hint_name.as_str()) || text::same(
                    word.as_str(),
                    hint.as_str(),
                ) {
                    assert(covers_program(all[i as int], cmd@));
                    return true;
                }
                tied = true;
            }
        }
        i += 1;
    }
    !tied
}

/// How loud a message of a module is.
#[derive(Debug, Clone, Copy, PartialEq, Eq, Structural)]
pub enum LogLevel {
    Info,
    Warn,
    Error,
}

/// What is to be done to answer a module.
#[derive(Debug)]
pub enum HostStep {
    /// The answer is there.
    Done(Result<JsonValue, String>),
    /// Events that match are to be pushed, all or only the first.
    Subscribe { id: String, pattern: String, once: bool, reply: JsonValue },
    /// Events are no longer to be pushed.
    Unsubscribe { id: String, reply: JsonValue },
    /// A timer is to be started.
    StartTimer { id: String, delay_ms: u64, repeating: bool, reply: JsonValue },
    /// A timer is to be stopped.
    CancelTimer { id: String, reply: JsonValue },
    /// The event is to be sent before the answer is given.
    Publish { event: BreadEvent, reply: JsonValue },
    /// The message is to be written to the log.
    Log { level: LogLevel, message: String, reply: JsonValue },
    /// The file is to be read.
    ReadFile { path: String },
    /// The file is to be written.
    WriteFile { path: String, content: String },
    /// The command is to be run, without waiting for it.
    Run { cmd: String, reply: JsonValue },
    /// The command is to be run and waited for.
    Capture { cmd: String, wait_ms: u64 },
    /// It is to be noted how the loading went, and told to who waits for it.
    Report { note: StatusChange, outcome: Option<ModuleHostOutcome>, reply: JsonValue },
}

/// What a step stands for.
pub enum HostStepView {
    Done(Result<Json, Seq<char>>),
    Subscribe(Seq<char>, Seq<char>, bool, Json),
    Unsubscribe(Seq<char>, Json),
    StartTimer(Seq<char>, u64, bool, Json),
    CancelTimer(Seq<char>, Json),
    Publish(EventView, Json),
    Log(LogLevel, Seq<char>, Json),
    ReadFile(Seq<char>),
    WriteFile(Seq<char>, Seq<char>),
    Run(Seq<char>, Json),
    Capture(Seq<char>, u64),
    Report(StatusView, Option<HostOutcomeView>, Json),
}

impl DeepView for HostStep {
    type V = HostStepView;

    open spec fn deep_view(&self) -> HostStepView {
        match self {
            HostStep::Done(r) => HostStepView::Done(ipc::outcome_view(*r)),
            HostStep::Subscribe { id, pattern, once, reply } => HostStepView::Subscribe(
                id@,
                pattern@,
                *once,
                reply@,
            ),
            HostStep::Unsubscribe { id, reply } => HostStepView::Unsubscribe(id@, reply@),
            HostStep::StartTimer { id, delay_ms, repeating, reply } => HostStepView::StartTimer(
                id@,
                *delay_ms,
                *repeating,
                reply@,
            ),
            HostStep::CancelTimer { id, reply } => HostStepView::CancelTimer(id@, reply@),
            HostStep::Publish { event, reply } => HostStepView::Publish(event.deep_view(), reply@),
            HostStep::Log { level, message, reply } => HostStepView::Log(*level, message@, reply@),
            HostStep::ReadFile { path } => HostStepView::ReadFile(path@),
            HostStep::WriteFile { path, content } => HostStepView::WriteFile(path@, content@),
            HostStep::Run { cmd, reply } => HostStepView::Run(cmd@, reply@),
            HostStep::Capture { cmd, wait_ms } => HostStepView::Capture(cmd@, *wait_ms),
            HostStep::Report { note, outcome, reply } => HostStepView::Report(
                note.deep_view(),
                outcome.deep_view(),
                reply@,
            ),
        }
    }
}

/// The answer that says only that all went well.
pub open spec fn ok_json() -> Json {
    Json::empty().with("ok"@, Json::Bool(true))
}

fn ok_reply() -> (r: JsonValue)
    ensures
        r@ == ok_json(),
{
    JsonValue::empty().with("ok", JsonValue::Bool(true))
}

/// A refusal.
pub open spec fn refused(message: Seq<char>) -> HostStepView {
    HostStepView::Done(Err(message))
}

fn refuse(message: &str) -> (r: HostStep)
    ensures
        r.deep_view() == refused(message@),
{
    HostStep::Done(Err(message.to_owned()))
}

/// What a request for events calls for.
pub open spec fn subscribe_step(params: Json, once: bool, fresh: Seq<char>) -> HostStepView {
    match params.text("pattern"@) {
        None => refused("missing pattern"@),
        Some(pattern) => HostStepView::Subscribe(
            fresh,
            pattern,
            once,
            Json::empty().with("subscription_id"@, Json::Text(fresh)),
        ),
    }
}

fn subscribe(params: &JsonValue, once: bool, fresh: &str) -> (r: HostStep)
    ensures
        r.deep_view() == subscribe_step(params@, once, fresh@),
{
    match params.text("pattern") {
        None => refuse("missing pattern"),
        Some(pattern) => HostStep::Subscribe {
            id: fresh.to_owned(),
            pattern: pattern.to_owned(),
            once,
            reply: JsonValue::empty().with("subscription_id", JsonValue::of_text(fresh)),
        },
    }
}

/// The milliseconds that a request names, at least one.
pub open spec fn delay_of(params: Json, key: Seq<char>) -> u64 {
    match params.unsigned(key) {
        Some(n) => if n > 1 {
            n
        } else {
            1
        },
        None => 1,
    }
}

fn delay_in(params: &JsonValue, key: &str) -> (r: u64)
    ensures
        r == delay_of(params@, key@),
{
    match params.unsigned(key) {
        Some(n) => if n > 1 {
            n
        } else {
            1
        },
        None => 1,
    }
}

/// What a request for a timer calls for.
pub open spec fn timer_step(params: Json, repeating: bool, fresh: Seq<char>) -> HostStepView {
    let key = if repeating {
        "interval_ms"@
    } else {
        "delay_ms"@
    };
    HostStepView::StartTimer(
        fresh,
        delay_of(params, key),
        repeating,
        Json::empty().with("timer_id"@, Json::Text(fresh)),
    )
}

fn start_timer(params: &JsonValue, repeating: bool, fresh: &str) -> (r: HostStep)
    ensures
        r.deep_view() == timer_step(params@, repeating, fresh@),
{
    let key = if repeating {
        "interval_ms"
    } else {
        "delay_ms"
    };
    HostStep::StartTimer {
        id: fresh.to_owned(),
        delay_ms: delay_in(params, key),
        repeating,
        reply: JsonValue::empty().with("timer_id", JsonValue::of_text(fresh)),
    }
}

/// What a request for a part of the state calls for.
pub open spec fn state_step(params: Json, perms: Seq<PermissionView>, s: RuntimeView) -> HostStepView {
    if !granted(perms, PermissionKind::StateRead) {
        refused("state.read not granted to this module"@)
    } else {
        match ipc::looked_up(s, params.text_or("key"@, Seq::empty())) {
            Ok(v) => HostStepView::Done(Ok(Json::empty().with("value"@, v))),
            Err(e) => refused(e),
        }
    }
}

fn get_state(params: &JsonValue, perms: &Vec<ModulePermission>, state: &RuntimeState) -> (r: HostStep)
    ensures
        r.deep_view() == state_step(params@, perms.deep_view(), state@),
{
    if !is_granted(perms, PermissionKind::StateRead) {
        return refuse("state.read not granted to this module");
    }
    proof {
        reveal_strlit("");
        assert(""@ =~= Seq::empty());
    }
    let key = params.text_or("key", "");
    match ipc::look_up(state, key.as_str()) {
        Ok(v) => HostStep::Done(Ok(JsonValue::empty().with("value", v))),
        Err(e) => HostStep::Done(Err(e)),
    }
}

/// What a request to publish calls for.
pub open spec fn publish_step(params: Json, now: u64) -> HostStepView {
    match params.text("event"@) {
        None => refused("missing event"@),
        Some(event) => match ipc::manual(event, ipc::data_of(params), now) {
            Err(e) => refused(e),
            Ok(e) => HostStepView::Publish(e, ipc::emitted()),
        },
    }
}

fn publish(params: &JsonValue, now: u64) -> (r: HostStep)
    ensures
        r.deep_view() == publish_step(params@, now),
{
    match params.text("event") {
        None => refuse("missing event"),
        Some(event) => {
            let data = match params.get("data") {
                Some(v) => v.duplicate(),
                None => JsonValue::empty(),
            };
            match ipc::manual_emit(event, data, now) {
                Err(e) => HostStep::Done(Err(e)),
                Ok(event) => HostStep::Publish {
                    event,
                    reply: JsonValue::empty().with("emitted", JsonValue::Bool(true)),
                },
            }
        },
    }
}

/// What a message for the log calls for.
pub open spec fn log_step(params: Json, level: LogLevel) -> HostStepView {
    HostStepView::Log(level, params.text_or("message"@, Seq::empty()), ok_json())
}

fn log(params: &JsonValue, level: LogLevel) -> (r: HostStep)
    ensures
        r.deep_view() == log_step(params@, level),
{
    proof {
        reveal_strlit("");
        assert(""@ =~= Seq::empty());
    }
    HostStep::Log { level, message: params.text_or("message", ""), reply: ok_reply() }
}

/// What is said of a path outside of what was granted.
pub open spec fn out_of_scope(path: Seq<char>, kind: PermissionKind) -> HostStepView {
    refused("path '"@ + path + "' is outside this module's granted "@ + kind.spec_name() + " scope"@)
}

fn refuse_path(path: &str, kind: PermissionKind) -> (r: HostStep)
    ensures
        r.deep_view() == out_of_scope(path@, kind),
{
    let head = text::concat3("path '", path, "' is outside this module's granted ");
    HostStep::Done(Err(text::concat3(head.as_str(), kind.name(), " scope")))
}

/// What a request to read a file calls for.
pub open spec fn read_step(
    params: Json,
    perms: Seq<PermissionView>,
    home: Option<Seq<char>>,
) -> HostStepView {
    if !granted(perms, PermissionKind::FsRead) {
        refused("fs.read not granted to this module"@)
    } else {
        match params.text("path"@) {
            None => refused("missing path"@),
            Some(path) => if path_in_scope(perms, PermissionKind::FsRead, path, home) {
                HostStepView::ReadFile(config::tilde_expanded(path, home))
            } else {
                out_of_scope(path, PermissionKind::FsRead)
            },
        }
    }
}

fn read_file(params: &JsonValue, perms: &Vec<ModulePermission>, home: Option<&str>) -> (r: HostStep)
    ensures
        r.deep_view() == read_step(params@, perms.deep_view(), home.deep_view()),
{
    if !is_granted(perms, PermissionKind::FsRead) {
        return refuse("fs.read not granted to this module");
    }
    match params.text("path") {
        None => refuse("missing path"),
        Some(path) => if path_allowed(perms, PermissionKind::FsRead, path, home) {
            HostStep::ReadFile { path: config::lua_expand_path(path, home) }
        } else {
            refuse_path(path, PermissionKind::FsRead)
        },
    }
}

/// What a request to write a file calls for.
pub open spec fn write_step(
    params: Json,
    perms: Seq<PermissionView>,
    home: Option<Seq<char>>,
) -> HostStepView {
    if !granted(perms, PermissionKind::FsWrite) {
        refused("fs.write not granted to this module"@)
    } else {
        match params.text("path"@) {
            None => refused("missing path"@),
            Some(path) => if path_in_scope(perms, PermissionKind::FsWrite, path, home) {
                HostStepView::WriteFile(
                    config::tilde_expanded(path, home),
                    params.text_or("content"@, Seq::empty()),
                )
            } else {
                out_of_scope(path, PermissionKind::FsWrite)
            },
        }
    }
}

fn write_file(params: &JsonValue, perms: &Vec<ModulePermission>, home: Option<&str>) -> (r: HostStep)
    ensures
        r.deep_view() == write_step(params@, perms.deep_view(), home.deep_view()),
{
    if !is_granted(perms, PermissionKind::FsWrite) {
        return refuse("fs.write not granted to this module");
    }
    proof {
        reveal_strlit("");
        assert(""@ =~= Seq::empty());
    }
    match params.text("path") {
        None => refuse("missing path"),
        Some(path) => if path_allowed(perms, PermissionKind::FsWrite, path, home) {
            HostStep::WriteFile {
                path: config::lua_expand_path(path, home),
                content: params.text_or("content", ""),
            }
        } else {
            refuse_path(path, PermissionKind::FsWrite)
        },
    }
}

/// The command line that a request names, where the module may run it.
pub open spec fn command_of(params: Json, perms: Seq<PermissionView>) -> Result<
    Seq<char>,
    Seq<char>,
> {
    if !granted(perms, PermissionKind::Exec) {
        Err("exec not granted to this module"@)
    } else {
        match params.text("cmd"@) {
            None => Err("missing cmd"@),
            Some(cmd) => if program_in_scope(perms, cmd) {
                Ok(cmd)
            } else {
                Err("command is outside this module's granted exec bin scope"@)
            },
        }
    }
}

fn command_in(params: &JsonValue, perms: &Vec<ModulePermission>) -> (r: Result<String, String>)
    ensures
        match r {
            Ok(s) => command_of(params@, perms.deep_view()) == Ok::<Seq<char>, Seq<char>>(s@),
            Err(e) => command_of(params@, perms.deep_view()) == Err::<Seq<char>, Seq<char>>(e@),
        },
{
    if !is_granted(perms, PermissionKind::Exec) {
        return Err("exec not granted to this module".to_owned());
    }
    match params.text("cmd") {
        None => Err("missing cmd".to_owned()),
        Some(cmd) => if bin_allowed(perms, cmd) {
            Ok(cmd.to_owned())
        } else {
            Err("command is outside this module's granted exec bin scope".to_owned())
        },
    }
}

/// The milliseconds that a captured command is waited for: what the request
/// allows, or two seconds, and half a second more.
pub open spec fn wait_of(params: Json) -> u64 {
    let ms = match params.unsigned("timeout_ms"@) {
        Some(n) => n,
        None => 2000,
    };
    if ms + 500 > u64::MAX {
        u64::MAX
    } else {
        (ms + 500) as u64
    }
}

/// The note on a module that has said how its loading went.
pub open spec fn report_note(module: Seq<char>, params: Json) -> StatusView {
    StatusView {
        name: module,
        status: if params.text("state"@) == Some("loaded"@) {
            ModuleLoadState::Loaded
        } else {
            ModuleLoadState::LoadError
        },
        last_error: params.text("error"@),
        builtin: false,
    }
}

/// The outcome of the loading that a module tells.
pub open spec fn report_outcome(params: Json) -> HostOutcomeView {
    if params.text("state"@) == Some("loaded"@) {
        HostOutcomeView::Ready
    } else {
        HostOutcomeView::LoadError(params.text_or("error"@, "module load failed"@))
    }
}

/// What it calls for that a module says how its loading went. Only the first
/// time it is told to who waits for it.
pub open spec fn report_step(session: SessionView, params: Json) -> HostStepView {
    HostStepView::Report(
        report_note(session.module, params),
        if session.reported {
            None
        } else {
            Some(report_outcome(params))
        },
        ok_json(),
    )
}

fn report(session: &HostSession, params: &JsonValue) -> (r: HostStep)
    ensures
        r.deep_view() == report_step(session@, params@),
{
    let loaded = match params.text("state") {
        Some(s) => text::same(s, "loaded"),
        None => false,
    };
    let outcome = if loaded {
        ModuleHostOutcome::Ready
    } else {
        ModuleHostOutcome::LoadError(params.text_or("error", "module load failed"))
    };
    HostStep::Report {
        note: StatusChange {
            name: session.module.clone(),
            status: if loaded {
                ModuleLoadState::Loaded
            } else {
                ModuleLoadState::LoadError
            },
            last_error: params.owned_text("error"),
            builtin: false,
        },
        outcome: if session.reported {
            None
        } else {
            Some(outcome)
        },
        reply: ok_reply(),
    }
}

/// What a request of a module calls for. `fresh` is the id of what is begun.
pub open spec fn host_step(
    method: Seq<char>,
    params: Json,
    session: SessionView,
    s: RuntimeView,
    home: Option<Seq<char>>,
    fresh: Seq<char>,
    now: u64,
) -> HostStepView {
    if method == "module_host.on"@ {
        subscribe_step(params, false, fresh)
    } else if method == "module_host.once"@ {
        subscribe_step(params, true, fresh)
    } else if method == "module_host.off"@ {
        match params.text("id"@) {
            None => refused("missing id"@),
            Some(id) => HostStepView::Unsubscribe(id, ok_json()),
        }
    } else if method == "module_host.after"@ {
        timer_step(params, false, fresh)
    } else if method == "module_host.every"@ {
        timer_step(params, true, fresh)
    } else if method == "module_host.cancel"@ {
        match params.text("id"@) {
            None => refused("missing id"@),
            Some(id) => HostStepView::CancelTimer(id, ok_json()),
        }
    } else if method == "module_host.state_get"@ {
        state_step(params, session.permissions, s)
    } else if method == "module_host.emit"@ {
        publish_step(params, now)
    } else if method == "module_host.log"@ {
        log_step(params, LogLevel::Info)
    } else if method == "module_host.warn"@ {
        log_step(params, LogLevel::Warn)
    } else if method == "module_host.error"@ {
        log_step(params, LogLevel::Error)
    } else if method == "module_host.fs_read"@ {
        read_step(params, session.permissions, home)
    } else if method == "module_host.fs_write"@ {
        write_step(params, session.permissions, home)
    } else if method == "module_host.exec"@ {
        match command_of(params, session.permissions) {
            Err(e) => refused(e),
            Ok(cmd) => HostStepView::Run(cmd, ok_json()),
        }
    } else if method == "module_host.exec_capture"@ {
        match command_of(params, session.permissions) {
            Err(e) => refused(e),
            Ok(cmd) => HostStepView::Capture(cmd, wait_of(params)),
        }
    } else if method == "module_host.status"@ {
        report_step(session, params)
    } else {
        refused("unknown module_host method: "@ + method)
    }
}

/// The conversation after a request that calls for a step.
pub open spec fn session_after(session: SessionView, step: HostStepView) -> SessionView {
    SessionView { reported: session.reported || step is Report, ..session }
}

/// What a request of a module calls for, where `fresh` is the id of what is
/// begun.
pub fn dispatch_with(
    session: &mut HostSession,
    method: &str,
    params: &JsonValue,
    state: &RuntimeState,
    home: Option<&str>,
    fresh: &str,
    now: u64,
) -> (r: HostStep)
    ensures
        r.deep_view() == host_step(
            method@,
            params@,
            old(session)@,
            state@,
            home.deep_view(),
            fresh@,
            now,
        ),
        final(session)@ == session_after(old(session)@, r.deep_view()),
{
    if text::same(method, "module_host.on") {
        subscribe(params, false, fresh)
    } else if text::same(method, "module_host.once") {
        subscribe(params, true, fresh)
    } else if text::same(method, "module_host.off") {
        match params.text("id") {
            None => refuse("missing id"),
            Some(id) => HostStep::Unsubscribe { id: id.to_owned(), reply: ok_reply() },
        }
    } else if text::same(method, "module_host.after") {
        start_timer(params, false, fresh)
    } else if text::same(method, "module_host.every") {
        start_timer(params, true, fresh)
    } else if text::same(method, "module_host.cancel") {
        match params.text("id") {
            None => refuse("missing id"),
            Some(id) => HostStep::CancelTimer { id: id.to_owned(), reply: ok_reply() },
        }
    } else if text::same(method, "module_host.state_get") {
        get_state(params, &session.permissions, state)
    } else if text::same(method, "module_host.emit") {
        publish(params, now)
    } else if text::same(method, "module_host.log") {
        log(params, LogLevel::Info)
    } else if text::same(method, "module_host.warn") {
        log(params, LogLevel::Warn)
    } else if text::same(method, "module_host.error") {
        log(params, LogLevel::Error)
    } else if text::same(method, "module_host.fs_read") {
        read_file(params, &session.permissions, home)
    } else if text::same(method, "module_host.fs_write") {
        write_file(params, &session.permissions, home)
    } else if text::same(method, "module_host.exec") {
        match command_in(params, &session.permissions) {
            Err(e) => HostStep::Done(Err(e)),
            Ok(cmd) => HostStep::Run { cmd, reply: ok_reply() },
        }
    } else if text::same(method, "module_host.exec_capture") {
        match command_in(params, &session.permissions) {
            Err(e) => HostStep::Done(Err(e)),
            Ok(cmd) => {
                let ms: u64 = match params.unsigned("timeout_ms") {
                    Some(n) => n,
                    None => 2000,
                };
                HostStep::Capture { cmd, wait_ms: ms.saturating_add(500) }
            },
        }
    } else if text::same(method, "module_host.status") {
        let step = report(session, params);
        session.reported = true;
        step
    } else {
        HostStep::Done(Err(text::concat("unknown module_host method: ", method)))
    }
}

/// What a request of a module calls for. What is begun gets a fresh id.
pub fn dispatch_module_host_method(
    session: &mut HostSession,
    method: &str,
    params: &JsonValue,
    state: &RuntimeState,
    home: Option<&str>,
    now: u64,
) -> (r: HostStep)
    ensures
        exists|fresh: Seq<char>|
            fresh.len() == 36 && r.deep_view() == #[trigger] host_step(
                method@,
                params@,
                old(session)@,
                state@,
                home.deep_view(),
                fresh,
                now,
            ),
        final(session)@ == session_after(old(session)@, r.deep_view()),
{
    let fresh = module_host::random_token();
    dispatch_with(session, method, params, state, home, fresh.as_str(), now)
}

/// The answer to a request to read a file: what is in it, or null.
pub fn read_reply(content: &Option<String>) -> (r: JsonValue)
    ensures
        r@ == Json::empty().with(
            "content"@,
            json::text_or_null(content.deep_view()),
        ),
{
    JsonValue::empty().with("content", JsonValue::of_option(content))
}

/// The outcome of a request to write a file.
pub fn write_outcome(result: Result<(), String>) -> (r: Result<JsonValue, String>)
    ensures
        ipc::outcome_view(r) == (match result {
            Ok(()) => Ok(ok_json()),
            Err(e) => Err(e@),
        }),
{
    match result {
        Ok(()) => Ok(ok_reply()),
        Err(e) => Err(e),
    }
}

/// The answer to a request to run a command and wait for it: whether it went
/// well and what it printed, or that it did not end in time.
pub fn capture_reply(output: &Option<(bool, String)>) -> (r: JsonValue)
    ensures
        r@ == (match output {
            Some((ok, out)) => Json::empty().with("ok"@, Json::Bool(*ok)).with(
                "stdout"@,
                Json::Text(out@),
            ),
            None => Json::empty().with("ok"@, Json::Bool(false)).with(
                "stdout"@,
                Json::Text(""@),
            ),
        }),
{
    match output {
        Some((ok, out)) => JsonValue::empty().with("ok", JsonValue::Bool(*ok)).with(
            "stdout",
            JsonValue::of_text(out.as_str()),
        ),
        None => JsonValue::empty().with("ok", JsonValue::Bool(false)).with(
            "stdout",
            JsonValue::of_text(""),
        ),
    }
}

/// What is pushed to a module for an event.
pub open spec fn event_push(id: Seq<char>, event: EventView) -> Json {
    Json::empty().with("push"@, Json::Text("event"@)).with(
        "subscription_id"@,
        Json::Text(id),
    ).with("event"@, BreadEvent::json(event))
}

/// The line that is pushed to a module for an event, where it matches.
pub fn push_event(id: &str, pattern: &str, event: &BreadEvent) -> (r: Option<String>)
    ensures
        r.deep_view() == (if glob::pattern_matches(pattern@, event.deep_view().event) {
            Some(ipc::line_of(event_push(id@, event.deep_view())))
        } else {
            None
        }),
{
    if !glob::matches_filter(event.event.as_str(), pattern) {
        return None;
    }
    let push = JsonValue::empty().with("push", JsonValue::of_text("event")).with(
        "subscription_id",
        JsonValue::of_text(id),
    ).with("event", event.to_value());
    Some(text::concat(wire::render(&push).as_str(), "\n"))
}

/// The line that is pushed to a module for a timer.
pub fn push_timer(id: &str) -> (r: String)
    ensures
        r@ == ipc::line_of(
            Json::empty().with("push"@, Json::Text("timer"@)).with("timer_id"@, Json::Text(id@)),
        ),
{
    let push = JsonValue::empty().with("push", JsonValue::of_text("timer")).with(
        "timer_id",
        JsonValue::of_text(id),
    );
    text::concat(wire::render(&push).as_str(), "\n")
}

/// What is told to who waits for a module when the conversation ends: nothing
/// where the module has said how its loading went.
pub open spec fn close_outcome(session: SessionView) -> Option<HostOutcomeView> {
    if session.reported {
        None
    } else {
        Some(
            HostOutcomeView::LoadError(
                "module-host connection for '"@ + session.module
                    + "' closed before reporting ready"@,
            ),
        )
    }
}

/// What is told to who waits for a module when the conversation ends.
pub fn close(session: HostSession) -> (r: Option<ModuleHostOutcome>)
    ensures
        r.deep_view() == close_outcome(session@),
{
    if session.reported {
        None
    } else {
        Some(
            ModuleHostOutcome::LoadError(
                text::concat3(
                    "module-host connection for '",
                    session.module.as_str(),
                    "' closed before reporting ready",
                ),
            ),
        )
    }
}

/// What a module was not granted it cannot have done: without the grant, every
/// request to look at the state, to read or write a file or to run a command is
/// refused.
pub proof fn law_ungranted_requests_are_refused(
    params: Json,
    session: SessionView,
    s: RuntimeView,
    home: Option<Seq<char>>,
    fresh: Seq<char>,
    now: u64,
)
    ensures
        !granted(session.permissions, PermissionKind::StateRead) ==> host_step(
            "module_host.state_get"@,
            params,
            session,
            s,
            home,
            fresh,
            now,
        ) == refused("state.read not granted to this module"@),
        !granted(session.permissions, PermissionKind::FsRead) ==> host_step(
            "module_host.fs_read"@,
            params,
            session,
            s,
            home,
            fresh,
            now,
        ) == refused("fs.read not granted to this module"@),
        !granted(session.permissions, PermissionKind::FsWrite) ==> host_step(
            "module_host.fs_write"@,
            params,
            session,
            s,
            home,
            fresh,
            now,
        ) == refused("fs.write not granted to this module"@),
        !granted(session.permissions, PermissionKind::Exec) ==> host_step(
            "module_host.exec"@,
            params,
            session,
            s,
            home,
            fresh,
            now,
        ) == refused("exec not granted to this module"@),
        !granted(session.permissions, PermissionKind::Exec) ==> host_step(
            "module_host.exec_capture"@,
            params,
            session,
            s,
            home,
            fresh,
            now,
        ) == refused("exec not granted to this module"@),
{
    lemma_methods_differ();
}

proof fn lemma_methods_differ()
    ensures
        "module_host.state_get"@.len() == 21,
        "module_host.fs_read"@.len() == 19,
        "module_host.fs_write"@.len() == 20,
        "module_host.exec"@.len() == 16,
        "module_host.exec_capture"@.len() == 24,
        "module_host.on"@.len() == 14,
        "module_host.once"@.len() == 16,
        "module_host.off"@.len() == 15,
        "module_host.after"@.len() == 17,
        "module_host.every"@.len() == 17,
        "module_host.cancel"@.len() == 18,
        "module_host.emit"@.len() == 16,
        "module_host.log"@.len() == 15,
        "module_host.warn"@.len() == 16,
        "module_host.error"@.len() == 17,
        "module_host.exec"@[12] == 'e',
        "module_host.exec"@[13] == 'x',
        "module_host.once"@[12] == 'o',
        "module_host.emit"@[13] == 'm',
        "module_host.warn"@[12] == 'w',
{
    reveal_strlit("module_host.state_get");
    reveal_strlit("module_host.fs_read");
    reveal_strlit("module_host.fs_write");
    reveal_strlit("module_host.exec");
    reveal_strlit("module_host.exec_capture");
    reveal_strlit("module_host.on");
    reveal_strlit("module_host.once");
    reveal_strlit("module_host.off");
    reveal_strlit("module_host.after");
    reveal_strlit("module_host.every");
    reveal_strlit("module_host.cancel");
    reveal_strlit("module_host.emit");
    reveal_strlit("module_host.log");
    reveal_strlit("module_host.warn");
    reveal_strlit("module_host.error");
}

/// Whatever a module asks for, files are read and written only where its grants
/// allow it, and commands are run only as its grants allow it.
pub proof fn law_requests_stay_in_scope(
    method: Seq<char>,
    params: Json,
    session: SessionView,
    s: RuntimeView,
    home: Option<Seq<char>>,
    fresh: Seq<char>,
    now: u64,
)
    ensures
        match host_step(method, params, session, s, home, fresh, now) {
            HostStepView::ReadFile(full) => granted(session.permissions, PermissionKind::FsRead)
                && exists|path: Seq<char>|
                full == config::tilde_expanded(path, home) && #[trigger] path_in_scope(
                    session.permissions,
                    PermissionKind::FsRead,
                    path,
                    home,
                ),
            HostStepView::WriteFile(full, content) => granted(
                session.permissions,
                PermissionKind::FsWrite,
            ) && exists|path: Seq<char>|
                full == config::tilde_expanded(path, home) && #[trigger] path_in_scope(
                    session.permissions,
                    PermissionKind::FsWrite,
                    path,
                    home,
                ),
            HostStepView::Run(cmd, reply) => granted(session.permissions, PermissionKind::Exec)
                && program_in_scope(session.permissions, cmd),
            HostStepView::Capture(cmd, wait) => granted(session.permissions, PermissionKind::Exec)
                && program_in_scope(session.permissions, cmd),
            _ => true,
        },
{
}

/// Who waits for a module is told once how its loading went: by the first report
/// of the module, or by the end of the conversation where there was none.
pub proof fn law_outcome_is_told_once(session: SessionView, params: Json, again: Json)
    ensures
        ({
            let after = session_after(session, report_step(session, params));
            &&& report_step(session, params)->Report_1 is Some <==> !session.reported
            &&& report_step(after, again)->Report_1 is None
            &&& close_outcome(after) is None
            &&& close_outcome(session) is Some <==> !session.reported
        }),
{
}

/// A grant to read or write that names no path is checked here alone: any path
/// is in its scope, while the kernel is given no rule for it, so that a module
/// which goes past the daemon gains nothing by it.
pub proof fn law_grants_without_a_path_have_no_rule(
    perms: Seq<PermissionView>,
    i: int,
    path: Seq<char>,
    program: Option<Seq<char>>,
    home: Option<Seq<char>>,
)
    requires
        0 <= i < perms.len(),
        perms[i].kind == PermissionKind::FsRead || perms[i].kind == PermissionKind::FsWrite,
        forall|k: int| 0 <= k < perms.len() ==> !tied_to_path(#[trigger] perms[k], perms[i].kind),
    ensures
        path_in_scope(perms, perms[i].kind, path, home),
        module_host::granted_rule(perms[i], program, home) is None,
{
    assert(!tied_to_path(perms[i], perms[i].kind));
}

proof fn lemma_host_methods_differ()
    ensures
        "module_host.on"@ != "module_host.once"@,
        "module_host.on"@ != "module_host.off"@,
        "module_host.on"@ != "module_host.after"@,
        "module_host.on"@ != "module_host.every"@,
        "module_host.on"@ != "module_host.cancel"@,
        "module_host.on"@ != "module_host.state_get"@,
        "module_host.on"@ != "module_host.emit"@,
        "module_host.on"@ != "module_host.log"@,
        "module_host.on"@ != "module_host.warn"@,
        "module_host.on"@ != "module_host.error"@,
        "module_host.on"@ != "module_host.fs_read"@,
        "module_host.on"@ != "module_host.fs_write"@,
        "module_host.on"@ != "module_host.exec"@,
        "module_host.on"@ != "module_host.exec_capture"@,
        "module_host.on"@ != "module_host.status"@,
        "module_host.once"@ != "module_host.off"@,
        "module_host.once"@ != "module_host.after"@,
        "module_host.once"@ != "module_host.every"@,
        "module_host.once"@ != "module_host.cancel"@,
        "module_host.once"@ != "module_host.state_get"@,
        "module_host.once"@ != "module_host.emit"@,
        "module_host.once"@ != "module_host.log"@,
        "module_host.once"@ != "module_host.warn"@,
        "module_host.once"@ != "module_host.error"@,
        "module_host.once"@ != "module_host.fs_read"@,
        "module_host.once"@ != "module_host.fs_write"@,
        "module_host.once"@ != "module_host.exec"@,
        "module_host.once"@ != "module_host.exec_capture"@,
        "module_host.once"@ != "module_host.status"@,
        "module_host.off"@ != "module_host.after"@,
        "module_host.off"@ != "module_host.every"@,
        "module_host.off"@ != "module_host.cancel"@,
        "module_host.off"@ != "module_host.state_get"@,
        "module_host.off"@ != "module_host.emit"@,
        "module_host.off"@ != "module_host.log"@,
        "module_host.off"@ != "module_host.warn"@,
        "module_host.off"@ != "module_host.error"@,
        "module_host.off"@ != "module_host.fs_read"@,
        "module_host.off"@ != "module_host.fs_write"@,
        "module_host.off"@ != "module_host.exec"@,
        "module_host.off"@ != "module_host.exec_capture"@,
        "module_host.off"@ != "module_host.status"@,
        "module_host.after"@ != "module_host.every"@,
        "module_host.after"@ != "module_host.cancel"@,
        "module_host.after"@ != "module_host.state_get"@,
        "module_host.after"@ != "module_host.emit"@,
        "module_host.after"@ != "module_host.log"@,
        "module_host.after"@ != "module_host.warn"@,
        "module_host.after"@ != "module_host.error"@,
        "module_host.after"@ != "module_host.fs_read"@,
        "module_host.after"@ != "module_host.fs_write"@,
        "module_host.after"@ != "module_host.exec"@,
        "module_host.after"@ != "module_host.exec_capture"@,
        "module_host.after"@ != "module_host.status"@,
        "module_host.every"@ != "module_host.cancel"@,
        "module_host.every"@ != "module_host.state_get"@,
        "module_host.every"@ != "module_host.emit"@,
        "module_host.every"@ != "module_host.log"@,
        "module_host.every"@ != "module_host.warn"@,
        "module_host.every"@ != "module_host.error"@,
        "module_host.every"@ != "module_host.fs_read"@,
        "module_host.every"@ != "module_host.fs_write"@,
        "module_host.every"@ != "module_host.exec"@,
        "module_host.every"@ != "module_host.exec_capture"@,
        "module_host.every"@ != "module_host.status"@,
        "module_host.cancel"@ != "module_host.state_get"@,
        "module_host.cancel"@ != "module_host.emit"@,
        "module_host.cancel"@ != "module_host.log"@,
        "module_host.cancel"@ != "module_host.warn"@,
        "module_host.cancel"@ != "module_host.error"@,
        "module_host.cancel"@ != "module_host.fs_read"@,
        "module_host.cancel"@ != "module_host.fs_write"@,
        "module_host.cancel"@ != "module_host.exec"@,
        "module_host.cancel"@ != "module_host.exec_capture"@,
        "module_host.cancel"@ != "module_host.status"@,
        "module_host.state_get"@ != "module_host.emit"@,
        "module_host.state_get"@ != "module_host.log"@,
        "module_host.state_get"@ != "module_host.warn"@,
        "module_host.state_get"@ != "module_host.error"@,
        "module_host.state_get"@ != "module_host.fs_read"@,
        "module_host.state_get"@ != "module_host.fs_write"@,
        "module_host.state_get"@ != "module_host.exec"@,
        "module_host.state_get"@ != "module_host.exec_capture"@,
        "module_host.state_get"@ != "module_host.status"@,
        "module_host.emit"@ != "module_host.log"@,
        "module_host.emit"@ != "module_host.warn"@,
        "module_host.emit"@ != "module_host.error"@,
        "module_host.emit"@ != "module_host.fs_read"@,
        "module_host.emit"@ != "module_host.fs_write"@,
        "module_host.emit"@ != "module_host.exec"@,
        "module_host.emit"@ != "module_host.exec_capture"@,
        "module_host.emit"@ != "module_host.status"@,
        "module_host.log"@ != "module_host.warn"@,
        "module_host.log"@ != "module_host.error"@,
        "module_host.log"@ != "module_host.fs_read"@,
        "module_host.log"@ != "module_host.fs_write"@,
        "module_host.log"@ != "module_host.exec"@,
        "module_host.log"@ != "module_host.exec_capture"@,
        "module_host.log"@ != "module_host.status"@,
        "module_host.warn"@ != "module_host.error"@,
        "module_host.warn"@ != "module_host.fs_read"@,
        "module_host.warn"@ != "module_host.fs_write"@,
        "module_host.warn"@ != "module_host.exec"@,
        "module_host.warn"@ != "module_host.exec_capture"@,
        "module_host.warn"@ != "module_host.status"@,
        "module_host.error"@ != "module_host.fs_read"@,
        "module_host.error"@ != "module_host.fs_write"@,
        "module_host.error"@ != "module_host.exec"@,
        "module_host.error"@ != "module_host.exec_capture"@,
        "module_host.error"@ != "module_host.status"@,
        "module_host.fs_read"@ != "module_host.fs_write"@,
        "module_host.fs_read"@ != "module_host.exec"@,
        "module_host.fs_read"@ != "module_host.exec_capture"@,
        "module_host.fs_read"@ != "module_host.status"@,
        "module_host.fs_write"@ != "module_host.exec"@,
        "module_host.fs_write"@ != "module_host.exec_capture"@,
        "module_host.fs_write"@ != "module_host.status"@,
        "module_host.exec"@ != "module_host.exec_capture"@,
        "module_host.exec"@ != "module_host.status"@,
        "module_host.exec_capture"@ != "module_host.status"@,
{
    reveal_strlit("module_host.on");
    reveal_strlit("module_host.once");
    reveal_strlit("module_host.off");
    reveal_strlit("module_host.after");
    reveal_strlit("module_host.every");
    reveal_strlit("module_host.cancel");
    reveal_strlit("module_host.state_get");
    reveal_strlit("module_host.emit");
    reveal_strlit("module_host.log");
    reveal_strlit("module_host.warn");
    reveal_strlit("module_host.error");
    reveal_strlit("module_host.fs_read");
    reveal_strlit("module_host.fs_write");
    reveal_strlit("module_host.exec");
    reveal_strlit("module_host.exec_capture");
    reveal_strlit("module_host.status");
    assert("module_host.on"@.len() == 14);
    assert("module_host.once"@.len() == 16);
    assert("module_host.off"@.len() == 15);
    assert("module_host.after"@.len() == 17);
    assert("module_host.every"@.len() == 17);
    assert("module_host.cancel"@.len() == 18);
    assert("module_host.state_get"@.len() == 21);
    assert("module_host.emit"@.len() == 16);
    assert("module_host.log"@.len() == 15);
    assert("module_host.warn"@.len() == 16);
    assert("module_host.error"@.len() == 17);
    assert("module_host.fs_read"@.len() == 19);
    assert("module_host.fs_write"@.len() == 20);
    assert("module_host.exec"@.len() == 16);
    assert("module_host.exec_capture"@.len() == 24);
    assert("module_host.status"@.len() == 18);
    assert("module_host.once"@[12] != "module_host.emit"@[12]);
    assert("module_host.once"@[12] != "module_host.warn"@[12]);
    assert("module_host.once"@[12] != "module_host.exec"@[12]);
    assert("module_host.off"@[12] != "module_host.log"@[12]);
    assert("module_host.after"@[12] != "module_host.every"@[12]);
    assert("module_host.after"@[12] != "module_host.error"@[12]);
    assert("module_host.every"@[13] != "module_host.error"@[13]);
    assert("module_host.cancel"@[12] != "module_host.status"@[12]);
    assert("module_host.emit"@[12] != "module_host.warn"@[12]);
    assert("module_host.emit"@[13] != "module_host.exec"@[13]);
    assert("module_host.warn"@[12] != "module_host.exec"@[12]);
}

/// A module that asks for the events of a pattern gets all of them with `on`, the
/// first with `once`, under the identifier that the answer tells; with `off` it
/// gives the identifier back.
pub proof fn law_modules_ask_for_events(
    pattern: Seq<char>,
    id: Seq<char>,
    params: Json,
    session: SessionView,
    s: RuntimeView,
    home: Option<Seq<char>>,
    fresh: Seq<char>,
    now: u64,
)
    requires
        params.get("pattern"@) == Some(Json::Text(pattern)),
        params.get("id"@) == Some(Json::Text(id)),
    ensures
        host_step("module_host.on"@, params, session, s, home, fresh, now)
            matches HostStepView::Subscribe(at, p, once, reply) && at == fresh && p == pattern
            && !once && reply.get("subscription_id"@) == Some(Json::Text(fresh)),
        host_step("module_host.once"@, params, session, s, home, fresh, now)
            matches HostStepView::Subscribe(at, p, once, reply) && at == fresh && p == pattern
            && once && reply.get("subscription_id"@) == Some(Json::Text(fresh)),
        host_step("module_host.off"@, params, session, s, home, fresh, now)
            matches HostStepView::Unsubscribe(at, reply) && at == id && reply.get("ok"@) == Some(
            Json::Bool(true),
        ),
        host_step("module_host.cancel"@, params, session, s, home, fresh, now)
            matches HostStepView::CancelTimer(at, reply) && at == id && reply.get("ok"@)
            == Some(Json::Bool(true)),
{
    lemma_host_methods_differ();
}

/// A module that names no pattern, identifier, event, path or command where one is
/// needed is told what is missing.
pub proof fn law_modules_are_told_what_is_missing(
    k: int,
    params: Json,
    session: SessionView,
    s: RuntimeView,
    home: Option<Seq<char>>,
    fresh: Seq<char>,
    now: u64,
)
    requires
        0 <= k < session.permissions.len(),
    ensures
        params.get("pattern"@) is None ==>
            host_step("module_host.on"@, params, session, s, home, fresh, now)
            == HostStepView::Done(Err("missing pattern"@)),
        params.get("pattern"@) is None ==>
            host_step("module_host.once"@, params, session, s, home, fresh, now)
            == HostStepView::Done(Err("missing pattern"@)),
        params.get("id"@) is None ==>
            host_step("module_host.off"@, params, session, s, home, fresh, now)
            == HostStepView::Done(Err("missing id"@)),
        params.get("id"@) is None ==>
            host_step("module_host.cancel"@, params, session, s, home, fresh, now)
            == HostStepView::Done(Err("missing id"@)),
        params.get("event"@) is None ==>
            host_step("module_host.emit"@, params, session, s, home, fresh, now)
            == HostStepView::Done(Err("missing event"@)),
        session.permissions[k].kind == PermissionKind::FsRead && params.get("path"@) is None ==>
            host_step("module_host.fs_read"@, params, session, s, home, fresh, now)
            == HostStepView::Done(Err("missing path"@)),
        session.permissions[k].kind == PermissionKind::FsWrite && params.get("path"@) is None ==>
            host_step("module_host.fs_write"@, params, session, s, home, fresh, now)
            == HostStepView::Done(Err("missing path"@)),
        session.permissions[k].kind == PermissionKind::Exec && params.get("cmd"@) is None ==>
            host_step("module_host.exec"@, params, session, s, home, fresh, now)
            == HostStepView::Done(Err("missing cmd"@)),
        session.permissions[k].kind == PermissionKind::Exec && params.get("cmd"@) is None ==>
            host_step("module_host.exec_capture"@, params, session, s, home, fresh, now)
            == HostStepView::Done(Err("missing cmd"@)),
{
    lemma_host_methods_differ();
}

/// A timer of `after` ends once, after the milliseconds under `delay_ms`; one of
/// `every` comes again, at the interval under `interval_ms`. Neither is shorter than
/// a millisecond, which is also what counts where no number is given.
pub proof fn law_timers_run_as_asked(
    n: u64,
    params: Json,
    session: SessionView,
    s: RuntimeView,
    home: Option<Seq<char>>,
    fresh: Seq<char>,
    now: u64,
)
    ensures
        params.get("delay_ms"@) == Some(Json::Num(Numeral::PosInt(n))) && n >= 1 ==>
            (host_step("module_host.after"@, params, session, s, home, fresh, now)
            matches HostStepView::StartTimer(at, ms, again, reply) && ms == n),
        params.get("delay_ms"@) == Some(Json::Num(Numeral::PosInt(0))) ==>
            (host_step("module_host.after"@, params, session, s, home, fresh, now)
            matches HostStepView::StartTimer(at, ms, again, reply) && ms == 1),
        params.get("delay_ms"@) is None ==>
            (host_step("module_host.after"@, params, session, s, home, fresh, now)
            matches HostStepView::StartTimer(at, ms, again, reply) && ms == 1),
        params.get("interval_ms"@) == Some(Json::Num(Numeral::PosInt(n))) && n >= 1 ==>
            (host_step("module_host.every"@, params, session, s, home, fresh, now)
            matches HostStepView::StartTimer(at, ms, again, reply) && ms == n),
        params.get("interval_ms"@) == Some(Json::Num(Numeral::PosInt(0))) ==>
            (host_step("module_host.every"@, params, session, s, home, fresh, now)
            matches HostStepView::StartTimer(at, ms, again, reply) && ms == 1),
        params.get("interval_ms"@) is None ==>
            (host_step("module_host.every"@, params, session, s, home, fresh, now)
            matches HostStepView::StartTimer(at, ms, again, reply) && ms == 1),
        host_step("module_host.after"@, params, session, s, home, fresh, now)
            matches HostStepView::StartTimer(at, ms, again, reply) && at == fresh && !again
            && reply.get("timer_id"@) == Some(Json::Text(fresh)),
        host_step("module_host.every"@, params, session, s, home, fresh, now)
            matches HostStepView::StartTimer(at, ms, again, reply) && at == fresh && again
            && reply.get("timer_id"@) == Some(Json::Text(fresh)),
{
    lemma_host_methods_differ();
}

/// A message of a module is written at the level that the request names.
pub proof fn law_messages_are_logged_at_their_level(
    message: Seq<char>,
    params: Json,
    session: SessionView,
    s: RuntimeView,
    home: Option<Seq<char>>,
    fresh: Seq<char>,
    now: u64,
)
    requires
        params.get("message"@) == Some(Json::Text(message)),
    ensures
        host_step("module_host.log"@, params, session, s, home, fresh, now)
            matches HostStepView::Log(level, m, reply) && level == LogLevel::Info && m == message,
        host_step("module_host.warn"@, params, session, s, home, fresh, now)
            matches HostStepView::Log(level, m, reply) && level == LogLevel::Warn && m == message,
        host_step("module_host.error"@, params, session, s, home, fresh, now)
            matches HostStepView::Log(level, m, reply) && level == LogLevel::Error
            && m == message,
{
    lemma_host_methods_differ();
}

/// A module that may read the state finds under `value` what the snapshot of the
/// state holds under a key without dots.
pub proof fn law_modules_read_the_state(
    key: Seq<char>,
    k: int,
    params: Json,
    session: SessionView,
    s: RuntimeView,
    home: Option<Seq<char>>,
    fresh: Seq<char>,
    now: u64,
)
    requires
        0 <= k < session.permissions.len(),
        session.permissions[k].kind == PermissionKind::StateRead,
        params.get("key"@) == Some(Json::Text(key)),
        key.len() > 0,
        !key.contains('.'),
    ensures
        match snapshot::state_json(s).get(key) {
            Some(v) => host_step("module_host.state_get"@, params, session, s, home, fresh, now)
                matches HostStepView::Done(Ok(r)) && r.get("value"@) == Some(v),
            None => host_step("module_host.state_get"@, params, session, s, home, fresh, now)
                matches HostStepView::Done(Err(_)),
        },
{
    lemma_host_methods_differ();
    json::law_plain_path_is_a_key(snapshot::state_json(s), key);
    assert(granted(session.permissions, PermissionKind::StateRead));
}

/// What a module sends is an event with the name and the data it gave, marked as
/// one that was sent by hand, as when a client sends it.
pub proof fn law_modules_send_events(
    event: Seq<char>,
    data: Json,
    params: Json,
    session: SessionView,
    s: RuntimeView,
    home: Option<Seq<char>>,
    fresh: Seq<char>,
    now: u64,
)
    requires
        params.get("event"@) == Some(Json::Text(event)),
        params.get("data"@) == Some(data),
    ensures
        host_step("module_host.emit"@, params, session, s, home, fresh, now)
            matches HostStepView::Publish(e, reply) ==> e.event == event && e.data == data
            && e.timestamp == now && e.source == Source::Manual
                && reply.get("emitted"@) == Some(Json::Bool(true)),
        (host_step("module_host.emit"@, params, session, s, home, fresh, now) is Publish)
            == (ipc::manual(event, data, now) is Ok),
{
    lemma_host_methods_differ();
}

/// A module with a grant that names no path reads and writes any file. The path may
/// start at the home directory; what is to be written stands under `content`.
pub proof fn law_unbounded_grants_reach_any_file(
    path: Seq<char>,
    content: Seq<char>,
    dir: Seq<char>,
    p: PermissionView,
    params: Json,
    session: SessionView,
    s: RuntimeView,
    home: Option<Seq<char>>,
    fresh: Seq<char>,
    now: u64,
)
    requires
        session.permissions == seq![p],
        p.path is None,
        params.get("path"@) == Some(Json::Text("~/"@ + path)),
        params.get("content"@) == Some(Json::Text(content)),
        home == Some(dir),
    ensures
        p.kind == PermissionKind::FsRead ==>
            host_step("module_host.fs_read"@, params, session, s, home, fresh, now)
            == HostStepView::ReadFile(paths::joined(dir, path)),
        p.kind == PermissionKind::FsWrite ==>
            host_step("module_host.fs_write"@, params, session, s, home, fresh, now)
            == HostStepView::WriteFile(paths::joined(dir, path), content),
        p.kind != PermissionKind::FsRead ==>
            host_step("module_host.fs_read"@, params, session, s, home, fresh, now) is Done,
        p.kind != PermissionKind::FsWrite ==>
            host_step("module_host.fs_write"@, params, session, s, home, fresh, now) is Done,
{
    lemma_host_methods_differ();
    lemma_below_home(path, dir);
    assert(session.permissions[0] == p);
    assert forall|i: int| 0 <= i < session.permissions.len() implies session.permissions[i]
        == p by {}
    assert(granted(session.permissions, p.kind));
}

/// A command is run, or run and waited for, as it was given. The wait is what the
/// module asked for under `timeout_ms`, or two seconds, and half a second more.
pub proof fn law_commands_are_run(
    cmd: Seq<char>,
    n: u64,
    p: PermissionView,
    params: Json,
    session: SessionView,
    s: RuntimeView,
    home: Option<Seq<char>>,
    fresh: Seq<char>,
    now: u64,
)
    requires
        session.permissions == seq![p],
        p.kind == PermissionKind::Exec,
        p.bin is None,
        params.get("cmd"@) == Some(Json::Text(cmd)),
    ensures
        host_step("module_host.exec"@, params, session, s, home, fresh, now)
            matches HostStepView::Run(c, reply) && c == cmd
            && reply.get("ok"@) == Some(Json::Bool(true)),
        host_step("module_host.exec_capture"@, params, session, s, home, fresh, now)
            matches HostStepView::Capture(c, ms) && c == cmd,
        params.get("timeout_ms"@) is None ==>
            (host_step("module_host.exec_capture"@, params, session, s, home, fresh, now)
            matches HostStepView::Capture(c, ms) && ms == 2500),
        params.get("timeout_ms"@) == Some(Json::Num(Numeral::PosInt(n))) && n <= u64::MAX - 500 ==>
            (host_step("module_host.exec_capture"@, params, session, s, home, fresh, now)
            matches HostStepView::Capture(c, ms) && ms == n + 500),
        params.get("timeout_ms"@) == Some(Json::Num(Numeral::PosInt(n))) && n > u64::MAX - 500 ==>
            (host_step("module_host.exec_capture"@, params, session, s, home, fresh, now)
            matches HostStepView::Capture(c, ms) && ms == u64::MAX),
{
    lemma_host_methods_differ();
    assert(session.permissions[0] == p);
    assert forall|i: int| 0 <= i < session.permissions.len() implies session.permissions[i]
        == p by {}
    assert(granted(session.permissions, p.kind));
}

/// A module that says it was loaded is loaded; one that says anything else was not,
/// for the reason that it gives. The note is of the module of the conversation, and
/// the answer goes once to who waits for it.
pub proof fn law_modules_say_how_loading_went(
    error: Seq<char>,
    params: Json,
    session: SessionView,
    s: RuntimeView,
    home: Option<Seq<char>>,
    fresh: Seq<char>,
    now: u64,
)
    ensures
        host_step("module_host.status"@, params, session, s, home, fresh, now)
            matches HostStepView::Report(note, told, reply) && note.name == session.module
            && !note.builtin && (told is None <==> session.reported),
        params.get("state"@) == Some(Json::Text("loaded"@)) ==>
            (host_step("module_host.status"@, params, session, s, home, fresh, now)
            matches HostStepView::Report(note, told, reply)
            && note.status == ModuleLoadState::Loaded && (told matches Some(o) ==>
                o == HostOutcomeView::Ready)),
        params.get("state"@) != Some(Json::Text("loaded"@))
            && params.get("error"@) == Some(Json::Text(error)) ==>
            (host_step("module_host.status"@, params, session, s, home, fresh, now)
            matches HostStepView::Report(note, told, reply)
            && note.status == ModuleLoadState::LoadError && note.last_error == Some(error)
                && (told matches Some(o) ==> o == HostOutcomeView::LoadError(error))),
        params.get("state"@) is None && params.get("error"@) is None ==>
            (host_step("module_host.status"@, params, session, s, home, fresh, now)
            matches HostStepView::Report(note, told, reply)
            && note.status == ModuleLoadState::LoadError && note.last_error is None
                && (told matches Some(o) ==>
                o == HostOutcomeView::LoadError("module load failed"@))),
{
    lemma_host_methods_differ();
}

/// A request under any other name is refused, and the answer names it.
pub proof fn law_other_requests_are_refused(
    method: Seq<char>,
    params: Json,
    session: SessionView,
    s: RuntimeView,
    home: Option<Seq<char>>,
    fresh: Seq<char>,
    now: u64,
)
    requires
        method != "module_host.on"@,
        method != "module_host.once"@,
        method != "module_host.off"@,
        method != "module_host.after"@,
        method != "module_host.every"@,
        method != "module_host.cancel"@,
        method != "module_host.state_get"@,
        method != "module_host.emit"@,
        method != "module_host.log"@,
        method != "module_host.warn"@,
        method != "module_host.error"@,
        method != "module_host.fs_read"@,
        method != "module_host.fs_write"@,
        method != "module_host.exec"@,
        method != "module_host.exec_capture"@,
        method != "module_host.status"@,
    ensures
        host_step(method, params, session, s, home, fresh, now) == HostStepView::Done(
            Err("unknown module_host method: "@ + method),
        ),
{
}

/// A path that starts at the home directory lies below it.
proof fn lemma_below_home(path: Seq<char>, dir: Seq<char>)
    ensures
        config::tilde_expanded("~/"@ + path, Some(dir)) == paths::joined(dir, path),
{
    reveal_strlit("~/");
    reveal_strlit("~");
    let whole = "~/"@ + path;
    assert(whole.subrange(0, 2) =~= "~/"@);
    assert(whole.subrange(2, whole.len() as int) =~= path);
    assert(whole.len() >= 2);
    assert("~"@.len() == 1);
}

/// A grant that names a path reaches that path and what lies below it, and refuses
/// every other; it says nothing of other kinds of requests.
pub proof fn law_grants_reach_what_lies_below(
    p: PermissionView,
    dir: Seq<char>,
    path: Seq<char>,
    home: Option<Seq<char>>,
)
    requires
        p.path == Some(dir),
    ensures
        path_in_scope(seq![p], p.kind, path, home) == paths::is_below(
            config::tilde_expanded(path, home),
            config::tilde_expanded(dir, home),
        ),
        forall|kind: PermissionKind| kind != p.kind ==>
            #[trigger] path_in_scope(seq![p], kind, path, home),
{
    let perms = seq![p];
    assert(perms[0] == p);
    assert(forall|i: int| 0 <= i < perms.len() ==> perms[i] == p);
}

/// A grant that names a program reaches the commands that start with its name, and
/// no other.
pub proof fn law_grants_reach_one_program(p: PermissionView, bin: Seq<char>, cmd: Seq<char>)
    requires
        p.kind == PermissionKind::Exec,
        p.bin == Some(bin),
        text::words(cmd).len() > 0,
    ensures
        text::words(cmd)[0] == bin ==> program_in_scope(seq![p], cmd),
        paths::leaf(text::words(cmd)[0]) is Some && paths::leaf(bin) is Some ==>
            (program_in_scope(seq![p], cmd) <==> (text::words(cmd)[0] == bin
            || paths::leaf(text::words(cmd)[0]) == paths::leaf(bin))),
{
    let perms = seq![p];
    assert(perms[0] == p);
    assert(forall|i: int| 0 <= i < perms.len() ==> perms[i] == p);
}

/// A path or a command outside of what was granted is refused, and the answer says so.
pub proof fn law_what_is_out_of_scope_is_refused(
    what: Seq<char>,
    k: int,
    params: Json,
    session: SessionView,
    s: RuntimeView,
    home: Option<Seq<char>>,
    fresh: Seq<char>,
    now: u64,
)
    requires
        0 <= k < session.permissions.len(),
    ensures
        session.permissions[k].kind == PermissionKind::FsRead
            && params.get("path"@) == Some(Json::Text(what))
            && !path_in_scope(session.permissions, PermissionKind::FsRead, what, home) ==>
                host_step("module_host.fs_read"@, params, session, s, home, fresh, now)
                == HostStepView::Done(
            Err("path '"@ + what + "' is outside this module's granted fs.read scope"@)),
        session.permissions[k].kind == PermissionKind::FsWrite
            && params.get("path"@) == Some(Json::Text(what))
            && !path_in_scope(session.permissions, PermissionKind::FsWrite, what, home) ==>
                host_step("module_host.fs_write"@, params, session, s, home, fresh, now)
                == HostStepView::Done(
            Err("path '"@ + what + "' is outside this module's granted fs.write scope"@)),
        session.permissions[k].kind == PermissionKind::Exec
            && params.get("cmd"@) == Some(Json::Text(what))
            && !program_in_scope(session.permissions, what) ==>
                host_step("module_host.exec"@, params, session, s, home, fresh, now)
                == HostStepView::Done(
            Err("command is outside this module's granted exec bin scope"@)),
        session.permissions[k].kind == PermissionKind::Exec
            && params.get("cmd"@) == Some(Json::Text(what))
            && !program_in_scope(session.permissions, what) ==>
                host_step("module_host.exec_capture"@, params, session, s, home, fresh, now)
                == HostStepView::Done(
            Err("command is outside this module's granted exec bin scope"@)),
{
    lemma_host_methods_differ();
    reveal_strlit("' is outside this module's granted ");
    reveal_strlit("fs.read");
    reveal_strlit("fs.write");
    reveal_strlit(" scope");
    reveal_strlit("' is outside this module's granted fs.read scope");
    reveal_strlit("' is outside this module's granted fs.write scope");
    let head = "path '"@ + what;
    assert("' is outside this module's granted fs.read scope"@ =~= "' is outside this module's granted "@ + "fs.read"@ + " scope"@);
    assert("' is outside this module's granted fs.write scope"@ =~= "' is outside this module's granted "@ + "fs.write"@ + " scope"@);
    assert(head + "' is outside this module's granted "@ + "fs.read"@ + " scope"@ =~= head + "' is outside this module's granted fs.read scope"@);
    assert(head + "' is outside this module's granted "@ + "fs.write"@ + " scope"@ =~= head + "' is outside this module's granted fs.write scope"@);
    assert(granted(session.permissions, session.permissions[k].kind));
}

/// Who waits for a module is told when the conversation ends before it said anything.
pub proof fn law_early_ends_are_told(session: SessionView)
    ensures
        !session.reported ==> close_outcome(session) == Some(
            HostOutcomeView::LoadError("module-host connection for '"@ + session.module + "' closed before reporting ready"@),
        ),
        session.reported ==> close_outcome(session) is None,
{
}

/// A module is told its name, what it was granted and the version of the API.
pub proof fn law_modules_are_greeted(
    module: Seq<char>,
    permissions: Seq<PermissionView>,
    api_version: Seq<char>,
    i: int,
)
    ensures
        hello_json(module, permissions, api_version).get("module"@) == Some(Json::Text(module)),
        hello_json(module, permissions, api_version).get("api_version"@)
            == Some(Json::Text(api_version)),
        hello_json(module, permissions, api_version).get("permissions"@)
            matches Some(Json::Array(a)) && a.len() == permissions.len()
            && (0 <= i < a.len() ==>
                a[i] == <ModulePermission as Snapshot>::json(permissions[i])),
{
    reveal_strlit("module");
    reveal_strlit("permissions");
    reveal_strlit("api_version");
    assert("module"@.len() == 6);
    assert("permissions"@.len() == 11);
    assert("api_version"@.len() == 11);
    assert("permissions"@[0] != "api_version"@[0]);
}

/// An event is pushed with the identifier under which it was asked for.
pub proof fn law_pushed_events_tell_who_asked(id: Seq<char>, event: EventView)
    ensures
        event_push(id, event).get("push"@) == Some(Json::Text("event"@)),
        event_push(id, event).get("subscription_id"@) == Some(Json::Text(id)),
        event_push(id, event).get("event"@) == Some(<BreadEvent as Snapshot>::json(event)),
{
    reveal_strlit("push");
    reveal_strlit("subscription_id");
    reveal_strlit("event");
    assert("push"@.len() == 4);
    assert("subscription_id"@.len() == 15);
    assert("event"@.len() == 5);
}

} // verus!
