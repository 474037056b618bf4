//! What the daemon answers over its socket.

use crate::adapters::manager::AdapterStatus;
use crate::apps;
use crate::events::{AdapterSource, BreadEvent, EventView, RawEvent, RawView, Source};
use crate::glob;
use crate::json::{self, Json, JsonValue, Numeral};
use crate::lua_runtime;
use crate::machine;
use crate::recency;
use crate::ring::{self, ErrorEntry, Ring};
use crate::snapshot::{self, Snapshot};
use crate::table::Table;
use crate::text;
use crate::types::{ModuleStatus, RuntimeState, RuntimeView, WorkflowStatus};
use crate::wire;
use vstd::prelude::*;

verus! {

/// A request.
#[derive(Debug)]
pub struct IpcRequest {
    pub id: String,
    pub method: String,
    pub params: JsonValue,
}

/// The answer to a request: a result, or what went wrong.
#[derive(Debug)]
pub struct IpcResponse {
    pub id: String,
    pub result: Option<JsonValue>,
    pub error: Option<String>,
}

/// What an answer stands for.
#[verifier::ext_equal]
pub struct ResponseView {
    pub id: Seq<char>,
    pub result: Option<Json>,
    pub error: Option<Seq<char>>,
}

impl DeepView for IpcResponse {
    type V = ResponseView;

    open spec fn deep_view(&self) -> ResponseView {
        ResponseView {
            id: self.id@,
            result: self.result.deep_view(),
            error: self.error.deep_view(),
        }
    }
}

/// What an outcome stands for.
pub open spec fn outcome_view(r: Result<JsonValue, String>) -> Result<Json, Seq<char>> {
    match r {
        Ok(v) => Ok(v@),
        Err(e) => Err(e@),
    }
}

/// The answer that carries an outcome.
pub open spec fn answer(id: Seq<char>, outcome: Result<Json, Seq<char>>) -> ResponseView {
    match outcome {
        Ok(v) => ResponseView { id, result: Some(v), error: None },
        Err(e) => ResponseView { id, result: None, error: Some(e) },
    }
}

/// The answer that carries an outcome.
pub fn respond(id: String, outcome: Result<JsonValue, String>) -> (r: IpcResponse)
    ensures
        r.deep_view() == answer(id@, outcome_view(outcome)),
{
    match outcome {
        Ok(v) => IpcResponse { id, result: Some(v), error: None },
        Err(e) => IpcResponse { id, result: None, error: Some(e) },
    }
}

impl Snapshot for IpcResponse {
    open spec fn json(v: ResponseView) -> Json {
        let id = Json::empty().with("id"@, Json::Text(v.id));
        let with_result = match v.result {
            Some(x) => id.with("result"@, x),
            None => id,
        };
        match v.error {
            Some(e) => with_result.with("error"@, Json::Text(e)),
            None => with_result,
        }
    }

    fn to_value(&self) -> JsonValue {
        let id = JsonValue::empty().with("id", JsonValue::of_text(self.id.as_str()));
        let with_result = match &self.result {
            Some(x) => id.with("result", x.duplicate()),
            None => id,
        };
        match &self.error {
            Some(e) => with_result.with("error", JsonValue::of_text(e.as_str())),
            None => with_result,
        }
    }
}

/// The value as a line of the protocol.
pub open spec fn line_of(v: Json) -> Seq<char> {
    wire::json_text(v) + "\n"@
}

/// The answer as a line of the protocol.
pub fn response_line(response: &IpcResponse) -> (r: String)
    ensures
        r@ == line_of(IpcResponse::json(response.deep_view())),
{
    text::concat(wire::render(&response.to_value()).as_str(), "\n")
}

/// The event as a line of the stream.
pub fn event_line(event: &BreadEvent) -> (r: String)
    ensures
        r@ == line_of(BreadEvent::json(event.deep_view())),
{
    text::concat(wire::render(&event.to_value()).as_str(), "\n")
}

/// What a request does to its connection.
#[derive(Debug)]
pub enum Connection {
    /// From then on events are sent over it, those that pass the filter.
    Stream(Option<String>),
    /// From then on it belongs to a module that runs in a process of its own.
    ModuleHost,
    /// Nothing: the request is answered.
    Request,
}

/// What a request does to its connection.
pub fn connection_for(req: &IpcRequest) -> (r: Connection)
    ensures
        if req.method@ == "events.subscribe"@ {
            r matches Connection::Stream(filter) && filter.deep_view() == req.params@.text("filter"@)
        } else if req.method@ == "module_host.hello"@ {
            r is ModuleHost
        } else {
            r is Request
        },
{
    if text::same(req.method.as_str(), "events.subscribe") {
        Connection::Stream(req.params.owned_text("filter"))
    } else if text::same(req.method.as_str(), "module_host.hello") {
        Connection::ModuleHost
    } else {
        Connection::Request
    }
}

/// The answer to a request for the event stream.
pub fn subscribed(id: String) -> (r: IpcResponse)
    ensures
        r.deep_view() == answer(
            id@,
            Ok(Json::empty().with("subscribed"@, Json::Bool(true))),
        ),
{
    respond(id, Ok(JsonValue::empty().with("subscribed", JsonValue::Bool(true))))
}

/// Whether an event is sent over a stream with the given filter.
pub fn passes(filter: Option<&str>, event_name: &str) -> (r: bool)
    ensures
        r == (match filter {
            Some(pattern) => glob::pattern_matches(pattern@, event_name@),
            None => true,
        }),
{
    match filter {
        Some(pattern) => glob::matches_filter(event_name, pattern),
        None => true,
    }
}

/// What the daemon knows when it answers.
pub struct Daemon<'a> {
    pub state: &'a RuntimeState,
    pub adapters: &'a Table<AdapterStatus>,
    pub events: &'a Ring<BreadEvent>,
    pub errors: &'a Vec<ErrorEntry>,
    pub subscriptions: u64,
    pub pid: u32,
    pub version: &'a str,
    pub uptime_ms: u64,
    pub socket: &'a str,
    /// What is in the file that says what the machine is called.
    pub sync_toml: Option<&'a str>,
    /// The apps that may publish events.
    pub apps: &'a Vec<String>,
    pub now: u64,
}

/// What is to be done to answer a request.
#[derive(Debug)]
pub enum IpcStep {
    /// The answer is there.
    Done(Result<JsonValue, String>),
    /// The modules are to be loaded again.
    Reload,
    /// The profile is to be set and the event sent before the answer is given.
    Activate { name: String, event: BreadEvent, reply: JsonValue },
    /// The event is to be sent before the answer is given.
    Publish { event: BreadEvent, reply: JsonValue },
    /// The report goes the way of those of the adapters before the answer is
    /// given.
    Report { report: RawEvent, reply: JsonValue },
}

/// What a step stands for.
pub enum StepView {
    Done(Result<Json, Seq<char>>),
    Reload,
    Activate(Seq<char>, EventView, Json),
    Publish(EventView, Json),
    Report(RawView, Json),
}

impl DeepView for IpcStep {
    type V = StepView;

    open spec fn deep_view(&self) -> StepView {
        match self {
            IpcStep::Done(r) => StepView::Done(outcome_view(*r)),
            IpcStep::Reload => StepView::Reload,
            IpcStep::Activate { name, event, reply } => StepView::Activate(
                name@,
                event.deep_view(),
                reply@,
            ),
            IpcStep::Publish { event, reply } => StepView::Publish(event.deep_view(), reply@),
            IpcStep::Report { report, reply } => StepView::Report(report.deep_view(), reply@),
        }
    }
}

/// The data that a request carries, or an empty object.
pub open spec fn data_of(params: Json) -> Json {
    match params.get("data"@) {
        Some(v) => v,
        None => Json::empty(),
    }
}

fn data_in(params: &JsonValue) -> (r: JsonValue)
    ensures
        r@ == data_of(params@),
{
    match params.get("data") {
        Some(v) => v.duplicate(),
        None => JsonValue::empty(),
    }
}

/// The answer to a request to publish an event.
pub open spec fn emitted() -> Json {
    Json::empty().with("emitted"@, Json::Bool(true))
}

fn emitted_reply() -> (r: JsonValue)
    ensures
        r@ == emitted(),
{
    JsonValue::empty().with("emitted", JsonValue::Bool(true))
}

/// The event that a client publishes under a name: it is marked as such, and
/// names of the adapters and the daemon are refused.
pub open spec fn manual(event: Seq<char>, data: Json, now: u64) -> Result<EventView, Seq<char>> {
    if apps::reserved_event(event) {
        Err("event name '"@ + event + "' is reserved for adapters and the daemon"@)
    } else {
        Ok(EventView { event, timestamp: now, source: Source::Manual, data })
    }
}

/// The event that a client publishes under a name: it is marked as such, and
/// names of the adapters and the daemon are refused.
pub fn manual_emit(event: &str, data: JsonValue, now: u64) -> (r: Result<BreadEvent, String>)
    ensures
        match r {
            Ok(e) => manual(event@, data@, now) == Ok::<EventView, Seq<char>>(e.deep_view()),
            Err(e) => manual(event@, data@, now) == Err::<EventView, Seq<char>>(e@),
        },
{
    if apps::is_reserved_event(event) {
        Err(
            text::concat3(
                "event name '",
                event,
                "' is reserved for adapters and the daemon",
            ),
        )
    } else {
        Ok(BreadEvent::new(event, AdapterSource::Manual, data, now))
    }
}

/// The source has reports of its own which no client can send.
pub open spec fn internal_source(name: Seq<char>) -> bool {
    ||| name == "hyprland"@
    ||| name == "udev"@
    ||| name == "power"@
    ||| name == "network"@
    ||| name == "bluetooth"@
    ||| name == "filesystem"@
    ||| name == "systemd"@
    ||| name == "podman"@
    ||| name == "manual"@
    ||| name == "system"@
}

fn is_internal_source(name: &str) -> (r: bool)
    ensures
        r == internal_source(name@),
{
    text::same(name, "hyprland") || text::same(name, "udev") || text::same(name, "power")
        || text::same(name, "network") || text::same(name, "bluetooth") || text::same(
        name,
        "filesystem",
    ) || text::same(name, "systemd") || text::same(name, "podman") || text::same(name, "manual")
        || text::same(name, "system")
}

/// The source in whose name a client sends a report of a kind. Shell, git and
/// remote hooks may do so, and apps that are known, each below its own name.
pub open spec fn claimed_source(
    name: Seq<char>,
    kind: Seq<char>,
    known_apps: Seq<Seq<char>>,
) -> Result<Source, Seq<char>> {
    if name == "terminal"@ {
        Ok(Source::Terminal)
    } else if name == "git"@ {
        Ok(Source::Git)
    } else if name == "remote"@ {
        Ok(Source::Remote)
    } else if internal_source(name) {
        Err("source '"@ + name + "' is not externally injectable"@)
    } else if !known_apps.contains(name) {
        Err("unknown app source '"@ + name + "'"@)
    } else if !apps::in_namespace(name, kind) {
        Err("event '"@ + kind + "' is outside the namespace of '"@ + name + "'"@)
    } else {
        Ok(Source::App(name))
    }
}

fn claim_source(name: &str, kind: &str, known_apps: &Vec<String>) -> (r: Result<
    AdapterSource,
    String,
>)
    ensures
        match r {
            Ok(s) => claimed_source(name@, kind@, known_apps.deep_view()) == Ok::<
                Source,
                Seq<char>,
            >(s@),
            Err(e) => claimed_source(name@, kind@, known_apps.deep_view()) == Err::<
                Source,
                Seq<char>,
            >(e@),
        },
{
    if text::same(name, "terminal") {
        Ok(AdapterSource::Terminal)
    } else if text::same(name, "git") {
        Ok(AdapterSource::Git)
    } else if text::same(name, "remote") {
        Ok(AdapterSource::Remote)
    } else if is_internal_source(name) {
        Err(text::concat3("source '", name, "' is not externally injectable"))
    } else if !text::list_has(known_apps, name) {
        Err(text::concat3("unknown app source '", name, "'"))
    } else if !apps::validate_app_namespace(name, kind) {
        let head = text::concat3("event '", kind, "' is outside the namespace of '");
        Err(text::concat3(head.as_str(), name, "'"))
    } else {
        Ok(AdapterSource::App(name.to_owned()))
    }
}

/// What a request to publish calls for.
pub open spec fn emit_step(params: Json, known_apps: Seq<Seq<char>>, now: u64) -> StepView {
    match params.text("source"@) {
        Some(name) => match params.text("kind"@) {
            None => StepView::Done(Err("missing event kind"@)),
            Some(kind) => match claimed_source(name, kind, known_apps) {
                Err(e) => StepView::Done(Err(e)),
                Ok(source) => StepView::Report(
                    RawView { source, kind, payload: data_of(params), timestamp: now },
                    emitted(),
                ),
            },
        },
        None => match params.text("event"@) {
            None => StepView::Done(Err("missing event name"@)),
            Some(event) => match manual(event, data_of(params), now) {
                Err(e) => StepView::Done(Err(e)),
                Ok(e) => StepView::Publish(e, emitted()),
            },
        },
    }
}

fn emit(params: &JsonValue, known_apps: &Vec<String>, now: u64) -> (r: IpcStep)
    ensures
        r.deep_view() == emit_step(params@, known_apps.deep_view(), now),
{
    match params.text("source") {
        Some(name) => match params.text("kind") {
            None => IpcStep::Done(Err("missing event kind".to_owned())),
            Some(kind) => match claim_source(name, kind, known_apps) {
                Err(e) => IpcStep::Done(Err(e)),
                Ok(source) => IpcStep::Report {
                    report: RawEvent {
                        source,
                        kind: kind.to_owned(),
                        payload: data_in(params),
                        timestamp: now,
                    },
                    reply: emitted_reply(),
                },
            },
        },
        None => match params.text("event") {
            None => IpcStep::Done(Err("missing event name".to_owned())),
            Some(event) => match manual_emit(event, data_in(params), now) {
                Err(e) => IpcStep::Done(Err(e)),
                Ok(event) => IpcStep::Publish { event, reply: emitted_reply() },
            },
        },
    }
}

/// The answer on the health of the daemon.
pub open spec fn health_json(d: Daemon) -> Json {
    Json::empty().with("ok"@, Json::Bool(true)).with(
        "pid"@,
        Json::Num(Numeral::PosInt(d.pid as u64)),
    ).with("version"@, Json::Text(d.version@)).with(
        "uptime_ms"@,
        Json::Num(Numeral::PosInt(d.uptime_ms)),
    ).with("socket"@, Json::Text(d.socket@)).with(
        "adapters"@,
        Json::Object(d.adapters@.map_values(|s: AdapterStatus| AdapterStatus::json(s))),
    ).with("modules"@, snapshot::list_json::<ModuleStatus>(d.state@.modules)).with(
        "subscriptions"@,
        Json::Num(Numeral::PosInt(d.subscriptions)),
    ).with("recent_errors"@, snapshot::list_json::<ErrorEntry>(d.errors.deep_view()))
}

fn health(d: &Daemon) -> (r: JsonValue)
    ensures
        r@ == health_json(*d),
{
    JsonValue::empty().with("ok", JsonValue::Bool(true)).with(
        "pid",
        JsonValue::of_u64(d.pid as u64),
    ).with("version", JsonValue::of_text(d.version)).with(
        "uptime_ms",
        JsonValue::of_u64(d.uptime_ms),
    ).with("socket", JsonValue::of_text(d.socket)).with("adapters", d.adapters.to_value()).with(
        "modules",
        snapshot::list_value(&d.state.modules),
    ).with("subscriptions", JsonValue::of_u64(d.subscriptions)).with(
        "recent_errors",
        snapshot::list_value(d.errors),
    )
}

/// The profiles that are known.
pub open spec fn profiles_json(s: RuntimeView) -> Json {
    match json::at_path(snapshot::state_json(s), "profile.profiles"@) {
        Some(v) => v,
        None => Json::empty(),
    }
}

/// The outcome of a look at the state.
pub open spec fn looked_up(s: RuntimeView, path: Seq<char>) -> Result<Json, Seq<char>> {
    match json::at_path(snapshot::state_json(s), path) {
        Some(v) => Ok(v),
        None => Err("state path not found"@),
    }
}

/// The outcome of a look at the state.
pub fn look_up(state: &RuntimeState, path: &str) -> (r: Result<JsonValue, String>)
    ensures
        outcome_view(r) == looked_up(state@, path@),
{
    match snapshot::state_get(state, path) {
        Some(v) => Ok(v),
        None => Err("state path not found".to_owned()),
    }
}

/// The events that a client asks to see again.
pub open spec fn replayed(d: Daemon, params: Json) -> Seq<EventView> {
    let since = match params.unsigned("since_ms"@) {
        Some(n) => n,
        None => 0,
    };
    ring::views(d.events@).filter(ring::not_before(recency::less(d.now, since)))
}

/// What is to be done to answer a request.
pub open spec fn step_for(method: Seq<char>, params: Json, d: Daemon) -> StepView {
    if method == "ping"@ {
        StepView::Done(Ok(Json::empty().with("ok"@, Json::Bool(true))))
    } else if method == "state.get"@ {
        StepView::Done(looked_up(d.state@, params.text_or("key"@, Seq::empty())))
    } else if method == "state.dump"@ {
        StepView::Done(Ok(snapshot::state_json(d.state@)))
    } else if method == "modules.list"@ {
        StepView::Done(Ok(snapshot::list_json::<ModuleStatus>(d.state@.modules)))
    } else if method == "modules.reload"@ {
        StepView::Reload
    } else if method == "profile.list"@ {
        StepView::Done(Ok(profiles_json(d.state@)))
    } else if method == "profile.activate"@ {
        match params.text("name"@) {
            None => StepView::Done(Err("missing profile name"@)),
            Some(name) => StepView::Activate(
                name,
                lua_runtime::profile_activated(name, d.now),
                Json::empty().with("active"@, Json::Text(name)),
            ),
        }
    } else if method == "emit"@ {
        emit_step(params, d.apps.deep_view(), d.now)
    } else if method == "health"@ {
        StepView::Done(Ok(health_json(d)))
    } else if method == "sync.status"@ {
        StepView::Done(
            Ok(machine::status_json(machine::sync_value(d.sync_toml.deep_view()))),
        )
    } else if method == "events.replay"@ {
        StepView::Done(Ok(snapshot::list_json::<BreadEvent>(replayed(d, params))))
    } else if method == "workflows.list"@ {
        StepView::Done(Ok(snapshot::list_json::<WorkflowStatus>(d.state@.workflows)))
    } else {
        StepView::Done(Err("unknown method"@))
    }
}

/// What is to be done to answer a request.
pub fn handle_request(req: &IpcRequest, d: &Daemon) -> (r: IpcStep)
    ensures
        r.deep_view() == step_for(req.method@, req.params@, *d),
{
    let method = req.method.as_str();
    if text::same(method, "ping") {
        IpcStep::Done(Ok(JsonValue::empty().with("ok", JsonValue::Bool(true))))
    } else if text::same(method, "state.get") {
        proof {
            reveal_strlit("");
            assert(""@ =~= Seq::empty());
        }
        let key = req.params.text_or("key", "");
        IpcStep::Done(look_up(d.state, key.as_str()))
    } else if text::same(method, "state.dump") {
        IpcStep::Done(Ok(snapshot::state_dump(d.state)))
    } else if text::same(method, "modules.list") {
        IpcStep::Done(Ok(snapshot::list_value(&d.state.modules)))
    } else if text::same(method, "modules.reload") {
        IpcStep::Reload
    } else if text::same(method, "profile.list") {
        let profiles = match snapshot::state_get(d.state, "profile.profiles") {
            Some(v) => v,
            None => JsonValue::empty(),
        };
        IpcStep::Done(Ok(profiles))
    } else if text::same(method, "profile.activate") {
        match req.params.text("name") {
            None => IpcStep::Done(Err("missing profile name".to_owned())),
            Some(name) => IpcStep::Activate {
                name: name.to_owned(),
                event: lua_runtime::profile_event(name, d.now),
                reply: JsonValue::empty().with("active", JsonValue::of_text(name)),
            },
        }
    } else if text::same(method, "emit") {
        emit(&req.params, d.apps, d.now)
    } else if text::same(method, "health") {
        IpcStep::Done(Ok(health(d)))
    } else if text::same(method, "sync.status") {
        IpcStep::Done(Ok(machine::sync_status(d.sync_toml)))
    } else if text::same(method, "events.replay") {
        let since: u64 = match req.params.unsigned("since_ms") {
            Some(n) => n,
            None => 0,
        };
        let events = ring::replay(d.events, since, d.now);
        IpcStep::Done(Ok(snapshot::list_value(&events)))
    } else if text::same(method, "workflows.list") {
        IpcStep::Done(Ok(snapshot::list_value(&d.state.workflows)))
    } else {
        IpcStep::Done(Err("unknown method".to_owned()))
    }
}

/// The outcome of a request that sends something first, by whether that could be
/// sent.
pub fn after_send(sent: bool, reply: JsonValue) -> (r: Result<JsonValue, String>)
    ensures
        outcome_view(r) == (if sent {
            Ok(reply@)
        } else {
            Err("emit channel closed"@)
        }),
{
    if sent {
        Ok(reply)
    } else {
        Err("emit channel closed".to_owned())
    }
}

/// The outcome of a request to load the modules again, by how that went and how
/// long it took.
pub fn reload_outcome(
    result: Result<(), String>,
    duration_ms: u64,
    state: &RuntimeState,
) -> (r: Result<JsonValue, String>)
    ensures
        outcome_view(r) == (match result {
            Err(e) => Err(e@),
            Ok(()) => Ok(
                Json::empty().with("ok"@, Json::Bool(true)).with(
                    "duration_ms"@,
                    Json::Num(Numeral::PosInt(duration_ms)),
                ).with("modules"@, snapshot::list_json::<ModuleStatus>(state@.modules)),
            ),
        }),
{
    match result {
        Err(e) => Err(e),
        Ok(()) => Ok(
            JsonValue::empty().with("ok", JsonValue::Bool(true)).with(
                "duration_ms",
                JsonValue::of_u64(duration_ms),
            ).with("modules", snapshot::list_value(&state.modules)),
        ),
    }
}

/// No request makes an event that passes for one of an adapter or of the daemon:
/// what a client publishes under a name is marked as such and its name is not a
/// reserved one, and what it sends in the name of an app lies below that app's
/// own name.
pub proof fn law_clients_cannot_impersonate(params: Json, known_apps: Seq<Seq<char>>, now: u64)
    ensures
        match emit_step(params, known_apps, now) {
            StepView::Publish(e, reply) => e.source == Source::Manual && !apps::reserved_event(
                e.event,
            ),
            StepView::Report(raw, reply) => match raw.source {
                Source::Terminal | Source::Git | Source::Remote => true,
                Source::App(id) => known_apps.contains(id) && apps::in_namespace(id, raw.kind),
                _ => false,
            },
            StepView::Done(r) => r is Err,
            _ => false,
        },
{
}

/// The method is one that the daemon answers.
pub open spec fn known_method(method: Seq<char>) -> bool {
    ||| method == "ping"@
    ||| method == "state.get"@
    ||| method == "state.dump"@
    ||| method == "modules.list"@
    ||| method == "modules.reload"@
    ||| method == "profile.list"@
    ||| method == "profile.activate"@
    ||| method == "emit"@
    ||| method == "health"@
    ||| method == "sync.status"@
    ||| method == "events.replay"@
    ||| method == "workflows.list"@
}

/// A request for a method that is not known is refused, whatever it carries and
/// whatever the daemon knows.
pub proof fn law_unknown_methods_are_refused(method: Seq<char>, params: Json, d: Daemon)
    requires
        !known_method(method),
    ensures
        step_for(method, params, d) == StepView::Done(Err::<Json, Seq<char>>("unknown method"@)),
{
}

/// What is sent in answer to a request names that request, and carries either a
/// result or an error, never both.
pub proof fn law_answers_carry_one_outcome(id: Seq<char>, outcome: Result<Json, Seq<char>>)
    ensures
        answer(id, outcome).id == id,
        answer(id, outcome).result is Some <==> answer(id, outcome).error is None,
        answer(id, outcome).error is Some <==> outcome is Err,
{
}

proof fn lemma_methods_differ()
    ensures
        "ping"@ != "state.get"@,
        "ping"@ != "state.dump"@,
        "ping"@ != "modules.list"@,
        "ping"@ != "modules.reload"@,
        "ping"@ != "profile.list"@,
        "ping"@ != "profile.activate"@,
        "ping"@ != "emit"@,
        "ping"@ != "health"@,
        "ping"@ != "sync.status"@,
        "ping"@ != "events.replay"@,
        "ping"@ != "workflows.list"@,
        "state.get"@ != "state.dump"@,
        "state.get"@ != "modules.list"@,
        "state.get"@ != "modules.reload"@,
        "state.get"@ != "profile.list"@,
        "state.get"@ != "profile.activate"@,
        "state.get"@ != "emit"@,
        "state.get"@ != "health"@,
        "state.get"@ != "sync.status"@,
        "state.get"@ != "events.replay"@,
        "state.get"@ != "workflows.list"@,
        "state.dump"@ != "modules.list"@,
        "state.dump"@ != "modules.reload"@,
        "state.dump"@ != "profile.list"@,
        "state.dump"@ != "profile.activate"@,
        "state.dump"@ != "emit"@,
        "state.dump"@ != "health"@,
        "state.dump"@ != "sync.status"@,
        "state.dump"@ != "events.replay"@,
        "state.dump"@ != "workflows.list"@,
        "modules.list"@ != "modules.reload"@,
        "modules.list"@ != "profile.list"@,
        "modules.list"@ != "profile.activate"@,
        "modules.list"@ != "emit"@,
        "modules.list"@ != "health"@,
        "modules.list"@ != "sync.status"@,
        "modules.list"@ != "events.replay"@,
        "modules.list"@ != "workflows.list"@,
        "modules.reload"@ != "profile.list"@,
        "modules.reload"@ != "profile.activate"@,
        "modules.reload"@ != "emit"@,
        "modules.reload"@ != "health"@,
        "modules.reload"@ != "sync.status"@,
        "modules.reload"@ != "events.replay"@,
        "modules.reload"@ != "workflows.list"@,
        "profile.list"@ != "profile.activate"@,
        "profile.list"@ != "emit"@,
        "profile.list"@ != "health"@,
        "profile.list"@ != "sync.status"@,
        "profile.list"@ != "events.replay"@,
        "profile.list"@ != "workflows.list"@,
        "profile.activate"@ != "emit"@,
        "profile.activate"@ != "health"@,
        "profile.activate"@ != "sync.status"@,
        "profile.activate"@ != "events.replay"@,
        "profile.activate"@ != "workflows.list"@,
        "emit"@ != "health"@,
        "emit"@ != "sync.status"@,
        "emit"@ != "events.replay"@,
        "emit"@ != "workflows.list"@,
        "health"@ != "sync.status"@,
        "health"@ != "events.replay"@,
        "health"@ != "workflows.list"@,
        "sync.status"@ != "events.replay"@,
        "sync.status"@ != "workflows.list"@,
        "events.replay"@ != "workflows.list"@,
{
    reveal_strlit("ping");
    reveal_strlit("state.get");
    reveal_strlit("state.dump");
    reveal_strlit("modules.list");
    reveal_strlit("modules.reload");
    reveal_strlit("profile.list");
    reveal_strlit("profile.activate");
    reveal_strlit("emit");
    reveal_strlit("health");
    reveal_strlit("sync.status");
    reveal_strlit("events.replay");
    reveal_strlit("workflows.list");
    assert("ping"@.len() == 4);
    assert("state.get"@.len() == 9);
    assert("state.dump"@.len() == 10);
    assert("modules.list"@.len() == 12);
    assert("modules.reload"@.len() == 14);
    assert("profile.list"@.len() == 12);
    assert("profile.activate"@.len() == 16);
    assert("emit"@.len() == 4);
    assert("health"@.len() == 6);
    assert("sync.status"@.len() == 11);
    assert("events.replay"@.len() == 13);
    assert("workflows.list"@.len() == 14);
    assert("ping"@[0] != "emit"@[0]);
    assert("modules.list"@[0] != "profile.list"@[0]);
    assert("modules.reload"@[0] != "workflows.list"@[0]);
}

/// The lists of modules and workflows, and that of profiles, are the parts of the
/// whole snapshot that go by these names, and each lists what the state holds: an
/// entry for each module and each workflow, in order and with its name.
pub proof fn law_lists_are_parts_of_the_dump(params: Json, other: Json, d: Daemon)
    ensures
        step_for("state.dump"@, other, d) matches StepView::Done(Ok(dump)) && {
            &&& step_for("modules.list"@, params, d) matches StepView::Done(Ok(list)) && dump.get(
                "modules"@,
            ) == Some(list) && (list matches Json::Array(a) && a.len() == d.state@.modules.len()
                && forall|i: int|
                0 <= i < a.len() ==> (#[trigger] a[i]).get("name"@) == Some(
                    Json::Text(d.state@.modules[i].name),
                ))
            &&& step_for("workflows.list"@, params, d) matches StepView::Done(Ok(list)) && dump.get(
                "workflows"@,
            ) == Some(list) && (list matches Json::Array(a) && a.len() == d.state@.workflows.len()
                && forall|i: int|
                0 <= i < a.len() ==> (#[trigger] a[i]).get("name"@) == Some(
                    Json::Text(d.state@.workflows[i].name),
                ))
            &&& step_for("profile.list"@, params, d) matches StepView::Done(Ok(list)) && (dump.get(
                "profile"@,
            ) matches Some(p) && p.get("profiles"@) == Some(list))
        },
{
    lemma_methods_differ();
    let s = d.state@;
    snapshot::law_snapshot_holds_the_state(s);
    snapshot::law_snapshot_holds_the_profile(s);
    let dump = snapshot::state_json(s);
    let modules = snapshot::list_json::<ModuleStatus>(s.modules);
    let workflows = snapshot::list_json::<WorkflowStatus>(s.workflows);
    if let Some(Json::Array(a)) = dump.get("modules"@) {
        assert(modules matches Json::Array(b) && b =~= a);
        assert forall|i: int| 0 <= i < a.len() implies (#[trigger] a[i]).get("name"@) == Some(
            Json::Text(s.modules[i].name),
        ) by {
            snapshot::law_module_form(s.modules[i]);
        }
    }
    if let Some(Json::Array(a)) = dump.get("workflows"@) {
        assert(workflows matches Json::Array(b) && b =~= a);
        assert forall|i: int| 0 <= i < a.len() implies (#[trigger] a[i]).get("name"@) == Some(
            Json::Text(s.workflows[i].name),
        ) by {
            snapshot::law_workflow_form(s.workflows[i]);
        }
    }
    reveal_strlit("profile");
    reveal_strlit("profiles");
    reveal_strlit(".");
    reveal_strlit("profile.profiles");
    assert("profile.profiles"@ =~= "profile"@ + "."@ + "profiles"@);
    json::law_paths_compose(dump, "profile"@, "profiles"@);
    json::law_plain_path_is_a_key(dump, "profile"@);
    json::law_plain_path_is_a_key(dump.get("profile"@)->0, "profiles"@);
}

/// The dump is the snapshot of the state, and so is what the empty key looks up. A
/// key without dots looks up what the dump holds under it; where it holds nothing,
/// the request fails.
pub proof fn law_keys_look_into_the_dump(params: Json, other: Json, d: Daemon, key: Seq<char>)
    requires
        params.get("key"@) == Some(Json::Text(key)),
    ensures
        step_for("state.dump"@, other, d) == StepView::Done(
            Ok::<Json, Seq<char>>(snapshot::state_json(d.state@)),
        ),
        key.len() == 0 ==> step_for("state.get"@, params, d) == step_for("state.dump"@, other, d),
        key.len() > 0 && (forall|i: int| 0 <= i < key.len() ==> #[trigger] key[i] != '.')
            ==> step_for("state.get"@, params, d) == StepView::Done(
            match snapshot::state_json(d.state@).get(key) {
                Some(v) => Ok::<Json, Seq<char>>(v),
                None => Err("state path not found"@),
            },
        ),
{
    lemma_methods_differ();
    if key.len() > 0 && (forall|i: int| 0 <= i < key.len() ==> #[trigger] key[i] != '.') {
        json::law_plain_path_is_a_key(snapshot::state_json(d.state@), key);
    }
}

/// The daemon that is alive says so; a request without a key looks at the whole
/// state; one to load the modules again has them loaded again.
pub proof fn law_simple_requests(params: Json, d: Daemon)
    ensures
        step_for("ping"@, params, d) matches StepView::Done(Ok(v)) && v.get("ok"@) == Some(
            Json::Bool(true),
        ),
        step_for("modules.reload"@, params, d) is Reload,
        !(params.get("key"@) matches Some(Json::Text(_))) ==> step_for("state.get"@, params, d)
            == step_for("state.dump"@, params, d),
{
    lemma_methods_differ();
}

/// The answer on the health of the daemon tells its process, version, time up,
/// socket, subscriptions, adapters, modules and latest errors.
pub proof fn law_health_tells_all(params: Json, d: Daemon)
    ensures
        step_for("health"@, params, d) matches StepView::Done(Ok(v)) && {
            &&& v.get("ok"@) == Some(Json::Bool(true))
            &&& v.get("pid"@) == Some(Json::Num(Numeral::PosInt(d.pid as u64)))
            &&& v.get("version"@) == Some(Json::Text(d.version@))
            &&& v.get("uptime_ms"@) == Some(Json::Num(Numeral::PosInt(d.uptime_ms)))
            &&& v.get("socket"@) == Some(Json::Text(d.socket@))
            &&& v.get("subscriptions"@) == Some(Json::Num(Numeral::PosInt(d.subscriptions)))
            &&& v.get("modules"@) == snapshot::state_json(d.state@).get("modules"@)
            &&& v.get("adapters"@) matches Some(Json::Object(m)) && m.dom() == d.adapters@.dom()
                && forall|k: Seq<char>| #[trigger]
                m.contains_key(k) ==> m[k] == Json::Text(
                    match d.adapters@[k] {
                        AdapterStatus::Connected => "connected"@,
                        AdapterStatus::Disconnected => "disconnected"@,
                    },
                )
            &&& v.get("recent_errors"@) matches Some(Json::Array(a)) && a.len() == d.errors@.len()
                && forall|i: int|
                0 <= i < a.len() ==> (#[trigger] a[i]).get("message"@) == Some(
                    Json::Text(d.errors@[i].message@),
                ) && a[i].get("timestamp"@) == Some(
                    Json::Num(Numeral::PosInt(d.errors@[i].timestamp)),
                )
        },
{
    lemma_methods_differ();
    snapshot::law_snapshot_holds_the_state(d.state@);
    reveal_strlit("ok");
    reveal_strlit("pid");
    reveal_strlit("version");
    reveal_strlit("uptime_ms");
    reveal_strlit("socket");
    reveal_strlit("adapters");
    reveal_strlit("modules");
    reveal_strlit("subscriptions");
    reveal_strlit("recent_errors");
    assert("ok"@.len() == 2);
    assert("pid"@.len() == 3);
    assert("version"@.len() == 7);
    assert("uptime_ms"@.len() == 9);
    assert("socket"@.len() == 6);
    assert("adapters"@.len() == 8);
    assert("modules"@.len() == 7);
    assert("subscriptions"@.len() == 13);
    assert("recent_errors"@.len() == 13);
    assert("version"@[0] != "modules"@[0]);
    assert("subscriptions"@[0] != "recent_errors"@[0]);
    let v = health_json(d);
    let m = d.adapters@.map_values(|s: AdapterStatus| AdapterStatus::json(s));
    assert(v.get("adapters"@) == Some(Json::Object(m)));
    assert(m.dom() =~= d.adapters@.dom());
    let dump = snapshot::state_json(d.state@);
    if let Some(Json::Array(a)) = dump.get("modules"@) {
        assert(snapshot::list_json::<ModuleStatus>(d.state@.modules) matches Json::Array(b) && b
            =~= a);
    }
    assert(d.errors.deep_view().len() == d.errors@.len());
    reveal_strlit("timestamp");
    reveal_strlit("module");
    reveal_strlit("message");
    assert("timestamp"@.len() == 9);
    assert("module"@.len() == 6);
    assert("message"@.len() == 7);
    let errors = snapshot::list_json::<ErrorEntry>(d.errors.deep_view());
    assert(v.get("recent_errors"@) == Some(errors));
    assert forall|i: int| 0 <= i < d.errors@.len() implies d.errors.deep_view()[i]
        == (#[trigger] d.errors@[i]).deep_view() by {}
}

/// To activate a profile is to set it and to publish the event that says so, after
/// which it is the active one; a request that names none fails.
pub proof fn law_profiles_are_activated_by_name(params: Json, d: Daemon)
    ensures
        params.get("name"@) matches Some(Json::Text(name)) ==> (step_for(
            "profile.activate"@,
            params,
            d,
        ) matches StepView::Activate(set, event, reply) && {
            &&& set == name
            &&& event.event == "bread.profile.activated"@
            &&& event.timestamp == d.now
            &&& event.data.get("name"@) == Some(Json::Text(name))
            &&& reply.get("active"@) == Some(Json::Text(name))
            &&& crate::state_engine::after_event(
                d.state@,
                event.event,
                event.data,
            ).profile.active == name
        }),
        !(params.get("name"@) matches Some(Json::Text(_))) ==> step_for(
            "profile.activate"@,
            params,
            d,
        ) == StepView::Done(Err::<Json, Seq<char>>("missing profile name"@)),
{
    lemma_methods_differ();
    if let Some(Json::Text(name)) = params.get("name"@) {
        let data = Json::empty().with("name"@, Json::Text(name));
        crate::state_engine::law_profile_event_activates(d.state@, data, name);
    }
}

/// What a client publishes under a name of its own is published under that name
/// with the data that the client gives, as the client's; a request that names no
/// event fails.
pub proof fn law_emitted_events_carry_what_was_given(params: Json, d: Daemon)
    requires
        !(params.get("source"@) matches Some(Json::Text(_))),
    ensures
        params.get("event"@) matches Some(Json::Text(name)) ==> (!apps::reserved_event(name) ==> (
        step_for("emit"@, params, d) matches StepView::Publish(event, reply) && {
            &&& event.event == name
            &&& event.timestamp == d.now
            &&& event.source == Source::Manual
            &&& params.get("data"@) matches Some(v) ==> event.data == v
            &&& params.get("data"@) is None ==> event.data == Json::Object(Map::empty())
            &&& reply.get("emitted"@) == Some(Json::Bool(true))
        })),
        params.get("event"@) matches Some(Json::Text(name)) ==> (apps::reserved_event(name) ==> (
        step_for("emit"@, params, d) matches StepView::Done(Err(_)))),
        !(params.get("event"@) matches Some(Json::Text(_))) ==> step_for("emit"@, params, d)
            == StepView::Done(Err::<Json, Seq<char>>("missing event name"@)),
{
    lemma_methods_differ();
}

/// A report that a client sends in the name of a source is that source's: the name
/// of the source on the wire is the one that the client gave. It carries the kind
/// and the data that the client gave.
pub proof fn law_reports_go_under_the_claimed_source(params: Json, d: Daemon, name: Seq<char>)
    requires
        params.get("source"@) == Some(Json::Text(name)),
    ensures
        match step_for("emit"@, params, d) {
            StepView::Report(report, reply) => {
                &&& params.get("kind"@) == Some(Json::Text(report.kind))
                &&& report.timestamp == d.now
                &&& params.get("data"@) matches Some(v) ==> report.payload == v
                &&& params.get("data"@) is None ==> report.payload == Json::Object(Map::empty())
                &&& reply.get("emitted"@) == Some(Json::Bool(true))
                &&& snapshot::source_json(report.source) == Json::Text(name)
                    || snapshot::source_json(report.source).get("app"@) == Some(Json::Text(name))
            },
            StepView::Done(r) => r is Err,
            _ => false,
        },
        !(params.get("kind"@) matches Some(Json::Text(_))) ==> step_for("emit"@, params, d)
            == StepView::Done(Err::<Json, Seq<char>>("missing event kind"@)),
        params.get("kind"@) is Some && params.get("kind"@)->0 is Text && (name == "terminal"@
            || name == "git"@ || name == "remote"@) ==> step_for("emit"@, params, d) is Report,
        params.get("kind"@) matches Some(Json::Text(kind)) ==> (d.apps.deep_view().contains(name)
            && apps::in_namespace(name, kind) && !internal_source(name) ==> step_for(
            "emit"@,
            params,
            d,
        ) is Report),
{
    lemma_methods_differ();
}

/// No client can send a report in the name of an adapter that reads the system, of
/// the daemon or of clients: the names that such sources have on the wire are
/// refused.
pub proof fn law_internal_sources_are_refused(
    source: Source,
    kind: Seq<char>,
    known_apps: Seq<Seq<char>>,
)
    requires
        !(source is Terminal),
        !(source is Git),
        !(source is Remote),
        !(source is App),
    ensures
        snapshot::source_json(source) matches Json::Text(name) && claimed_source(
            name,
            kind,
            known_apps,
        ) is Err,
{
    reveal_strlit("terminal");
    reveal_strlit("git");
    reveal_strlit("remote");
    reveal_strlit("hyprland");
    reveal_strlit("udev");
    reveal_strlit("power");
    reveal_strlit("network");
    reveal_strlit("bluetooth");
    reveal_strlit("filesystem");
    reveal_strlit("systemd");
    reveal_strlit("podman");
    reveal_strlit("manual");
    reveal_strlit("system");
    assert("terminal"@.len() == 8);
    assert("git"@.len() == 3);
    assert("remote"@.len() == 6);
    assert("hyprland"@.len() == 8);
    assert("udev"@.len() == 4);
    assert("power"@.len() == 5);
    assert("network"@.len() == 7);
    assert("bluetooth"@.len() == 9);
    assert("filesystem"@.len() == 10);
    assert("systemd"@.len() == 7);
    assert("podman"@.len() == 6);
    assert("manual"@.len() == 6);
    assert("system"@.len() == 6);
    assert("terminal"@[0] != "hyprland"@[0]);
    assert("remote"@[0] != "podman"@[0]);
    assert("remote"@[0] != "manual"@[0]);
    assert("remote"@[0] != "system"@[0]);
    assert("network"@[0] != "systemd"@[0]);
    assert("podman"@[0] != "manual"@[0]);
    assert("podman"@[0] != "system"@[0]);
    assert("manual"@[0] != "system"@[0]);
}

/// The events that a client asks to see again are those that the daemon remembers
/// and that are not older than asked for, in the order in which they came.
pub proof fn law_replay_gives_what_is_recent(params: Json, d: Daemon, event: EventView)
    ensures
        ({
            let since = match params.get("since_ms"@) {
                Some(Json::Num(Numeral::PosInt(n))) => n,
                _ => 0u64,
            };
            &&& replayed(d, params).contains(event) <==> ring::views(d.events@).contains(event)
                && event.timestamp + since >= d.now
            &&& step_for("events.replay"@, params, d) == StepView::Done(
                Ok::<Json, Seq<char>>(
                    Json::Array(
                        replayed(d, params).map_values(|e: EventView| BreadEvent::json(e)),
                    ),
                ),
            )
        }),
{
    lemma_methods_differ();
    let since = match params.get("since_ms"@) {
        Some(Json::Num(Numeral::PosInt(n))) => n,
        _ => 0u64,
    };
    crate::state_engine::lemma_kept(
        ring::views(d.events@),
        ring::not_before(recency::less(d.now, since)),
        event,
    );
}

/// The answer to a request names the request; it holds the result under `result`
/// where there is one, and what went wrong under `error` where there is none.
pub proof fn law_answers_on_the_wire(id: Seq<char>, outcome: Result<Json, Seq<char>>)
    ensures
        ({
            let v = IpcResponse::json(answer(id, outcome));
            &&& v.get("id"@) == Some(Json::Text(id))
            &&& outcome matches Ok(r) ==> v.get("result"@) == Some(r) && v.get("error"@) is None
            &&& outcome matches Err(e) ==> v.get("error"@) == Some(Json::Text(e)) && v.get(
                "result"@,
            ) is None
        }),
{
    reveal_strlit("id");
    reveal_strlit("result");
    reveal_strlit("error");
    assert("id"@.len() == 2);
    assert("result"@.len() == 6);
    assert("error"@.len() == 5);
}

/// Hooks may report as the terminal, git or a remote machine, and known apps in their own
/// name about events of their own. Who claims anything else is told why not.
pub proof fn law_claims_are_judged(name: Seq<char>, kind: Seq<char>, known: Seq<Seq<char>>)
    ensures
        name == "terminal"@ ==>
            claimed_source(name, kind, known) == Ok::<Source, Seq<char>>(Source::Terminal),
        name == "git"@ ==>
            claimed_source(name, kind, known) == Ok::<Source, Seq<char>>(Source::Git),
        name == "remote"@ ==>
            claimed_source(name, kind, known) == Ok::<Source, Seq<char>>(Source::Remote),
        internal_source(name) && name != "terminal"@ && name != "git"@ && name != "remote"@ ==>
            claimed_source(name, kind, known)
            == Err::<Source, Seq<char>>("source '"@ + name + "' is not externally injectable"@),
        !internal_source(name) && name != "terminal"@ && name != "git"@ && name != "remote"@
            && !known.contains(name) ==> claimed_source(name, kind, known)
            == Err::<Source, Seq<char>>("unknown app source '"@ + name + "'"@),
        !internal_source(name) && name != "terminal"@ && name != "git"@ && name != "remote"@
            && known.contains(name)
            && !text::has_prefix(kind, "bread."@ + name + "."@) ==>
                claimed_source(name, kind, known)
            == Err::<Source,
                Seq<char>>("event '"@ + kind + "' is outside the namespace of '"@ + name + "'"@),
        !internal_source(name) && name != "terminal"@ && name != "git"@ && name != "remote"@
            && known.contains(name)
            && text::has_prefix(kind, "bread."@ + name + "."@)
                && kind.len() > ("bread."@ + name + "."@).len() ==>
                claimed_source(name, kind, known)
            == Ok::<Source, Seq<char>>(Source::App(name)),
{
    reveal_strlit("terminal");
    reveal_strlit("git");
    reveal_strlit("remote");
    assert("terminal"@.len() == 8);
    assert("git"@.len() == 3);
    assert("remote"@.len() == 6);
}

/// A client that sends an event under a reserved name is told that it is reserved; any
/// other event is sent as it was given.
pub proof fn law_reserved_names_are_refused(event: Seq<char>, data: Json, now: u64)
    ensures
        apps::reserved_event(event) ==> manual(event, data, now) == Err::<EventView, Seq<char>>(
            "event name '"@ + event + "' is reserved for adapters and the daemon"@,
        ),
        !apps::reserved_event(event) ==> (manual(event, data, now) matches Ok(e)
            && e.event == event && e.data == data
            && e.timestamp == now && e.source == Source::Manual),
{
}

} // verus!
