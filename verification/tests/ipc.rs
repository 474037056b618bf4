use breadd::adapters::manager::AdapterStatus;
use breadd::apps::known_apps;
use breadd::engine::{Effect, StateCommand, StateEngine};
use breadd::events::{AdapterSource, BreadEvent};
use breadd::glob::matches_filter;
use breadd::ipc::{
    after_send, connection_for, event_line, handle_request, look_up, manual_emit, passes,
    reload_outcome, respond, response_line, subscribed, Connection, Daemon, IpcRequest, IpcStep,
};
use breadd::json::JsonValue;
use breadd::normalizer::EventNormalizer;
use breadd::ring::{ErrorEntry, Ring, EVENT_LIMIT};
use breadd::table::Table;
use breadd::types::RuntimeState;
use breadd::wire;
use breadd::workflows::{
    workflow_fail, workflow_finish, workflow_register, workflow_step, workflow_timeout,
};

fn j(s: &str) -> JsonValue {
    wire::parse(s).expect("a JSON text")
}

/// The daemon without its sockets: what a request calls for is done at once.
struct Harness {
    engine: StateEngine,
    state: RuntimeState,
    normalizer: EventNormalizer,
    adapters: Table<AdapterStatus>,
    events: Ring<BreadEvent>,
    errors: Vec<ErrorEntry>,
    apps: Vec<String>,
    filter: Option<String>,
    stream: Vec<JsonValue>,
    now: u64,
}

impl Harness {
    fn new() -> Harness {
        let mut adapters = Table::new();
        adapters.insert("udev".to_string(), AdapterStatus::Connected);
        Harness {
            engine: StateEngine::default(),
            state: RuntimeState::default(),
            normalizer: EventNormalizer::new(0),
            adapters,
            events: Ring::new(EVENT_LIMIT),
            errors: vec![ErrorEntry {
                timestamp: 7,
                module: Some("dock".to_string()),
                message: "boom".to_string(),
            }],
            apps: known_apps(),
            filter: None,
            stream: Vec::new(),
            now: 1_000_000,
        }
    }

    fn subscribe(&mut self, id: &str, filter: &str) -> JsonValue {
        let req = IpcRequest {
            id: id.to_string(),
            method: "events.subscribe".to_string(),
            params: JsonValue::empty().with("filter", JsonValue::of_text(filter)),
        };
        match connection_for(&req) {
            Connection::Stream(f) => self.filter = f,
            other => panic!("unexpected {other:?}"),
        }
        j(&response_line(&subscribed(req.id)))
    }

    fn publish(&mut self, event: BreadEvent) {
        let now = self.now;
        for effect in self.engine.handle_event(event, &mut self.state, now) {
            if let Effect::Publish(event) = effect {
                if passes(self.filter.as_deref(), &event.event) {
                    let line = event_line(&event);
                    assert!(line.ends_with('\n'));
                    self.stream.push(j(&line));
                }
                self.events.push(event);
            }
        }
    }

    fn step(&self, method: &str, params: &str) -> IpcStep {
        self.step_of("1", method, params)
    }

    fn step_of(&self, id: &str, method: &str, params: &str) -> IpcStep {
        let req = IpcRequest {
            id: id.to_string(),
            method: method.to_string(),
            params: j(params),
        };
        handle_request(
            &req,
            &Daemon {
                state: &self.state,
                adapters: &self.adapters,
                events: &self.events,
                errors: &self.errors,
                subscriptions: 3,
                pid: 42,
                version: "1.2.3",
                uptime_ms: 5000,
                socket: "/tmp/bread/breadd.sock",
                sync_toml: Some("[machine]\nname = \"desk\"\n"),
                apps: &self.apps,
                now: self.now,
            },
        )
    }

    fn send(&mut self, method: &str, params: &str) -> Result<JsonValue, String> {
        let outcome = match self.step(method, params) {
            IpcStep::Done(outcome) => outcome,
            IpcStep::Reload => reload_outcome(Ok(()), 12, &self.state),
            IpcStep::Activate { name, event, reply } => {
                self.engine
                    .handle_command(StateCommand::SetProfile { name }, &mut self.state);
                self.publish(event);
                after_send(true, reply)
            }
            IpcStep::Publish { event, reply } => {
                self.publish(event);
                after_send(true, reply)
            }
            IpcStep::Report { report, reply } => {
                for event in self.normalizer.normalize(&report) {
                    self.publish(event);
                }
                after_send(true, reply)
            }
        };
        let line = response_line(&respond("1".to_string(), outcome));
        assert!(line.ends_with('\n'));
        let parsed = j(&line);
        assert_eq!(parsed.text("id"), Some("1"));
        match parsed.text("error") {
            Some(e) => {
                assert!(parsed.get("result").is_none());
                Err(e.to_string())
            }
            None => Ok(parsed.get("result").expect("a result").duplicate()),
        }
    }

    fn workflow(&mut self, name: &str) -> JsonValue {
        let list = self.send("workflows.list", "{}").unwrap();
        list.as_array()
            .unwrap()
            .iter()
            .find(|e| e.text("name") == Some(name))
            .expect("the workflow")
            .duplicate()
    }
}

#[test]
fn ping_and_state_dump_work() {
    let mut harness = Harness::new();
    let ping = harness.send("ping", "{}").unwrap();
    assert_eq!(ping.flag("ok"), Some(true));

    let health = harness.send("health", "{}").unwrap();
    assert_eq!(health.flag("ok"), Some(true));
    assert!(health.text("version").is_some());
    assert!(health.unsigned("uptime_ms").is_some());

    let dump = harness.send("state.dump", "{}").unwrap();
    assert!(dump.get("devices").is_some());
    assert!(dump.get("profile").is_some());
}

#[test]
fn health_tells_all_of_the_daemon() {
    let health = Harness::new().send("health", "{}").unwrap();
    assert_eq!(
        health,
        j(r#"{
            "ok": true, "pid": 42, "version": "1.2.3", "uptime_ms": 5000,
            "socket": "/tmp/bread/breadd.sock", "adapters": {"udev": "connected"},
            "modules": [], "subscriptions": 3,
            "recent_errors": [{"timestamp": 7, "module": "dock", "message": "boom"}]
        }"#)
    );
}

#[test]
fn unknown_method_returns_error() {
    let msg = Harness::new().send("not.a.real.method", "{}").unwrap_err();
    assert!(msg.contains("unknown method"), "got: {msg}");
}

#[test]
fn profile_activate_updates_state() {
    let mut harness = Harness::new();
    let result = harness
        .send("profile.activate", r#"{"name": "battery"}"#)
        .unwrap();
    assert_eq!(result.text("active"), Some("battery"));
    let dump = harness.send("state.dump", "{}").unwrap();
    assert_eq!(dump.get("profile").unwrap().text("active"), Some("battery"));
    let names = harness.send("events.replay", r#"{"since_ms": 0}"#).unwrap();
    assert_eq!(
        names.as_array().unwrap()[0].text("event"),
        Some("bread.profile.activated")
    );
}

#[test]
fn profile_activate_without_name_errors() {
    let msg = Harness::new().send("profile.activate", "{}").unwrap_err();
    assert!(msg.contains("missing profile name"), "got: {msg}");
}

#[test]
fn emit_without_event_errors() {
    assert!(Harness::new().send("emit", "{}").is_err());
}

#[test]
fn emit_without_source_rejects_adapter_owned_event_name() {
    let msg = Harness::new()
        .send(
            "emit",
            r#"{ "event": "bread.power.ac.connected", "data": { "ac_connected": true } }"#,
        )
        .unwrap_err();
    assert!(msg.contains("reserved"), "got: {msg}");
}

#[test]
fn emit_without_source_rejects_every_adapter_owned_domain() {
    let mut harness = Harness::new();
    for event in [
        "bread.power.ac.connected",
        "bread.network.connected",
        "bread.device.connected",
        "bread.bluetooth.device.paired",
        "bread.hyprland.event",
        "bread.workspace.changed",
        "bread.monitor.connected",
        "bread.window.opened",
        "bread.system.startup",
    ] {
        let params = format!(r#"{{ "event": "{event}", "data": {{}} }}"#);
        assert!(
            harness.send("emit", &params).is_err(),
            "expected '{event}' to be rejected"
        );
    }
}

#[test]
fn emit_without_source_still_allows_custom_event_names() {
    let result = Harness::new()
        .send(
            "emit",
            r#"{ "event": "bread.mymodule.custom_thing", "data": { "n": 1 } }"#,
        )
        .unwrap();
    assert_eq!(result.flag("emitted"), Some(true));
}

#[test]
fn emit_without_source_is_tagged_manual_not_system() {
    let mut harness = Harness::new();
    harness.subscribe("sub-manual", "bread.mymodule.*");
    harness
        .send("emit", r#"{ "event": "bread.mymodule.poked", "data": {} }"#)
        .unwrap();
    let event = &harness.stream[0];
    assert_eq!(event.text("event"), Some("bread.mymodule.poked"));
    assert_eq!(event.text("source"), Some("manual"));
}

#[test]
fn emit_with_internal_source_is_rejected() {
    let msg = Harness::new()
        .send(
            "emit",
            r#"{ "source": "power", "kind": "ac.connected", "data": {} }"#,
        )
        .unwrap_err();
    assert!(msg.contains("not externally injectable"), "got: {msg}");
}

#[test]
fn emit_with_unregistered_app_source_is_rejected() {
    assert!(Harness::new()
        .send(
            "emit",
            r#"{ "source": "notanapp", "kind": "bread.notanapp.thing", "data": {} }"#,
        )
        .is_err());
}

#[test]
fn emit_with_known_app_source_routes_through_normalizer() {
    let mut harness = Harness::new();
    harness.subscribe("sub-app", "bread.clip.**");
    harness
        .send(
            "emit",
            r#"{
                "source": "clip",
                "kind": "bread.clip.copied",
                "data": { "kind": "url", "len": 42 }
            }"#,
        )
        .unwrap();
    let event = &harness.stream[0];
    assert_eq!(event.text("event"), Some("bread.clip.copied"));
    assert_eq!(event.get("source").unwrap().text("app"), Some("clip"));
    assert_eq!(event.get("data").unwrap().get("len"), Some(&j("42")));
}

#[test]
fn emit_with_app_source_rejects_wrong_namespace() {
    let msg = Harness::new()
        .send(
            "emit",
            r#"{ "source": "clip", "kind": "bread.pad.reminder.due", "data": {} }"#,
        )
        .unwrap_err();
    assert!(msg.contains("namespace"), "got: {msg}");
}

#[test]
fn emit_with_a_hook_source_goes_to_the_normalizer() {
    let harness = Harness::new();
    for (name, source) in [
        ("terminal", AdapterSource::Terminal),
        ("git", AdapterSource::Git),
        ("remote", AdapterSource::Remote),
    ] {
        let params = format!(r#"{{"source": "{name}", "kind": "k", "data": [1]}}"#);
        match harness.step("emit", &params) {
            IpcStep::Report { report, reply } => {
                assert_eq!(format!("{:?}", report.source), format!("{source:?}"));
                assert_eq!(report.kind, "k");
                assert_eq!(report.payload, j("[1]"));
                assert_eq!(report.timestamp, 1_000_000);
                assert_eq!(reply, j(r#"{"emitted": true}"#));
            }
            other => panic!("unexpected {other:?}"),
        }
    }
    match harness.step("emit", r#"{"source": "git"}"#) {
        IpcStep::Done(Err(e)) => assert_eq!(e, "missing event kind"),
        other => panic!("unexpected {other:?}"),
    }
}

#[test]
fn state_get_returns_specific_subtree() {
    let mut harness = Harness::new();
    let modules = harness.send("state.get", r#"{"key": "modules"}"#).unwrap();
    assert!(modules.as_array().is_some());
    let active = harness
        .send("state.get", r#"{"key": "profile.active"}"#)
        .unwrap();
    assert!(active.as_str().is_some());
    assert_eq!(
        look_up(&harness.state, "profile.active").unwrap(),
        active
    );
}

#[test]
fn state_get_missing_key_returns_error() {
    assert!(Harness::new()
        .send("state.get", r#"{"key": "does.not.exist"}"#)
        .is_err());
}

#[test]
fn modules_list_returns_array() {
    assert!(Harness::new()
        .send("modules.list", "{}")
        .unwrap()
        .as_array()
        .is_some());
}

#[test]
fn modules_reload_succeeds() {
    let result = Harness::new().send("modules.reload", "{}").unwrap();
    assert_eq!(result.flag("ok"), Some(true));
    assert_eq!(result.unsigned("duration_ms"), Some(12));
}

#[test]
fn reload_that_failed_is_told() {
    let failed = reload_outcome(Err("no lua".to_string()), 1, &RuntimeState::default());
    assert_eq!(failed.unwrap_err(), "no lua");
    assert_eq!(
        after_send(false, JsonValue::empty()).unwrap_err(),
        "emit channel closed"
    );
}

#[test]
fn daemon_survives_repeated_reloads_and_pipeline_resumes() {
    let mut harness = Harness::new();
    harness
        .send("emit", r#"{"event": "bread.reload.before", "data": {}}"#)
        .unwrap();
    for _ in 0..3 {
        let r = harness.send("modules.reload", "{}").unwrap();
        assert_eq!(r.flag("ok"), Some(true));
    }
    assert_eq!(harness.send("ping", "{}").unwrap().flag("ok"), Some(true));
    assert_eq!(harness.send("health", "{}").unwrap().flag("ok"), Some(true));
    harness
        .send("emit", r#"{"event": "bread.reload.after", "data": {}}"#)
        .unwrap();
    let replay = harness
        .send("events.replay", r#"{"since_ms": 30000}"#)
        .unwrap();
    let names: Vec<&str> = replay
        .as_array()
        .unwrap()
        .iter()
        .filter_map(|e| e.text("event"))
        .collect();
    assert!(names.contains(&"bread.reload.after"), "got {names:?}");
}

#[test]
fn events_replay_returns_buffered_events() {
    let mut harness = Harness::new();
    harness
        .send("emit", r#"{"event": "bread.replay.a", "data": {}}"#)
        .unwrap();
    harness.now += 1000;
    harness
        .send("emit", r#"{"event": "bread.replay.b", "data": {}}"#)
        .unwrap();
    harness.now += 100;
    let names = |v: JsonValue| -> Vec<String> {
        v.as_array()
            .unwrap()
            .iter()
            .filter_map(|e| e.text("event").map(|s| s.to_string()))
            .collect()
    };
    let result = harness
        .send("events.replay", r#"{"since_ms": 10000}"#)
        .unwrap();
    assert_eq!(names(result), vec!["bread.replay.a", "bread.replay.b"]);
    // Only what is not older than asked for comes back.
    let result = harness
        .send("events.replay", r#"{"since_ms": 100}"#)
        .unwrap();
    assert_eq!(names(result), vec!["bread.replay.b"]);
}

#[test]
fn event_stream_filter_excludes_non_matching_events() {
    let mut harness = Harness::new();
    harness.subscribe("sub-x", "bread.match.*");
    harness
        .send("emit", r#"{"event": "bread.nomatch.x", "data": {}}"#)
        .unwrap();
    harness
        .send("emit", r#"{"event": "bread.match.yes", "data": {}}"#)
        .unwrap();
    let names: Vec<_> = harness.stream.iter().map(|e| e.text("event")).collect();
    assert_eq!(names, vec![Some("bread.match.yes")]);
}

#[test]
fn multiple_concurrent_clients_each_get_response() {
    let harness = Harness::new();
    for i in 0..8 {
        let id = i.to_string();
        match harness.step_of(&id, "ping", "{}") {
            IpcStep::Done(outcome) => {
                let answer = j(&response_line(&respond(id.clone(), outcome)));
                assert_eq!(answer.text("id"), Some(id.as_str()));
                assert_eq!(answer.get("result").unwrap().flag("ok"), Some(true));
                assert!(answer.get("error").is_none());
            }
            other => panic!("unexpected {other:?}"),
        }
    }
}

#[test]
fn events_stream_receives_emitted_events() {
    let mut harness = Harness::new();
    let ack = harness.subscribe("sub-1", "bread.custom.*");
    assert_eq!(ack.text("id"), Some("sub-1"));
    assert_eq!(ack.get("result").unwrap().flag("subscribed"), Some(true));
    harness
        .send(
            "emit",
            r#"{ "event": "bread.custom.test", "data": { "ok": true } }"#,
        )
        .unwrap();
    assert_eq!(harness.stream[0].text("event"), Some("bread.custom.test"));
}

#[test]
fn workflow_reaches_done_via_wait_any_happy_path() {
    let mut harness = Harness::new();
    workflow_register(&mut harness.state, "test-flow", 1);
    workflow_step(&mut harness.state, "test-flow", "started", 2);
    assert_eq!(harness.workflow("test-flow").text("state"), Some("running"));
    workflow_step(&mut harness.state, "test-flow", "waited", 3);
    workflow_finish(&mut harness.state, "test-flow", 4);
    // A deadline that passes after the end changes nothing.
    workflow_timeout(&mut harness.state, "test-flow", 5);
    let status = harness.workflow("test-flow");
    assert_eq!(status.text("state"), Some("done"));
    assert_eq!(status.text("step"), Some("waited"));
}

#[test]
fn workflow_times_out_when_deadline_exceeded() {
    let mut harness = Harness::new();
    workflow_register(&mut harness.state, "timeout-flow", 1);
    workflow_step(&mut harness.state, "timeout-flow", "waiting", 2);
    workflow_timeout(&mut harness.state, "timeout-flow", 301);
    let status = harness.workflow("timeout-flow");
    assert_eq!(status.text("state"), Some("timed_out"));
    assert_eq!(status.text("step"), Some("waiting"));
}

#[test]
fn workflow_captures_error_on_failure() {
    let mut harness = Harness::new();
    workflow_register(&mut harness.state, "fail-flow", 1);
    workflow_step(&mut harness.state, "fail-flow", "about-to-fail", 2);
    workflow_fail(&mut harness.state, "fail-flow", "runtime error: boom", 3);
    let status = harness.workflow("fail-flow");
    assert_eq!(status.text("state"), Some("failed"));
    assert!(status.text("error").unwrap().contains("boom"));
}

#[test]
fn connections_go_where_their_first_request_says() {
    let req = |method: &str, params: &str| IpcRequest {
        id: "1".to_string(),
        method: method.to_string(),
        params: j(params),
    };
    assert!(matches!(
        connection_for(&req("events.subscribe", "{}")),
        Connection::Stream(None)
    ));
    assert!(matches!(
        connection_for(&req("module_host.hello", "{}")),
        Connection::ModuleHost
    ));
    assert!(matches!(
        connection_for(&req("ping", "{}")),
        Connection::Request
    ));
    assert!(passes(None, "anything"));
}

#[test]
fn manual_events_are_marked_and_their_refusals_explained() {
    let event = manual_emit("bread.mine.x", j("[1]"), 5).unwrap();
    assert!(matches!(event.source, AdapterSource::Manual));
    assert_eq!(event.timestamp, 5);
    assert_eq!(event.data, j("[1]"));
    assert_eq!(
        manual_emit("bread.power.x", j("{}"), 5).unwrap_err(),
        "event name 'bread.power.x' is reserved for adapters and the daemon"
    );
}

#[test]
fn profiles_and_the_machine_can_be_asked_for() {
    let mut harness = Harness::new();
    assert!(harness.send("profile.list", "{}").is_ok());
    let status = harness.send("sync.status", "{}").unwrap();
    assert_eq!(status.flag("initialized"), Some(true));
}

#[test]
fn filter_exact_match() {
    assert!(matches_filter("bread.window.opened", "bread.window.opened"));
    assert!(!matches_filter(
        "bread.window.opened",
        "bread.window.closed"
    ));
}

#[test]
fn filter_dot_star_matches_one_segment_only() {
    assert!(matches_filter("bread.device.connected", "bread.device.*"));
    assert!(matches_filter(
        "bread.device.dock.connected",
        "bread.device.*"
    ));
    assert!(!matches_filter("bread.device", "bread.device.*"));
}

#[test]
fn filter_dot_double_star_matches_zero_or_more_segments() {
    // Matches the exact prefix (zero segments after).
    assert!(matches_filter("bread.device", "bread.device.**"));
    // And matches deeper paths.
    assert!(matches_filter(
        "bread.device.dock.connected",
        "bread.device.**"
    ));
    // But not a sibling at the same depth.
    assert!(!matches_filter(
        "bread.network.connected",
        "bread.device.**"
    ));
}

#[test]
fn filter_question_mark_matches_single_char_not_dot() {
    assert!(matches_filter("bread.x", "bread.?"));
    assert!(!matches_filter("bread.xy", "bread.?"));
    assert!(!matches_filter("bread.", "bread.?"));
}

#[test]
fn filter_mid_pattern_star_does_not_cross_dots() {
    // A `*` in the middle of the pattern (not the `.*` suffix shortcut)
    // matches within a single segment only.
    assert!(matches_filter("bread.alpha.connected", "bread.*.connected"));
    assert!(!matches_filter(
        "bread.alpha.beta.connected",
        "bread.*.connected"
    ));
}

#[test]
fn filter_dot_star_at_end_acts_as_prefix_match() {
    // `bread.*` ending the pattern is treated as a prefix match, so
    // matches everything under `bread.` regardless of depth. This is
    // consistent with the subscription table's pattern matcher.
    assert!(matches_filter("bread.alpha", "bread.*"));
    assert!(matches_filter("bread.alpha.beta", "bread.*"));
}
