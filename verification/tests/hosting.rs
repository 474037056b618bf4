use breadd::bridge::{
    bin_allowed, capture_reply, close, dispatch_module_host_method, dispatch_with, hello,
    path_allowed, push_event, push_timer, read_reply, write_outcome, HostSession, HostStep,
    LogLevel,
};
use breadd::events::{AdapterSource, BreadEvent};
use breadd::json::JsonValue;
use breadd::module_host::{
    bin_candidates, describe_exit, not_ready, prepare_spawn, process_ended, resolve_bin_path,
    resolve_module_host_binary, runs_apart, sandbox_rules, short, spawn_failed, spawn_module_host,
    Access, Exit, ModuleHostOutcome, ModuleHostRegistry, ModulePermission, PendingModuleHost,
    PermissionKind, READY_TIMEOUT_SECS,
};
use breadd::types::{ModuleLoadState, RuntimeState};
use breadd::wire;

fn j(s: &str) -> JsonValue {
    wire::parse(s).expect("a JSON text")
}

fn grant(kind: PermissionKind, path: Option<&str>, bin: Option<&str>) -> ModulePermission {
    ModulePermission {
        kind,
        path: path.map(|s| s.to_string()),
        bin: bin.map(|s| s.to_string()),
    }
}

fn session(permissions: Vec<ModulePermission>) -> HostSession {
    HostSession {
        module: "mod".to_string(),
        permissions,
        reported: false,
    }
}

fn ask(s: &mut HostSession, method: &str, params: &str) -> HostStep {
    let state = RuntimeState::default();
    dispatch_with(s, method, &j(params), &state, Some("/home/me"), "fresh", 11)
}

fn refusal(step: HostStep) -> String {
    match step {
        HostStep::Done(Err(e)) => e,
        other => panic!("unexpected {other:?}"),
    }
}

#[test]
fn tokens_are_good_once() {
    let mut registry = ModuleHostRegistry::new();
    for (token, name) in [("t1", "one"), ("t2", "two")] {
        registry.insert_pending(
            token.to_string(),
            PendingModuleHost {
                module_name: name.to_string(),
                permissions: vec![grant(PermissionKind::FsRead, Some("/data"), None)],
            },
        );
    }
    let (reply, s) = hello(&mut registry, "h".to_string(), &j(r#"{"token": "t1"}"#), "3");
    assert_eq!(reply.id, "h");
    assert_eq!(
        reply.result,
        Some(j(r#"{
            "module": "one", "api_version": "3",
            "permissions": [{"type": "fs.read", "path": "/data"}]
        }"#))
    );
    let s = s.expect("a conversation");
    assert_eq!(s.module, "one");
    assert!(!s.reported);

    let (reply, s) = hello(&mut registry, "h".to_string(), &j(r#"{"token": "t1"}"#), "3");
    assert_eq!(
        reply.error.as_deref(),
        Some("invalid or expired module-host token")
    );
    assert!(s.is_none());
    let (reply, s) = hello(&mut registry, "h".to_string(), &j("{}"), "3");
    assert_eq!(
        reply.error.as_deref(),
        Some("module_host.hello: missing token")
    );
    assert!(s.is_none());
    // The other token is as good as before.
    assert!(hello(&mut registry, "h".to_string(), &j(r#"{"token": "t2"}"#), "3")
        .1
        .is_some());
}

#[test]
fn ungranted_requests_are_refused() {
    for (method, params, message) in [
        ("module_host.state_get", r#"{"key": "profile"}"#, "state.read not granted to this module"),
        ("module_host.fs_read", r#"{"path": "/x"}"#, "fs.read not granted to this module"),
        ("module_host.fs_write", r#"{"path": "/x"}"#, "fs.write not granted to this module"),
    ] {
        let step = ask(&mut session(vec![]), method, params);
        assert_eq!(refusal(step), message);
    }
    for method in ["module_host.exec", "module_host.exec_capture"] {
        let step = ask(&mut session(vec![]), method, r#"{"cmd": "ls"}"#);
        assert!(refusal(step).contains("not granted"));
    }
    assert!(matches!(
        ask(&mut session(vec![]), "no.such.method", "{}"),
        HostStep::Done(Err(_))
    ));
}

#[test]
fn granted_requests_stay_in_scope() {
    let perms = || {
        vec![
            grant(PermissionKind::StateRead, None, None),
            grant(PermissionKind::FsRead, Some("~/data"), None),
            grant(PermissionKind::FsWrite, Some("/tmp/out"), None),
            grant(PermissionKind::Exec, None, Some("/usr/bin/git")),
        ]
    };
    let mut s = session(perms());
    match ask(&mut s, "module_host.state_get", r#"{"key": "profile.active"}"#) {
        HostStep::Done(Ok(v)) => assert!(v.text("value").is_some()),
        other => panic!("unexpected {other:?}"),
    }
    match ask(&mut s, "module_host.fs_read", r#"{"path": "~/data/a.txt"}"#) {
        HostStep::ReadFile { path } => assert_eq!(path, "/home/me/data/a.txt"),
        other => panic!("unexpected {other:?}"),
    }
    assert_eq!(
        refusal(ask(&mut s, "module_host.fs_read", r#"{"path": "/etc/passwd"}"#)),
        "path '/etc/passwd' is outside this module's granted fs.read scope"
    );
    match ask(&mut s, "module_host.fs_write", r#"{"path": "/tmp/out/a", "content": "c"}"#) {
        HostStep::WriteFile { path, content } => {
            assert_eq!(path, "/tmp/out/a");
            assert_eq!(content, "c");
        }
        other => panic!("unexpected {other:?}"),
    }
    assert_eq!(
        refusal(ask(&mut s, "module_host.fs_write", r#"{"path": "/tmp/outside"}"#)),
        "path '/tmp/outside' is outside this module's granted fs.write scope"
    );
    match ask(&mut s, "module_host.exec", r#"{"cmd": "git status"}"#) {
        HostStep::Run { cmd, .. } => assert_eq!(cmd, "git status"),
        other => panic!("unexpected {other:?}"),
    }
    assert!(matches!(
        ask(&mut s, "module_host.exec", r#"{"cmd": "rm -rf /"}"#),
        HostStep::Done(Err(_))
    ));
    assert!(path_allowed(&perms(), PermissionKind::FsRead, "/home/me/data", Some("/home/me")));
    assert!(!path_allowed(&perms(), PermissionKind::FsRead, "/home/me/database", Some("/home/me")));
    assert!(bin_allowed(&perms(), "/opt/git log"));
    assert!(!bin_allowed(&perms(), "gitk"));
    // A grant that names nothing covers everything.
    let any = vec![grant(PermissionKind::Exec, None, None)];
    assert!(bin_allowed(&any, "whatever"));
}

#[test]
fn modules_get_events_and_timers() {
    let mut s = session(vec![]);
    match ask(&mut s, "module_host.on", r#"{"pattern": "bread.a.*"}"#) {
        HostStep::Subscribe { id, pattern, once, reply } => {
            assert_eq!((id.as_str(), pattern.as_str(), once), ("fresh", "bread.a.*", false));
            assert_eq!(reply, j(r#"{"subscription_id": "fresh"}"#));
        }
        other => panic!("unexpected {other:?}"),
    }
    let state = RuntimeState::default();
    match dispatch_module_host_method(&mut s, "module_host.on", &j(r#"{"pattern": "x"}"#), &state, None, 1) {
        HostStep::Subscribe { id, .. } => {
            assert_eq!(id.len(), 36);
            assert!(id.chars().all(|c| c == '-' || c.is_ascii_hexdigit()));
        }
        other => panic!("unexpected {other:?}"),
    }
    let event = BreadEvent::new("bread.a.b", AdapterSource::System, j("{}"), 5);
    let line = push_event("fresh", "bread.a.*", &event).expect("a line");
    assert!(line.ends_with('\n'));
    assert!(line.contains("bread.a.b"));
    assert!(push_event("fresh", "bread.z.*", &event).is_none());
    assert_eq!(
        j(&push_timer("t7")),
        j(r#"{"push": "timer", "timer_id": "t7"}"#)
    );
    match ask(&mut s, "module_host.after", r#"{"delay_ms": 0}"#) {
        HostStep::StartTimer { delay_ms, repeating, .. } => {
            assert_eq!((delay_ms, repeating), (1, false));
        }
        other => panic!("unexpected {other:?}"),
    }
    match ask(&mut s, "module_host.every", r#"{"interval_ms": 250}"#) {
        HostStep::StartTimer { delay_ms, repeating, .. } => {
            assert_eq!((delay_ms, repeating), (250, true));
        }
        other => panic!("unexpected {other:?}"),
    }
    assert!(matches!(
        ask(&mut s, "module_host.off", r#"{"id": "fresh"}"#),
        HostStep::Unsubscribe { .. }
    ));
    assert!(matches!(
        ask(&mut s, "module_host.cancel", r#"{"id": "fresh"}"#),
        HostStep::CancelTimer { .. }
    ));
    match ask(&mut s, "module_host.emit", r#"{"event": "bread.mine.x"}"#) {
        HostStep::Publish { event, .. } => assert!(matches!(event.source, AdapterSource::Manual)),
        other => panic!("unexpected {other:?}"),
    }
    assert!(refusal(ask(&mut s, "module_host.emit", r#"{"event": "bread.power.x"}"#))
        .contains("reserved"));
}

#[test]
fn outcomes_are_told_once() {
    let mut s = session(vec![]);
    match ask(&mut s, "module_host.status", r#"{"state": "loaded"}"#) {
        HostStep::Report { note, outcome, .. } => {
            assert_eq!(note.name, "mod");
            assert_eq!(note.status, ModuleLoadState::Loaded);
            assert!(matches!(outcome, Some(ModuleHostOutcome::Ready)));
        }
        other => panic!("unexpected {other:?}"),
    }
    match ask(&mut s, "module_host.status", r#"{"state": "loaded"}"#) {
        HostStep::Report { outcome, .. } => assert!(outcome.is_none()),
        other => panic!("unexpected {other:?}"),
    }
    assert!(close(s).is_none());
    let mut s = session(vec![]);
    match ask(&mut s, "module_host.status", r#"{"state": "load_error", "error": "boom"}"#) {
        HostStep::Report { note, outcome, .. } => {
            assert_eq!(note.status, ModuleLoadState::LoadError);
            assert_eq!(note.last_error.as_deref(), Some("boom"));
            assert!(matches!(outcome, Some(ModuleHostOutcome::LoadError(e)) if e == "boom"));
        }
        other => panic!("unexpected {other:?}"),
    }
    // One that never reports is told of at the end.
    assert!(matches!(
        close(session(vec![])),
        Some(ModuleHostOutcome::LoadError(_))
    ));
}

#[test]
fn replies_of_outside_work() {
    assert_eq!(read_reply(&Some("x".to_string())), j(r#"{"content": "x"}"#));
    assert_eq!(read_reply(&None), j(r#"{"content": null}"#));
    assert!(write_outcome(Ok(())).is_ok());
    assert_eq!(write_outcome(Err("full".to_string())).unwrap_err(), "full");
    assert_eq!(
        capture_reply(&Some((true, "out".to_string()))),
        j(r#"{"ok": true, "stdout": "out"}"#)
    );
    assert_eq!(capture_reply(&None), j(r#"{"ok": false, "stdout": ""}"#));
    let mut s = session(vec![grant(PermissionKind::Exec, None, None)]);
    for (params, expected) in [
        (r#"{"cmd": "ls"}"#, 2500),
        (r#"{"cmd": "ls", "timeout_ms": 100}"#, 600),
        (r#"{"cmd": "ls", "timeout_ms": 18446744073709551615}"#, u64::MAX),
    ] {
        match ask(&mut s, "module_host.exec_capture", params) {
            HostStep::Capture { wait_ms, .. } => assert_eq!(wait_ms, expected),
            other => panic!("unexpected {other:?}"),
        }
    }
    match ask(&mut session(vec![]), "module_host.warn", r#"{"message": "m"}"#) {
        HostStep::Log { level, message, .. } => {
            assert!(matches!(level, LogLevel::Warn));
            assert_eq!(message, "m");
        }
        other => panic!("unexpected {other:?}"),
    }
}

#[test]
fn the_kernel_allows_what_was_granted() {
    let perms = vec![
        grant(PermissionKind::FsRead, Some("~/in"), None),
        grant(PermissionKind::FsWrite, Some("/out"), None),
        grant(PermissionKind::Exec, None, Some("git")),
        grant(PermissionKind::Exec, None, Some("missing")),
        grant(PermissionKind::Notify, None, None),
    ];
    let programs = vec![None, None, Some("/usr/bin/git".to_string()), None, None];
    let rules = sandbox_rules("/bin/host", "/mods/m/init.lua", &perms, &programs, Some("/h"));
    let found: Vec<(&str, Access)> = rules.iter().map(|r| (r.path.as_str(), r.access)).collect();
    assert_eq!(
        found,
        vec![
            ("/usr/lib", Access::Link),
            ("/usr/lib64", Access::Link),
            ("/lib", Access::Link),
            ("/lib64", Access::Link),
            ("/etc/ld.so.cache", Access::ReadFile),
            ("/etc/ld.so.preload", Access::ReadFile),
            ("/bin/host", Access::Run),
            ("/mods/m", Access::Read),
            ("/h/in", Access::Read),
            ("/out", Access::Write),
            ("/usr/bin/git", Access::Run),
        ]
    );
    assert_eq!(rules[8].label, "fs.read rule for /h/in");
    let writable: Vec<&str> = rules
        .iter()
        .filter(|r| r.access.rights().write_file)
        .map(|r| r.path.as_str())
        .collect();
    assert_eq!(writable, vec!["/out"]);
    assert!(!Access::Read.rights().execute);
    assert!(Access::Run.rights().execute);
    assert!(runs_apart(&Some(vec![])));
    assert!(!runs_apart(&None));
}

#[test]
fn grants_without_a_path_are_not_for_the_kernel() {
    let perms = vec![grant(PermissionKind::FsRead, None, None)];
    assert!(path_allowed(&perms, PermissionKind::FsRead, "/anywhere", None));
    let without = sandbox_rules("/h", "/m/init.lua", &vec![], &vec![], None);
    let with = sandbox_rules("/h", "/m/init.lua", &perms, &vec![None], None);
    assert_eq!(with.len(), without.len());
}

#[test]
fn programs_are_looked_for() {
    let places = bin_candidates("git", Some("/bin:/usr/bin"));
    assert_eq!(places, vec!["/bin/git", "/usr/bin/git"]);
    assert_eq!(
        resolve_bin_path("git", &places, &vec![false, true]),
        Some("/usr/bin/git".to_string())
    );
    assert_eq!(resolve_bin_path("git", &places, &vec![false, false]), None);
    assert_eq!(bin_candidates("/x/git", None), vec!["/x/git"]);
    assert_eq!(
        resolve_module_host_binary(Some("/opt/bread/breadd"), true),
        "/opt/bread/bread-module-host"
    );
    assert_eq!(
        resolve_module_host_binary(Some("/opt/bread/breadd"), false),
        "bread-module-host"
    );
    assert_eq!(short("a-very-long-module-name"), "a-very-long-");
}

#[test]
fn processes_are_started_under_fresh_tokens() {
    let mut registry = ModuleHostRegistry::new();
    registry.insert_active("m".to_string(), 77);
    let plan = prepare_spawn(
        &mut registry,
        "tok".to_string(),
        "m",
        "/m/init.lua",
        &vec![],
        &vec![],
        "/s.sock",
        "/bin/host",
        None,
    );
    assert_eq!(plan.terminate, Some(77));
    assert_eq!(plan.program, "/bin/host");
    let pair = |k: &str, v: &str| (k.to_string(), v.to_string());
    assert_eq!(
        plan.env,
        vec![
            pair("BREAD_MODULE_TOKEN", "tok"),
            pair("BREAD_MODULE_ENTRY", "/m/init.lua"),
            pair("BREAD_MODULE_SOCKET", "/s.sock"),
            pair("BREAD_MODULE_NAME", "m"),
        ]
    );
    assert!(registry.take_pending("tok").is_some());

    let spawn = |registry: &mut ModuleHostRegistry| {
        spawn_module_host(registry, "n", "/n/init.lua", &vec![], &vec![], "/s", "/h", None)
    };
    let one = spawn(&mut registry);
    let two = spawn(&mut registry);
    assert_eq!(one.token.len(), 36);
    assert_ne!(one.token, two.token);
    assert_eq!(one.terminate, None);
    assert_eq!(
        spawn_failed(&mut registry, &one.token, "/h", "no such file"),
        "failed to spawn bread-module-host at /h: no such file"
    );
    assert!(registry.take_pending(&one.token).is_none());
    match not_ready(&mut registry, &two.token, "n") {
        ModuleHostOutcome::LoadError(e) => assert_eq!(
            e,
            format!("module-host for 'n' did not report ready within {READY_TIMEOUT_SECS}s")
        ),
        other => panic!("unexpected {other:?}"),
    }
    assert_eq!(registry.shutdown_all(), vec![77]);
}

#[test]
fn ends_of_processes_are_told() {
    let mut registry = ModuleHostRegistry::new();
    registry.insert_active("victim".to_string(), 5);
    let event = process_ended(&mut registry, "victim", 5, &Exit::Signal(9), 3);
    assert_eq!(event.event, "bread.module.crashed");
    assert_eq!(
        event.data,
        j(r#"{
            "module": "victim", "pid": 5, "reason": "killed by signal 9",
            "exit_code": null, "signal": 9
        }"#)
    );
    assert_eq!(registry.existing("victim"), None);
    assert_eq!(
        describe_exit(&Exit::Code(-1)),
        ("exited with code -1".to_string(), Some(-1), None)
    );
    assert_eq!(
        describe_exit(&Exit::Unknown).0,
        "exited (unknown reason)"
    );
    assert_eq!(
        describe_exit(&Exit::Failed("e".to_string())).0,
        "wait() failed: e"
    );
}
