use breadd::builtin::builtin_module_decls;
use breadd::config::{Config, NotificationsConfig};
use breadd::control::{
    bluetooth_device, bluetooth_find_adapter, device_path, discovery_method, dispatch_request,
    eval_request, keyword_request, BluezObject,
};
use breadd::engine::StateCommand;
use breadd::events::{AdapterSource, BreadEvent};
use breadd::json::JsonValue;
use breadd::loading::{
    is_lua_file, keep_usable_rules, load_status, missing_status, module_is_builtin, plan_modules,
    require_path, rules_status, select_files, sort_files, unload_order, LoadOutcome, ModuleFile,
    Scanned,
};
use breadd::lua_runtime::{lua_event, profile_event, reload_commands, Arguments, LuaRuntime};
use breadd::machine::{
    lua_hostname, lua_machine_name, lua_machine_tags, sync_path, sync_status,
};
use breadd::modules::{is_lib_path, module_name_from_path, order_module_decls, ModuleDecl};
use breadd::notify::{notification, notify_args, sent_event, NotifyOptions};
use breadd::paths;
use breadd::ring::{replay, Ring, ERROR_LIMIT};
use breadd::rules::{load_rules, RulesLoadOutcome};
use breadd::store::{module_store_get, module_store_set};
use breadd::supervisor::{next_attempt, restart_delay};
use breadd::table::Table;
use breadd::text;
use breadd::types::{DeviceRule, MatchCondition, ModuleLoadState, ModuleStatus, RuntimeState};
use breadd::widgets::{
    cleared_event, default_widget_visible, registered_event, removed_event, widget_list_json,
    widget_register, widget_remove, widget_update, WidgetRegisterArgs, WidgetUpdateArgs,
};
use breadd::wire;

fn j(s: &str) -> JsonValue {
    wire::parse(s).expect("a JSON text")
}

fn texts(items: &[&str]) -> Vec<String> {
    items.iter().map(|s| s.to_string()).collect()
}

fn decl(name: &str, after: &[&str]) -> ModuleDecl {
    ModuleDecl {
        name: name.to_string(),
        version: None,
        after: texts(after),
        path: format!("/m/{name}.lua"),
        source: None,
        builtin: false,
    }
}

fn event(name: &str, data: &str) -> BreadEvent {
    BreadEvent::new(name, AdapterSource::System, j(data), 5)
}

#[test]
fn modules_load_after_what_they_need() {
    let (ordered, errors) = order_module_decls(vec![
        decl("c", &["b"]),
        decl("a", &[]),
        decl("b", &["a"]),
        decl("a", &[]),
        decl("d", &["nowhere"]),
        decl("x", &["y"]),
        decl("y", &["x"]),
    ]);
    let names: Vec<&str> = ordered.iter().map(|d| d.name.as_str()).collect();
    assert_eq!(names, vec!["a", "b", "c"]);
    // What is not loaded is complained about.
    for name in ["a", "d", "x", "y"] {
        assert!(errors.iter().any(|(n, _)| n == name), "nothing on {name}");
    }
}

#[test]
fn module_files_are_named_and_chosen() {
    assert_eq!(module_name_from_path("/m", "/m/dock.lua"), "dock");
    assert_eq!(module_name_from_path("/m", "/m/a/b.lua"), "a.b");
    assert!(is_lib_path("/m", "/m/lib/util.lua"));
    assert!(!is_lib_path("/m", "/m/liberty.lua"));
    assert!(is_lua_file("/m/a.lua"));
    assert!(!is_lua_file("/m/a.txt"));
    let file = |p: &str| ModuleFile { path: p.to_string() };
    let files = sort_files(vec![file("/m/b.lua"), file("/m/a/z.lua"), file("/m/lib/u.lua")]);
    let order: Vec<&str> = files.iter().map(|f| f.path.as_str()).collect();
    assert_eq!(order, vec!["/m/a/z.lua", "/m/b.lua", "/m/lib/u.lua"]);
    let (wanted, notes) = select_files("/m", &files, &texts(&["b"]));
    assert_eq!(wanted, vec!["/m/a/z.lua"]);
    assert_eq!(notes.len(), 1);
    assert_eq!(notes[0].name, "b");
    assert_eq!(notes[0].status, ModuleLoadState::Disabled);
}

#[test]
fn plans_note_what_cannot_be_loaded() {
    let plan = plan_modules(
        "/m",
        true,
        &texts(&["bread.binds"]),
        vec![
            Scanned {
                path: "/m/bad.lua".to_string(),
                found: Err("syntax".to_string()),
            },
            Scanned {
                path: "/m/dock.lua".to_string(),
                found: Ok(decl("dock", &["bread.monitors"])),
            },
        ],
    );
    let names: Vec<&str> = plan.ordered.iter().map(|d| d.name.as_str()).collect();
    assert!(names.contains(&"dock"));
    assert!(names.contains(&"bread.workspaces"));
    assert!(!names.contains(&"bread.binds"));
    assert!(module_is_builtin(&plan.ordered, "bread.monitors"));
    assert!(!module_is_builtin(&plan.ordered, "dock"));
    assert_eq!(plan.notes.len(), 1);
    assert_eq!(plan.notes[0].name, "bad");
    assert_eq!(plan.notes[0].last_error.as_deref(), Some("syntax"));
    assert_eq!(unload_order(&texts(&["a", "b"])), vec!["b", "a"]);
    let declared = |disabled: &[&str]| -> Vec<String> {
        let decls = builtin_module_decls(&texts(disabled));
        assert!(decls.iter().all(|d| d.builtin && d.source.is_some()));
        decls.into_iter().map(|d| d.name).collect()
    };
    assert_eq!(
        declared(&[]),
        vec![
            "bread.monitors",
            "bread.devices",
            "bread.workspaces",
            "bread.binds",
            "bread.rules"
        ]
    );
    assert_eq!(
        declared(&["bread.rules", "bread.devices", "mine"]),
        vec!["bread.monitors", "bread.workspaces", "bread.binds"]
    );
}

#[test]
fn loads_leave_their_mark() {
    let d = decl("dock", &[]);
    assert_eq!(load_status(&d, LoadOutcome::Done).status, ModuleLoadState::Loaded);
    let failed = load_status(&d, LoadOutcome::NotRegistered);
    assert_eq!(failed.status, ModuleLoadState::LoadError);
    assert_eq!(
        failed.last_error.as_deref(),
        Some("module did not call bread.module")
    );
    let hook = load_status(&d, LoadOutcome::HookFailed("h".to_string()));
    assert_eq!(hook.last_error.as_deref(), Some("h"));
    let code = load_status(&d, LoadOutcome::Failed("c".to_string()));
    assert_eq!(code.last_error.as_deref(), Some("c"));
    assert_eq!(missing_status("init", false).status, ModuleLoadState::NotFound);
    assert_eq!(
        require_path("/m", "bread.lib.util"),
        Some("/m/lib/util.lua".to_string())
    );
    assert_eq!(
        require_path("/m", "bread.bread.x"),
        Some("/m/x.lua".to_string())
    );
    assert_eq!(require_path("/m", "socket"), None);
}

#[test]
fn rules_without_a_condition_are_left_out() {
    let rule = |device: &str, conditions: Vec<MatchCondition>| DeviceRule {
        device: device.to_string(),
        conditions,
    };
    let kept = keep_usable_rules(vec![
        rule("dock", vec![MatchCondition::default()]),
        rule("", vec![MatchCondition::default()]),
        rule("mouse", vec![]),
    ]);
    assert_eq!(kept.len(), 1);
    assert_eq!(kept[0].device, "dock");
}

#[test]
fn handlers_are_called_until_they_are_taken_down() {
    let mut lua = LuaRuntime::new();
    lua.set_current_module(Some("dock".to_string()));
    let (id, command) = lua.on("bread.device.*", true, false);
    match command {
        StateCommand::RegisterSubscription { id: i, pattern, once } => {
            assert_eq!((i.0, pattern.as_str(), once), (id, "bread.device.*", true));
        }
        other => panic!("unexpected {other:?}"),
    }
    let e = event("bread.device.x", r#"{"a": 1}"#);
    let call = lua.handle_event(id, &e).expect("a call");
    assert_eq!(call.module.as_deref(), Some("dock"));
    assert!(!call.filtered);
    match call.arguments {
        Arguments::Event(got) => assert_eq!(got.data, e.data),
        other => panic!("unexpected {other:?}"),
    }
    let (removal, watch) = lua.off(id);
    assert!(matches!(removal, StateCommand::RemoveSubscription { .. }));
    assert!(watch.is_none());
    assert!(lua.handle_event(id, &e).is_none());
    let (next, _) = lua.on("x", false, true);
    assert_ne!(next, id);
}

#[test]
fn raw_handlers_and_watches_get_what_they_wait_for() {
    let mut lua = LuaRuntime::new();
    let (raw, _) = lua.on_raw("openwindow");
    assert!(lua
        .handle_event(raw, &event("bread.hyprland.event", r#"{"kind": "openwindow"}"#))
        .is_some());
    assert!(lua
        .handle_event(raw, &event("bread.hyprland.event", r#"{"kind": "closewindow"}"#))
        .is_none());
    let (id, watch, subscribe) = lua.watch("power.ac_connected");
    match subscribe {
        StateCommand::RegisterSubscription { pattern, .. } => {
            assert_eq!(pattern, "bread.state.changed.power.ac_connected");
        }
        other => panic!("unexpected {other:?}"),
    }
    assert!(matches!(watch, StateCommand::RegisterWatch { .. }));
    let call = lua
        .handle_event(
            id,
            &event("bread.state.changed.power.ac_connected", r#"{"new": true}"#),
        )
        .unwrap();
    match call.arguments {
        Arguments::Change { new, old } => {
            assert_eq!(new, j("true"));
            assert_eq!(old, JsonValue::Null);
        }
        other => panic!("unexpected {other:?}"),
    }
    assert!(lua.off(id).1.is_some());
}

#[test]
fn errors_of_handlers_are_remembered() {
    let mut lua = LuaRuntime::new();
    for i in 0..(ERROR_LIMIT as u64 + 5) {
        let note = lua
            .note_callback_error(Some("dock"), &format!("e{i}"), false, i)
            .unwrap();
        assert_eq!(note.status, ModuleLoadState::Degraded);
    }
    let errors = lua.recent_errors();
    assert_eq!(errors.len(), ERROR_LIMIT);
    assert_eq!(errors[0].message, "e5");
    assert!(lua.note_callback_error(None, "x", false, 0).is_none());
    let (id, _) = lua.on("x", false, false);
    let (sub, watch) = lua.drop_handler(id);
    assert!(matches!(sub, StateCommand::RemoveSubscription { .. }));
    assert!(matches!(watch, StateCommand::RemoveWatch { .. }));
}

#[test]
fn timers_end_unless_they_repeat() {
    let mut lua = LuaRuntime::new();
    lua.set_current_module(Some("m".to_string()));
    let once = lua.add_timer(false);
    let often = lua.add_timer(true);
    assert_eq!(lua.timer_due(once), Some(Some("m".to_string())));
    lua.timer_done(once);
    lua.timer_done(often);
    assert_eq!(lua.timer_due(once), None);
    assert!(lua.timer_due(often).is_some());
    assert!(lua.cancel_timer(often));
    assert!(!lua.cancel_timer(often));
    let third = lua.add_timer(false);
    lua.clear();
    assert_eq!(lua.timer_due(third), None);
}

#[test]
fn modules_are_known_by_the_name_they_are_loaded_under() {
    let mut lua = LuaRuntime::new();
    assert_eq!(
        lua.require_module("bread.store").unwrap_err(),
        "bread.store must be called from within a module"
    );
    assert!(lua.check_declared_name("dock").is_err());
    lua.set_current_module(Some("dock".to_string()));
    assert_eq!(lua.current_module().as_deref(), Some("dock"));
    assert_eq!(lua.require_module("x").unwrap(), "dock");
    assert!(lua.check_declared_name("dock").is_ok());
    assert!(lua.check_declared_name("other").is_err());
    assert_eq!(reload_commands().len(), 3);
    assert_eq!(lua_event("x", None, 1).data, j("{}"));
    assert_eq!(
        profile_event("night", 1).data,
        j(r#"{"name": "night"}"#)
    );
}

fn state_with(names: &[&str]) -> RuntimeState {
    let mut state = RuntimeState::default();
    for name in names {
        state.modules.push(ModuleStatus {
            name: name.to_string(),
            status: ModuleLoadState::Loaded,
            last_error: None,
            builtin: false,
            store: vec![],
        });
    }
    state
}

#[test]
fn modules_keep_what_they_are_told() {
    let mut state = state_with(&["a", "b"]);
    module_store_set(&mut state, "a", "k".to_string(), j("1"));
    module_store_set(&mut state, "a", "l".to_string(), j("[2]"));
    module_store_set(&mut state, "a", "k".to_string(), j("3"));
    assert_eq!(module_store_get(&state, "a", "k"), Some(j("3")));
    assert_eq!(module_store_get(&state, "a", "l"), Some(j("[2]")));
    assert_eq!(module_store_get(&state, "b", "k"), None);
}

#[test]
fn widgets_come_and_go() {
    let args = |id: &str| WidgetRegisterArgs {
        id: id.to_string(),
        placement: "bar".to_string(),
        order: 2,
        visible: default_widget_visible(),
        tooltip: None,
        root: j(r#"{"type": "label"}"#),
    };
    let mut state = RuntimeState::default();
    let w = widget_register(&mut state, "m", args("clock"), None, 1).unwrap();
    assert_eq!(w.module, "m");
    assert_eq!(registered_event(&w, 2).event, "bread.widget.registered");
    assert_eq!(state.widgets.len(), 1);
    // Once more under the same id: still one.
    widget_register(&mut state, "m", args("clock"), None, 2).unwrap();
    assert_eq!(state.widgets.len(), 1);
    assert_eq!(
        widget_register(&mut state, "m", args("bad"), Some("no root".to_string()), 3).unwrap_err(),
        "no root"
    );
    let mut update = WidgetUpdateArgs::default();
    update.visible = Some(false);
    let w = widget_update(&mut state, "m", "clock", update, None, 4)
        .unwrap()
        .expect("the widget");
    assert!(!w.visible);
    assert_eq!(w.order, 2);
    assert_eq!(w.updated_at, 4);
    assert!(
        widget_update(&mut state, "m", "gone", WidgetUpdateArgs::default(), None, 5)
            .unwrap()
            .is_none()
    );
    assert_eq!(widget_list_json(&state, "m").as_array().unwrap().len(), 1);
    assert!(widget_list_json(&state, "other").as_array().unwrap().is_empty());
    assert!(widget_remove(&mut state, "m", "clock"));
    assert!(!widget_remove(&mut state, "m", "clock"));
    assert!(state.widgets.is_empty());
    assert_eq!(removed_event("m", "clock", 6).timestamp, 6);
    assert_eq!(cleared_event(7).timestamp, 7);
}

#[test]
fn rings_forget_the_oldest() {
    let mut ring = Ring::new(2);
    for (i, name) in ["a", "b", "c"].iter().enumerate() {
        ring.push(BreadEvent::new(name, AdapterSource::System, j("{}"), i as u64 * 10));
    }
    assert_eq!(ring.len(), 2);
    assert_eq!(ring.at(0).event, "b");
    let seen = replay(&ring, 5, 22);
    assert_eq!(seen.len(), 1);
    assert_eq!(seen[0].event, "c");
    assert_eq!(replay(&ring, u64::MAX, 22).len(), 2);
}

#[test]
fn tables_hold_one_item_to_a_name() {
    let mut table: Table<u32> = Table::new();
    table.insert("b".to_string(), 1);
    table.insert("a".to_string(), 2);
    table.insert("b".to_string(), 3);
    assert_eq!(table.get("b"), Some(&3));
    assert_eq!(table.remove("b"), Some(3));
    assert_eq!(table.get("b"), None);
    assert_eq!(table.names(), vec!["a"]);
}

#[test]
fn the_machine_has_a_name_and_tags() {
    let toml = "[machine]\nname = \"desk\"\ntags = [\"a\", 1, \"b\"]\n[remote]\nurl = \"git@h:r\"\n";
    assert_eq!(lua_machine_name(Some(toml), "host"), "desk");
    assert_eq!(lua_machine_name(Some("name = 1"), "host"), "host");
    assert_eq!(lua_machine_name(Some("[broken"), "host"), "host");
    assert_eq!(lua_machine_name(None, "host"), "host");
    assert_eq!(lua_machine_tags(Some(toml)), vec!["a", "b"]);
    assert!(lua_machine_tags(None).is_empty());
    assert_eq!(
        sync_status(Some(toml)),
        j(r#"{"initialized": true, "machine": "desk", "remote": "git@h:r"}"#)
    );
    assert_eq!(sync_status(None), j(r#"{"initialized": false}"#));
    assert_eq!(
        sync_path(None, Some("/home/me")),
        "/home/me/.config/bread/sync.toml"
    );
    let some = |s: &str| Some(s.to_string());
    assert_eq!(lua_hostname(some("sys"), some("file"), None, None), "sys");
    assert_eq!(lua_hostname(some(""), some(" file\n"), None, None), "file");
    assert_eq!(lua_hostname(None, some("\n"), some("env"), None), "env");
    assert_eq!(lua_hostname(None, None, None, None), "unknown");
}

#[test]
fn notifications_take_their_defaults_from_the_settings() {
    let config: NotificationsConfig = Config::default().notifications;
    let none = || NotifyOptions {
        title: None,
        urgency: None,
        timeout: None,
        icon: None,
    };
    let n = notification("hi", none(), &config);
    assert_eq!(n.title, "bread");
    assert_eq!(n.urgency, config.default_urgency);
    assert_eq!(n.timeout, config.default_timeout_ms);
    let mut opts = none();
    opts.icon = Some("dialog".to_string());
    opts.timeout = Some(-1);
    let n = notification("hi", opts, &config);
    assert_eq!(
        notify_args(&n),
        vec![
            "--app-name",
            "bread",
            "--urgency",
            "normal",
            "--expire-time",
            "-1",
            "--icon",
            "dialog",
            "bread",
            "hi"
        ]
    );
    assert_eq!(sent_event(&n, 3).event, "bread.notify.sent");
}

#[test]
fn requests_to_other_programs_are_spelled_out() {
    assert_eq!(dispatch_request("exec", "kitty"), "dispatch exec kitty");
    assert_eq!(keyword_request("bind", "x"), "keyword bind x");
    assert_eq!(eval_request("1"), "eval 1");
    assert_eq!(
        device_path("/org/bluez/hci0", "AA:BB"),
        "/org/bluez/hci0/dev_AA_BB"
    );
    assert_eq!(discovery_method(true), "StartDiscovery");
    assert_eq!(discovery_method(false), "StopDiscovery");
    let object = |path: &str, iface: &str| BluezObject {
        path: path.to_string(),
        interfaces: vec![iface.to_string()],
    };
    assert_eq!(
        bluetooth_find_adapter(&vec![
            object("/a", "org.bluez.Device1"),
            object("/b", "org.bluez.Adapter1"),
        ])
        .unwrap(),
        "/b"
    );
    assert_eq!(
        bluetooth_find_adapter(&vec![]).unwrap_err(),
        "no Bluetooth adapter found"
    );
    let d = bluetooth_device(&j(r#"{"Address": "AA", "Connected": true}"#));
    assert_eq!((d.address.as_str(), d.connected, d.paired), ("AA", true, false));
    assert_eq!(d.name, "unknown");
}

#[test]
fn waits_grow_and_start_anew() {
    let delays: Vec<u64> = (0..9).map(restart_delay).collect();
    assert_eq!(
        delays,
        vec![500, 1000, 2000, 4000, 8000, 16000, 32000, 32000, 32000]
    );
    assert_eq!(next_attempt(4, true), 0);
    assert_eq!(next_attempt(4, false), 5);
}

#[test]
fn texts_are_taken_apart() {
    assert_eq!(text::trim("\u{2003} a b \n"), "a b");
    assert_eq!(text::words_of(" a\u{a0}b\tc "), vec!["a", "b", "c"]);
    assert_eq!(text::decimal_i64(i64::MIN), "-9223372036854775808");
    assert_eq!(text::parse_u64("+7"), Some(7));
    assert_eq!(text::parse_u64("18446744073709551616"), None);
    assert_eq!(text::parse_u8("256"), None);
    assert!(text::equal_ignoring_case("MaInS", "mains"));
    assert_eq!(text::split_on("a,,b", ','), vec!["a", "", "b"]);
    assert!(text::is_before("Z", "a"));
}

#[test]
fn white_space_is_that_of_unicode() {
    for c in (0..=0x10ffff).filter_map(char::from_u32) {
        assert_eq!(text::is_whitespace(c), c.is_whitespace(), "{c:?}");
    }
}

#[test]
fn paths_are_taken_apart() {
    assert_eq!(paths::components_of("/a//b/./c/"), vec!["/", "a", "b", "c"]);
    assert!(paths::starts_with("/a/b/c", "/a/b"));
    assert!(!paths::starts_with("/a/bc", "/a/b"));
    assert_eq!(paths::join("/a", "b"), "/a/b");
    assert_eq!(paths::join("/a", "/b"), "/b");
    assert_eq!(paths::file_name("/a/b.lua"), Some("b.lua".to_string()));
    assert_eq!(paths::extension_of("/a/b.lua"), Some("lua".to_string()));
    assert_eq!(paths::parent_of("/a/b"), Some("/a".to_string()));
    assert_eq!(paths::parent_of("/"), None);
}

#[test]
fn values_come_back_from_their_text() {
    let v = j(r#"{"b": [1, -2, 2.5, true, null, "x\n"], "a": {}}"#);
    let text = wire::render(&v);
    assert_eq!(text, r#"{"a":{},"b":[1,-2,2.5,true,null,"x\n"]}"#);
    assert_eq!(j(&text), v);
    assert!(wire::parse("{").is_none());
    assert_eq!(
        wire::parse_toml("a = 1\n[b]\nc = \"d\"\n").unwrap(),
        j(r#"{"a": 1, "b": {"c": "d"}}"#)
    );
    assert!(wire::parse_toml("[x").is_err());
}

#[test]
fn the_rules_module_is_degraded_by_what_is_wrong_with_the_rules() {
    assert!(rules_status(&RulesLoadOutcome::Absent).is_none());
    let good = load_rules(Some(Ok("[[rule]]\non = \"a\"\nexec = \"b\"\n".to_string())), "");
    assert!(rules_status(&good).is_none());

    let fatal = load_rules(Some(Err("denied".to_string())), "");
    let note = rules_status(&fatal).unwrap();
    assert_eq!(note.name, "bread.rules");
    assert_eq!(note.status, ModuleLoadState::Degraded);
    assert_eq!(
        note.last_error.as_deref(),
        Some("failed to read rules.toml: denied")
    );
    assert!(note.builtin);

    let content = "[[rule]]\nexec = \"b\"\n[[rule]]\non = \"x\"\n".to_string();
    let bad = load_rules(Some(Ok(content)), "");
    let note = rules_status(&bad).unwrap();
    assert_eq!(note.status, ModuleLoadState::Degraded);
    assert_eq!(
        note.last_error.as_deref(),
        Some(
            "rule #0: missing or empty `on`; rule #1 (on = \"x\"): must set exactly one of `run`, `notify`, `exec` (none set)"
        )
    );
}
