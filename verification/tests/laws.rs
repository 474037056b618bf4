use breadd::adapters::filesystem::{classify, DEBOUNCE_WINDOW_NS};
use breadd::engine::{Effect, StateCommand, StateEngine};
use breadd::events::{AdapterSource, BreadEvent, RawEvent};
use breadd::glob::matches_pattern;
use breadd::ipc::manual_emit;
use breadd::json::{value_at_path, JsonValue};
use breadd::modules::{order_module_decls, ModuleDecl};
use breadd::normalizer::EventNormalizer;
use breadd::recency::{Recency, EVICT_MULTIPLIER};
use breadd::snapshot::state_dump;
use breadd::state_engine::{apply_device_change, apply_event_to_state, condition_matches};
use breadd::subscriptions::{SubscriptionId, SubscriptionTable};
use breadd::types::{DeviceRule, MatchCondition, RuntimeState, WorkflowState};
use breadd::wire;
use breadd::workflows::{
    workflow_fail, workflow_finish, workflow_list_json, workflow_register, workflow_status_json,
    workflow_step,
};

fn j(s: &str) -> JsonValue {
    wire::parse(s).expect("a JSON text")
}

fn ev(name: &str, data: &str, at: u64) -> BreadEvent {
    BreadEvent::new(name, AdapterSource::System, j(data), at)
}

fn raw(source: AdapterSource, kind: &str, payload: &str, at: u64) -> RawEvent {
    RawEvent {
        source,
        kind: kind.to_string(),
        payload: j(payload),
        timestamp: at,
    }
}

#[test]
fn patterns_match_themselves_and_stay_in_their_segment() {
    for p in ["bread.a.b", "bread.*", "bread.**", "**", "a?c", "a.*.c", "*", ""] {
        assert!(matches_pattern(p, p), "{p} does not match itself");
    }
    assert!(matches_pattern("a.*.c", "a.b.c"));
    assert!(!matches_pattern("a.*.c", "a.b.b.c"));
    assert!(matches_pattern("**", "anything.at.all"));
    assert!(matches_pattern("a.**", "a"));
    assert!(matches_pattern("a.**", "a.b.c"));
    assert!(!matches_pattern("a.**", "ab"));
    assert!(!matches_pattern("a.b", "a.bb"));
}

#[test]
fn removing_a_subscription_undoes_adding_it() {
    let ids = |t: &SubscriptionTable| -> Vec<u64> {
        t.match_event("bread.x").iter().map(|s| s.id.0).collect()
    };
    let mut t = SubscriptionTable::default();
    t.add_with_id(SubscriptionId(1), "bread.*".to_string(), false);
    t.add_with_id(SubscriptionId(2), "bread.x".to_string(), false);
    let before = ids(&t);
    assert_eq!(before, vec![1, 2]);
    t.add_with_id(SubscriptionId(3), "**".to_string(), true);
    assert_eq!(ids(&t), vec![1, 2, 3]);
    assert!(t.remove(SubscriptionId(3)));
    assert_eq!(ids(&t), before);
    assert!(t.remove(SubscriptionId(1)));
    assert_eq!(ids(&t), vec![2]);
    assert!(!t.remove(SubscriptionId(1)));
}

#[test]
fn subscriptions_for_one_event_end_with_it() {
    let mut engine = StateEngine::default();
    let mut state = RuntimeState::default();
    for (id, once) in [(1, true), (2, false)] {
        engine.handle_command(
            StateCommand::RegisterSubscription {
                id: SubscriptionId(id),
                pattern: "bread.x".to_string(),
                once,
            },
            &mut state,
        );
    }
    assert_eq!(engine.subscription_count, 2);
    let effects = engine.handle_event(ev("bread.x", "{}", 1), &mut state, 2);
    assert!(matches!(&effects[0], Effect::Publish(e) if e.event == "bread.x"));
    let told: Vec<u64> = effects
        .iter()
        .filter_map(|e| match e {
            Effect::Deliver { subscription_id, .. } => Some(subscription_id.0),
            _ => None,
        })
        .collect();
    assert_eq!(told, vec![1, 2]);
    assert!(effects
        .iter()
        .any(|e| matches!(e, Effect::Cancelled { id } if id.0 == 1)));
    assert_eq!(engine.subscription_count, 1);
    let again = engine.handle_event(ev("bread.x", "{}", 3), &mut state, 4);
    assert_eq!(again.len(), 2);
}

#[test]
fn watches_tell_changes_and_only_changes() {
    let mut engine = StateEngine::default();
    let mut state = RuntimeState::default();
    for path in ["profile", "power.ac_connected"] {
        engine.handle_command(
            StateCommand::RegisterWatch {
                id: SubscriptionId(9),
                path: path.to_string(),
            },
            &mut state,
        );
    }
    // A second watch under an id takes the place of the first.
    assert_eq!(engine.watches.len(), 1);
    assert!(!state.power.ac_connected);
    let connected = || ev("bread.power.ac.connected", r#"{"ac_connected": true}"#, 1);
    let first = engine.handle_event(connected(), &mut state, 5);
    let changes: Vec<&BreadEvent> = first
        .iter()
        .filter_map(|e| match e {
            Effect::Publish(e) if e.event.starts_with("bread.state.changed") => Some(e),
            _ => None,
        })
        .collect();
    assert_eq!(changes.len(), 1);
    assert_eq!(changes[0].event, "bread.state.changed.power.ac_connected");
    assert_eq!(changes[0].data.get("new"), Some(&j("true")));
    let second = engine.handle_event(connected(), &mut state, 6);
    assert_eq!(second.len(), 1);
}

#[test]
fn the_order_of_loading_is_fixed() {
    let decl = |name: &str, after: &[&str]| ModuleDecl {
        name: name.to_string(),
        version: None,
        after: after.iter().map(|s| s.to_string()).collect(),
        path: String::new(),
        source: None,
        builtin: false,
    };
    let names = |decls: Vec<ModuleDecl>| -> Vec<String> {
        order_module_decls(decls)
            .0
            .into_iter()
            .map(|d| d.name)
            .collect()
    };
    let a = names(vec![decl("z", &[]), decl("m", &["z"]), decl("a", &[])]);
    let b = names(vec![decl("a", &[]), decl("m", &["z"]), decl("z", &[])]);
    assert_eq!(a, b);
    assert_eq!(a.len(), 3);
}

#[test]
fn repeats_pass_when_the_window_is_over() {
    let mut n = EventNormalizer::new(100);
    let event = ev("bread.system.tick", r#"{"a": 1}"#, 1000);
    assert!(n.accept(&event));
    assert!(!n.accept(&ev("bread.system.tick", r#"{"a": 1}"#, 1099)));
    assert!(n.accept(&ev("bread.system.tick", r#"{"a": 1}"#, 1200)));
    assert!(n.accept(&ev("bread.system.tick", r#"{"a": 2}"#, 1200)));
    let mut open = EventNormalizer::new(0);
    for _ in 0..3 {
        assert!(open.accept(&event));
    }
}

#[test]
fn terminal_events_always_pass_and_keep_their_time() {
    let mut n = EventNormalizer::new(1000);
    for at in [5, 5, 6] {
        let out = n.normalize(&raw(
            AdapterSource::Terminal,
            "bread.terminal.command.finished",
            "{}",
            at,
        ));
        assert_eq!(out.len(), 1);
        assert_eq!(out[0].timestamp, at);
    }
}

#[test]
fn hyprland_events_have_both_names_unless_told_otherwise() {
    let message = raw(
        AdapterSource::Hyprland,
        "hyprland.event",
        r#"{"kind": "workspace", "data": "2", "raw": "workspace>>2"}"#,
        7,
    );
    let both = EventNormalizer::new(0).normalize(&message);
    let one = EventNormalizer::new(0)
        .with_legacy_hyprland_event_names(false)
        .normalize(&message);
    assert_eq!(both.len(), 2);
    assert_eq!(one.len(), 1);
    assert!(one[0].event.starts_with("bread.hyprland."));
    let flat = both.iter().find(|e| e.event != one[0].event).unwrap();
    assert_eq!(flat.data, one[0].data);
    assert_eq!(flat.timestamp, one[0].timestamp);
}

#[test]
fn what_was_seen_is_known_for_a_while() {
    let key = |parts: &[&str]| -> Vec<String> { parts.iter().map(|p| p.to_string()).collect() };
    let mut r = Recency::new();
    r.note(&key(&["a"]), 100, 10);
    assert_eq!(r.last(&key(&["a"])), Some(100));
    assert!(r.is_repeated(&key(&["a"]), 109, 10));
    assert!(!r.is_repeated(&key(&["a"]), 110, 10));
    assert_eq!(r.last(&key(&["a", ""])), None);
    r.note(&key(&["b", "c"]), 100 + 10 * EVICT_MULTIPLIER + 1, 10);
    assert_eq!(r.last(&key(&["a"])), None);
    assert!(r.last(&key(&["b", "c"])).is_some());
    assert_eq!(r.last(&key(&["bc"])), None);
}

const DOCK: &str = r#"{"id": "usb-1", "name": "Dock", "device": "dock", "subsystem": "usb"}"#;

#[test]
fn devices_come_once_and_go() {
    let mut state = RuntimeState::default();
    let empty = state_dump(&state);
    apply_device_change(&mut state, &j(DOCK), true);
    let one = state_dump(&state);
    apply_device_change(&mut state, &j(DOCK), true);
    assert_eq!(state_dump(&state), one);
    assert_eq!(state.devices.connected.len(), 1);
    apply_device_change(&mut state, &j(DOCK), false);
    assert_eq!(state_dump(&state), empty);
    assert!(state.devices.connected.is_empty());
}

#[test]
fn monitors_are_as_before_when_they_come_back() {
    let mut state = RuntimeState::default();
    let event = |name: &str| ev(name, r#"{"name": "DP-1"}"#, 1);
    apply_event_to_state(&mut state, &event("bread.monitor.connected"));
    let plugged = state_dump(&state);
    apply_event_to_state(&mut state, &event("bread.monitor.disconnected"));
    assert!(!state.monitors[0].connected);
    apply_event_to_state(&mut state, &event("bread.monitor.connected"));
    assert_eq!(state_dump(&state), plugged);
}

#[test]
fn activating_the_active_profile_changes_nothing() {
    let mut state = RuntimeState::default();
    state.profile.activate("night");
    let once = state_dump(&state);
    state.profile.activate("night");
    assert_eq!(state_dump(&state), once);
    state.profile.activate("day");
    assert_eq!(state.profile.active, "day");
}

#[test]
fn events_leave_workflows_alone() {
    let mut state = RuntimeState::default();
    workflow_register(&mut state, "w", 1);
    for name in [
        "bread.monitor.connected",
        "bread.power.ac.connected",
        "bread.device.dock.connected",
        "bread.profile.activated",
    ] {
        apply_event_to_state(&mut state, &ev(name, r#"{"name": "x", "id": "y"}"#, 2));
    }
    assert_eq!(state.workflows.len(), 1);
    assert_eq!(state.workflows[0].updated_at, 1);
    assert!(state.modules.is_empty());
    assert!(state.widgets.is_empty());
}

#[test]
fn workflows_begin_anew_and_apart() {
    let mut state = RuntimeState::default();
    workflow_register(&mut state, "a", 1);
    workflow_register(&mut state, "b", 1);
    workflow_step(&mut state, "a", "s", 2);
    workflow_fail(&mut state, "a", "boom", 3);
    workflow_finish(&mut state, "nowhere", 3);
    assert_eq!(state.workflows[1].state, WorkflowState::Running);
    workflow_register(&mut state, "a", 4);
    assert_eq!(state.workflows.len(), 2);
    let status = workflow_status_json(&state, "a").unwrap();
    assert_eq!(status.text("state"), Some("running"));
    assert_eq!(status.get("step"), Some(&JsonValue::Null));
    assert_eq!(status.get("error"), Some(&JsonValue::Null));
    assert!(workflow_status_json(&state, "nowhere").is_none());
    assert_eq!(workflow_list_json(&state).as_array().unwrap().len(), 2);
}

#[test]
fn devices_go_under_the_name_they_came_under() {
    let rule = |device: &str| {
        let mut condition = MatchCondition::default();
        condition.vendor_id = Some("046d".to_string());
        StateCommand::SetDeviceRules(vec![DeviceRule {
            device: device.to_string(),
            conditions: vec![condition],
        }])
    };
    let mut engine = StateEngine::default();
    let mut state = RuntimeState::default();
    engine.handle_command(rule("keyboard"), &mut state);
    let came = engine.handle_event(
        ev("bread.device.connected", r#"{"id": "d1", "vendor_id": "046D"}"#, 1),
        &mut state,
        2,
    );
    assert!(matches!(&came[1], Effect::Publish(e) if e.event == "bread.device.keyboard.connected"));
    engine.handle_command(rule("mouse"), &mut state);
    let went = engine.handle_event(ev("bread.device.disconnected", r#"{"id": "d1"}"#, 3), &mut state, 4);
    assert!(
        matches!(&went[1], Effect::Publish(e) if e.event == "bread.device.keyboard.disconnected")
    );
}

#[test]
fn files_are_silent_in_excluded_directories_and_in_quick_succession() {
    let mut seen = Recency::new();
    let mut kind = |path: &str, created: bool, at: u64| {
        classify("/p", path, created, &mut seen, at, 1).map(|e| e.kind)
    };
    assert_eq!(kind("/p/.git/index", true, 0), None);
    assert_eq!(kind("/p/a/node_modules/x.js", true, 0), None);
    assert_eq!(kind("/p/target/out", false, 0), None);
    assert_eq!(
        kind("/p/target/out", true, 0).as_deref(),
        Some("build_artifact.created")
    );
    assert_eq!(kind("/p/a.rs", false, 5).as_deref(), Some("file.changed"));
    assert_eq!(kind("/p/a.rs", true, 5 + DEBOUNCE_WINDOW_NS - 1), None);
    // Other ways to write the path are the same file.
    assert_eq!(kind("/p//a.rs", false, 6), None);
    assert_eq!(kind("/p/./a.rs/", false, 6), None);
    assert_eq!(kind("/p/b.rs", false, 6).as_deref(), Some("file.changed"));
    assert_eq!(
        kind("/p/a.rs", false, 5 + DEBOUNCE_WINDOW_NS).as_deref(),
        Some("file.changed")
    );
}

#[test]
fn clients_cannot_use_the_names_of_reports() {
    let refused = |name: &str| manual_emit(name, JsonValue::empty(), 1).is_err();
    let hyprland = r#"{"kind": "monitoradded", "data": "DP-1"}"#;
    let device = r#"{"action": "add", "name": "Dock", "id": "d1"}"#;
    let mut told = 0;
    for report in [
        raw(AdapterSource::Udev, "udev.change", device, 1),
        raw(AdapterSource::Hyprland, "hyprland.event", hyprland, 1),
        raw(AdapterSource::Hyprland, "hyprland.event", "{}", 1),
        raw(AdapterSource::Power, "power.snapshot", r#"{"battery_percent": 4}"#, 1),
        raw(AdapterSource::Network, "link.up", "{}", 1),
        raw(AdapterSource::Bluetooth, "bluetooth.device.added", "{}", 1),
        raw(AdapterSource::Terminal, "command.finished", "{}", 1),
        raw(AdapterSource::Remote, "anything", "{}", 1),
        raw(AdapterSource::Git, "state.dirty", "{}", 1),
        raw(AdapterSource::Filesystem, "detected", "{}", 1),
        raw(AdapterSource::Systemd, "unit.failed", "{}", 1),
        raw(AdapterSource::Podman, "container.started", "{}", 1),
    ] {
        for event in EventNormalizer::new(0).normalize(&report) {
            assert!(refused(&event.event), "{} can be used", event.event);
            told += 1;
        }
    }
    assert_eq!(told, 13);
    assert!(refused("bread.device.dock.connected"));
    assert!(refused("bread.state.changed.power"));
    assert!(!refused("bread.mine.power"));
}

#[test]
fn the_last_event_that_passed_decides_whatever_came_between() {
    let window = 100;
    let mut n = EventNormalizer::new(window);
    let mut last: Vec<(String, u64)> = Vec::new();
    let names = ["bread.a", "bread.b", "bread.c"];
    let mut now = 0;
    for i in 0..400u64 {
        // Now and then long enough for old entries to be forgotten.
        now += if i % 50 == 49 { window * EVICT_MULTIPLIER + 1 } else { (i * 7) % 40 };
        let name = names[(i * i % 3) as usize];
        let data = if i % 5 == 0 { "1" } else { "2" };
        let key = format!("{name}:{data}");
        let known = last.iter().position(|(k, _)| *k == key);
        let expected = match known {
            Some(p) => now - last[p].1 >= window,
            None => true,
        };
        assert_eq!(n.accept(&ev(name, data, now)), expected, "event {i}");
        if expected {
            match known {
                Some(p) => last[p].1 = now,
                None => last.push((key, now)),
            }
        }
        let typed = BreadEvent::new(name, AdapterSource::Terminal, j(data), now);
        assert!(n.accept(&typed));
    }
}

#[test]
fn a_condition_asks_for_each_of_its_fields_on_its_own() {
    let mut vendor = MatchCondition::default();
    vendor.vendor_id = Some("046D".to_string());
    let mut keyboard = MatchCondition::default();
    keyboard.id_input_keyboard = Some(true);
    keyboard.name_contains = Some("MX".to_string());
    let mut both = MatchCondition::default();
    both.vendor_id = Some("046d".to_string());
    both.id_input_keyboard = Some(true);
    both.name_contains = Some("mx".to_string());
    for data in [
        r#"{"vendor_id": "046d", "id_input_keyboard": true, "name": "Logitech mX Keys"}"#,
        r#"{"vendor_id": "046d", "name": "MX"}"#,
        r#"{"vendor_id": "1234", "id_input_keyboard": true, "name": "mx"}"#,
        r#"{"id_input_keyboard": true}"#,
        "{}",
        "3",
    ] {
        let d = j(data);
        assert_eq!(
            condition_matches(&both, &d),
            condition_matches(&vendor, &d) && condition_matches(&keyboard, &d),
            "{data}"
        );
        assert!(condition_matches(&MatchCondition::default(), &d));
    }
}

#[test]
fn the_case_of_texts_makes_no_difference_to_conditions() {
    let named = |name: &str| {
        let mut c = MatchCondition::default();
        c.name = Some(name.to_string());
        c
    };
    for a in ["dock z", "DOCK Z", "Dock Z"] {
        for b in ["dock z", "DOCK Z", "dOcK z"] {
            let d = JsonValue::empty().with("name", JsonValue::of_text(b));
            assert!(condition_matches(&named(a), &d));
        }
    }
    let d = JsonValue::empty().with("name", JsonValue::of_text("CAF\u{c9}"));
    assert!(condition_matches(&named("caf\u{e9}"), &d));
    assert!(!condition_matches(&named("cafe"), &d));
    // English letters beside others, and a sigma at the end of a word.
    for a in ["\u{c9}cole DOCK", "\u{e9}COLE dock"] {
        let d = JsonValue::empty().with("name", JsonValue::of_text("\u{c9}cOlE dOcK"));
        assert!(condition_matches(&named(a), &d));
    }
    for (a, b) in [("A\u{3a3}", "a\u{3a3}"), ("A\u{3a3}B", "a\u{3a3}b")] {
        let d = JsonValue::empty().with("name", JsonValue::of_text(b));
        assert!(condition_matches(&named(a), &d));
    }
    let at = JsonValue::empty().with("name", JsonValue::of_text("@[`{"));
    assert!(condition_matches(&named("@[`{"), &at));
    assert!(!condition_matches(&named("`{@["), &at));
}

#[test]
fn the_last_node_let_through_decides_whatever_came_between() {
    let node = |vendor: &str, at: u64| {
        let payload = format!(
            r#"{{"action": "add", "name": "n{at}", "id": "i{at}", "vendor_id": "{vendor}", "product_id": "1"}}"#
        );
        raw(AdapterSource::Udev, "udev.change", &payload, at)
    };
    let mut n = EventNormalizer::new(100);
    let mut told = |vendor: &str, at: u64| n.normalize(&node(vendor, at)).len();
    assert_eq!(told("a", 1000), 1);
    assert_eq!(told("b", 1010), 1);
    assert_eq!(told("a", 1050), 0);
    assert_eq!(told("a", 1099), 0);
    // What was dropped does not prolong the window.
    assert_eq!(told("a", 1100), 1);
    assert_eq!(told("b", 1109), 0);
    assert_eq!(told("b", 1110), 1);
    // Long after, when old entries are forgotten.
    assert_eq!(told("c", 1110 + 100 * EVICT_MULTIPLIER + 1), 1);
    assert_eq!(told("a", 1110 + 100 * EVICT_MULTIPLIER + 1), 1);
}

#[test]
fn events_repeat_only_with_the_same_name_and_data() {
    let mut n = EventNormalizer::new(100);
    assert!(n.accept(&ev("bread.a", r#""b:1""#, 1)));
    assert!(n.accept(&ev("bread.a:\"b", "1", 1)));
    assert!(n.accept(&ev("bread.a", r#"{"x": 1}"#, 1)));
    assert!(!n.accept(&ev("bread.a", r#"{ "x" : 1 }"#, 2)));
    assert!(n.accept(&ev("bread.a", r#"{"x": 2}"#, 2)));
    assert!(n.accept(&ev("bread.b", r#"{"x": 1}"#, 2)));
}

#[test]
fn paths_into_values_compose() {
    let v = j(r#"{"a": {"b": {"c": 42}}, "": {"x": 1}}"#);
    for (first, second) in [("a", "b.c"), ("a.b", "c"), ("a", "x"), ("z", "b"), ("a.b.c", "d")] {
        let whole = value_at_path(&v, &format!("{first}.{second}"));
        let steps = value_at_path(&v, first).and_then(|w| value_at_path(&w, second));
        assert_eq!(whole, steps, "{first} then {second}");
    }
    assert_eq!(value_at_path(&v, "a.b.c"), Some(j("42")));
}
