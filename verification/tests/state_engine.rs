use breadd::events::{AdapterSource, BreadEvent};
use breadd::json::{value_at_path, JsonValue};
use breadd::snapshot::state_dump;
use breadd::state_engine::{
    apply_device_change, apply_event_to_state, condition_matches, facts_match, resolve_device,
    DeviceFacts,
};
use breadd::types::{DeviceRule, MatchCondition, RuntimeState};
use breadd::wire;

fn j(s: &str) -> JsonValue {
    wire::parse(s).expect("a JSON text")
}

fn up(state: &RuntimeState, name: &str) -> bool {
    let (_, i) = state
        .network
        .interfaces
        .iter()
        .find(|(n, _)| n == name)
        .expect("a known interface");
    i.up
}

fn ev(name: &str, data: JsonValue) -> BreadEvent {
    BreadEvent {
        event: name.to_string(),
        timestamp: 0,
        source: AdapterSource::System,
        data,
    }
}

// value_at_path

#[test]
fn value_at_path_returns_root_for_empty_path() {
    let v = j(r#"{"a": 1}"#);
    assert_eq!(value_at_path(&v, ""), Some(j(r#"{"a": 1}"#)));
}

#[test]
fn value_at_path_navigates_nested_keys() {
    let v = j(r#"{"a": {"b": {"c": 42}}}"#);
    assert_eq!(value_at_path(&v, "a.b.c"), Some(j(r#"42"#)));
}

#[test]
fn value_at_path_returns_none_on_missing_key() {
    let v = j(r#"{"a": 1}"#);
    assert!(value_at_path(&v, "missing").is_none());
    assert!(value_at_path(&v, "a.b.c").is_none());
}

// apply_event_to_state: monitors

#[test]
fn monitor_connect_adds_new_monitor() {
    let mut state = RuntimeState::default();
    apply_event_to_state(
        &mut state,
        &ev(
            "bread.monitor.connected",
            j(r#"{"name": "DP-1", "resolution": "1920x1080", "position": "0x0"}"#),
        ),
    );
    assert_eq!(state.monitors.len(), 1);
    assert_eq!(state.monitors[0].name, "DP-1");
    assert!(state.monitors[0].connected);
    assert_eq!(state.monitors[0].resolution.as_deref(), Some("1920x1080"));
    assert_eq!(state.monitors[0].position.as_deref(), Some("0x0"));
}

#[test]
fn monitor_reconnect_does_not_duplicate() {
    let mut state = RuntimeState::default();
    let mk = || ev("bread.monitor.connected", j(r#"{"name": "DP-1"}"#));
    apply_event_to_state(&mut state, &mk());
    apply_event_to_state(
        &mut state,
        &ev("bread.monitor.disconnected", j(r#"{"name": "DP-1"}"#)),
    );
    apply_event_to_state(&mut state, &mk());
    assert_eq!(state.monitors.len(), 1);
    assert!(state.monitors[0].connected);
}

#[test]
fn monitor_disconnect_keeps_record_but_flips_connected_flag() {
    let mut state = RuntimeState::default();
    apply_event_to_state(
        &mut state,
        &ev("bread.monitor.connected", j(r#"{"name": "DP-1"}"#)),
    );
    apply_event_to_state(
        &mut state,
        &ev("bread.monitor.disconnected", j(r#"{"name": "DP-1"}"#)),
    );
    assert_eq!(state.monitors.len(), 1);
    assert!(!state.monitors[0].connected);
}

// apply_event_to_state: workspace + window

#[test]
fn workspace_changed_updates_active_workspace() {
    let mut state = RuntimeState::default();
    apply_event_to_state(
        &mut state,
        &ev("bread.workspace.changed", j(r#"{"workspace": "3"}"#)),
    );
    assert_eq!(state.active_workspace.as_deref(), Some("3"));
    // Falls back to `id` when `workspace` is absent.
    apply_event_to_state(
        &mut state,
        &ev("bread.workspace.changed", j(r#"{"id": "5"}"#)),
    );
    assert_eq!(state.active_workspace.as_deref(), Some("5"));
}

#[test]
fn window_focus_change_updates_active_window() {
    let mut state = RuntimeState::default();
    apply_event_to_state(
        &mut state,
        &ev("bread.window.focus.changed", j(r#"{"window": "firefox"}"#)),
    );
    assert_eq!(state.active_window.as_deref(), Some("firefox"));
    // Falls back to `class`, then `address`.
    apply_event_to_state(
        &mut state,
        &ev("bread.window.focused", j(r#"{"address": "0xdeadbeef"}"#)),
    );
    assert_eq!(state.active_window.as_deref(), Some("0xdeadbeef"));
}

// apply_device_change

#[test]
fn device_connect_adds_device_with_all_fields() {
    let mut state = RuntimeState::default();
    apply_device_change(
        &mut state,
        &j(r#"{ "id": "1-1.4", "name": "Logitech Mouse", "device": "mouse", "subsystem": "usb", "vendor_id": "046d", "product_id": "c52b"}"#),
        true,
    );
    assert_eq!(state.devices.connected.len(), 1);
    let d = &state.devices.connected[0];
    assert_eq!(d.id, "1-1.4");
    assert_eq!(d.name, "Logitech Mouse");
    assert_eq!(d.device, "mouse");
    assert_eq!(d.subsystem, "usb");
    assert_eq!(d.vendor_id.as_deref(), Some("046d"));
    assert_eq!(d.product_id.as_deref(), Some("c52b"));
}

#[test]
fn device_connect_is_idempotent_for_same_id() {
    let mut state = RuntimeState::default();
    let data = j(r#"{"id": "x", "device": "dock", "name": "Dock"}"#);
    apply_device_change(&mut state, &data, true);
    apply_device_change(&mut state, &data, true);
    assert_eq!(state.devices.connected.len(), 1);
}

#[test]
fn device_disconnect_removes_matching_id() {
    let mut state = RuntimeState::default();
    apply_device_change(&mut state, &j(r#"{"id": "a", "device": "x"}"#), true);
    apply_device_change(&mut state, &j(r#"{"id": "b", "device": "y"}"#), true);
    assert_eq!(state.devices.connected.len(), 2);

    apply_device_change(&mut state, &j(r#"{"id": "a"}"#), false);
    assert_eq!(state.devices.connected.len(), 1);
    assert_eq!(state.devices.connected[0].id, "b");
}

#[test]
fn device_disconnect_of_unknown_id_is_noop() {
    let mut state = RuntimeState::default();
    apply_device_change(&mut state, &j(r#"{"id": "a", "device": "x"}"#), true);
    apply_device_change(&mut state, &j(r#"{"id": "ghost"}"#), false);
    assert_eq!(state.devices.connected.len(), 1);
}

// apply_event_to_state: power

#[test]
fn power_event_updates_ac_and_battery_low_flag() {
    let mut state = RuntimeState::default();
    apply_event_to_state(
        &mut state,
        &ev(
            "bread.power.battery.low",
            j(r#"{"ac_connected": false, "battery_percent": 18}"#),
        ),
    );
    assert!(!state.power.ac_connected);
    assert_eq!(state.power.battery_percent, Some(18));
    assert!(state.power.battery_low);

    // 25% is no longer "low"
    apply_event_to_state(
        &mut state,
        &ev("bread.power.changed", j(r#"{"battery_percent": 25}"#)),
    );
    assert!(!state.power.battery_low);
}

#[test]
fn power_clamps_battery_percent_to_100() {
    let mut state = RuntimeState::default();
    apply_event_to_state(
        &mut state,
        &ev("bread.power.changed", j(r#"{"battery_percent": 250}"#)),
    );
    assert_eq!(state.power.battery_percent, Some(100));
}

// apply_event_to_state: network

#[test]
fn network_event_updates_online_flag_and_interfaces() {
    let mut state = RuntimeState::default();
    apply_event_to_state(
        &mut state,
        &ev(
            "bread.network.connected",
            j(r#"{ "online": true, "interfaces": { "wlan0": {"up": true}, "eth0": {"up": false}} }"#),
        ),
    );
    assert!(state.network.online);
    assert_eq!(state.network.interfaces.len(), 2);
    assert!(up(&state, "wlan0"));
    assert!(!up(&state, "eth0"));
}

// apply_event_to_state: profile

#[test]
fn profile_activated_pushes_previous_to_history() {
    let mut state = RuntimeState::default();
    // Initial active is "default".
    apply_event_to_state(
        &mut state,
        &ev("bread.profile.activated", j(r#"{"name": "battery"}"#)),
    );
    assert_eq!(state.profile.active, "battery");
    assert_eq!(state.profile.history, vec!["default"]);

    apply_event_to_state(
        &mut state,
        &ev("bread.profile.activated", j(r#"{"name": "ac"}"#)),
    );
    assert_eq!(state.profile.active, "ac");
    assert_eq!(state.profile.history, vec!["default", "battery"]);
}

#[test]
fn profile_activated_to_same_name_is_noop() {
    let mut state = RuntimeState::default();
    apply_event_to_state(
        &mut state,
        &ev("bread.profile.activated", j(r#"{"name": "default"}"#)),
    );
    assert_eq!(state.profile.active, "default");
    assert!(state.profile.history.is_empty());
}

#[test]
fn unknown_event_does_not_mutate_state() {
    let mut state = RuntimeState::default();
    let before = state_dump(&state);
    apply_event_to_state(
        &mut state,
        &ev("bread.unknown.event", j(r#"{"foo": "bar"}"#)),
    );
    let after = state_dump(&state);
    assert_eq!(before, after);
}

// condition_matches

#[test]
fn condition_vendor_id_matches_case_insensitively() {
    let cond = MatchCondition {
        vendor_id: Some("046D".to_string()),
        ..Default::default()
    };
    assert!(condition_matches(&cond, &j(r#"{"vendor_id": "046d"}"#)));
    assert!(!condition_matches(&cond, &j(r#"{"vendor_id": "1234"}"#)));
}

#[test]
fn condition_name_contains_searches_name_and_vendor() {
    let cond = MatchCondition {
        name_contains: Some("logi".to_string()),
        ..Default::default()
    };
    assert!(condition_matches(&cond, &j(r#"{"name": "Logitech MX"}"#)));
    assert!(condition_matches(&cond, &j(r#"{"vendor": "Logitech Inc"}"#)));
    assert!(!condition_matches(&cond, &j(r#"{"name": "Apple"}"#)));
}

#[test]
fn condition_input_flags_match_booleans() {
    let cond = MatchCondition {
        id_input_keyboard: Some(true),
        ..Default::default()
    };
    assert!(condition_matches(
        &cond,
        &j(r#"{"id_input_keyboard": true}"#)
    ));
    assert!(!condition_matches(
        &cond,
        &j(r#"{"id_input_keyboard": false}"#)
    ));
    // Missing field defaults to false.
    assert!(!condition_matches(&cond, &j(r#"{}"#)));
}

#[test]
fn condition_usb_hub_requires_hub_and_secondary_class() {
    let cond = MatchCondition {
        usb_hub: Some(true),
        ..Default::default()
    };
    assert!(condition_matches(
        &cond,
        &j(r#"{"id_usb_interfaces": ":0900:0e00:"}"#)
    ));
    // Hub alone is not enough.
    assert!(!condition_matches(
        &cond,
        &j(r#"{"id_usb_interfaces": ":0900:"}"#)
    ));
    // Secondary alone is not enough.
    assert!(!condition_matches(
        &cond,
        &j(r#"{"id_usb_interfaces": ":0e00:"}"#)
    ));
}

#[test]
fn condition_id_usb_class_accepts_with_or_without_0x_prefix() {
    let cond = MatchCondition {
        id_usb_class: Some("0e".to_string()),
        ..Default::default()
    };
    assert!(condition_matches(&cond, &j(r#"{"id_usb_class": "0e"}"#)));
    assert!(condition_matches(&cond, &j(r#"{"id_usb_class": "0x0e"}"#)));
    assert!(!condition_matches(&cond, &j(r#"{"id_usb_class": "ff"}"#)));
}

#[test]
fn condition_empty_matches_anything() {
    let cond = MatchCondition::default();
    assert!(condition_matches(&cond, &j(r#"{}"#)));
    assert!(condition_matches(&cond, &j(r#"{"vendor_id": "anything"}"#)));
}

// resolve_device

#[test]
fn resolve_device_returns_first_matching_rule() {
    let rules = vec![
        DeviceRule {
            device: "mouse".to_string(),
            conditions: vec![MatchCondition {
                vendor_id: Some("046d".to_string()),
                ..Default::default()
            }],
        },
        DeviceRule {
            device: "dock".to_string(),
            conditions: vec![MatchCondition {
                vendor_id: Some("17ef".to_string()),
                ..Default::default()
            }],
        },
    ];
    assert_eq!(
        resolve_device(&rules, &j(r#"{"vendor_id": "046d"}"#)),
        "mouse"
    );
    assert_eq!(
        resolve_device(&rules, &j(r#"{"vendor_id": "17ef"}"#)),
        "dock"
    );
    assert_eq!(
        resolve_device(&rules, &j(r#"{"vendor_id": "0000"}"#)),
        "unknown"
    );
}

#[test]
fn resolve_device_skips_rules_with_no_conditions() {
    let rules = vec![DeviceRule {
        device: "wildcard".to_string(),
        conditions: vec![],
    }];
    assert_eq!(resolve_device(&rules, &j(r#"{}"#)), "unknown");
}

#[test]
fn resolve_device_with_empty_ruleset_returns_unknown() {
    assert_eq!(resolve_device(&vec![], &j(r#"{"vendor_id": "x"}"#)), "unknown");
}

#[test]
fn facts_meet_a_condition_in_full_or_not_at_all() {
    let facts = DeviceFacts {
        vendor_id: "046d".to_string(),
        product_id: "c52b".to_string(),
        name: "usb receiver".to_string(),
        vendor: "logitech".to_string(),
        keyboard: true,
        mouse: false,
        tablet: false,
        interfaces: ":090000:0e0100:".to_string(),
        usb_class: "0x03".to_string(),
        subsystem: "input".to_string(),
    };
    assert!(facts_match(&MatchCondition::default(), &facts));
    let mut cond = MatchCondition::default();
    cond.name_contains = Some("receiver logi".to_string());
    cond.usb_hub = Some(true);
    cond.id_usb_class = Some("03".to_string());
    cond.id_input_mouse = Some(false);
    assert!(facts_match(&cond, &facts));
    cond.vendor_id = Some("ffff".to_string());
    assert!(!facts_match(&cond, &facts));
}

#[test]
fn conditions_pass_over_the_case_of_letters_beyond_ascii() {
    let mut cond = MatchCondition::default();
    cond.name = Some("STRASSE \u{c4}".to_string());
    assert!(condition_matches(
        &cond,
        &j("{\"name\": \"Strasse \u{e4}\"}")
    ));
    assert!(!condition_matches(&cond, &j(r#"{"name": "strasse"}"#)));
}
