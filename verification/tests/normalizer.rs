use breadd::events::{AdapterSource, RawEvent};
use breadd::json::JsonValue;
use breadd::normalizer::{split_hyprland_fields, EventNormalizer};
use breadd::wire;

fn j(s: &str) -> JsonValue {
    wire::parse(s).expect("a JSON text")
}

fn raw(source: AdapterSource, kind: &str, payload: JsonValue, ts: u64) -> RawEvent {
    RawEvent {
        source,
        kind: kind.to_string(),
        payload,
        timestamp: ts,
    }
}

// Udev

#[test]
fn udev_add_emits_connected_with_identity_fields() {
    let mut n = EventNormalizer::new(100);
    let ev = raw(
        AdapterSource::Udev,
        "udev",
        j(r#"{ "action": "add", "name": "Logitech Mouse", "id_vendor": "Logitech", "vendor_id": "046d", "product_id": "c52b", "subsystem": "usb", "id": "1-1.4"}"#),
        1000,
    );
    let out = n.normalize(&ev);
    assert_eq!(out.len(), 1);
    assert_eq!(out[0].event, "bread.device.connected");
    assert_eq!(out[0].data.text("vendor_id"), Some("046d"));
    assert_eq!(out[0].data.text("product_id"), Some("c52b"));
    assert_eq!(out[0].data.text("name"), Some("Logitech Mouse"));
    assert_eq!(out[0].data.text("subsystem"), Some("usb"));
    assert_eq!(out[0].data.text("device"), Some("unknown"));
}

#[test]
fn udev_remove_emits_disconnected() {
    let mut n = EventNormalizer::new(100);
    let ev = raw(
        AdapterSource::Udev,
        "udev",
        j(r#"{ "action": "remove", "name": "Logitech", "vendor_id": "046d", "product_id": "c52b", "subsystem": "usb", "id": "1-1.4"}"#),
        1000,
    );
    let out = n.normalize(&ev);
    assert_eq!(out.len(), 1);
    assert_eq!(out[0].event, "bread.device.disconnected");
}

#[test]
fn udev_bind_action_is_suppressed() {
    let mut n = EventNormalizer::new(100);
    let ev = raw(
        AdapterSource::Udev,
        "udev",
        j(r#"{ "action": "bind", "name": "x", "vendor_id": "046d", "product_id": "c52b"}"#),
        1000,
    );
    assert!(n.normalize(&ev).is_empty());
}

#[test]
fn udev_anonymous_child_interface_is_dropped() {
    let mut n = EventNormalizer::new(100);
    // No name, no vendor — pure USB protocol artefact.
    let ev = raw(
        AdapterSource::Udev,
        "udev",
        j(r#"{ "action": "add", "id": "3-5:1.0"}"#),
        1000,
    );
    assert!(n.normalize(&ev).is_empty());
}

#[test]
fn udev_dedupes_child_nodes_of_same_physical_device() {
    let mut n = EventNormalizer::new(1000);
    let mk = |id: &str, ts: u64| {
        raw(
            AdapterSource::Udev,
            "udev",
            j(r#"{ "action": "add", "name": "Hub Device", "vendor_id": "1d6b", "product_id": "0002", "subsystem": "usb"}"#)
                .with("id", JsonValue::of_text(id)),
            ts,
        )
    };
    // First child fires
    assert_eq!(n.normalize(&mk("usb-1", 1000)).len(), 1);
    // Sibling within window is suppressed
    assert_eq!(n.normalize(&mk("usb-2", 1050)).len(), 0);
    // After the dedup window, a sibling fires again
    assert_eq!(n.normalize(&mk("usb-3", 3000)).len(), 1);
}

#[test]
fn udev_disconnect_does_not_share_dedup_with_connect() {
    let mut n = EventNormalizer::new(1000);
    let connect = raw(
        AdapterSource::Udev,
        "udev",
        j(r#"{"action": "add", "name": "x", "vendor_id": "1", "product_id": "2", "id": "a"}"#),
        1000,
    );
    let disconnect = raw(
        AdapterSource::Udev,
        "udev",
        j(r#"{"action": "remove", "name": "x", "vendor_id": "1", "product_id": "2", "id": "a"}"#),
        1100,
    );
    assert_eq!(n.normalize(&connect).len(), 1);
    // Disconnect uses a different verb in the dedup key, so it fires.
    assert_eq!(n.normalize(&disconnect).len(), 1);
}

// Hyprland
//
// `EventNormalizer::new` defaults `legacy_hyprland_event_names` to `true`
// (mirrors `[compat]`'s documented default), so by default every mapped
// Hyprland kind dual-emits: the legacy flat name plus its namespaced
// `bread.hyprland.*` sibling. See `emit_hyprland_dual`.

#[test]
fn hyprland_workspace_change() {
    let mut n = EventNormalizer::new(0);
    let ev = raw(
        AdapterSource::Hyprland,
        "hypr",
        j(r#"{"kind": "workspace", "data": "2"}"#),
        1,
    );
    let out = n.normalize(&ev);
    assert_eq!(out.len(), 2);
    assert!(out.iter().any(|e| e.event == "bread.workspace.changed"));
    assert!(out
        .iter()
        .any(|e| e.event == "bread.hyprland.workspace.changed"));
}

#[test]
fn hyprland_active_window_v2_parses_address_from_fields() {
    let mut n = EventNormalizer::new(0);
    let ev = raw(
        AdapterSource::Hyprland,
        "hypr",
        j(r#"{"kind": "activewindowv2", "data": "0xdeadbeef"}"#),
        1,
    );
    let out = n.normalize(&ev);
    assert_eq!(out.len(), 2);
    assert!(out.iter().any(|e| e.event == "bread.window.focused"));
    assert!(out
        .iter()
        .any(|e| e.event == "bread.hyprland.window.focused"));
    for ev in &out {
        assert_eq!(ev.data.text("address"), Some("0xdeadbeef"));
    }
}

#[test]
fn hyprland_openwindow_splits_all_fields() {
    let mut n = EventNormalizer::new(0);
    let ev = raw(
        AdapterSource::Hyprland,
        "hypr",
        j(r#"{"kind": "openwindow", "data": "0xabc>>2>>firefox>>Mozilla Firefox"}"#),
        1,
    );
    let out = n.normalize(&ev);
    assert_eq!(out.len(), 2);
    assert!(out.iter().any(|e| e.event == "bread.window.opened"));
    assert!(out
        .iter()
        .any(|e| e.event == "bread.hyprland.window.opened"));
    for ev in &out {
        let d = &ev.data;
        assert_eq!(d.text("address"), Some("0xabc"));
        assert_eq!(d.text("workspace"), Some("2"));
        assert_eq!(d.text("class"), Some("firefox"));
        assert_eq!(d.text("title"), Some("Mozilla Firefox"));
    }
}

#[test]
fn hyprland_unknown_kind_falls_through_to_generic_event() {
    // The `bread.hyprland.event` fallback is already namespaced, so it's
    // exempt from dual-emit — it never had a legacy flat name to begin
    // with.
    let mut n = EventNormalizer::new(0);
    let ev = raw(
        AdapterSource::Hyprland,
        "hypr",
        j(r#"{"kind": "submap", "data": "resize"}"#),
        1,
    );
    let out = n.normalize(&ev);
    assert_eq!(out.len(), 1);
    assert_eq!(out[0].event, "bread.hyprland.event");
}

#[test]
fn hyprland_monitor_lifecycle() {
    let mut n = EventNormalizer::new(0);
    let added = n.normalize(&raw(
        AdapterSource::Hyprland,
        "hypr",
        j(r#"{"kind": "monitoradded", "data": "HDMI-A-1"}"#),
        1,
    ));
    let removed = n.normalize(&raw(
        AdapterSource::Hyprland,
        "hypr",
        j(r#"{"kind": "monitorremoved", "data": "HDMI-A-1"}"#),
        2,
    ));
    assert_eq!(added.len(), 2);
    assert!(added.iter().any(|e| e.event == "bread.monitor.connected"));
    assert!(added
        .iter()
        .any(|e| e.event == "bread.hyprland.monitor.connected"));
    for ev in &added {
        assert_eq!(ev.data.text("name"), Some("HDMI-A-1"));
    }

    assert_eq!(removed.len(), 2);
    assert!(removed
        .iter()
        .any(|e| e.event == "bread.monitor.disconnected"));
    assert!(removed
        .iter()
        .any(|e| e.event == "bread.hyprland.monitor.disconnected"));
}

/// (a) With the default config (`legacy_hyprland_event_names = true`),
/// every one of the 10 dual-emit mappings fires both its legacy flat
/// name and its namespaced `bread.hyprland.*` sibling, with identical
/// data on each.
#[test]
fn hyprland_dual_emit_covers_all_ten_mappings_by_default() {
    let mut n = EventNormalizer::new(0);
    let cases: &[(&str, &str, &str, &str)] = &[
        (
            "workspace",
            "2",
            "bread.workspace.changed",
            "bread.hyprland.workspace.changed",
        ),
        (
            "workspacev2",
            "2,name",
            "bread.workspace.changed",
            "bread.hyprland.workspace.changed",
        ),
        (
            "createworkspace",
            "3",
            "bread.workspace.created",
            "bread.hyprland.workspace.created",
        ),
        (
            "destroyworkspace",
            "3",
            "bread.workspace.destroyed",
            "bread.hyprland.workspace.destroyed",
        ),
        (
            "monitoradded",
            "HDMI-A-1",
            "bread.monitor.connected",
            "bread.hyprland.monitor.connected",
        ),
        (
            "monitorremoved",
            "HDMI-A-1",
            "bread.monitor.disconnected",
            "bread.hyprland.monitor.disconnected",
        ),
        (
            "activewindow",
            "firefox,Mozilla Firefox",
            "bread.window.focus.changed",
            "bread.hyprland.window.focus.changed",
        ),
        (
            "activewindowv2",
            "0xdead",
            "bread.window.focused",
            "bread.hyprland.window.focused",
        ),
        (
            "openwindow",
            "0xabc>>2>>firefox>>Mozilla Firefox",
            "bread.window.opened",
            "bread.hyprland.window.opened",
        ),
        (
            "closewindow",
            "0xabc",
            "bread.window.closed",
            "bread.hyprland.window.closed",
        ),
        (
            "movewindow",
            "0xabc,2",
            "bread.window.moved",
            "bread.hyprland.window.moved",
        ),
    ];

    for (kind, data, legacy_event, namespaced_event) in cases {
        let ev = raw(
            AdapterSource::Hyprland,
            "hypr",
            j(&format!(r#"{{"kind": "{kind}", "data": "{data}"}}"#)),
            1,
        );
        let out = n.normalize(&ev);
        assert_eq!(out.len(), 2, "kind {kind} should dual-emit exactly 2 events");
        assert!(
            out.iter().any(|e| &e.event == legacy_event),
            "kind {kind} missing legacy event {legacy_event}"
        );
        assert!(
            out.iter().any(|e| &e.event == namespaced_event),
            "kind {kind} missing namespaced event {namespaced_event}"
        );
        let legacy_data = out.iter().find(|e| &e.event == legacy_event).unwrap().data.duplicate();
        let namespaced_data = out
            .iter()
            .find(|e| &e.event == namespaced_event)
            .unwrap()
            .data
            .duplicate();
        assert_eq!(
            legacy_data, namespaced_data,
            "kind {kind}: legacy and namespaced events should carry identical data"
        );
    }
}

/// (b) With `legacy_hyprland_event_names = false`, only the namespaced
/// `bread.hyprland.*` names fire — the legacy flat names are fully
/// suppressed, not just relegated to a secondary slot.
#[test]
fn hyprland_legacy_names_suppressed_when_compat_disabled() {
    let mut n = EventNormalizer::new(0).with_legacy_hyprland_event_names(false);
    let cases: &[(&str, &str, &str, &str)] = &[
        (
            "workspace",
            "2",
            "bread.workspace.changed",
            "bread.hyprland.workspace.changed",
        ),
        (
            "createworkspace",
            "3",
            "bread.workspace.created",
            "bread.hyprland.workspace.created",
        ),
        (
            "destroyworkspace",
            "3",
            "bread.workspace.destroyed",
            "bread.hyprland.workspace.destroyed",
        ),
        (
            "monitoradded",
            "HDMI-A-1",
            "bread.monitor.connected",
            "bread.hyprland.monitor.connected",
        ),
        (
            "monitorremoved",
            "HDMI-A-1",
            "bread.monitor.disconnected",
            "bread.hyprland.monitor.disconnected",
        ),
        (
            "activewindow",
            "firefox,Mozilla Firefox",
            "bread.window.focus.changed",
            "bread.hyprland.window.focus.changed",
        ),
        (
            "activewindowv2",
            "0xdead",
            "bread.window.focused",
            "bread.hyprland.window.focused",
        ),
        (
            "openwindow",
            "0xabc>>2>>firefox>>Mozilla Firefox",
            "bread.window.opened",
            "bread.hyprland.window.opened",
        ),
        (
            "closewindow",
            "0xabc",
            "bread.window.closed",
            "bread.hyprland.window.closed",
        ),
        (
            "movewindow",
            "0xabc,2",
            "bread.window.moved",
            "bread.hyprland.window.moved",
        ),
    ];

    for (kind, data, legacy_event, namespaced_event) in cases {
        let ev = raw(
            AdapterSource::Hyprland,
            "hypr",
            j(&format!(r#"{{"kind": "{kind}", "data": "{data}"}}"#)),
            1,
        );
        let out = n.normalize(&ev);
        assert_eq!(
            out.len(),
            1,
            "kind {kind} should emit exactly 1 event when legacy names are disabled"
        );
        assert_eq!(
            out[0].event, *namespaced_event,
            "kind {kind} should emit only the namespaced event"
        );
        assert!(
            !out.iter().any(|e| &e.event == legacy_event),
            "kind {kind} leaked legacy event {legacy_event} despite being disabled"
        );
    }

    // The already-namespaced fallback is unaffected either way.
    let fallback = n.normalize(&raw(
        AdapterSource::Hyprland,
        "hypr",
        j(r#"{"kind": "submap", "data": "resize"}"#),
        1,
    ));
    assert_eq!(fallback.len(), 1);
    assert_eq!(fallback[0].event, "bread.hyprland.event");
}

/// (c) A module that subscribes only to `bread.hyprland.*` gets full
/// coverage of workspace, monitor, and window activity — regardless of
/// the `[compat]` setting — since the namespaced name is unconditional.
/// Portable automation only means something if the namespaced form alone is a
/// complete feed.
#[test]
fn hyprland_namespace_only_subscriber_gets_full_coverage_regardless_of_compat() {
    let kinds_and_data: &[(&str, &str)] = &[
        ("workspace", "2"),
        ("createworkspace", "3"),
        ("destroyworkspace", "3"),
        ("monitoradded", "HDMI-A-1"),
        ("monitorremoved", "HDMI-A-1"),
        ("activewindow", "firefox,Mozilla Firefox"),
        ("activewindowv2", "0xdead"),
        ("openwindow", "0xabc>>2>>firefox>>Mozilla Firefox"),
        ("closewindow", "0xabc"),
        ("movewindow", "0xabc,2"),
    ];

    for legacy_enabled in [true, false] {
        let mut n = EventNormalizer::new(0).with_legacy_hyprland_event_names(legacy_enabled);
        for (kind, data) in kinds_and_data {
            let out = n.normalize(&raw(
                AdapterSource::Hyprland,
                "hypr",
                j(&format!(r#"{{"kind": "{kind}", "data": "{data}"}}"#)),
                1,
            ));
            let namespaced_hits = out
                .iter()
                .filter(|e| e.event.starts_with("bread.hyprland."))
                .count();
            assert_eq!(
                namespaced_hits, 1,
                "kind {kind} (legacy_enabled={legacy_enabled}) should always emit exactly \
                 one bread.hyprland.* event, matching a bread.hyprland.* subscriber's view"
            );
        }
    }
}

// Power

#[test]
fn power_ac_connected_emits_named_event() {
    let mut n = EventNormalizer::new(0);
    let out = n.normalize(&raw(
        AdapterSource::Power,
        "power",
        j(r#"{"ac_connected": true}"#),
        1,
    ));
    assert_eq!(out.len(), 1);
    assert_eq!(out[0].event, "bread.power.ac.connected");
}

#[test]
fn power_battery_thresholds_select_correct_event() {
    let mut n = EventNormalizer::new(0);
    let cases = [
        (3, "bread.power.battery.critical"),
        (5, "bread.power.battery.critical"),
        (8, "bread.power.battery.very_low"),
        (10, "bread.power.battery.very_low"),
        (15, "bread.power.battery.low"),
        (20, "bread.power.battery.low"),
        (100, "bread.power.battery.full"),
    ];
    for (level, expected) in cases {
        let out = n.normalize(&raw(
            AdapterSource::Power,
            "power",
            j(&format!(r#"{{"battery_percent": {level}}}"#)),
            level * 1000,
        ));
        assert_eq!(
            out[0].event, expected,
            "level {level} should map to {expected}"
        );
    }
}

#[test]
fn power_mid_range_battery_emits_generic_changed() {
    let mut n = EventNormalizer::new(0);
    let out = n.normalize(&raw(
        AdapterSource::Power,
        "power",
        j(r#"{"battery_percent": 50}"#),
        1,
    ));
    assert_eq!(out.len(), 1);
    assert_eq!(out[0].event, "bread.power.changed");
}

#[test]
fn power_ac_and_battery_can_both_fire() {
    let mut n = EventNormalizer::new(0);
    let out = n.normalize(&raw(
        AdapterSource::Power,
        "power",
        j(r#"{"ac_connected": false, "battery_percent": 4}"#),
        1,
    ));
    let names: Vec<&str> = out.iter().map(|e| e.event.as_str()).collect();
    assert!(names.contains(&"bread.power.ac.disconnected"));
    assert!(names.contains(&"bread.power.battery.critical"));
}

// Bluetooth

#[test]
fn bluetooth_connected_emits_device_connected() {
    let mut n = EventNormalizer::new(0);
    let ev = raw(
        AdapterSource::Bluetooth,
        "bluetooth",
        j(r#"{ "path": "/org/bluez/hci0/dev_AA_BB_CC_DD_EE_FF", "address": "AA:BB:CC:DD:EE:FF", "properties": { "Connected": true }}"#),
        1,
    );
    let out = n.normalize(&raw(
        AdapterSource::Bluetooth,
        "bluetooth.device.connected",
        ev.payload.duplicate(),
        1,
    ));
    assert_eq!(out.len(), 1);
    assert_eq!(out[0].event, "bread.device.connected");
    assert_eq!(out[0].data.text("address"), Some("AA:BB:CC:DD:EE:FF"));
    assert_eq!(out[0].data.text("subsystem"), Some("bluetooth"));
    assert_eq!(out[0].data.text("device"), Some("unknown"));
}

#[test]
fn bluetooth_disconnected_emits_device_disconnected() {
    let mut n = EventNormalizer::new(0);
    let out = n.normalize(&raw(
        AdapterSource::Bluetooth,
        "bluetooth.device.disconnected",
        j(r#"{ "path": "/org/bluez/hci0/dev_AA_BB_CC_DD_EE_FF", "address": "AA:BB:CC:DD:EE:FF", "properties": { "Connected": false }}"#),
        1,
    ));
    assert_eq!(out.len(), 1);
    assert_eq!(out[0].event, "bread.device.disconnected");
}

#[test]
fn bluetooth_enumerate_includes_name() {
    let mut n = EventNormalizer::new(0);
    let out = n.normalize(&raw(
        AdapterSource::Bluetooth,
        "bluetooth.enumerate",
        j(r#"{ "path": "/org/bluez/hci0/dev_AA_BB_CC_DD_EE_FF", "address": "AA:BB:CC:DD:EE:FF", "name": "WH-1000XM4", "properties": {}}"#),
        1,
    ));
    assert_eq!(out.len(), 1);
    assert_eq!(out[0].event, "bread.device.connected");
    assert_eq!(out[0].data.text("name"), Some("WH-1000XM4"));
}

#[test]
fn bluetooth_paired_emits_bluetooth_specific_event() {
    let mut n = EventNormalizer::new(0);
    let out = n.normalize(&raw(
        AdapterSource::Bluetooth,
        "bluetooth.device.added",
        j(r#"{ "path": "/org/bluez/hci0/dev_AA_BB_CC_DD_EE_FF", "address": "AA:BB:CC:DD:EE:FF", "name": "My Headphones", "properties": {}}"#),
        1,
    ));
    assert_eq!(out.len(), 1);
    assert_eq!(out[0].event, "bread.bluetooth.device.paired");
    assert_eq!(out[0].data.text("name"), Some("My Headphones"));
}

#[test]
fn bluetooth_unpaired_emits_bluetooth_specific_event() {
    let mut n = EventNormalizer::new(0);
    let out = n.normalize(&raw(
        AdapterSource::Bluetooth,
        "bluetooth.device.removed",
        j(r#"{ "path": "/org/bluez/hci0/dev_AA_BB_CC_DD_EE_FF", "address": "AA:BB:CC:DD:EE:FF"}"#),
        1,
    ));
    assert_eq!(out.len(), 1);
    assert_eq!(out[0].event, "bread.bluetooth.device.unpaired");
    assert_eq!(out[0].data.text("address"), Some("AA:BB:CC:DD:EE:FF"));
}

#[test]
fn bluetooth_name_falls_back_to_properties() {
    let mut n = EventNormalizer::new(0);
    let out = n.normalize(&raw(
        AdapterSource::Bluetooth,
        "bluetooth.device.connected",
        j(r#"{ "path": "/org/bluez/hci0/dev_AA_BB_CC_DD_EE_FF", "address": "AA:BB:CC:DD:EE:FF", "properties": { "Connected": true, "Name": "Fallback Name" }}"#),
        1,
    ));
    assert_eq!(out.len(), 1);
    assert_eq!(out[0].data.text("name"), Some("Fallback Name"));
}

// Network

#[test]
fn network_online_and_offline() {
    let mut n = EventNormalizer::new(0);
    let online = n.normalize(&raw(
        AdapterSource::Network,
        "net",
        j(r#"{"online": true}"#),
        1,
    ));
    let offline = n.normalize(&raw(
        AdapterSource::Network,
        "net",
        j(r#"{"online": false}"#),
        2,
    ));
    assert_eq!(online[0].event, "bread.network.connected");
    assert_eq!(offline[0].event, "bread.network.disconnected");
}

// System pass-through

#[test]
fn system_events_pass_through_unchanged() {
    let mut n = EventNormalizer::new(0);
    let out = n.normalize(&raw(
        AdapterSource::System,
        "bread.custom.event",
        j(r#"{"foo": "bar"}"#),
        1,
    ));
    assert_eq!(out.len(), 1);
    assert_eq!(out[0].event, "bread.custom.event");
    assert!(matches!(out[0].source, AdapterSource::System));
    assert_eq!(out[0].data.text("foo"), Some("bar"));
}

// Dedup

#[test]
fn dedup_drops_duplicate_within_window() {
    let mut n = EventNormalizer::new(500);
    let ev = raw(AdapterSource::Network, "net", j(r#"{"online": true}"#), 1000);
    assert_eq!(n.normalize(&ev).len(), 1);

    let dup = raw(AdapterSource::Network, "net", j(r#"{"online": true}"#), 1200);
    assert_eq!(n.normalize(&dup).len(), 0);
}

#[test]
fn dedup_allows_after_window_elapses() {
    let mut n = EventNormalizer::new(500);
    let first = raw(AdapterSource::Network, "net", j(r#"{"online": true}"#), 1000);
    assert_eq!(n.normalize(&first).len(), 1);

    let later = raw(AdapterSource::Network, "net", j(r#"{"online": true}"#), 2000);
    assert_eq!(n.normalize(&later).len(), 1);
}

#[test]
fn dedup_distinguishes_different_payloads() {
    let mut n = EventNormalizer::new(10_000);
    let a = raw(
        AdapterSource::Hyprland,
        "hypr",
        j(r#"{"kind": "workspace", "data": "1"}"#),
        1000,
    );
    let b = raw(
        AdapterSource::Hyprland,
        "hypr",
        j(r#"{"kind": "workspace", "data": "2"}"#),
        1100,
    );
    // Hyprland's "workspace" kind dual-emits (legacy + namespaced name,
    // see the Hyprland test section below), so each distinct payload
    // produces 2 events rather than 1 — but the point of this test is
    // that neither call is suppressed by dedup, since the payloads
    // differ and thus so does the dedup key.
    assert_eq!(n.normalize(&a).len(), 2);
    // Different payloads = different dedup key
    assert_eq!(n.normalize(&b).len(), 2);
}

#[test]
fn dedup_window_of_zero_allows_everything() {
    let mut n = EventNormalizer::new(0);
    for _ in 0..3 {
        assert_eq!(
            n.normalize(&raw(
                AdapterSource::Network,
                "net",
                j(r#"{"online": true}"#),
                1000,
            ))
            .len(),
            1
        );
    }
}

// Helper

#[test]
fn split_fields_handles_empty_and_single() {
    assert!(split_hyprland_fields("").is_empty());
    assert_eq!(split_hyprland_fields("only"), vec!["only"]);
    assert_eq!(split_hyprland_fields("a>>b>>c"), vec!["a", "b", "c"]);
}
