use breadd::adapters::bluetooth::{enumerate_device, parse_bluetooth_message};
use breadd::adapters::bus::{BusBody, BusMessage};
use breadd::adapters::filesystem::{classify, detected_event, glob_split, root_of};
use breadd::adapters::git::{
    apply_check, check_ahead_behind, discover_repos, is_dirty, pointed_git_dir, star_parent,
    GitAdapter, RepoTrack, Span, DEFAULT_POLL_INTERVAL_SECS,
};
use breadd::adapters::hyprland::{
    hyprland_dir, hyprland_event, hyprland_socket, parse_hyprland_line,
};
use breadd::adapters::manager::{start_all, AdapterChoice};
use breadd::adapters::network::{poll_network, read_network_state};
use breadd::adapters::network_rtnetlink::{
    ipv4_from_bytes, netlink_event, AddressAttr, AddressMessage, LinkAttr, NetlinkMessage,
    RouteAttr,
};
use breadd::adapters::podman::{parse_podman_line, podman_event};
use breadd::adapters::power::{poll_power, read_power_state, PowerAdapter, SupplyFiles};
use breadd::adapters::power_upower::{connected_event, parse_upower_message};
use breadd::adapters::systemd::{handle_message, job_report, SystemdStep};
use breadd::adapters::udev::{
    build_event, enumerate_with_udev, prop_bool, prop_str, UdevDevice,
};
use breadd::config::Config;
use breadd::events::AdapterSource;
use breadd::json::JsonValue;
use breadd::recency::Recency;
use breadd::wire;

fn j(s: &str) -> JsonValue {
    wire::parse(s).expect("a JSON text")
}

fn texts(items: &[&str]) -> Vec<String> {
    items.iter().map(|s| s.to_string()).collect()
}

fn message(interface: &str, member: &str, path: &str, body: BusBody) -> BusMessage {
    BusMessage {
        interface: Some(interface.to_string()),
        member: Some(member.to_string()),
        path: Some(path.to_string()),
        body,
    }
}

fn keyboard() -> UdevDevice {
    let pair = |k: &str, v: &str| (k.to_string(), v.to_string());
    UdevDevice {
        action: Some("add".to_string()),
        subsystem: Some("input".to_string()),
        syspath: "/sys/devices/kbd".to_string(),
        devnode: Some("/dev/input/event3".to_string()),
        sysname: Some("event3".to_string()),
        properties: vec![
            pair("NAME", "Keys"),
            pair("ID_INPUT_KEYBOARD", "1"),
            pair("ID_INPUT_MOUSE", "0"),
            pair("ID_VENDOR_ID", "046d"),
        ],
    }
}

#[test]
fn udev_reports_carry_the_properties_of_the_device() {
    let event = build_event(&keyboard(), 9);
    assert!(matches!(event.source, AdapterSource::Udev));
    assert_eq!(event.kind, "udev.change");
    assert_eq!(event.timestamp, 9);
    assert_eq!(
        event.payload,
        j(r#"{
            "action": "add", "id": "/sys/devices/kbd", "name": "Keys", "subsystem": "input",
            "id_input_keyboard": true, "id_input_mouse": false, "id_input_joystick": false,
            "id_input_touchpad": false, "id_input_tablet": false, "id_usb_class": null,
            "id_usb_interfaces": null, "id_vendor": null, "id_model": null,
            "vendor_id": "046d", "product_id": null
        }"#)
    );
}

#[test]
fn udev_reports_fall_back_to_what_is_known() {
    let bare = UdevDevice {
        action: None,
        subsystem: None,
        syspath: "/sys/x".to_string(),
        devnode: Some("/dev/x".to_string()),
        sysname: None,
        properties: vec![],
    };
    let event = build_event(&bare, 1);
    assert_eq!(event.payload.text("action"), Some("change"));
    assert_eq!(event.payload.text("name"), Some("/dev/x"));
    assert_eq!(event.payload.text("subsystem"), Some("unknown"));
    assert_eq!(prop_str(&bare, "NAME"), None);
    assert!(!prop_bool(&bare, "NAME"));
    // At the start the name of the node in the system's files counts instead.
    let found = enumerate_with_udev(&vec![keyboard(), bare], 2);
    assert_eq!(found.len(), 2);
    assert_eq!(found[0].kind, "udev.enumerate");
    assert_eq!(
        found[0].payload,
        j(r#"{"action": "add", "id": "/sys/devices/kbd", "name": "Keys", "subsystem": "input"}"#)
    );
    assert_eq!(found[1].payload.text("name"), Some("unknown"));
}

#[test]
fn hyprland_lines_are_split_once() {
    assert_eq!(
        parse_hyprland_line("openwindow>>a>>b"),
        ("openwindow".to_string(), "a>>b".to_string())
    );
    let event = hyprland_event("workspace>>2", 3);
    assert_eq!(event.kind, "hyprland.event");
    assert_eq!(
        event.payload,
        j(r#"{"kind": "workspace", "raw": "workspace>>2", "data": "2"}"#)
    );
}

#[test]
fn hyprland_sockets_are_found() {
    assert_eq!(hyprland_dir(None), "/tmp/hypr");
    assert_eq!(
        hyprland_socket(Some("/run/user/1"), Some("abc"), ".socket2.sock", &vec![]).unwrap(),
        "/run/user/1/hypr/abc/.socket2.sock"
    );
    assert_eq!(
        hyprland_socket(None, None, ".socket.sock", &texts(&["/x/1", "/x/2"])).unwrap(),
        "/x/1"
    );
    assert_eq!(
        hyprland_socket(None, None, ".socket.sock", &vec![]).unwrap_err(),
        "no Hyprland instance found in /tmp/hypr"
    );
}

#[test]
fn network_changes_are_reported_once() {
    let pair = |k: &str, v: &str| (k.to_string(), v.to_string());
    let entries = vec![pair("lo", "unknown\n"), pair("eth0", "up\n"), pair("wlan0", "down\n")];
    let routes = "Iface\tDestination\tGateway\neth0\t00000000\t0101A8C0\n";
    let state = read_network_state(&entries, Some(routes));
    assert!(state.online);
    let event = poll_network(None, &state, 4).expect("a report");
    assert_eq!(event.kind, "network.snapshot");
    assert_eq!(
        event.payload,
        j(r#"{"online": true, "interfaces": {"eth0": {"up": true}, "wlan0": {"up": false}}}"#)
    );
    let again = read_network_state(&entries, Some(routes));
    assert!(poll_network(Some(&state), &again, 5).is_none());
    let offline = read_network_state(&entries, None);
    assert!(!offline.online);
    assert!(poll_network(Some(&state), &offline, 6).is_some());
}

#[test]
fn a_heading_is_no_default_route() {
    let entries = vec![];
    assert!(!read_network_state(&entries, Some("x 00000000 y\n")).online);
    assert!(!read_network_state(&entries, Some("h\neth0 00000000\n")).online);
    assert!(read_network_state(&entries, Some("h\neth0 00000000 0\n")).online);
}

#[test]
fn power_supplies_are_read() {
    let supply = |kind: &str, online: &str, capacity: &str| SupplyFiles {
        kind: kind.to_string(),
        online: online.to_string(),
        capacity: capacity.to_string(),
    };
    let state = read_power_state(&vec![
        supply("Mains\n", "1\n", ""),
        supply("Battery\n", "", "250\n"),
        supply("UPS\n", "1\n", "5\n"),
    ]);
    assert!(state.ac_connected);
    assert_eq!(state.battery_percent, Some(100));
    let event = poll_power(None, state, 7).expect("a report");
    assert_eq!(event.kind, "power.snapshot");
    assert_eq!(
        event.payload,
        j(r#"{"ac_connected": true, "battery_percent": 100}"#)
    );
    assert!(poll_power(Some(state), state, 8).is_none());
    let flat = read_power_state(&vec![supply("usb", "0", ""), supply("battery", "", "n/a")]);
    assert!(!flat.ac_connected);
    assert_eq!(flat.battery_percent, None);
    assert_eq!(PowerAdapter::new(0).interval_secs(), 5);
    assert_eq!(PowerAdapter::new(30).interval_secs(), 30);
}

#[test]
fn upower_messages_become_reports() {
    let added = message(
        "org.freedesktop.UPower",
        "DeviceAdded",
        "/org/freedesktop/UPower",
        BusBody::Object {
            path: "/dev/bat".to_string(),
        },
    );
    let event = parse_upower_message(&added, JsonValue::Null, 1).unwrap();
    assert_eq!(event.kind, "power.device.added");
    assert_eq!(event.payload, j(r#"{"device_path": "/dev/bat"}"#));

    let changed = message(
        "org.freedesktop.DBus.Properties",
        "PropertiesChanged",
        "/dev/bat",
        BusBody::Changed {
            iface: "org.freedesktop.UPower.Device".to_string(),
            changed: j(r#"{"State": 2, "TimeToEmpty": -5, "IsPresent": true, "Model": "B"}"#),
            invalidated: texts(&["Energy"]),
        },
    );
    let event = parse_upower_message(&changed, j("73.5"), 2).unwrap();
    assert_eq!(event.kind, "power.device.changed");
    assert_eq!(event.payload.get("invalidated"), Some(&j(r#"["Energy"]"#)));
    assert_eq!(
        event.payload.get("normalized"),
        Some(&j(r#"{
            "percentage": 73.5, "state": 2, "time_to_empty": -5, "time_to_full": null,
            "is_present": true, "battery_type": null, "online": null, "native_path": null,
            "model": "B", "vendor": null, "serial": null, "update_time": null
        }"#))
    );

    let connected = connected_event(9);
    assert_eq!(connected.kind, "power.upower.connected");
    assert_eq!(connected.payload, j(r#"{"message": "upower:connected"}"#));

    let other = message("a.b", "C", "/p", BusBody::Other);
    let event = parse_upower_message(&other, JsonValue::Null, 3).unwrap();
    assert_eq!(event.kind, "power.upower.signal");
    assert_eq!(
        event.payload,
        j(r#"{"interface": "a.b", "member": "C", "path": "/p"}"#)
    );
    let unreadable = message("org.freedesktop.UPower", "DeviceRemoved", "/p", BusBody::Other);
    assert!(parse_upower_message(&unreadable, JsonValue::Null, 4).is_none());
}

#[test]
fn bluetooth_messages_become_reports() {
    let path = "/org/bluez/hci0/dev_AA_BB_CC_DD_EE_FF";
    let changed = |value: &str| {
        message(
            "org.freedesktop.DBus.Properties",
            "PropertiesChanged",
            path,
            BusBody::Changed {
                iface: "org.bluez.Device1".to_string(),
                changed: j(value),
                invalidated: vec![],
            },
        )
    };
    let event = parse_bluetooth_message(&changed(r#"{"Connected": false}"#), 1).unwrap();
    assert_eq!(event.kind, "bluetooth.device.disconnected");
    assert_eq!(event.payload.text("address"), Some("AA:BB:CC:DD:EE:FF"));
    assert!(parse_bluetooth_message(&changed(r#"{"RSSI": 1}"#), 1).is_none());

    let added = message(
        "org.freedesktop.DBus.ObjectManager",
        "InterfacesAdded",
        "/",
        BusBody::Added {
            path: path.to_string(),
            interfaces: j(r#"{"org.bluez.Device1": {"Alias": "Buds"}}"#),
        },
    );
    let event = parse_bluetooth_message(&added, 2).unwrap();
    assert_eq!(event.kind, "bluetooth.device.added");
    assert_eq!(event.payload.text("name"), Some("Buds"));
    assert_eq!(event.payload.text("address"), Some("AA:BB:CC:DD:EE:FF"));

    let removed = message(
        "org.freedesktop.DBus.ObjectManager",
        "InterfacesRemoved",
        "/",
        BusBody::Removed {
            path: path.to_string(),
            lost: texts(&["org.bluez.Device1"]),
        },
    );
    assert_eq!(
        parse_bluetooth_message(&removed, 3).unwrap().kind,
        "bluetooth.device.removed"
    );
    assert!(enumerate_device(path, j(r#"{"Connected": false}"#), 4).is_none());
    let known = enumerate_device(path, j(r#"{"Connected": true, "Address": "X"}"#), 4).unwrap();
    assert_eq!(known.kind, "bluetooth.enumerate");
    assert_eq!(known.payload.text("address"), Some("X"));
    assert_eq!(known.payload.text("name"), Some("unknown"));
}

#[test]
fn kernel_messages_become_reports() {
    let link = |flags: u32, attrs: Vec<LinkAttr>| NetlinkMessage::NewLink {
        index: 2,
        flags,
        attrs,
    };
    let up = netlink_event(
        &link(
            1,
            vec![
                LinkAttr::Other,
                LinkAttr::IfName("eth0".to_string()),
                LinkAttr::Mtu(1500),
                LinkAttr::NetnsId(-1),
                LinkAttr::NetNsFd(7),
            ],
        ),
        5,
    )
    .unwrap();
    assert_eq!(up.kind, "link.up");
    assert_eq!(
        up.payload,
        j(r#"{"ifname": "eth0", "index": 2, "mtu": 1500, "netns_id": -1, "netns_fd": 7}"#)
    );
    let down = netlink_event(&link(2, vec![LinkAttr::IfName("eth0".to_string())]), 5).unwrap();
    assert_eq!(down.kind, "link.down");
    assert!(netlink_event(&link(1, vec![LinkAttr::Mtu(1500)]), 5).is_none());

    let route = |prefix_len: u8| NetlinkMessage::NewRoute {
        prefix_len,
        table: 254,
        route: vec![RouteAttr::Gateway(ipv4_from_bytes(&vec![192, 168, 1, 1]))],
    };
    let event = netlink_event(&route(0), 6).unwrap();
    assert_eq!(event.kind, "route.default.changed");
    assert_eq!(
        event.payload,
        j(r#"{"gateway": "192.168.1.1", "table": 254}"#)
    );
    assert!(netlink_event(&route(24), 6).is_none());
    assert!(netlink_event(&NetlinkMessage::Other, 6).is_none());

    let address = AddressMessage {
        index: 3,
        prefix_len: 24,
        family: 2,
        attrs: vec![
            AddressAttr::Label("eth0".to_string()),
            AddressAttr::Address(Some("10.0.0.2".to_string())),
        ],
    };
    let event = netlink_event(&NetlinkMessage::DelAddress { address }, 7).unwrap();
    assert_eq!(event.kind, "address.removed");
    assert_eq!(
        event.payload,
        j(r#"{
            "ifindex": 3, "prefix_len": 24, "family": 2, "address": "10.0.0.2", "label": "eth0"
        }"#)
    );
    assert_eq!(ipv4_from_bytes(&vec![1, 2, 3]), None);
}

#[test]
fn podman_lines_that_are_no_events_are_passed_over() {
    assert!(parse_podman_line("not json", 1).is_none());
    assert!(parse_podman_line(r#"{"Status": "strange"}"#, 1).is_none());
    assert!(podman_event(None, 1).is_none());
}

#[test]
fn systemd_messages_ask_or_report() {
    let job = message(
        "org.freedesktop.systemd1.Manager",
        "JobRemoved",
        "/org/freedesktop/systemd1",
        BusBody::Job {
            unit: "a.service".to_string(),
        },
    );
    let units = texts(&["a.service"]);
    match handle_message(&job, &units, &vec![], 1) {
        SystemdStep::AskState(unit) => assert_eq!(unit, "a.service"),
        other => panic!("unexpected {other:?}"),
    }
    assert!(matches!(
        handle_message(&job, &vec![], &vec![], 1),
        SystemdStep::Ignore
    ));
    let failed = message(
        "org.freedesktop.DBus.Properties",
        "PropertiesChanged",
        "/unit/a",
        BusBody::Changed {
            iface: "org.freedesktop.systemd1.Unit".to_string(),
            changed: j(r#"{"ActiveState": "failed", "Result": "exit-code"}"#),
            invalidated: vec![],
        },
    );
    let known = vec![("/unit/a".to_string(), "a.service".to_string())];
    match handle_message(&failed, &units, &known, 2) {
        SystemdStep::Report(event) => {
            assert_eq!(event.payload.text("unit"), Some("a.service"));
            assert_eq!(event.payload.text("result"), Some("exit-code"));
        }
        other => panic!("unexpected {other:?}"),
    }
    let started = job_report("a.service", "active", 3).unwrap();
    assert_eq!(started.payload, j(r#"{"unit": "a.service"}"#));
    assert!(job_report("a.service", "reloading", 3).is_none());
}

#[test]
fn a_look_at_a_repository_tells_only_changes() {
    let mut track = RepoTrack::new("/r".to_string());
    let counts = || Some(("main".to_string(), 1, 0));
    let first = apply_check(&mut track, Some(false), counts(), 1);
    let second = apply_check(&mut track, Some(false), counts(), 2);
    assert!(second.is_empty());
    let third = apply_check(&mut track, Some(true), counts(), 3);
    assert_eq!(third.len(), 1);
    assert!(first.len() <= 2);
}

#[test]
fn repositories_are_found_and_read() {
    assert_eq!(star_parent("/home/me/src/*"), Some("/home/me/src".to_string()));
    assert_eq!(star_parent("/home/me/src"), None);
    assert_eq!(
        pointed_git_dir("/wt", "gitdir: /repo/.git/worktrees/wt\n"),
        Some("/repo/.git/worktrees/wt".to_string())
    );
    assert_eq!(
        pointed_git_dir("/wt", "gitdir: ../repo/.git\n"),
        Some("/wt/../repo/.git".to_string())
    );
    assert_eq!(pointed_git_dir("/wt", "nothing"), None);
    let repos = discover_repos(&vec![("/a".to_string(), true), ("/b".to_string(), false)]);
    assert_eq!(repos.len(), 1);
    assert_eq!(repos[0].path, "/a");
    assert!(is_dirty(" M file\n"));
    assert!(!is_dirty("\n"));
    assert!(check_ahead_behind(None, Some("main")).unwrap().is_none());
    assert_eq!(
        check_ahead_behind(Some("2\t1\n"), Some("main\n")).unwrap(),
        Some(("main".to_string(), 2, 1))
    );
    let adapter = GitAdapter::new(texts(&["/a"]));
    let usual = Span { secs: DEFAULT_POLL_INTERVAL_SECS, nanos: 0 };
    assert_eq!(adapter.poll_interval(), usual);
    let half = Span { secs: 0, nanos: 500_000_000 };
    assert_eq!(GitAdapter::with_interval(vec![], half).poll_interval(), half);
}

#[test]
fn files_are_told_of_below_their_root() {
    let roots = texts(&["/p", "/p/q"]);
    assert_eq!(root_of(&roots, "/p/x"), Some(0));
    assert_eq!(root_of(&roots, "/other"), None);
    assert_eq!(glob_split("/home/*"), Some(("/home".to_string(), String::new())));
    assert_eq!(glob_split("/home"), None);
    let mut seen = Recency::new();
    assert!(classify("/p", "/p/src/main.rs", false, &mut seen, 1_000_000_000, 1).is_some());
    // Again within the window: nothing.
    assert!(classify("/p", "/p/src/main.rs", false, &mut seen, 1_100_000_000, 1).is_none());
    assert!(classify("/p", "/p/src/main.rs", false, &mut seen, 2_000_000_000, 2).is_some());
    assert!(detected_event("/p", &texts(&["readme"]), 1).is_none());
    assert!(detected_event("/p", &texts(&["Cargo.toml"]), 1).is_some());
}

#[test]
fn adapters_start_as_configured() {
    let mut config = Config::default();
    let all = start_all(&config, true, true);
    assert!(all.iter().any(|a| matches!(a, AdapterChoice::UPower)));
    assert!(all.iter().any(|a| matches!(a, AdapterChoice::Rtnetlink)));
    assert!(all.iter().any(|a| matches!(a, AdapterChoice::Bluetooth)));
    let polling = start_all(&config, false, false);
    assert!(polling.iter().any(|a| matches!(a, AdapterChoice::Power)));
    assert!(polling.iter().any(|a| matches!(a, AdapterChoice::Network)));
    config.adapters.udev.enabled = false;
    config.adapters.hyprland.enabled = false;
    config.adapters.power.enabled = false;
    config.adapters.network.enabled = false;
    config.adapters.bluetooth.enabled = false;
    assert!(start_all(&config, true, true).is_empty());
}
