use breadd::config::{config_path, default_udev_subsystems, expand_home, rules_path, Config};
use breadd::settings::ConfigError;

fn parse(content: &str) -> Result<Config, ConfigError> {
    Config::parse(content, "no settings")
}

fn load(read: Option<Result<String, String>>) -> Result<Config, ConfigError> {
    Config::load(read, "no settings")
}

#[test]
fn default_config_uses_documented_defaults() {
    let cfg = Config::default();
    assert_eq!(cfg.daemon.log_level, "info");
    assert!(cfg.daemon.socket_path.is_empty());
    assert_eq!(cfg.lua.entry_point, "~/.config/bread/init.lua");
    assert_eq!(cfg.lua.module_dir, "~/.config/bread/modules");
    assert!(cfg.adapters.hyprland.enabled);
    assert!(cfg.adapters.udev.enabled);
    assert!(cfg.adapters.power.enabled);
    assert!(cfg.adapters.network.enabled);
    assert!(cfg.adapters.bluetooth.enabled);
    assert_eq!(cfg.adapters.power.poll_interval_secs, 30);
    assert_eq!(cfg.events.dedup_window_ms, 100);
    assert_eq!(cfg.notifications.default_timeout_ms, 3000);
    assert_eq!(cfg.notifications.default_urgency, "normal");
    assert_eq!(cfg.notifications.notify_send_path, "notify-send");
    assert!(cfg.modules.builtin);
    assert!(cfg.modules.disable.is_empty());
}

#[test]
fn default_udev_subsystems_match_documented_list() {
    assert_eq!(
        default_udev_subsystems(),
        vec!["usb", "input", "drm", "power_supply"]
    );
}

#[test]
fn parse_empty_toml_yields_defaults() {
    let cfg: Config = parse("").unwrap();
    assert_eq!(cfg.daemon.log_level, "info");
    assert!(cfg.adapters.hyprland.enabled);
}

#[test]
fn parse_full_toml_overrides_all_values() {
    let raw = r#"
[daemon]
log_level = "debug"
socket_path = "/tmp/custom.sock"

[lua]
entry_point = "/abs/init.lua"
module_path = "/abs/mods"

[modules]
builtin = false
disable = ["foo", "bar"]

[adapters.hyprland]
enabled = false

[adapters.udev]
enabled = true
subsystems = ["usb"]

[adapters.power]
enabled = false
poll_interval_secs = 5

[adapters.network]
enabled = false

[adapters.bluetooth]
enabled = false

[events]
dedup_window_ms = 250

[notifications]
default_timeout_ms = 1000
default_urgency = "critical"
notify_send_path = "/usr/local/bin/notify-send"
"#;
    let cfg: Config = parse(raw).unwrap();
    assert_eq!(cfg.daemon.log_level, "debug");
    assert_eq!(cfg.daemon.socket_path, "/tmp/custom.sock");
    assert_eq!(cfg.lua.entry_point, "/abs/init.lua");
    assert_eq!(cfg.lua.module_dir, "/abs/mods");
    assert!(!cfg.modules.builtin);
    assert_eq!(cfg.modules.disable, vec!["foo", "bar"]);
    assert!(!cfg.adapters.hyprland.enabled);
    assert!(cfg.adapters.udev.enabled);
    assert_eq!(cfg.adapters.udev.subsystems, vec!["usb"]);
    assert!(!cfg.adapters.power.enabled);
    assert_eq!(cfg.adapters.power.poll_interval_secs, 5);
    assert!(!cfg.adapters.network.enabled);
    assert!(!cfg.adapters.bluetooth.enabled);
    assert_eq!(cfg.events.dedup_window_ms, 250);
    assert_eq!(cfg.notifications.default_timeout_ms, 1000);
    assert_eq!(cfg.notifications.default_urgency, "critical");
}

#[test]
fn parse_partial_toml_fills_missing_with_defaults() {
    let raw = r#"
[daemon]
log_level = "trace"
"#;
    let cfg: Config = parse(raw).unwrap();
    assert_eq!(cfg.daemon.log_level, "trace");
    // Untouched sections still get their defaults.
    assert!(cfg.adapters.hyprland.enabled);
    assert_eq!(cfg.events.dedup_window_ms, 100);
}

#[test]
fn invalid_toml_returns_error() {
    let result = parse("[daemon\nbroken");
    assert!(matches!(result, Err(ConfigError::Syntax(_))));
}

#[test]
fn socket_path_uses_explicit_path_verbatim() {
    let mut cfg = Config::default();
    cfg.daemon.socket_path = "/run/bread.sock".to_string();
    assert_eq!(cfg.socket_path(None, None), "/run/bread.sock");
}

#[test]
fn socket_path_expands_tilde_when_explicit() {
    let mut cfg = Config::default();
    cfg.daemon.socket_path = "~/sockets/bread.sock".to_string();
    assert_eq!(
        cfg.socket_path(None, Some("/synthetic/home")),
        "/synthetic/home/sockets/bread.sock"
    );
}

#[test]
fn socket_path_falls_back_to_xdg_runtime_dir() {
    let cfg = Config::default();
    assert_eq!(
        cfg.socket_path(Some("/tmp/xdg"), None),
        "/tmp/xdg/bread/breadd.sock"
    );
}

#[test]
fn socket_path_uses_tmp_when_no_xdg_runtime_dir() {
    let cfg = Config::default();
    assert_eq!(cfg.socket_path(None, None), "/tmp/bread/breadd.sock");
}

#[test]
fn lua_entry_point_and_module_path_expand_tilde() {
    let cfg = Config::default();
    assert_eq!(
        cfg.lua_entry_point(Some("/synthetic/home")),
        "/synthetic/home/.config/bread/init.lua"
    );
    assert_eq!(
        cfg.lua_module_path(Some("/synthetic/home")),
        "/synthetic/home/.config/bread/modules"
    );
}

#[test]
fn lua_entry_point_returns_absolute_path_unchanged() {
    let mut cfg = Config::default();
    cfg.lua.entry_point = "/etc/bread/init.lua".to_string();
    assert_eq!(cfg.lua_entry_point(None), "/etc/bread/init.lua");
}

#[test]
fn expand_home_handles_missing_home_env() {
    // Without a home directory, paths below it stay as they are.
    assert_eq!(expand_home("~/foo", None), "~/foo");
    // Other paths are unchanged regardless.
    assert_eq!(expand_home("/abs/path", None), "/abs/path");
}

#[test]
fn config_path_respects_xdg_config_home() {
    assert_eq!(
        config_path(Some("/synthetic/xdg-config"), None),
        "/synthetic/xdg-config/bread/breadd.toml"
    );
}

#[test]
fn config_path_falls_back_to_home_when_no_xdg() {
    assert_eq!(
        config_path(None, Some("/synthetic/home")),
        "/synthetic/home/.config/bread/breadd.toml"
    );
}

#[test]
fn rules_file_lies_beside_the_settings() {
    assert_eq!(
        rules_path(Some("/synthetic/xdg-config"), None),
        "/synthetic/xdg-config/bread/rules.toml"
    );
}

#[test]
fn settings_of_the_wrong_kind_are_refused() {
    assert!(matches!(
        parse("[daemon]\nlog_level = 3\n"),
        Err(ConfigError::Shape(e)) if e == "no settings"
    ));
    assert!(matches!(
        parse("[adapters.power]\npoll_interval_secs = -1\n"),
        Err(ConfigError::Shape(e)) if e == "no settings"
    ));
    assert!(matches!(
        parse("[modules]\ndisable = [\"a\", 1]\n"),
        Err(ConfigError::Shape(e)) if e == "no settings"
    ));
    assert!(matches!(
        parse("daemon = 3\n"),
        Err(ConfigError::Shape(e)) if e == "no settings"
    ));
}

#[test]
fn negative_timeouts_and_unknown_keys_are_accepted() {
    let cfg = parse("[notifications]\ndefault_timeout_ms = -1\nextra = 1.5\n").unwrap();
    assert_eq!(cfg.notifications.default_timeout_ms, -1);
}

#[test]
fn sections_can_be_given_in_order() {
    let cfg = parse("daemon = [\"debug\"]\n").unwrap();
    assert_eq!(cfg.daemon.log_level, "debug");
    assert!(cfg.daemon.socket_path.is_empty());
}

#[test]
fn load_uses_defaults_without_a_file_and_tells_of_unreadable_ones() {
    let cfg = load(None).unwrap();
    assert_eq!(cfg.daemon.log_level, "info");
    assert!(cfg.compat.legacy_hyprland_event_names);
    match load(Some(Err("no permission".to_string()))) {
        Err(ConfigError::Read(e)) => assert_eq!(e, "no permission"),
        other => panic!("unexpected {other:?}"),
    }
    let cfg = load(Some(Ok(
        "[compat]\nlegacy_hyprland_event_names = false\n".to_string()
    )))
    .unwrap();
    assert!(!cfg.compat.legacy_hyprland_event_names);
}
