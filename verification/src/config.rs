//! The settings of the daemon.

use crate::paths;
use crate::text;
use vstd::prelude::*;

verus! {

/// All the settings.
#[derive(Debug)]
pub struct Config {
    pub daemon: DaemonConfig,
    pub lua: LuaConfig,
    pub modules: ModulesConfig,
    pub adapters: AdaptersConfig,
    pub notifications: NotificationsConfig,
    pub events: EventsConfig,
    pub compat: CompatConfig,
}

/// Settings of the daemon itself.
#[derive(Debug)]
pub struct DaemonConfig {
    pub log_level: String,
    pub socket_path: String,
}

/// Where the Lua programs are.
#[derive(Debug)]
pub struct LuaConfig {
    pub entry_point: String,
    pub module_dir: String,
}

/// Which modules are used.
#[derive(Debug)]
pub struct ModulesConfig {
    pub builtin: bool,
    pub disable: Vec<String>,
}

/// Which adapters are used, and how.
#[derive(Debug)]
pub struct AdaptersConfig {
    pub hyprland: AdapterToggle,
    pub udev: UdevConfig,
    pub power: PowerConfig,
    pub network: AdapterToggle,
    pub bluetooth: AdapterToggle,
}

/// Whether an adapter is used.
#[derive(Debug, Clone, Copy)]
pub struct AdapterToggle {
    pub enabled: bool,
}

/// Settings of the udev adapter.
#[derive(Debug)]
pub struct UdevConfig {
    pub enabled: bool,
    pub subsystems: Vec<String>,
}

/// Settings of the power adapter.
#[derive(Debug, Clone, Copy)]
pub struct PowerConfig {
    pub enabled: bool,
    pub poll_interval_secs: u64,
}

/// Settings for events.
#[derive(Debug, Clone, Copy)]
pub struct EventsConfig {
    pub dedup_window_ms: u64,
}

/// Settings for what is on its way out.
#[derive(Debug, Clone, Copy)]
pub struct CompatConfig {
    /// Hyprland events are told under their flat names too.
    pub legacy_hyprland_event_names: bool,
}

/// Settings for desktop notifications.
#[derive(Debug)]
pub struct NotificationsConfig {
    pub default_timeout_ms: i64,
    pub default_urgency: String,
    pub notify_send_path: String,
}

/// The log level where none is set.
pub fn default_log_level() -> (r: String)
    ensures
        r@ == "info"@,
{
    "info".to_owned()
}

/// The first Lua program where none is set.
pub fn default_lua_entry() -> (r: String)
    ensures
        r@ == "~/.config/bread/init.lua"@,
{
    "~/.config/bread/init.lua".to_owned()
}

/// The modules' directory where none is set.
pub fn default_lua_modules() -> (r: String)
    ensures
        r@ == "~/.config/bread/modules"@,
{
    "~/.config/bread/modules".to_owned()
}

/// What is on unless it is switched off.
pub fn default_true() -> (r: bool)
    ensures
        r,
{
    true
}

/// The seconds between looks at the power supply where none are set.
pub fn default_poll_interval() -> (r: u64)
    ensures
        r == 30,
{
    30
}

/// The window, in milliseconds, within which repeated events are dropped.
pub fn default_dedup_window() -> (r: u64)
    ensures
        r == 100,
{
    100
}

/// How long, in milliseconds, a notification is shown.
pub fn default_notify_timeout() -> (r: i64)
    ensures
        r == 3000,
{
    3000
}

/// The urgency of a notification where none is given.
pub fn default_notify_urgency() -> (r: String)
    ensures
        r@ == "normal"@,
{
    "normal".to_owned()
}

/// The program that shows notifications.
pub fn default_notify_path() -> (r: String)
    ensures
        r@ == "notify-send"@,
{
    "notify-send".to_owned()
}

/// The kinds of devices that udev reports on.
pub fn default_udev_subsystems() -> (r: Vec<String>)
    ensures
        r.deep_view() == seq!["usb"@, "input"@, "drm"@, "power_supply"@],
{
    let mut r: Vec<String> = Vec::new();
    r.push("usb".to_owned());
    r.push("input".to_owned());
    r.push("drm".to_owned());
    r.push("power_supply".to_owned());
    assert(r.deep_view() =~= seq!["usb"@, "input"@, "drm"@, "power_supply"@]);
    r
}

impl Default for DaemonConfig {
    fn default() -> (r: Self)
        ensures
            r.log_level@ == "info"@,
            r.socket_path@ == Seq::<char>::empty(),
    {
        DaemonConfig { log_level: default_log_level(), socket_path: String::new() }
    }
}

impl Default for LuaConfig {
    fn default() -> (r: Self)
        ensures
            r.entry_point@ == "~/.config/bread/init.lua"@,
            r.module_dir@ == "~/.config/bread/modules"@,
    {
        LuaConfig { entry_point: default_lua_entry(), module_dir: default_lua_modules() }
    }
}

impl Default for ModulesConfig {
    fn default() -> (r: Self)
        ensures
            r.builtin,
            r.disable@.len() == 0,
    {
        ModulesConfig { builtin: default_true(), disable: Vec::new() }
    }
}

impl Default for AdapterToggle {
    fn default() -> (r: Self)
        ensures
            r.enabled,
    {
        AdapterToggle { enabled: default_true() }
    }
}

impl Default for UdevConfig {
    fn default() -> (r: Self)
        ensures
            r.enabled,
            r.subsystems.deep_view() == seq!["usb"@, "input"@, "drm"@, "power_supply"@],
    {
        UdevConfig { enabled: default_true(), subsystems: default_udev_subsystems() }
    }
}

impl Default for PowerConfig {
    fn default() -> (r: Self)
        ensures
            r.enabled,
            r.poll_interval_secs == 30,
    {
        PowerConfig { enabled: default_true(), poll_interval_secs: default_poll_interval() }
    }
}

impl Default for AdaptersConfig {
    fn default() -> (r: Self)
        ensures
            r.hyprland.enabled,
            r.udev.enabled,
            r.udev.subsystems.deep_view() == seq!["usb"@, "input"@, "drm"@, "power_supply"@],
            r.power.enabled,
            r.power.poll_interval_secs == 30,
            r.network.enabled,
            r.bluetooth.enabled,
    {
        AdaptersConfig {
            hyprland: AdapterToggle::default(),
            udev: UdevConfig::default(),
            power: PowerConfig::default(),
            network: AdapterToggle::default(),
            bluetooth: AdapterToggle::default(),
        }
    }
}

impl Default for EventsConfig {
    fn default() -> (r: Self)
        ensures
            r.dedup_window_ms == 100,
    {
        EventsConfig { dedup_window_ms: default_dedup_window() }
    }
}

impl Default for CompatConfig {
    fn default() -> (r: Self)
        ensures
            r.legacy_hyprland_event_names,
    {
        CompatConfig { legacy_hyprland_event_names: default_true() }
    }
}

impl Default for NotificationsConfig {
    fn default() -> (r: Self)
        ensures
            r.default_timeout_ms == 3000,
            r.default_urgency@ == "normal"@,
            r.notify_send_path@ == "notify-send"@,
    {
        NotificationsConfig {
            default_timeout_ms: default_notify_timeout(),
            default_urgency: default_notify_urgency(),
            notify_send_path: default_notify_path(),
        }
    }
}

impl Default for Config {
    fn default() -> (r: Self)
        ensures
            r.daemon.log_level@ == "info"@,
            r.daemon.socket_path@ == Seq::<char>::empty(),
            r.lua.entry_point@ == "~/.config/bread/init.lua"@,
            r.lua.module_dir@ == "~/.config/bread/modules"@,
            r.modules.builtin,
            r.modules.disable@.len() == 0,
            r.adapters.hyprland.enabled,
            r.adapters.udev.enabled,
            r.adapters.udev.subsystems.deep_view() == seq![
                "usb"@,
                "input"@,
                "drm"@,
                "power_supply"@,
            ],
            r.adapters.power.enabled,
            r.adapters.power.poll_interval_secs == 30,
            r.adapters.network.enabled,
            r.adapters.bluetooth.enabled,
            r.notifications.default_timeout_ms == 3000,
            r.notifications.default_urgency@ == "normal"@,
            r.notifications.notify_send_path@ == "notify-send"@,
            r.events.dedup_window_ms == 100,
            r.compat.legacy_hyprland_event_names,
    {
        Config {
            daemon: DaemonConfig::default(),
            lua: LuaConfig::default(),
            modules: ModulesConfig::default(),
            adapters: AdaptersConfig::default(),
            notifications: NotificationsConfig::default(),
            events: EventsConfig::default(),
            compat: CompatConfig::default(),
        }
    }
}

/// A path below the home directory, where it begins with `~/` and there is a
/// home directory; any other path as it is.
pub open spec fn home_expanded(input: Seq<char>, home: Option<Seq<char>>) -> Seq<char> {
    match home {
        Some(home) if text::has_prefix(input, "~/"@) => paths::joined(
            home,
            input.subrange(2, input.len() as int),
        ),
        _ => input,
    }
}

/// The path with a leading `~/` standing for the home directory.
pub fn expand_home(input: &str, home: Option<&str>) -> (r: String)
    ensures
        r@ == home_expanded(input@, home.deep_view()),
{
    proof {
        reveal_strlit("~/");
    }
    match (text::strip_prefix(input, "~/"), home) {
        (Some(rest), Some(home)) => paths::join(home, rest),
        _ => input.to_owned(),
    }
}

/// A path below the home directory, where it is `~` or begins with `~/` and
/// there is a home directory; any other path as it is.
pub open spec fn tilde_expanded(input: Seq<char>, home: Option<Seq<char>>) -> Seq<char> {
    match home {
        Some(home) if input == "~"@ => home,
        _ => home_expanded(input, home),
    }
}

/// The path with a leading `~` standing for the home directory.
pub fn lua_expand_path(path: &str, home: Option<&str>) -> (r: String)
    ensures
        r@ == tilde_expanded(path@, home.deep_view()),
{
    match home {
        Some(home) if text::same(path, "~") => home.to_owned(),
        _ => expand_home(path, home),
    }
}

/// A file of the daemon's among the user's configuration files.
pub open spec fn config_file(
    name: Seq<char>,
    xdg_config_home: Option<Seq<char>>,
    home: Option<Seq<char>>,
) -> Seq<char> {
    match xdg_config_home {
        Some(xdg) => paths::joined(paths::joined(xdg, "bread"@), name),
        None => home_expanded("~/.config/bread/"@ + name, home),
    }
}

/// Where the settings are.
pub fn config_path(xdg_config_home: Option<&str>, home: Option<&str>) -> (r: String)
    ensures
        r@ == config_file("breadd.toml"@, xdg_config_home.deep_view(), home.deep_view()),
{
    match xdg_config_home {
        Some(xdg) => paths::join(paths::join(xdg, "bread").as_str(), "breadd.toml"),
        None => expand_home(text::concat("~/.config/bread/", "breadd.toml").as_str(), home),
    }
}

/// Where the rules file is.
pub fn rules_path(xdg_config_home: Option<&str>, home: Option<&str>) -> (r: String)
    ensures
        r@ == config_file("rules.toml"@, xdg_config_home.deep_view(), home.deep_view()),
{
    match xdg_config_home {
        Some(xdg) => paths::join(paths::join(xdg, "bread").as_str(), "rules.toml"),
        None => expand_home(text::concat("~/.config/bread/", "rules.toml").as_str(), home),
    }
}

/// Where the daemon listens.
pub open spec fn socket_at(
    configured: Seq<char>,
    runtime_dir: Option<Seq<char>>,
    home: Option<Seq<char>>,
) -> Seq<char> {
    if configured.len() > 0 {
        home_expanded(configured, home)
    } else {
        let dir = match runtime_dir {
            Some(dir) => dir,
            None => "/tmp"@,
        };
        paths::joined(paths::joined(dir, "bread"@), "breadd.sock"@)
    }
}

impl Config {
    /// Where the daemon listens: where the settings say, or else in the
    /// directory for sockets.
    pub fn socket_path(&self, runtime_dir: Option<&str>, home: Option<&str>) -> (r: String)
        ensures
            r@ == socket_at(self.daemon.socket_path@, runtime_dir.deep_view(), home.deep_view()),
    {
        if !self.daemon.socket_path.as_str().is_empty() {
            return expand_home(self.daemon.socket_path.as_str(), home);
        }
        let dir = match runtime_dir {
            Some(dir) => dir,
            None => "/tmp",
        };
        paths::join(paths::join(dir, "bread").as_str(), "breadd.sock")
    }

    /// The first Lua program.
    pub fn lua_entry_point(&self, home: Option<&str>) -> (r: String)
        ensures
            r@ == home_expanded(self.lua.entry_point@, home.deep_view()),
    {
        expand_home(self.lua.entry_point.as_str(), home)
    }

    /// The modules' directory.
    pub fn lua_module_path(&self, home: Option<&str>) -> (r: String)
        ensures
            r@ == home_expanded(self.lua.module_dir@, home.deep_view()),
    {
        expand_home(self.lua.module_dir.as_str(), home)
    }
}

/// A home directory stands for the `~` at the start of a path; other paths, and all
/// where no home directory is known, stay as they are.
pub proof fn law_home_stands_for_the_tilde(rest: Seq<char>, path: Seq<char>, dir: Seq<char>)
    ensures
        home_expanded("~/"@ + rest, Some(dir)) == paths::joined(dir, rest),
        tilde_expanded("~/"@ + rest, Some(dir)) == paths::joined(dir, rest),
        tilde_expanded("~"@, Some(dir)) == dir,
        home_expanded("~"@, Some(dir)) == "~"@,
        home_expanded(path, None) == path,
        tilde_expanded(path, None) == path,
        path.len() > 0 && path[0] != '~' ==> home_expanded(path, Some(dir)) == path
            && tilde_expanded(path, Some(dir)) == path,
{
    reveal_strlit("~/");
    reveal_strlit("~");
    let whole = "~/"@ + rest;
    assert(whole.subrange(2, whole.len() as int) =~= rest);
    assert(whole.subrange(0, 2) =~= "~/"@);
    assert("~"@.len() == 1);
    assert("~/"@.len() == 2);
    assert(whole.len() >= 2);
    assert("~"@[0] == '~' && "~/"@[0] == '~');
}

/// The files of the daemon stand in the directory `bread` of the directory that the
/// session names for configuration files, and otherwise below `.config` in the home
/// directory.
pub proof fn law_files_stand_among_the_configuration_files(
    name: Seq<char>,
    xdg: Seq<char>,
    dir: Seq<char>,
    home: Option<Seq<char>>,
)
    ensures
        config_file(name, Some(xdg), home) == paths::joined(paths::joined(xdg, "bread"@), name),
        config_file(name, None, Some(dir)) == paths::joined(dir, ".config/bread/"@ + name),
        config_file(name, None, None) == "~/.config/bread/"@ + name,
{
    law_home_stands_for_the_tilde(".config/bread/"@ + name, "~/.config/bread/"@ + name, dir);
    reveal_strlit("~/.config/bread/");
    reveal_strlit("~/");
    reveal_strlit(".config/bread/");
    assert("~/.config/bread/"@ + name =~= "~/"@ + (".config/bread/"@ + name));
}

/// The socket is where the settings say, and otherwise `bread/breadd.sock` in the
/// runtime directory, or in `/tmp` where there is none.
pub proof fn law_socket_has_its_place(
    configured: Seq<char>,
    runtime: Seq<char>,
    runtime_dir: Option<Seq<char>>,
    home: Option<Seq<char>>,
)
    ensures
        configured.len() > 0 && configured[0] != '~' ==>
            socket_at(configured, runtime_dir, home) == configured,
        socket_at(Seq::empty(), Some(runtime), home) == paths::joined(paths::joined(runtime,
            "bread"@), "breadd.sock"@),
        socket_at(Seq::empty(), None, home) == paths::joined(paths::joined("/tmp"@, "bread"@),
            "breadd.sock"@),
{
    if home is Some {
        law_home_stands_for_the_tilde(Seq::empty(), configured, home->0);
    }
}

} // verus!
