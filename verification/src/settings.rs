//! The settings as the configuration file gives them.

use crate::config::{
    self, AdapterToggle, AdaptersConfig, CompatConfig, Config, DaemonConfig, EventsConfig,
    LuaConfig, ModulesConfig, NotificationsConfig, PowerConfig, UdevConfig,
};
use crate::json::{self, Json, JsonValue, Numeral};
use crate::wire;
use vstd::prelude::*;

verus! {

/// What the settings stand for.
#[verifier::ext_equal]
pub struct ConfigView {
    pub log_level: Seq<char>,
    pub socket_path: Seq<char>,
    pub entry_point: Seq<char>,
    pub module_dir: Seq<char>,
    pub builtin: bool,
    pub disable: Seq<Seq<char>>,
    pub hyprland: bool,
    pub udev: bool,
    pub subsystems: Seq<Seq<char>>,
    pub power: bool,
    pub poll_interval_secs: u64,
    pub network: bool,
    pub bluetooth: bool,
    pub default_timeout_ms: i64,
    pub default_urgency: Seq<char>,
    pub notify_send_path: Seq<char>,
    pub dedup_window_ms: u64,
    pub legacy_names: bool,
}

impl View for Config {
    type V = ConfigView;

    open spec fn view(&self) -> ConfigView {
        ConfigView {
            log_level: self.daemon.log_level@,
            socket_path: self.daemon.socket_path@,
            entry_point: self.lua.entry_point@,
            module_dir: self.lua.module_dir@,
            builtin: self.modules.builtin,
            disable: self.modules.disable.deep_view(),
            hyprland: self.adapters.hyprland.enabled,
            udev: self.adapters.udev.enabled,
            subsystems: self.adapters.udev.subsystems.deep_view(),
            power: self.adapters.power.enabled,
            poll_interval_secs: self.adapters.power.poll_interval_secs,
            network: self.adapters.network.enabled,
            bluetooth: self.adapters.bluetooth.enabled,
            default_timeout_ms: self.notifications.default_timeout_ms,
            default_urgency: self.notifications.default_urgency@,
            notify_send_path: self.notifications.notify_send_path@,
            dedup_window_ms: self.events.dedup_window_ms,
            legacy_names: self.compat.legacy_hyprland_event_names,
        }
    }
}

/// The settings where nothing is set.
pub open spec fn defaults() -> ConfigView {
    ConfigView {
        log_level: "info"@,
        socket_path: Seq::empty(),
        entry_point: "~/.config/bread/init.lua"@,
        module_dir: "~/.config/bread/modules"@,
        builtin: true,
        disable: Seq::empty(),
        hyprland: true,
        udev: true,
        subsystems: seq!["usb"@, "input"@, "drm"@, "power_supply"@],
        power: true,
        poll_interval_secs: 30,
        network: true,
        bluetooth: true,
        default_timeout_ms: 3000,
        default_urgency: "normal"@,
        notify_send_path: "notify-send"@,
        dedup_window_ms: 100,
        legacy_names: true,
    }
}

/// A part of a section, which gives its parts by name or in order.
pub open spec fn part(section: Json, key: Seq<char>, place: int) -> Option<Json> {
    match section {
        Json::Array(items) => if 0 <= place < items.len() {
            Some(items[place])
        } else {
            None
        },
        _ => section.get(key),
    }
}

fn find_part<'a>(section: &'a JsonValue, key: &str, place: usize) -> (r: Option<&'a JsonValue>)
    ensures
        match r {
            Some(v) => part(section@, key@, place as int) == Some(v@),
            None => part(section@, key@, place as int) is None,
        },
{
    match section {
        JsonValue::Array(items) => {
            proof {
                json::lemma_item_models(items@);
            }
            if place < items.len() {
                Some(&items[place])
            } else {
                None
            }
        },
        _ => section.get(key),
    }
}

/// A section of the settings; one that is left out is empty.
pub open spec fn section_of(v: Json, key: Seq<char>, place: int) -> Option<Json> {
    match part(v, key, place) {
        None => Some(Json::empty()),
        Some(s) => if s is Object || s is Array {
            Some(s)
        } else {
            None
        },
    }
}

fn find_section(v: &JsonValue, key: &str, place: usize) -> (r: Option<JsonValue>)
    ensures
        r.deep_view() == section_of(v@, key@, place as int),
{
    match find_part(v, key, place) {
        None => Some(JsonValue::empty()),
        Some(s) => match s {
            JsonValue::Object(_) => Some(s.duplicate()),
            JsonValue::Array(_) => Some(s.duplicate()),
            _ => None,
        },
    }
}

/// A text among the settings.
pub open spec fn text_setting(
    section: Json,
    key: Seq<char>,
    place: int,
    default: Seq<char>,
) -> Option<Seq<char>> {
    match part(section, key, place) {
        None => Some(default),
        Some(Json::Text(s)) => Some(s),
        _ => None,
    }
}

fn read_text(section: &JsonValue, key: &str, place: usize, default: String) -> (r: Option<String>)
    ensures
        r.deep_view() == text_setting(section@, key@, place as int, default@),
{
    match find_part(section, key, place) {
        None => Some(default),
        Some(JsonValue::Text(s)) => Some(s.clone()),
        _ => None,
    }
}

/// Something among the settings that is on or off.
pub open spec fn flag_setting(section: Json, key: Seq<char>, place: int, default: bool) -> Option<
    bool,
> {
    match part(section, key, place) {
        None => Some(default),
        Some(Json::Bool(b)) => Some(b),
        _ => None,
    }
}

fn read_flag(section: &JsonValue, key: &str, place: usize, default: bool) -> (r: Option<bool>)
    ensures
        r == flag_setting(section@, key@, place as int, default),
{
    match find_part(section, key, place) {
        None => Some(default),
        Some(JsonValue::Bool(b)) => Some(*b),
        _ => None,
    }
}

/// A number among the settings that is not negative.
pub open spec fn count_setting(section: Json, key: Seq<char>, place: int, default: u64) -> Option<
    u64,
> {
    match part(section, key, place) {
        None => Some(default),
        Some(Json::Num(Numeral::PosInt(n))) => Some(n),
        _ => None,
    }
}

fn read_count(section: &JsonValue, key: &str, place: usize, default: u64) -> (r: Option<u64>)
    ensures
        r == count_setting(section@, key@, place as int, default),
{
    match find_part(section, key, place) {
        None => Some(default),
        Some(JsonValue::Num(n)) => n.as_u64(),
        _ => None,
    }
}

/// A number among the settings.
pub open spec fn number_setting(section: Json, key: Seq<char>, place: int, default: i64) -> Option<
    i64,
> {
    match part(section, key, place) {
        None => Some(default),
        Some(Json::Num(Numeral::PosInt(n))) => if n <= i64::MAX {
            Some(n as i64)
        } else {
            None
        },
        Some(Json::Num(Numeral::NegInt(n))) => Some(n),
        _ => None,
    }
}

fn read_number(section: &JsonValue, key: &str, place: usize, default: i64) -> (r: Option<i64>)
    ensures
        r == number_setting(section@, key@, place as int, default),
{
    match find_part(section, key, place) {
        None => Some(default),
        Some(JsonValue::Num(n)) => n.as_i64(),
        _ => None,
    }
}

/// The texts of a list, where it holds nothing else.
pub open spec fn all_texts(items: Seq<Json>) -> Option<Seq<Seq<char>>>
    decreases items.len(),
{
    if items.len() == 0 {
        Some(Seq::empty())
    } else {
        match (all_texts(items.drop_last()), items.last()) {
            (Some(rest), Json::Text(s)) => Some(rest.push(s)),
            _ => None,
        }
    }
}

proof fn lemma_not_all_texts(items: Seq<Json>, k: int)
    requires
        0 <= k < items.len(),
        !(items[k] is Text),
    ensures
        all_texts(items) is None,
    decreases items.len(),
{
    if k < items.len() - 1 {
        lemma_not_all_texts(items.drop_last(), k);
    }
}

/// A list of texts among the settings.
pub open spec fn texts_setting(
    section: Json,
    key: Seq<char>,
    place: int,
    default: Seq<Seq<char>>,
) -> Option<Seq<Seq<char>>> {
    match part(section, key, place) {
        None => Some(default),
        Some(Json::Array(items)) => all_texts(items),
        _ => None,
    }
}

fn collect_texts(items: &Vec<JsonValue>) -> (r: Option<Vec<String>>)
    ensures
        r.deep_view() == all_texts(json::item_models(items@)),
{
    let ghost all = json::item_models(items@);
    let mut r: Vec<String> = Vec::new();
    let mut i: usize = 0;
    proof {
        json::lemma_item_models(items@);
        assert(all.take(0) =~= Seq::empty());
        assert(r.deep_view() =~= Seq::empty());
    }
    while i < items.len()
        invariant
            i <= items.len(),
            items.len() == all.len(),
            all == json::item_models(items@),
            all_texts(all.take(i as int)) == Some(r.deep_view()),
        decreases items.len() - i,
    {
        let ghost before = r.deep_view();
        proof {
            json::lemma_item_models(items@);
            assert(all.take(i + 1).drop_last() =~= all.take(i as int));
            assert(all.take(i + 1).last() == items@[i as int]@);
        }
        match items[i].as_str() {
            Some(s) => {
                r.push(s.to_owned());
                assert(r.deep_view() =~= before.push(s@));
            },
            None => {
                proof {
                    lemma_not_all_texts(all, i as int);
                }
                return None;
            },
        }
        i += 1;
    }
    assert(all.take(all.len() as int) =~= all);
    Some(r)
}

fn read_texts(section: &JsonValue, key: &str, place: usize, default: Vec<String>) -> (r: Option<
    Vec<String>,
>)
    ensures
        r.deep_view() == texts_setting(section@, key@, place as int, default.deep_view()),
{
    match find_part(section, key, place) {
        None => Some(default),
        Some(JsonValue::Array(items)) => collect_texts(items),
        _ => None,
    }
}

/// The settings of the daemon itself: the log level and the socket.
pub open spec fn daemon_of(v: Json) -> Option<(Seq<char>, Seq<char>)> {
    match section_of(v, "daemon"@, 0) {
        None => None,
        Some(s) => match (
            text_setting(s, "log_level"@, 0, "info"@),
            text_setting(s, "socket_path"@, 1, Seq::empty()),
        ) {
            (Some(a), Some(b)) => Some((a, b)),
            _ => None,
        },
    }
}

fn read_daemon(v: &JsonValue) -> (r: Option<DaemonConfig>)
    ensures
        match r {
            Some(c) => daemon_of(v@) == Some((c.log_level@, c.socket_path@)),
            None => daemon_of(v@) is None,
        },
{
    match find_section(v, "daemon", 0) {
        None => None,
        Some(s) => {
            let none = String::new();
            assert(none@ =~= Seq::empty());
            match (
                read_text(&s, "log_level", 0, config::default_log_level()),
                read_text(&s, "socket_path", 1, none),
            ) {
                (Some(log_level), Some(socket_path)) => Some(
                    DaemonConfig { log_level, socket_path },
                ),
                _ => None,
            }
        },
    }
}

/// Where the Lua programs are: the first one, and the modules.
pub open spec fn lua_of(v: Json) -> Option<(Seq<char>, Seq<char>)> {
    match section_of(v, "lua"@, 1) {
        None => None,
        Some(s) => match (
            text_setting(s, "entry_point"@, 0, "~/.config/bread/init.lua"@),
            text_setting(s, "module_path"@, 1, "~/.config/bread/modules"@),
        ) {
            (Some(a), Some(b)) => Some((a, b)),
            _ => None,
        },
    }
}

fn read_lua(v: &JsonValue) -> (r: Option<LuaConfig>)
    ensures
        match r {
            Some(c) => lua_of(v@) == Some((c.entry_point@, c.module_dir@)),
            None => lua_of(v@) is None,
        },
{
    match find_section(v, "lua", 1) {
        None => None,
        Some(s) => {
            match (
                read_text(&s, "entry_point", 0, config::default_lua_entry()),
                read_text(&s, "module_path", 1, config::default_lua_modules()),
            ) {
                (Some(entry_point), Some(module_dir)) => Some(
                    LuaConfig { entry_point, module_dir },
                ),
                _ => None,
            }
        },
    }
}

/// Which modules are used: whether the built-in ones, and which are not.
pub open spec fn modules_of(v: Json) -> Option<(bool, Seq<Seq<char>>)> {
    match section_of(v, "modules"@, 2) {
        None => None,
        Some(s) => match (
            flag_setting(s, "builtin"@, 0, true),
            texts_setting(s, "disable"@, 1, Seq::empty()),
        ) {
            (Some(a), Some(b)) => Some((a, b)),
            _ => None,
        },
    }
}

fn read_modules(v: &JsonValue) -> (r: Option<ModulesConfig>)
    ensures
        match r {
            Some(c) => modules_of(v@) == Some((c.builtin, c.disable.deep_view())),
            None => modules_of(v@) is None,
        },
{
    match find_section(v, "modules", 2) {
        None => None,
        Some(s) => {
            let none: Vec<String> = Vec::new();
            assert(none.deep_view() =~= Seq::empty());
            match (
                read_flag(&s, "builtin", 0, config::default_true()),
                read_texts(&s, "disable", 1, none),
            ) {
                (Some(builtin), Some(disable)) => Some(ModulesConfig { builtin, disable }),
                _ => None,
            }
        },
    }
}

/// Whether an adapter is used.
pub open spec fn toggle_of(v: Json, key: Seq<char>, place: int) -> Option<bool> {
    match section_of(v, key, place) {
        None => None,
        Some(s) => flag_setting(s, "enabled"@, 0, true),
    }
}

fn read_toggle(v: &JsonValue, key: &str, place: usize) -> (r: Option<AdapterToggle>)
    ensures
        match r {
            Some(t) => toggle_of(v@, key@, place as int) == Some(t.enabled),
            None => toggle_of(v@, key@, place as int) is None,
        },
{
    match find_section(v, key, place) {
        None => None,
        Some(s) => match read_flag(&s, "enabled", 0, config::default_true()) {
            Some(enabled) => Some(AdapterToggle { enabled }),
            None => None,
        },
    }
}

/// The settings of the udev adapter.
pub open spec fn udev_of(v: Json) -> Option<(bool, Seq<Seq<char>>)> {
    match section_of(v, "udev"@, 1) {
        None => None,
        Some(s) => match (
            flag_setting(s, "enabled"@, 0, true),
            texts_setting(s, "subsystems"@, 1, seq!["usb"@, "input"@, "drm"@, "power_supply"@]),
        ) {
            (Some(a), Some(b)) => Some((a, b)),
            _ => None,
        },
    }
}

fn read_udev(v: &JsonValue) -> (r: Option<UdevConfig>)
    ensures
        match r {
            Some(c) => udev_of(v@) == Some((c.enabled, c.subsystems.deep_view())),
            None => udev_of(v@) is None,
        },
{
    match find_section(v, "udev", 1) {
        None => None,
        Some(s) => match (
            read_flag(&s, "enabled", 0, config::default_true()),
            read_texts(&s, "subsystems", 1, config::default_udev_subsystems()),
        ) {
            (Some(enabled), Some(subsystems)) => Some(UdevConfig { enabled, subsystems }),
            _ => None,
        },
    }
}

/// The settings of the power adapter.
pub open spec fn power_of(v: Json) -> Option<(bool, u64)> {
    match section_of(v, "power"@, 2) {
        None => None,
        Some(s) => match (
            flag_setting(s, "enabled"@, 0, true),
            count_setting(s, "poll_interval_secs"@, 1, 30),
        ) {
            (Some(a), Some(b)) => Some((a, b)),
            _ => None,
        },
    }
}

fn read_power(v: &JsonValue) -> (r: Option<PowerConfig>)
    ensures
        match r {
            Some(c) => power_of(v@) == Some((c.enabled, c.poll_interval_secs)),
            None => power_of(v@) is None,
        },
{
    match find_section(v, "power", 2) {
        None => None,
        Some(s) => match (
            read_flag(&s, "enabled", 0, config::default_true()),
            read_count(&s, "poll_interval_secs", 1, config::default_poll_interval()),
        ) {
            (Some(enabled), Some(poll_interval_secs)) => Some(
                PowerConfig { enabled, poll_interval_secs },
            ),
            _ => None,
        },
    }
}

/// The adapters among the settings.
pub open spec fn adapters_of(v: Json) -> Option<
    (bool, (bool, Seq<Seq<char>>), (bool, u64), bool, bool),
> {
    match section_of(v, "adapters"@, 3) {
        None => None,
        Some(s) => match (
            toggle_of(s, "hyprland"@, 0),
            udev_of(s),
            power_of(s),
            toggle_of(s, "network"@, 3),
            toggle_of(s, "bluetooth"@, 4),
        ) {
            (Some(h), Some(u), Some(p), Some(n), Some(b)) => Some((h, u, p, n, b)),
            _ => None,
        },
    }
}

fn read_adapters(v: &JsonValue) -> (r: Option<AdaptersConfig>)
    ensures
        match r {
            Some(c) => adapters_of(v@) == Some(
                (
                    c.hyprland.enabled,
                    (c.udev.enabled, c.udev.subsystems.deep_view()),
                    (c.power.enabled, c.power.poll_interval_secs),
                    c.network.enabled,
                    c.bluetooth.enabled,
                ),
            ),
            None => adapters_of(v@) is None,
        },
{
    match find_section(v, "adapters", 3) {
        None => None,
        Some(s) => match (
            read_toggle(&s, "hyprland", 0),
            read_udev(&s),
            read_power(&s),
            read_toggle(&s, "network", 3),
            read_toggle(&s, "bluetooth", 4),
        ) {
            (Some(hyprland), Some(udev), Some(power), Some(network), Some(bluetooth)) => Some(
                AdaptersConfig { hyprland, udev, power, network, bluetooth },
            ),
            _ => None,
        },
    }
}

/// The settings for notifications.
pub open spec fn notifications_of(v: Json) -> Option<(i64, Seq<char>, Seq<char>)> {
    match section_of(v, "notifications"@, 4) {
        None => None,
        Some(s) => match (
            number_setting(s, "default_timeout_ms"@, 0, 3000),
            text_setting(s, "default_urgency"@, 1, "normal"@),
            text_setting(s, "notify_send_path"@, 2, "notify-send"@),
        ) {
            (Some(a), Some(b), Some(c)) => Some((a, b, c)),
            _ => None,
        },
    }
}

fn read_notifications(v: &JsonValue) -> (r: Option<NotificationsConfig>)
    ensures
        match r {
            Some(c) => notifications_of(v@) == Some(
                (c.default_timeout_ms, c.default_urgency@, c.notify_send_path@),
            ),
            None => notifications_of(v@) is None,
        },
{
    match find_section(v, "notifications", 4) {
        None => None,
        Some(s) => match (
            read_number(&s, "default_timeout_ms", 0, config::default_notify_timeout()),
            read_text(&s, "default_urgency", 1, config::default_notify_urgency()),
            read_text(&s, "notify_send_path", 2, config::default_notify_path()),
        ) {
            (Some(default_timeout_ms), Some(default_urgency), Some(notify_send_path)) => Some(
                NotificationsConfig { default_timeout_ms, default_urgency, notify_send_path },
            ),
            _ => None,
        },
    }
}

/// The window within which repeated events are dropped.
pub open spec fn events_of(v: Json) -> Option<u64> {
    match section_of(v, "events"@, 5) {
        None => None,
        Some(s) => count_setting(s, "dedup_window_ms"@, 0, 100),
    }
}

fn read_events(v: &JsonValue) -> (r: Option<EventsConfig>)
    ensures
        match r {
            Some(c) => events_of(v@) == Some(c.dedup_window_ms),
            None => events_of(v@) is None,
        },
{
    match find_section(v, "events", 5) {
        None => None,
        Some(s) => match read_count(&s, "dedup_window_ms", 0, config::default_dedup_window()) {
            Some(dedup_window_ms) => Some(EventsConfig { dedup_window_ms }),
            None => None,
        },
    }
}

/// Whether Hyprland events are told under their flat names too.
pub open spec fn compat_of(v: Json) -> Option<bool> {
    match section_of(v, "compat"@, 6) {
        None => None,
        Some(s) => flag_setting(s, "legacy_hyprland_event_names"@, 0, true),
    }
}

fn read_compat(v: &JsonValue) -> (r: Option<CompatConfig>)
    ensures
        match r {
            Some(c) => compat_of(v@) == Some(c.legacy_hyprland_event_names),
            None => compat_of(v@) is None,
        },
{
    match find_section(v, "compat", 6) {
        None => None,
        Some(s) => match read_flag(&s, "legacy_hyprland_event_names", 0, config::default_true()) {
            Some(legacy_hyprland_event_names) => Some(
                CompatConfig { legacy_hyprland_event_names },
            ),
            None => None,
        },
    }
}

/// The settings that a value describes. What is left out has its default; what
/// is there must be of its kind.
pub open spec fn settings(v: Json) -> Option<ConfigView> {
    match (
        daemon_of(v),
        lua_of(v),
        modules_of(v),
        adapters_of(v),
        notifications_of(v),
        events_of(v),
        compat_of(v),
    ) {
        (Some(d), Some(l), Some(m), Some(a), Some(n), Some(e), Some(c)) => Some(
            ConfigView {
                log_level: d.0,
                socket_path: d.1,
                entry_point: l.0,
                module_dir: l.1,
                builtin: m.0,
                disable: m.1,
                hyprland: a.0,
                udev: a.1.0,
                subsystems: a.1.1,
                power: a.2.0,
                poll_interval_secs: a.2.1,
                network: a.3,
                bluetooth: a.4,
                default_timeout_ms: n.0,
                default_urgency: n.1,
                notify_send_path: n.2,
                dedup_window_ms: e,
                legacy_names: c,
            },
        ),
        _ => None,
    }
}

/// The settings that a value describes.
pub fn read_config(v: &JsonValue) -> (r: Option<Config>)
    ensures
        match r {
            Some(c) => settings(v@) == Some(c@),
            None => settings(v@) is None,
        },
{
    match (
        read_daemon(v),
        read_lua(v),
        read_modules(v),
        read_adapters(v),
        read_notifications(v),
        read_events(v),
        read_compat(v),
    ) {
        (
            Some(daemon),
            Some(lua),
            Some(modules),
            Some(adapters),
            Some(notifications),
            Some(events),
            Some(compat),
        ) => Some(Config { daemon, lua, modules, adapters, notifications, events, compat }),
        _ => None,
    }
}

/// Why there are no settings.
#[derive(Debug)]
pub enum ConfigError {
    /// The file cannot be read.
    Read(String),
    /// The file is no TOML document.
    Syntax(String),
    /// Something in the file is not of its kind, as the deserializer says.
    Shape(String),
}

impl Config {
    /// The settings in the text of a file. `misfit` is what the deserializer says
    /// of a document that is not one of settings; of any other it is not looked
    /// at.
    pub fn parse(content: &str, misfit: &str) -> (r: Result<Self, ConfigError>)
        ensures
            match wire::toml_parsed(content@) {
                Err(e) => r matches Err(ConfigError::Syntax(s)) && s@ == e,
                Ok(v) => match settings(v) {
                    None => r matches Err(ConfigError::Shape(s)) && s@ == misfit@,
                    Some(view) => r matches Ok(c) && c@ == view,
                },
            },
    {
        match wire::parse_toml(content) {
            Err(e) => Err(ConfigError::Syntax(e)),
            Ok(v) => match read_config(&v) {
                None => Err(ConfigError::Shape(misfit.to_owned())),
                Some(c) => Ok(c),
            },
        }
    }

    /// The settings by what reading the file gave: the defaults where there is no
    /// file. `misfit` is what the deserializer says of a document that is not one
    /// of settings.
    pub fn load(read: Option<Result<String, String>>, misfit: &str) -> (r: Result<
        Self,
        ConfigError,
    >)
        ensures
            match read {
                None => r matches Ok(c) && c@ == defaults(),
                Some(Err(e)) => r matches Err(ConfigError::Read(s)) && s@ == e@,
                Some(Ok(content)) => match wire::toml_parsed(content@) {
                    Err(e) => r matches Err(ConfigError::Syntax(s)) && s@ == e,
                    Ok(v) => match settings(v) {
                        None => r matches Err(ConfigError::Shape(s)) && s@ == misfit@,
                        Some(view) => r matches Ok(c) && c@ == view,
                    },
                },
            },
    {
        match read {
            None => {
                let c = Config::default();
                assert(c@.disable =~= Seq::empty());
                assert(c@ =~= defaults());
                Ok(c)
            },
            Some(Err(e)) => Err(ConfigError::Read(e)),
            Some(Ok(content)) => Config::parse(content.as_str(), misfit),
        }
    }
}

/// A file in which nothing is set gives the same settings as no file.
pub proof fn law_nothing_set_means_defaults()
    ensures
        settings(Json::empty()) == Some(defaults()),
{
    assert(settings(Json::empty())->0 =~= defaults());
}

/// What is said of one section says nothing of the others: a section that is
/// left out has its defaults, whatever else the file holds.
pub proof fn law_missing_sections_have_defaults(v: Json)
    requires
        v is Object,
    ensures
        v.get("daemon"@) is None ==> daemon_of(v) == Some(("info"@, Seq::<char>::empty())),
        v.get("lua"@) is None ==> lua_of(v) == Some(
            ("~/.config/bread/init.lua"@, "~/.config/bread/modules"@),
        ),
        v.get("modules"@) is None ==> modules_of(v) == Some((true, Seq::<Seq<char>>::empty())),
        v.get("adapters"@) is None ==> adapters_of(v) == Some(
            (
                true,
                (true, seq!["usb"@, "input"@, "drm"@, "power_supply"@]),
                (true, 30u64),
                true,
                true,
            ),
        ),
        v.get("notifications"@) is None ==> notifications_of(v) == Some(
            (3000i64, "normal"@, "notify-send"@),
        ),
        v.get("events"@) is None ==> events_of(v) == Some(100u64),
        v.get("compat"@) is None ==> compat_of(v) == Some(true),
{
}

/// Whether the value is the number.
pub open spec fn says_number(v: Json, n: i64) -> bool {
    if n >= 0 {
        v == Json::Num(Numeral::PosInt(n as u64)) || v == Json::Num(Numeral::NegInt(n))
    } else {
        v == Json::Num(Numeral::NegInt(n))
    }
}

/// Whether the value is the list of these texts, in order.
pub open spec fn says_texts(v: Json, texts: Seq<Seq<char>>) -> bool {
    v matches Json::Array(items) && items.len() == texts.len() && forall|i: int|
        0 <= i < items.len() ==> #[trigger] items[i] == Json::Text(texts[i])
}

/// A list of texts is read text by text.
pub proof fn law_texts_are_read_in_order(items: Seq<Json>)
    ensures
        all_texts(items) matches Some(texts) ==> says_texts(Json::Array(items), texts),
        (forall|i: int| 0 <= i < items.len() ==> (#[trigger] items[i]) is Text)
            <==> all_texts(items) is Some,
    decreases items.len(),
{
    if items.len() > 0 {
        let rest = items.drop_last();
        law_texts_are_read_in_order(rest);
        assert(forall|i: int| 0 <= i < rest.len() ==> rest[i] == items[i]);
        assert(items.last() == items[items.len() - 1]);
        if all_texts(items) is Some {
            assert forall|i: int| 0 <= i < items.len() implies (#[trigger] items[i]) is Text by {
                if i < rest.len() {
                    assert(rest[i] is Text);
                }
            }
        }
        if forall|i: int| 0 <= i < items.len() ==> (#[trigger] items[i]) is Text {
            assert forall|i: int| 0 <= i < rest.len() implies (#[trigger] rest[i]) is Text by {
                assert(items[i] is Text);
            }
        }
    }
}

/// What the texts under a key of a section are, where they are read.
proof fn lemma_texts_read(section: Json, key: Seq<char>, place: int, default: Seq<Seq<char>>)
    ensures
        texts_setting(section, key, place, default) matches Some(texts) ==>
            match part(section, key, place) {
            None => texts == default,
            Some(v) => says_texts(v, texts),
        },
{
    match part(section, key, place) {
        Some(Json::Array(items)) => {
            law_texts_are_read_in_order(items);
        },
        _ => {},
    }
}

/// Each setting of a file stands in its section, under its name or, where the section
/// is written as a list, at its place; one that is not there has its default.
pub proof fn law_settings_stand_in_their_sections(s: Json, c: ConfigView)
    requires
        s is Object,
        settings(s) == Some(c),
    ensures
        s.get("daemon"@) matches Some(t) ==> t is Object ==> {
            &&& t.get("log_level"@) matches Some(j) ==> j == Json::Text(c.log_level)
            &&& t.get("log_level"@) is None ==> c.log_level == "info"@
            &&& t.get("socket_path"@) matches Some(j) ==> j == Json::Text(c.socket_path)
            &&& t.get("socket_path"@) is None ==> c.socket_path == Seq::<char>::empty()
        },
        s.get("daemon"@) matches Some(Json::Array(t)) ==> {
            &&& t.len() > 0 ==> t[0] == Json::Text(c.log_level)
            &&& t.len() <= 0 ==> c.log_level == "info"@
            &&& t.len() > 1 ==> t[1] == Json::Text(c.socket_path)
            &&& t.len() <= 1 ==> c.socket_path == Seq::<char>::empty()
        },
        s.get("daemon"@) is None ==> c.log_level == "info"@
            && c.socket_path == Seq::<char>::empty(),
        s.get("lua"@) matches Some(t) ==> t is Object ==> {
            &&& t.get("entry_point"@) matches Some(j) ==> j == Json::Text(c.entry_point)
            &&& t.get("entry_point"@) is None ==> c.entry_point == "~/.config/bread/init.lua"@
            &&& t.get("module_path"@) matches Some(j) ==> j == Json::Text(c.module_dir)
            &&& t.get("module_path"@) is None ==> c.module_dir == "~/.config/bread/modules"@
        },
        s.get("lua"@) matches Some(Json::Array(t)) ==> {
            &&& t.len() > 0 ==> t[0] == Json::Text(c.entry_point)
            &&& t.len() <= 0 ==> c.entry_point == "~/.config/bread/init.lua"@
            &&& t.len() > 1 ==> t[1] == Json::Text(c.module_dir)
            &&& t.len() <= 1 ==> c.module_dir == "~/.config/bread/modules"@
        },
        s.get("lua"@) is None ==> c.entry_point == "~/.config/bread/init.lua"@
            && c.module_dir == "~/.config/bread/modules"@,
        s.get("modules"@) matches Some(t) ==> t is Object ==> {
            &&& t.get("builtin"@) matches Some(j) ==> j == Json::Bool(c.builtin)
            &&& t.get("builtin"@) is None ==> c.builtin == true
            &&& t.get("disable"@) matches Some(j) ==> says_texts(j, c.disable)
            &&& t.get("disable"@) is None ==> c.disable == Seq::<Seq<char>>::empty()
        },
        s.get("modules"@) matches Some(Json::Array(t)) ==> {
            &&& t.len() > 0 ==> t[0] == Json::Bool(c.builtin)
            &&& t.len() <= 0 ==> c.builtin == true
            &&& t.len() > 1 ==> says_texts(t[1], c.disable)
            &&& t.len() <= 1 ==> c.disable == Seq::<Seq<char>>::empty()
        },
        s.get("modules"@) is None ==> c.builtin == true && c.disable == Seq::<Seq<char>>::empty(),
        s.get("notifications"@) matches Some(t) ==> t is Object ==> {
            &&& t.get("default_timeout_ms"@) matches Some(j) ==>
                says_number(j, c.default_timeout_ms)
            &&& t.get("default_timeout_ms"@) is None ==> c.default_timeout_ms == 3000
            &&& t.get("default_urgency"@) matches Some(j) ==> j == Json::Text(c.default_urgency)
            &&& t.get("default_urgency"@) is None ==> c.default_urgency == "normal"@
            &&& t.get("notify_send_path"@) matches Some(j) ==> j == Json::Text(c.notify_send_path)
            &&& t.get("notify_send_path"@) is None ==> c.notify_send_path == "notify-send"@
        },
        s.get("notifications"@) matches Some(Json::Array(t)) ==> {
            &&& t.len() > 0 ==> says_number(t[0], c.default_timeout_ms)
            &&& t.len() <= 0 ==> c.default_timeout_ms == 3000
            &&& t.len() > 1 ==> t[1] == Json::Text(c.default_urgency)
            &&& t.len() <= 1 ==> c.default_urgency == "normal"@
            &&& t.len() > 2 ==> t[2] == Json::Text(c.notify_send_path)
            &&& t.len() <= 2 ==> c.notify_send_path == "notify-send"@
        },
        s.get("notifications"@) is None ==> c.default_timeout_ms == 3000
            && c.default_urgency == "normal"@ && c.notify_send_path == "notify-send"@,
        s.get("events"@) matches Some(t) ==> t is Object ==> {
            &&& t.get("dedup_window_ms"@) matches Some(j) ==>
                j == Json::Num(Numeral::PosInt(c.dedup_window_ms))
            &&& t.get("dedup_window_ms"@) is None ==> c.dedup_window_ms == 100
        },
        s.get("events"@) matches Some(Json::Array(t)) ==> {
            &&& t.len() > 0 ==> t[0] == Json::Num(Numeral::PosInt(c.dedup_window_ms))
            &&& t.len() <= 0 ==> c.dedup_window_ms == 100
        },
        s.get("events"@) is None ==> c.dedup_window_ms == 100,
        s.get("compat"@) matches Some(t) ==> t is Object ==> {
            &&& t.get("legacy_hyprland_event_names"@) matches Some(j) ==>
                j == Json::Bool(c.legacy_names)
            &&& t.get("legacy_hyprland_event_names"@) is None ==> c.legacy_names == true
        },
        s.get("compat"@) matches Some(Json::Array(t)) ==> {
            &&& t.len() > 0 ==> t[0] == Json::Bool(c.legacy_names)
            &&& t.len() <= 0 ==> c.legacy_names == true
        },
        s.get("compat"@) is None ==> c.legacy_names == true,
{
    if s.get("modules"@) is Some {
        lemma_texts_read(s.get("modules"@)->0, "disable"@, 1, Seq::empty());
    }
}

/// Each setting of an adapter stands in the section of its name below `adapters`; one
/// that is not there has its default.
pub proof fn law_adapters_are_set_by_name(v: Json, s: Json, c: ConfigView)
    requires
        v is Object,
        v.get("adapters"@) == Some(s),
        s is Object,
        settings(v) == Some(c),
    ensures
        s.get("hyprland"@) matches Some(t) ==> t is Object ==> {
            &&& t.get("enabled"@) matches Some(j) ==> j == Json::Bool(c.hyprland)
            &&& t.get("enabled"@) is None ==> c.hyprland == true
        },
        s.get("hyprland"@) matches Some(Json::Array(t)) ==> {
            &&& t.len() > 0 ==> t[0] == Json::Bool(c.hyprland)
            &&& t.len() <= 0 ==> c.hyprland == true
        },
        s.get("hyprland"@) is None ==> c.hyprland == true,
        s.get("udev"@) matches Some(t) ==> t is Object ==> {
            &&& t.get("enabled"@) matches Some(j) ==> j == Json::Bool(c.udev)
            &&& t.get("enabled"@) is None ==> c.udev == true
            &&& t.get("subsystems"@) matches Some(j) ==> says_texts(j, c.subsystems)
            &&& t.get("subsystems"@) is None ==>
                c.subsystems == seq!["usb"@, "input"@, "drm"@, "power_supply"@]
        },
        s.get("udev"@) matches Some(Json::Array(t)) ==> {
            &&& t.len() > 0 ==> t[0] == Json::Bool(c.udev)
            &&& t.len() <= 0 ==> c.udev == true
            &&& t.len() > 1 ==> says_texts(t[1], c.subsystems)
            &&& t.len() <= 1 ==> c.subsystems == seq!["usb"@, "input"@, "drm"@, "power_supply"@]
        },
        s.get("udev"@) is None ==> c.udev == true
            && c.subsystems == seq!["usb"@, "input"@, "drm"@, "power_supply"@],
        s.get("power"@) matches Some(t) ==> t is Object ==> {
            &&& t.get("enabled"@) matches Some(j) ==> j == Json::Bool(c.power)
            &&& t.get("enabled"@) is None ==> c.power == true
            &&& t.get("poll_interval_secs"@) matches Some(j) ==>
                j == Json::Num(Numeral::PosInt(c.poll_interval_secs))
            &&& t.get("poll_interval_secs"@) is None ==> c.poll_interval_secs == 30
        },
        s.get("power"@) matches Some(Json::Array(t)) ==> {
            &&& t.len() > 0 ==> t[0] == Json::Bool(c.power)
            &&& t.len() <= 0 ==> c.power == true
            &&& t.len() > 1 ==> t[1] == Json::Num(Numeral::PosInt(c.poll_interval_secs))
            &&& t.len() <= 1 ==> c.poll_interval_secs == 30
        },
        s.get("power"@) is None ==> c.power == true && c.poll_interval_secs == 30,
        s.get("network"@) matches Some(t) ==> t is Object ==> {
            &&& t.get("enabled"@) matches Some(j) ==> j == Json::Bool(c.network)
            &&& t.get("enabled"@) is None ==> c.network == true
        },
        s.get("network"@) matches Some(Json::Array(t)) ==> {
            &&& t.len() > 0 ==> t[0] == Json::Bool(c.network)
            &&& t.len() <= 0 ==> c.network == true
        },
        s.get("network"@) is None ==> c.network == true,
        s.get("bluetooth"@) matches Some(t) ==> t is Object ==> {
            &&& t.get("enabled"@) matches Some(j) ==> j == Json::Bool(c.bluetooth)
            &&& t.get("enabled"@) is None ==> c.bluetooth == true
        },
        s.get("bluetooth"@) matches Some(Json::Array(t)) ==> {
            &&& t.len() > 0 ==> t[0] == Json::Bool(c.bluetooth)
            &&& t.len() <= 0 ==> c.bluetooth == true
        },
        s.get("bluetooth"@) is None ==> c.bluetooth == true,
{
    if s.get("udev"@) is Some {
        lemma_texts_read(
            s.get("udev"@)->0,
            "subsystems"@,
            1,
            seq!["usb"@, "input"@, "drm"@, "power_supply"@],
        );
    }
}

/// Where there are no sections for adapters, all of them are on, with their defaults.
pub proof fn law_adapters_are_on_by_default(v: Json, c: ConfigView)
    requires
        v is Object,
        v.get("adapters"@) is None,
        settings(v) == Some(c),
    ensures
        c.hyprland && c.udev && c.power && c.network && c.bluetooth,
        c.subsystems == seq!["usb"@, "input"@, "drm"@, "power_supply"@],
        c.poll_interval_secs == 30,
{
}

/// Whether what is under the key, if anything, is a text.
pub open spec fn text_at(s: Json, key: Seq<char>) -> bool {
    s.get(key) matches Some(v) ==> v is Text
}

/// Whether what is under the key, if anything, is a truth value.
pub open spec fn flag_at(s: Json, key: Seq<char>) -> bool {
    s.get(key) matches Some(v) ==> v is Bool
}

/// Whether what is under the key, if anything, is a natural number.
pub open spec fn count_at(s: Json, key: Seq<char>) -> bool {
    s.get(key) matches Some(v) ==> v matches Json::Num(Numeral::PosInt(_))
}

/// Whether what is under the key, if anything, is a list of texts.
pub open spec fn texts_at(s: Json, key: Seq<char>) -> bool {
    s.get(key) matches Some(v) ==> v matches Json::Array(items) && forall|i: int|
        0 <= i < items.len() ==> (#[trigger] items[i]) is Text
}

/// The section under the key, empty if there is none.
pub open spec fn under(v: Json, key: Seq<char>) -> Json {
    match v.get(key) {
        Some(s) => s,
        None => Json::empty(),
    }
}

/// A file whose sections are tables and in which everything is of its kind is read.
pub proof fn law_fitting_settings_are_read(v: Json)
    requires
        v is Object,
        under(v, "daemon"@) is Object,
        text_at(under(v, "daemon"@), "log_level"@),
        text_at(under(v, "daemon"@), "socket_path"@),
        under(v, "lua"@) is Object,
        text_at(under(v, "lua"@), "entry_point"@),
        text_at(under(v, "lua"@), "module_path"@),
        under(v, "modules"@) is Object,
        flag_at(under(v, "modules"@), "builtin"@),
        texts_at(under(v, "modules"@), "disable"@),
        under(v, "notifications"@) is Object,
        count_at(under(v, "notifications"@), "default_timeout_ms"@)
            && (under(v, "notifications"@).unsigned("default_timeout_ms"@) matches Some(n) ==>
            n <= i64::MAX),
        text_at(under(v, "notifications"@), "default_urgency"@),
        text_at(under(v, "notifications"@), "notify_send_path"@),
        under(v, "events"@) is Object,
        count_at(under(v, "events"@), "dedup_window_ms"@),
        under(v, "compat"@) is Object,
        flag_at(under(v, "compat"@), "legacy_hyprland_event_names"@),
        under(v, "adapters"@) is Object,
        under(under(v, "adapters"@), "hyprland"@) is Object,
        flag_at(under(under(v, "adapters"@), "hyprland"@), "enabled"@),
        under(under(v, "adapters"@), "udev"@) is Object,
        flag_at(under(under(v, "adapters"@), "udev"@), "enabled"@),
        texts_at(under(under(v, "adapters"@), "udev"@), "subsystems"@),
        under(under(v, "adapters"@), "power"@) is Object,
        flag_at(under(under(v, "adapters"@), "power"@), "enabled"@),
        count_at(under(under(v, "adapters"@), "power"@), "poll_interval_secs"@),
        under(under(v, "adapters"@), "network"@) is Object,
        flag_at(under(under(v, "adapters"@), "network"@), "enabled"@),
        under(under(v, "adapters"@), "bluetooth"@) is Object,
        flag_at(under(under(v, "adapters"@), "bluetooth"@), "enabled"@),
    ensures
        settings(v) is Some,
{
    let modules = under(v, "modules"@);
    if let Some(Json::Array(items)) = modules.get("disable"@) {
        law_texts_are_read_in_order(items);
    }
    let udev = under(under(v, "adapters"@), "udev"@);
    if let Some(Json::Array(items)) = udev.get("subsystems"@) {
        law_texts_are_read_in_order(items);
    }
    assert(daemon_of(v) is Some);
    assert(lua_of(v) is Some);
    assert(modules_of(v) is Some);
    assert(adapters_of(v) is Some);
    assert(notifications_of(v) is Some);
}

/// Where the adapters are written as a list, each has its place in it.
pub proof fn law_listed_adapters_have_places(v: Json, s: Seq<Json>, c: ConfigView)
    requires
        v is Object,
        v.get("adapters"@) == Some(Json::Array(s)),
        settings(v) == Some(c),
    ensures
        s.len() > 0 ==> s[0] is Object ==> {
            &&& s[0].get("enabled"@) matches Some(j) ==> j == Json::Bool(c.hyprland)
        },
        s.len() > 1 ==> s[1] is Object ==> {
            &&& s[1].get("enabled"@) matches Some(j) ==> j == Json::Bool(c.udev)
            &&& s[1].get("subsystems"@) matches Some(j) ==> says_texts(j, c.subsystems)
        },
        s.len() > 2 ==> s[2] is Object ==> {
            &&& s[2].get("enabled"@) matches Some(j) ==> j == Json::Bool(c.power)
            &&& s[2].get("poll_interval_secs"@) matches Some(j) ==>
                j == Json::Num(Numeral::PosInt(c.poll_interval_secs))
        },
        s.len() > 3 ==> s[3] is Object ==> {
            &&& s[3].get("enabled"@) matches Some(j) ==> j == Json::Bool(c.network)
        },
        s.len() > 4 ==> s[4] is Object ==> {
            &&& s[4].get("enabled"@) matches Some(j) ==> j == Json::Bool(c.bluetooth)
        },
{
    if s.len() > 1 {
        lemma_texts_read(s[1], "subsystems"@, 1, seq!["usb"@, "input"@, "drm"@, "power_supply"@]);
    }
}

} // verus!
