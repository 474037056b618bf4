//! The modules that come with the daemon.

use crate::modules::{DeclView, ModuleDecl};
use crate::text;
use vstd::prelude::*;

verus! {

/// The module that runs workflows when monitors come and go.
pub const BUILTIN_MONITORS: &'static str = r#"
local M = bread.module({ name = "bread.monitors", version = "1.0.0" })

local workflows = {}
local layouts = {}

local function matches_when(event_name, when)
    if when == "connected" then
        return event_name == "bread.monitor.connected"
    elseif when == "disconnected" then
        return event_name == "bread.monitor.disconnected"
    elseif when == "changed" then
        return event_name == "bread.monitor.changed"
    end
    return false
end

local function matches_monitors(list, event)
    if not list or #list == 0 then
        return true
    end
    local name = event.data and event.data.name
    if not name then
        return false
    end
    for _, monitor in ipairs(list) do
        if monitor == name then
            return true
        end
    end
    return false
end

local function run_workflow(wf, event)
    if type(wf.run) == "function" then
        wf.run(event)
    elseif type(wf.run) == "string" then
        bread.exec(wf.run)
    end
end

function M.on(opts)
    table.insert(workflows, opts)
end

function M.layout(name, fn)
    layouts[name] = fn
end

function M.apply(name)
    return function()
        local fn = layouts[name]
        if fn then
            fn()
        end
    end
end

function M.on_load()
    bread.on("bread.monitor.**", function(event)
        for _, wf in ipairs(workflows) do
            if matches_when(event.event, wf.when) and matches_monitors(wf.monitors, event) then
                run_workflow(wf, event)
            end
        end
    end)
end

return M
"#;

/// The module that runs rules when devices come and go.
pub const BUILTIN_DEVICES: &'static str = r#"
local M = bread.module({ name = "bread.devices", version = "1.0.0" })

local rules = {}

local function matches_rule(rule, event)
    local when = rule.when
    local data = event.data or {}

    if when == "connected" and not event.event:match("%.connected$") then
        return false
    elseif when == "disconnected" and not event.event:match("%.disconnected$") then
        return false
    end

    if rule.device and data.device ~= rule.device then
        return false
    end

    if rule.name and data.name and not tostring(data.name):match(rule.name) then
        return false
    end

    return true
end

local function run_rule(rule, event)
    if type(rule.run) == "function" then
        rule.run(event)
    elseif type(rule.run) == "string" then
        bread.exec(rule.run)
    end
end

function M.on(opts)
    table.insert(rules, opts)
end

function M.on_load()
    bread.on("bread.device.**", function(event)
        for _, rule in ipairs(rules) do
            if matches_rule(rule, event) then
                run_rule(rule, event)
            end
        end
    end)
end

return M
"#;

/// The module that keeps workspaces on their monitors.
pub const BUILTIN_WORKSPACES: &'static str = r#"
local M = bread.module({ name = "bread.workspaces", version = "1.0.0", after = { "bread.monitors" } })

local assignments = {}
local rules = {}

function M.assign(workspace, monitor)
    table.insert(assignments, { workspace = workspace, monitor = monitor })
end

function M.pin(opts)
    table.insert(rules, opts)
end

function M.apply_assignments()
    local monitors = bread.state.monitors()
    local active = {}
    for _, m in ipairs(monitors) do
        if m.connected then
            active[m.name] = true
        end
    end

    for _, a in ipairs(assignments) do
        if active[a.monitor] then
            bread.hyprland.dispatch("moveworkspacetomonitor", a.workspace .. " " .. a.monitor)
        end
    end
end

function M.on_load()
    bread.on("bread.monitor.**", function()
        M.apply_assignments()
    end)

    bread.on("bread.window.opened", function(event)
        for _, rule in ipairs(rules) do
            if event.data and event.data.class and event.data.class:match(rule.app) then
                local address = event.data.address or ""
                bread.hyprland.dispatch("movetoworkspacesilent", rule.workspace .. ",address:" .. address)
            end
        end
    end)

    bread.once("bread.system.startup", function()
        M.apply_assignments()
    end)
end

return M
"#;

/// The module that manages key bindings.
pub const BUILTIN_BINDS: &'static str = r#"
local M = bread.module({ name = "bread.binds", version = "1.0.0" })

local active = {}

local function bind_string(opts)
    local mods = table.concat(opts.mods or {}, " ")
    local args = opts.args or ""
    if mods ~= "" then
        return mods .. ", " .. opts.key .. ", " .. opts.dispatch .. ", " .. args
    end
    return opts.key .. ", " .. opts.dispatch .. ", " .. args
end

function M.add(opts)
    local bind = bind_string(opts)
    bread.hyprland.keyword("bind", bind)
    active[opts.key] = opts
    return opts.key
end

function M.remove(key)
    local bind = active[key]
    if not bind then
        return
    end
    bread.hyprland.keyword("unbind", bind_string(bind))
    active[key] = nil
end

function M.replace(key, opts)
    M.remove(key)
    return M.add(opts)
end

function M.on_unload()
    for key, _ in pairs(active) do
        M.remove(key)
    end
end

return M
"#;

/// The module that turns the rules of the rules file into subscriptions.
pub const BUILTIN_RULES: &'static str = r#"
local M = bread.module({ name = "bread.rules", version = "1.0.0" })

local function act(rule)
    if rule.notify then
        bread.notify(rule.notify)
    else
        bread.exec(rule.command)
    end
end

function M.on_load()
    for _, rule in ipairs(__bread_load_rules()) do
        bread.on(rule.on, function()
            act(rule)
        end)
    end
end

return M
"#;

/// The declaration of a built-in module.
pub open spec fn builtin_decl(
    name: Seq<char>,
    after: Seq<Seq<char>>,
    source: Seq<char>,
) -> DeclView {
    DeclView {
        name,
        version: Some("1.0.0"@),
        after,
        path: "<builtin:"@ + name + ">"@,
        source: Some(source),
        builtin: true,
    }
}

/// The declarations with `d` at the end, unless its name is among the disabled.
pub open spec fn unless_disabled(
    decls: Seq<DeclView>,
    disabled: Seq<Seq<char>>,
    d: DeclView,
) -> Seq<DeclView> {
    if disabled.contains(d.name) {
        decls
    } else {
        decls.push(d)
    }
}

/// The built-in modules whose names are not disabled.
pub open spec fn builtin_decls(disabled: Seq<Seq<char>>) -> Seq<DeclView> {
    let none = Seq::<DeclView>::empty();
    let one = unless_disabled(
        none,
        disabled,
        builtin_decl("bread.monitors"@, Seq::empty(), BUILTIN_MONITORS@),
    );
    let two = unless_disabled(
        one,
        disabled,
        builtin_decl("bread.devices"@, Seq::empty(), BUILTIN_DEVICES@),
    );
    let three = unless_disabled(
        two,
        disabled,
        builtin_decl("bread.workspaces"@, seq!["bread.monitors"@], BUILTIN_WORKSPACES@),
    );
    let four = unless_disabled(
        three,
        disabled,
        builtin_decl("bread.binds"@, Seq::empty(), BUILTIN_BINDS@),
    );
    unless_disabled(
        four,
        disabled,
        builtin_decl("bread.rules"@, Seq::empty(), BUILTIN_RULES@),
    )
}

/// The name is that of a built-in module.
pub open spec fn builtin_name(name: Seq<char>) -> bool {
    ||| name == "bread.monitors"@
    ||| name == "bread.devices"@
    ||| name == "bread.workspaces"@
    ||| name == "bread.binds"@
    ||| name == "bread.rules"@
}

/// The name is that of one of the declared modules.
pub open spec fn declared(decls: Seq<DeclView>, name: Seq<char>) -> bool {
    exists|i: int| 0 <= i < decls.len() && (#[trigger] decls[i]).name == name
}

proof fn lemma_unless_disabled(
    decls: Seq<DeclView>,
    disabled: Seq<Seq<char>>,
    d: DeclView,
    name: Seq<char>,
)
    ensures
        declared(unless_disabled(decls, disabled, d), name) <==> declared(decls, name) || (d.name
            == name && !disabled.contains(name)),
{
    let all = decls.push(d);
    if declared(decls, name) {
        let i = choose|i: int| 0 <= i < decls.len() && (#[trigger] decls[i]).name == name;
        assert(all[i].name == name);
    }
    assert(all[decls.len() as int] == d);
    if declared(all, name) {
        let i = choose|i: int| 0 <= i < all.len() && (#[trigger] all[i]).name == name;
        if i < decls.len() {
            assert(decls[i].name == name);
        }
    }
}

/// Every built-in module is declared unless its name is disabled, and no other
/// module is.
pub proof fn law_builtins_load_unless_disabled(disabled: Seq<Seq<char>>, name: Seq<char>)
    ensures
        declared(builtin_decls(disabled), name) <==> builtin_name(name) && !disabled.contains(
            name,
        ),
{
    let none = Seq::<DeclView>::empty();
    let monitors = builtin_decl("bread.monitors"@, Seq::empty(), BUILTIN_MONITORS@);
    let devices = builtin_decl("bread.devices"@, Seq::empty(), BUILTIN_DEVICES@);
    let workspaces = builtin_decl(
        "bread.workspaces"@,
        seq!["bread.monitors"@],
        BUILTIN_WORKSPACES@,
    );
    let binds = builtin_decl("bread.binds"@, Seq::empty(), BUILTIN_BINDS@);
    let rules = builtin_decl("bread.rules"@, Seq::empty(), BUILTIN_RULES@);
    let one = unless_disabled(none, disabled, monitors);
    let two = unless_disabled(one, disabled, devices);
    let three = unless_disabled(two, disabled, workspaces);
    let four = unless_disabled(three, disabled, binds);
    lemma_unless_disabled(none, disabled, monitors, name);
    lemma_unless_disabled(one, disabled, devices, name);
    lemma_unless_disabled(two, disabled, workspaces, name);
    lemma_unless_disabled(three, disabled, binds, name);
    lemma_unless_disabled(four, disabled, rules, name);
}

fn push_builtin(
    out: &mut Vec<ModuleDecl>,
    disabled: &Vec<String>,
    name: &str,
    after: Vec<String>,
    source: &str,
)
    ensures
        final(out).deep_view() == unless_disabled(
            old(out).deep_view(),
            disabled.deep_view(),
            builtin_decl(name@, after.deep_view(), source@),
        ),
{
    if text::list_has(disabled, name) {
        return;
    }
    let ghost before = out.deep_view();
    let d = ModuleDecl {
        name: name.to_owned(),
        version: Some("1.0.0".to_owned()),
        after,
        path: text::concat3("<builtin:", name, ">"),
        source: Some(source.to_owned()),
        builtin: true,
    };
    let ghost view = d.deep_view();
    out.push(d);
    assert(out.deep_view() =~= before.push(view));
}

/// The built-in modules whose names are not disabled.
pub fn builtin_module_decls(disabled: &Vec<String>) -> (r: Vec<ModuleDecl>)
    ensures
        r.deep_view() == builtin_decls(disabled.deep_view()),
{
    let mut out: Vec<ModuleDecl> = Vec::new();
    assert(out.deep_view() =~= Seq::empty());
    let none: Vec<String> = Vec::new();
    assert(none.deep_view() =~= Seq::empty());
    push_builtin(&mut out, disabled, "bread.monitors", none, BUILTIN_MONITORS);
    let none: Vec<String> = Vec::new();
    assert(none.deep_view() =~= Seq::empty());
    push_builtin(&mut out, disabled, "bread.devices", none, BUILTIN_DEVICES);
    let mut after: Vec<String> = Vec::new();
    after.push("bread.monitors".to_owned());
    assert(after.deep_view() =~= seq!["bread.monitors"@]);
    push_builtin(&mut out, disabled, "bread.workspaces", after, BUILTIN_WORKSPACES);
    let none: Vec<String> = Vec::new();
    assert(none.deep_view() =~= Seq::empty());
    push_builtin(&mut out, disabled, "bread.binds", none, BUILTIN_BINDS);
    let none: Vec<String> = Vec::new();
    assert(none.deep_view() =~= Seq::empty());
    push_builtin(&mut out, disabled, "bread.rules", none, BUILTIN_RULES);
    out
}

/// Each module that comes with the daemon is declared with its text, marked as such, in
/// version one, and the one for workspaces waits for the one for monitors.
pub proof fn law_builtin_modules_are_declared(disabled: Seq<Seq<char>>, i: int)
    requires
        0 <= i < builtin_decls(disabled).len(),
    ensures
        ({
            let d = builtin_decls(disabled)[i];
            &&& d.builtin
            &&& d.version == Some("1.0.0"@)
            &&& d.path == "<builtin:"@ + d.name + ">"@
            &&& d.name == "bread.monitors"@ ==> d.source == Some(BUILTIN_MONITORS@)
                && d.after.len() == 0
            &&& d.name == "bread.devices"@ ==> d.source == Some(BUILTIN_DEVICES@)
                && d.after.len() == 0
            &&& d.name == "bread.workspaces"@ ==> d.source == Some(BUILTIN_WORKSPACES@)
                && d.after == seq!["bread.monitors"@]
            &&& d.name == "bread.binds"@ ==> d.source == Some(BUILTIN_BINDS@)
                && d.after.len() == 0
            &&& d.name == "bread.rules"@ ==> d.source == Some(BUILTIN_RULES@)
                && d.after.len() == 0
        }),
{
    reveal_strlit("bread.monitors");
    reveal_strlit("bread.devices");
    reveal_strlit("bread.workspaces");
    reveal_strlit("bread.binds");
    reveal_strlit("bread.rules");
    assert("bread.monitors"@.len() == 14);
    assert("bread.devices"@.len() == 13);
    assert("bread.workspaces"@.len() == 16);
    assert("bread.binds"@.len() == 11);
    assert("bread.rules"@.len() == 11);
    assert("bread.binds"@[6] != "bread.rules"@[6]);
}

} // verus!
