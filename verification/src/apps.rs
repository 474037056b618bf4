//! Who may publish events under which names.

use crate::text;
use vstd::prelude::*;

verus! {

/// The apps that may publish events in their own name.
pub open spec fn registered_apps() -> Seq<Seq<char>> {
    seq!["clip"@, "pad"@]
}

/// The apps that may publish events in their own name.
pub fn known_apps() -> (r: Vec<String>)
    ensures
        r.deep_view() == registered_apps(),
{
    let mut r: Vec<String> = Vec::new();
    r.push("clip".to_owned());
    r.push("pad".to_owned());
    assert(r.deep_view() =~= registered_apps());
    r
}

/// The event name lies below `bread.<app>.`.
pub open spec fn in_namespace(app: Seq<char>, event: Seq<char>) -> bool {
    let prefix = "bread."@ + app + "."@;
    text::has_prefix(event, prefix) && event.len() > prefix.len()
}

/// Whether an app may publish events of that name: those below its own segment
/// of the namespace.
pub fn validate_app_namespace(app: &str, event: &str) -> (r: bool)
    ensures
        r == in_namespace(app@, event@),
{
    let prefix = text::concat3("bread.", app, ".");
    text::starts_with(event, prefix.as_str()) && event.unicode_len() > prefix.as_str().unicode_len()
}

/// The segment of an event name that follows `bread.`, if the name begins so.
pub open spec fn domain(event: Seq<char>) -> Option<Seq<char>> {
    if text::has_prefix(event, "bread."@) {
        Some(text::split(event.subrange(6, event.len() as int), '.')[0])
    } else {
        None
    }
}

/// The domain belongs to an adapter or to the daemon itself.
pub open spec fn reserved_domain(d: Seq<char>) -> bool {
    ||| d == "device"@
    ||| d == "bluetooth"@
    ||| d == "hyprland"@
    ||| d == "workspace"@
    ||| d == "monitor"@
    ||| d == "window"@
    ||| d == "power"@
    ||| d == "network"@
    ||| d == "terminal"@
    ||| d == "remote"@
    ||| d == "git"@
    ||| d == "project"@
    ||| d == "service"@
    ||| d == "container"@
    ||| d == "system"@
    ||| d == "state"@
    ||| d == "profile"@
    ||| d == "module"@
    ||| d == "notify"@
    ||| d == "widget"@
}

/// Events of that name come from an adapter or from the daemon itself only.
pub open spec fn reserved_event(event: Seq<char>) -> bool {
    domain(event) matches Some(d) && reserved_domain(d)
}

fn is_reserved_domain(d: &str) -> (r: bool)
    ensures
        r == reserved_domain(d@),
{
    text::same(d, "device") || text::same(d, "bluetooth") || text::same(d, "hyprland")
        || text::same(d, "workspace") || text::same(d, "monitor") || text::same(d, "window")
        || text::same(d, "power") || text::same(d, "network") || text::same(d, "terminal")
        || text::same(d, "remote") || text::same(d, "git") || text::same(d, "project")
        || text::same(d, "service") || text::same(d, "container") || text::same(d, "system")
        || text::same(d, "state") || text::same(d, "profile") || text::same(d, "module")
        || text::same(d, "notify") || text::same(d, "widget")
}

/// Whether events of that name come from an adapter or from the daemon itself
/// only.
pub fn is_reserved_event(event: &str) -> (r: bool)
    ensures
        r == reserved_event(event@),
{
    proof {
        reveal_strlit("bread.");
    }
    match text::strip_prefix(event, "bread.") {
        Some(rest) => {
            let parts = text::split_on(rest, '.');
            assert(parts.deep_view()[0] == parts@[0]@);
            is_reserved_domain(parts[0].as_str())
        },
        None => false,
    }
}

/// The domain of a name is the text between `bread.` and the next dot.
pub proof fn lemma_domain(event: Seq<char>, d: Seq<char>)
    requires
        text::has_prefix(event, "bread."@ + d + "."@),
        forall|i: int| 0 <= i < d.len() ==> #[trigger] d[i] != '.',
    ensures
        domain(event) == Some(d),
{
    reveal_strlit("bread.");
    reveal_strlit(".");
    let prefix = "bread."@ + d + "."@;
    assert(event.subrange(0, prefix.len() as int) == prefix);
    assert forall|i: int| 0 <= i < prefix.len() implies event[i] == prefix[i] by {
        assert(event.subrange(0, prefix.len() as int)[i] == event[i]);
    }
    assert(event.subrange(0, 6) =~= "bread."@);
    let rest = event.subrange(6, event.len() as int);
    assert forall|i: int| 0 <= i < d.len() implies #[trigger] rest[i] == d[i] by {
        assert(rest[i] == event[i + 6]);
        assert(prefix[i + 6] == d[i]);
    }
    assert(rest[d.len() as int] == '.') by {
        assert(rest[d.len() as int] == event[d.len() as int + 6]);
        assert(prefix[d.len() as int + 6] == '.');
    }
    text::lemma_index_from(rest, '.', 0);
    let dot = text::index_from(rest, '.', 0);
    assert(dot == d.len()) by {
        if dot < d.len() {
            assert(rest[dot] == d[dot]);
        }
    }
    assert(rest.subrange(0, d.len() as int) =~= d);
}

/// A name below a reserved domain is reserved.
pub proof fn lemma_reserved(event: Seq<char>, d: Seq<char>)
    requires
        reserved_domain(d),
        text::has_prefix(event, "bread."@ + d + "."@),
    ensures
        reserved_event(event),
{
    reveal_strlit("device");
    reveal_strlit("bluetooth");
    reveal_strlit("hyprland");
    reveal_strlit("workspace");
    reveal_strlit("monitor");
    reveal_strlit("window");
    reveal_strlit("power");
    reveal_strlit("network");
    reveal_strlit("terminal");
    reveal_strlit("remote");
    reveal_strlit("git");
    reveal_strlit("project");
    reveal_strlit("service");
    reveal_strlit("container");
    reveal_strlit("system");
    reveal_strlit("state");
    reveal_strlit("profile");
    reveal_strlit("module");
    reveal_strlit("notify");
    reveal_strlit("widget");
    assert forall|i: int| 0 <= i < d.len() implies #[trigger] d[i] != '.' by {
    }
    lemma_domain(event, d);
}

/// What follows the domain in a name does not matter.
pub proof fn lemma_below(head: Seq<char>, d: Seq<char>, rest: Seq<char>)
    requires
        head == "bread."@ + d + "."@,
        reserved_domain(d),
    ensures
        reserved_event(head + rest),
{
    assert((head + rest).subrange(0, head.len() as int) =~= head);
    lemma_reserved(head + rest, d);
}

/// Events of an app are those whose names begin with its own and say more.
pub proof fn law_apps_have_their_events(app: Seq<char>, rest: Seq<char>)
    ensures
        in_namespace(app, "bread."@ + app + "."@ + rest) <==> rest.len() > 0,
        !in_namespace(app, "bread."@ + app),
{
    let prefix = "bread."@ + app + "."@;
    assert((prefix + rest).subrange(0, prefix.len() as int) =~= prefix);
    reveal_strlit(".");
    assert("."@.len() == 1);
    assert(("bread."@ + app).len() < prefix.len());
}

/// The apps with a name of their own are `clip` and `pad`.
pub proof fn law_apps_are_known(app: Seq<char>)
    ensures
        registered_apps().contains(app) <==> app == "clip"@ || app == "pad"@,
{
    assert(registered_apps()[0] == "clip"@);
    assert(registered_apps()[1] == "pad"@);
}

/// The domain of an event is what stands between the first dot and the second.
pub proof fn law_domain_is_the_second_part(d: Seq<char>, rest: Seq<char>)
    requires
        !d.contains('.'),
    ensures
        domain("bread."@ + d + "."@ + rest) == Some(d),
        domain("bread."@ + d) == Some(d),
{
    reveal_strlit("bread.");
    reveal_strlit(".");
    assert("bread."@.len() == 6);
    assert("."@ =~= seq!['.']);
    let event = "bread."@ + d + "."@ + rest;
    assert(event.subrange(0, 6) =~= "bread."@);
    assert(event.subrange(6, event.len() as int) =~= d + seq!['.'] + rest);
    text::lemma_split_joined(d, '.', rest);
    let short = "bread."@ + d;
    assert(short.subrange(0, 6) =~= "bread."@);
    assert(short.subrange(6, short.len() as int) =~= d);
    text::lemma_index_from(d, '.', 0);
    let i = text::index_from(d, '.', 0);
    if i < d.len() {
        assert(d[i] == '.');
    }
    assert(d.subrange(0, d.len() as int) =~= d);
    assert(text::split(d, '.') =~= seq![d]);
    assert((text::split(d, '.') + text::split(rest, '.'))[0] == d);
}

/// The domains of the adapters and of the daemon are reserved, whatever follows them;
/// no other domain is, nor is any name outside of them.
pub proof fn law_domains_are_reserved(d: Seq<char>, rest: Seq<char>, event: Seq<char>)
    ensures
        reserved_event("bread.device."@ + rest),
        reserved_event("bread.bluetooth."@ + rest),
        reserved_event("bread.hyprland."@ + rest),
        reserved_event("bread.workspace."@ + rest),
        reserved_event("bread.monitor."@ + rest),
        reserved_event("bread.window."@ + rest),
        reserved_event("bread.power."@ + rest),
        reserved_event("bread.network."@ + rest),
        reserved_event("bread.terminal."@ + rest),
        reserved_event("bread.remote."@ + rest),
        reserved_event("bread.git."@ + rest),
        reserved_event("bread.project."@ + rest),
        reserved_event("bread.service."@ + rest),
        reserved_event("bread.container."@ + rest),
        reserved_event("bread.system."@ + rest),
        reserved_event("bread.state."@ + rest),
        reserved_event("bread.profile."@ + rest),
        reserved_event("bread.module."@ + rest),
        reserved_event("bread.notify."@ + rest),
        reserved_event("bread.widget."@ + rest),
        !d.contains('.') && d != "device"@ && d != "bluetooth"@ && d != "hyprland"@
            && d != "workspace"@ && d != "monitor"@ && d != "window"@ && d != "power"@
            && d != "network"@ && d != "terminal"@ && d != "remote"@ && d != "git"@
            && d != "project"@ && d != "service"@ && d != "container"@ && d != "system"@
            && d != "state"@ && d != "profile"@ && d != "module"@ && d != "notify"@
            && d != "widget"@ ==> !reserved_event("bread."@ + d + "."@ + rest),
        !text::has_prefix(event, "bread."@) ==> !reserved_event(event),
{
    reveal_strlit("bread.");
    reveal_strlit(".");
    assert("bread."@.len() == 6 && "."@.len() == 1);
    reveal_strlit("device");
    reveal_strlit("bread.device.");
    assert("bread.device."@ =~= "bread."@ + "device"@ + "."@);
    assert(!"device"@.contains('.'));
    law_domain_is_the_second_part("device"@, rest);
    reveal_strlit("bluetooth");
    reveal_strlit("bread.bluetooth.");
    assert("bread.bluetooth."@ =~= "bread."@ + "bluetooth"@ + "."@);
    assert(!"bluetooth"@.contains('.'));
    law_domain_is_the_second_part("bluetooth"@, rest);
    reveal_strlit("hyprland");
    reveal_strlit("bread.hyprland.");
    assert("bread.hyprland."@ =~= "bread."@ + "hyprland"@ + "."@);
    assert(!"hyprland"@.contains('.'));
    law_domain_is_the_second_part("hyprland"@, rest);
    reveal_strlit("workspace");
    reveal_strlit("bread.workspace.");
    assert("bread.workspace."@ =~= "bread."@ + "workspace"@ + "."@);
    assert(!"workspace"@.contains('.'));
    law_domain_is_the_second_part("workspace"@, rest);
    reveal_strlit("monitor");
    reveal_strlit("bread.monitor.");
    assert("bread.monitor."@ =~= "bread."@ + "monitor"@ + "."@);
    assert(!"monitor"@.contains('.'));
    law_domain_is_the_second_part("monitor"@, rest);
    reveal_strlit("window");
    reveal_strlit("bread.window.");
    assert("bread.window."@ =~= "bread."@ + "window"@ + "."@);
    assert(!"window"@.contains('.'));
    law_domain_is_the_second_part("window"@, rest);
    reveal_strlit("power");
    reveal_strlit("bread.power.");
    assert("bread.power."@ =~= "bread."@ + "power"@ + "."@);
    assert(!"power"@.contains('.'));
    law_domain_is_the_second_part("power"@, rest);
    reveal_strlit("network");
    reveal_strlit("bread.network.");
    assert("bread.network."@ =~= "bread."@ + "network"@ + "."@);
    assert(!"network"@.contains('.'));
    law_domain_is_the_second_part("network"@, rest);
    reveal_strlit("terminal");
    reveal_strlit("bread.terminal.");
    assert("bread.terminal."@ =~= "bread."@ + "terminal"@ + "."@);
    assert(!"terminal"@.contains('.'));
    law_domain_is_the_second_part("terminal"@, rest);
    reveal_strlit("remote");
    reveal_strlit("bread.remote.");
    assert("bread.remote."@ =~= "bread."@ + "remote"@ + "."@);
    assert(!"remote"@.contains('.'));
    law_domain_is_the_second_part("remote"@, rest);
    reveal_strlit("git");
    reveal_strlit("bread.git.");
    assert("bread.git."@ =~= "bread."@ + "git"@ + "."@);
    assert(!"git"@.contains('.'));
    law_domain_is_the_second_part("git"@, rest);
    reveal_strlit("project");
    reveal_strlit("bread.project.");
    assert("bread.project."@ =~= "bread."@ + "project"@ + "."@);
    assert(!"project"@.contains('.'));
    law_domain_is_the_second_part("project"@, rest);
    reveal_strlit("service");
    reveal_strlit("bread.service.");
    assert("bread.service."@ =~= "bread."@ + "service"@ + "."@);
    assert(!"service"@.contains('.'));
    law_domain_is_the_second_part("service"@, rest);
    reveal_strlit("container");
    reveal_strlit("bread.container.");
    assert("bread.container."@ =~= "bread."@ + "container"@ + "."@);
    assert(!"container"@.contains('.'));
    law_domain_is_the_second_part("container"@, rest);
    reveal_strlit("system");
    reveal_strlit("bread.system.");
    assert("bread.system."@ =~= "bread."@ + "system"@ + "."@);
    assert(!"system"@.contains('.'));
    law_domain_is_the_second_part("system"@, rest);
    reveal_strlit("state");
    reveal_strlit("bread.state.");
    assert("bread.state."@ =~= "bread."@ + "state"@ + "."@);
    assert(!"state"@.contains('.'));
    law_domain_is_the_second_part("state"@, rest);
    reveal_strlit("profile");
    reveal_strlit("bread.profile.");
    assert("bread.profile."@ =~= "bread."@ + "profile"@ + "."@);
    assert(!"profile"@.contains('.'));
    law_domain_is_the_second_part("profile"@, rest);
    reveal_strlit("module");
    reveal_strlit("bread.module.");
    assert("bread.module."@ =~= "bread."@ + "module"@ + "."@);
    assert(!"module"@.contains('.'));
    law_domain_is_the_second_part("module"@, rest);
    reveal_strlit("notify");
    reveal_strlit("bread.notify.");
    assert("bread.notify."@ =~= "bread."@ + "notify"@ + "."@);
    assert(!"notify"@.contains('.'));
    law_domain_is_the_second_part("notify"@, rest);
    reveal_strlit("widget");
    reveal_strlit("bread.widget.");
    assert("bread.widget."@ =~= "bread."@ + "widget"@ + "."@);
    assert(!"widget"@.contains('.'));
    law_domain_is_the_second_part("widget"@, rest);
    if !d.contains('.') {
        law_domain_is_the_second_part(d, rest);
    }
}

} // verus!
