//! The network as the system's files describe it.

use crate::events::{AdapterSource, RawEvent, RawView, Source};
use crate::json::{Json, JsonValue};
use crate::normalizer;
use crate::snapshot::{self, Snapshot};
use crate::state_engine;
use crate::text;
use crate::types::{InterfaceState, NetworkState, NetworkView, RuntimeView};
use vstd::prelude::*;

verus! {

/// Looks at the network at intervals.
#[derive(Debug, Clone, Copy)]
pub struct NetworkAdapter;

impl Default for NetworkAdapter {
    fn default() -> (r: Self)
        ensures
            r == NetworkAdapter,
    {
        NetworkAdapter
    }
}

/// A line of the routing table is the one of a default route.
pub open spec fn is_default_route(line: Seq<char>) -> bool {
    let columns = text::words(line);
    columns.len() > 2 && columns[1] == "00000000"@
}

/// The routing table has a default route. Its first line is a heading.
pub open spec fn default_route(routes: Seq<char>) -> bool {
    let lines = text::split(routes, '\n');
    exists|i: int| 1 <= i < lines.len() && is_default_route(#[trigger] lines[i])
}

fn default_route_line(line: &str) -> (r: bool)
    ensures
        r == is_default_route(line@),
{
    let columns = text::words_of(line);
    assert(columns.deep_view().len() == columns@.len());
    if columns.len() > 2 {
        assert(columns.deep_view()[1] == columns@[1]@);
        text::same(columns[1].as_str(), "00000000")
    } else {
        false
    }
}

/// Whether the routing table has a default route.
pub fn has_default_route(routes: &str) -> (r: bool)
    ensures
        r == default_route(routes@),
{
    let lines = text::split_on(routes, '\n');
    let mut i: usize = 1;
    while i < lines.len()
        invariant
            1 <= i,
            lines.deep_view() == text::split(routes@, '\n'),
            forall|k: int|
                1 <= k < i && k < lines.len() ==> !is_default_route(
                    #[trigger] text::split(routes@, '\n')[k],
                ),
        decreases lines.len() - i,
    {
        assert(text::split(routes@, '\n')[i as int] == lines@[i as int]@);
        if default_route_line(lines[i].as_str()) {
            return true;
        }
        i += 1;
    }
    false
}

/// What entries, each the name and the operating state of an interface, tell.
/// The loopback interface does not count.
pub open spec fn interfaces_of(entries: Seq<(Seq<char>, Seq<char>)>) -> Map<Seq<char>, bool>
    decreases entries.len(),
{
    if entries.len() == 0 {
        Map::empty()
    } else if entries.last().0 == "lo"@ {
        interfaces_of(entries.drop_last())
    } else {
        interfaces_of(entries.drop_last()).insert(
            entries.last().0,
            text::trimmed(entries.last().1) == "up"@,
        )
    }
}

/// What the system's files tell of the network: the interfaces with their
/// operating states, and the routing table where it can be read.
pub fn read_network_state(entries: &Vec<(String, String)>, routes: Option<&str>) -> (r: NetworkState)
    ensures
        r.deep_view() == (NetworkView {
            interfaces: interfaces_of(entries.deep_view()),
            online: routes.deep_view() matches Some(t) && default_route(t),
        }),
{
    let mut interfaces: Vec<(String, InterfaceState)> = Vec::new();
    let mut i: usize = 0;
    assert(entries.deep_view().take(0) =~= Seq::empty());
    while i < entries.len()
        invariant
            i <= entries.len(),
            crate::types::named(interfaces@) == interfaces_of(entries.deep_view().take(i as int)),
        decreases entries.len() - i,
    {
        let ghost before = interfaces@;
        proof {
            let t = entries.deep_view().take(i + 1);
            assert(t.drop_last() =~= entries.deep_view().take(i as int));
            assert(t.last() == entries@[i as int].deep_view());
        }
        if !text::same(entries[i].0.as_str(), "lo") {
            let up = text::same(text::trim(entries[i].1.as_str()).as_str(), "up");
            interfaces.push((entries[i].0.clone(), InterfaceState { up }));
            assert(interfaces@.drop_last() =~= before);
        }
        i += 1;
    }
    assert(entries.deep_view().take(entries@.len() as int) =~= entries.deep_view());
    let online = match routes {
        Some(t) => has_default_route(t),
        None => false,
    };
    NetworkState { interfaces, online }
}

/// The report on the network.
pub open spec fn network_report(n: NetworkView, now: u64) -> RawView {
    RawView {
        source: Source::Network,
        kind: "network.snapshot"@,
        payload: Json::empty().with("online"@, Json::Bool(n.online)).with(
            "interfaces"@,
            Json::Object(n.interfaces.map_values(|up: bool| InterfaceState::json(up))),
        ),
        timestamp: now,
    }
}

/// The report on the network.
pub fn network_raw_event(state: &NetworkState, now: u64) -> (r: RawEvent)
    ensures
        r.deep_view() == network_report(state.deep_view(), now),
{
    RawEvent {
        source: AdapterSource::Network,
        kind: "network.snapshot".to_owned(),
        payload: JsonValue::empty().with("online", JsonValue::Bool(state.online)).with(
            "interfaces",
            snapshot::named_value(&state.interfaces),
        ),
        timestamp: now,
    }
}

proof fn lemma_same_interfaces(a: Map<Seq<char>, bool>, b: Map<Seq<char>, bool>)
    requires
        a.map_values(|up: bool| InterfaceState::json(up)) == b.map_values(
            |up: bool| InterfaceState::json(up),
        ),
    ensures
        a == b,
{
    let form = |up: bool| InterfaceState::json(up);
    let x = a.map_values(form);
    let y = b.map_values(form);
    assert forall|k: Seq<char>| a.contains_key(k) <==> b.contains_key(k) by {
        assert(x.contains_key(k) == a.contains_key(k));
        assert(y.contains_key(k) == b.contains_key(k));
    }
    assert forall|k: Seq<char>| #[trigger] a.contains_key(k) implies a[k] == b[k] by {
        assert(x[k] == InterfaceState::json(a[k]));
        assert(y[k] == InterfaceState::json(b[k]));
        assert(InterfaceState::json(a[k])->Object_0["up"@] == Json::Bool(a[k]));
        assert(InterfaceState::json(b[k])->Object_0["up"@] == Json::Bool(b[k]));
    }
    assert(a =~= b);
}

/// Whether both describe the same network.
pub fn same_network(a: &NetworkState, b: &NetworkState) -> (r: bool)
    ensures
        r == (a.deep_view() == b.deep_view()),
{
    if a.online != b.online {
        return false;
    }
    let x = snapshot::named_value(&a.interfaces);
    let y = snapshot::named_value(&b.interfaces);
    let same = x.equals(&y);
    proof {
        if same {
            lemma_same_interfaces(
                crate::types::named(a.interfaces@),
                crate::types::named(b.interfaces@),
            );
        }
    }
    same
}

/// The report that a look at the network calls for: none where it is as at the
/// look before.
pub fn poll_network(last: Option<&NetworkState>, current: &NetworkState, now: u64) -> (r: Option<
    RawEvent,
>)
    ensures
        r.deep_view() == (if last.deep_view() == Some(current.deep_view()) {
            None
        } else {
            Some(network_report(current.deep_view(), now))
        }),
{
    match last {
        Some(l) => if same_network(l, current) {
            None
        } else {
            Some(network_raw_event(current, now))
        },
        None => Some(network_raw_event(current, now)),
    }
}

/// An interface is known exactly where the system lists it and it is not the one
/// that leads back to the machine, and it is up where the last that is read of it
/// says so.
pub proof fn law_listed_interfaces_are_known(
    entries: Seq<(Seq<char>, Seq<char>)>,
    name: Seq<char>,
    i: int,
)
    requires
        0 <= i < entries.len(),
        entries[i].0 == name,
        forall|j: int| i < j < entries.len() ==> (#[trigger] entries[j]).0 != name,
    ensures
        name == "lo"@ ==> !interfaces_of(entries).contains_key(name),
        name != "lo"@ ==> interfaces_of(entries).contains_key(name) && interfaces_of(entries)[name]
            == (text::trimmed(entries[i].1) == "up"@),
    decreases entries.len(),
{
    if name == "lo"@ {
        lemma_no_loop(entries);
    } else if i < entries.len() - 1 {
        let rest = entries.drop_last();
        assert(entries[entries.len() - 1].0 != name);
        assert forall|j: int| i < j < rest.len() implies (#[trigger] rest[j]).0 != name by {
            assert(entries[j].0 != name);
        }
        law_listed_interfaces_are_known(rest, name, i);
    }
}

proof fn lemma_no_loop(entries: Seq<(Seq<char>, Seq<char>)>)
    ensures
        !interfaces_of(entries).contains_key("lo"@),
    decreases entries.len(),
{
    if entries.len() > 0 {
        lemma_no_loop(entries.drop_last());
    }
}

/// What a look at the network finds is what the state holds after the event that
/// the report leads to: the interfaces, which of them are up, and whether the
/// machine is online.
pub proof fn law_network_looks_reach_the_state(
    n: normalizer::NormalizerView,
    found: NetworkView,
    now: u64,
    s: RuntimeView,
)
    ensures
        ({
            let events = normalizer::translated(n, network_report(found, now));
            &&& events.len() == 1
            &&& found.online ==> events[0].event == "bread.network.connected"@
            &&& !found.online ==> events[0].event == "bread.network.disconnected"@
            &&& state_engine::after_event(s, events[0].event, events[0].data).network == found
        }),
{
    let raw = network_report(found, now);
    reveal_strlit("online");
    reveal_strlit("interfaces");
    assert("online"@.len() == 6);
    assert("interfaces"@.len() == 10);
    normalizer::law_network_reports_say_what_happened(n, raw);
    let m = found.interfaces.map_values(|up: bool| InterfaceState::json(up));
    assert(raw.payload.get("online"@) == Some(Json::Bool(found.online)));
    assert(raw.payload.get("interfaces"@) == Some(Json::Object(m)));
    let event = normalizer::translated(n, raw)[0];
    assert(event.data.get("interfaces"@) == Some(Json::Object(m)));
    state_engine::law_network_events_are_taken_over(s, event.event, event.data);
    let after = state_engine::after_event(s, event.event, event.data).network;
    assert(after.interfaces.dom() =~= found.interfaces.dom());
    assert forall|k: Seq<char>| #[trigger] found.interfaces.contains_key(k) implies after.interfaces[k]
        == found.interfaces[k] by {
        assert(m.contains_key(k));
        assert(m[k].get("up"@) == Some(Json::Bool(found.interfaces[k])));
    }
    assert(after.interfaces =~= found.interfaces);
}

/// There is a default route exactly where a line behind the heading has the
/// destination of all zeros and a column behind it.
pub proof fn law_default_routes_lead_everywhere(routes: Seq<char>, i: int)
    requires
        1 <= i < text::split(routes, '\n').len(),
        text::words(text::split(routes, '\n')[i]).len() > 2,
        text::words(text::split(routes, '\n')[i])[1] == "00000000"@,
    ensures
        default_route(routes),
{
    assert(is_default_route(text::split(routes, '\n')[i]));
}

/// Only a line below the heading whose second column is zero makes a default route.
pub proof fn law_other_routes_are_no_default(routes: Seq<char>)
    requires
        default_route(routes),
    ensures
        exists|i: int|
            1 <= i < text::split(routes, '\n').len()
                && text::words(#[trigger] text::split(routes, '\n')[i]).len() > 2
                && text::words(text::split(routes, '\n')[i])[1] == "00000000"@,
{
}

} // verus!
