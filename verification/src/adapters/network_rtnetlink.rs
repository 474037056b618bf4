//! The network as the kernel tells of its changes.

use crate::events::{AdapterSource, RawEvent, RawView, Source};
use crate::json::{self, Json, JsonValue, Numeral};
use crate::normalizer;
use crate::snapshot;
use crate::state_engine;
use crate::text;
use crate::types::RuntimeView;
use vstd::prelude::*;

verus! {

/// Listens to the kernel.
#[derive(Debug, Clone, Copy)]
pub struct RtnetlinkAdapter;

/// The flag of a link that is up.
pub const LINK_UP: u32 = 1;

/// An attribute of a link.
#[derive(Debug)]
pub enum LinkAttr {
    IfName(String),
    Mtu(u32),
    NetnsId(i32),
    NetNsFd(i32),
    Other,
}

/// An attribute of a route.
#[derive(Debug)]
pub enum RouteAttr {
    /// The address of the gateway, as text, where it has a form as text.
    Gateway(Option<String>),
    Other,
}

/// An attribute of an address.
#[derive(Debug)]
pub enum AddressAttr {
    /// An address, as text, where it has a form as text.
    Address(Option<String>),
    Label(String),
    Other,
}

/// What the kernel tells.
#[derive(Debug)]
pub enum NetlinkMessage {
    NewLink { index: u32, flags: u32, attrs: Vec<LinkAttr> },
    NewRoute { prefix_len: u8, table: u8, route: Vec<RouteAttr> },
    NewAddress { address: AddressMessage },
    DelAddress { address: AddressMessage },
    Other,
}

/// What the kernel tells of an address.
#[derive(Debug)]
pub struct AddressMessage {
    pub index: u32,
    pub prefix_len: u8,
    pub family: u8,
    pub attrs: Vec<AddressAttr>,
}

/// The name of the link, from its first attribute of that kind.
pub open spec fn link_name(attrs: Seq<LinkAttr>) -> Option<Seq<char>>
    decreases attrs.len(),
{
    if attrs.len() == 0 {
        None
    } else {
        match (link_name(attrs.drop_last()), attrs.last()) {
            (Some(n), _) => Some(n),
            (None, LinkAttr::IfName(n)) => Some(n@),
            _ => None,
        }
    }
}

/// The number that the first attribute of a kind gives, or null. The kinds are
/// the transfer unit, the namespace's number and the namespace's handle.
pub open spec fn link_number(attrs: Seq<LinkAttr>, kind: int) -> Json
    decreases attrs.len(),
{
    if attrs.len() == 0 {
        Json::Null
    } else {
        let before = link_number(attrs.drop_last(), kind);
        if !(before is Null) {
            before
        } else {
            match attrs.last() {
                LinkAttr::Mtu(n) if kind == 0 => Json::Num(Numeral::PosInt(n as u64)),
                LinkAttr::NetnsId(n) if kind == 1 => snapshot::integer_json(n as int),
                LinkAttr::NetNsFd(n) if kind == 2 => snapshot::integer_json(n as int),
                _ => Json::Null,
            }
        }
    }
}

/// The gateway of the route, from its first attribute of that kind.
pub open spec fn route_gateway(attrs: Seq<RouteAttr>) -> Option<Option<Seq<char>>>
    decreases attrs.len(),
{
    if attrs.len() == 0 {
        None
    } else {
        match (route_gateway(attrs.drop_last()), attrs.last()) {
            (Some(g), _) => Some(g),
            (None, RouteAttr::Gateway(g)) => Some(g.deep_view()),
            _ => None,
        }
    }
}

/// The address, from the first attribute that gives one.
pub open spec fn first_address(attrs: Seq<AddressAttr>) -> Option<Option<Seq<char>>>
    decreases attrs.len(),
{
    if attrs.len() == 0 {
        None
    } else {
        match (first_address(attrs.drop_last()), attrs.last()) {
            (Some(a), _) => Some(a),
            (None, AddressAttr::Address(a)) => Some(a.deep_view()),
            _ => None,
        }
    }
}

/// The label of the address, from its first attribute of that kind.
pub open spec fn first_label(attrs: Seq<AddressAttr>) -> Option<Seq<char>>
    decreases attrs.len(),
{
    if attrs.len() == 0 {
        None
    } else {
        match (first_label(attrs.drop_last()), attrs.last()) {
            (Some(l), _) => Some(l),
            (None, AddressAttr::Label(l)) => Some(l@),
            _ => None,
        }
    }
}

/// The text, or null where there is none or it has no form as text.
pub open spec fn known_text(s: Option<Option<Seq<char>>>) -> Json {
    match s {
        Some(s) => json::text_or_null(s),
        None => Json::Null,
    }
}

/// What is told of an address.
pub open spec fn address_facts(m: AddressMessage) -> Json {
    Json::empty().with("ifindex"@, Json::Num(Numeral::PosInt(m.index as u64))).with(
        "prefix_len"@,
        Json::Num(Numeral::PosInt(m.prefix_len as u64)),
    ).with("family"@, Json::Num(Numeral::PosInt(m.family as u64))).with(
        "address"@,
        known_text(first_address(m.attrs@)),
    ).with("label"@, json::text_or_null(first_label(m.attrs@)))
}

/// A report on the network.
pub open spec fn report(kind: Seq<char>, payload: Json, now: u64) -> RawView {
    RawView { source: Source::Network, kind, payload, timestamp: now }
}

/// The report that a message of the kernel calls for: a link that goes up or
/// down, a change of the default route, an address that comes or goes.
pub open spec fn netlink_report(m: NetlinkMessage, now: u64) -> Option<RawView> {
    match m {
        NetlinkMessage::NewLink { index, flags, attrs } => match link_name(attrs@) {
            Some(name) => Some(
                report(
                    if flags & LINK_UP != 0 {
                        "link.up"@
                    } else {
                        "link.down"@
                    },
                    Json::empty().with("ifname"@, Json::Text(name)).with(
                        "index"@,
                        Json::Num(Numeral::PosInt(index as u64)),
                    ).with("mtu"@, link_number(attrs@, 0)).with(
                        "netns_id"@,
                        link_number(attrs@, 1),
                    ).with("netns_fd"@, link_number(attrs@, 2)),
                    now,
                ),
            ),
            None => None,
        },
        NetlinkMessage::NewRoute { prefix_len, table, route: attrs } => if prefix_len == 0 {
            Some(
                report(
                    "route.default.changed"@,
                    Json::empty().with("gateway"@, known_text(route_gateway(attrs@))).with(
                        "table"@,
                        Json::Num(Numeral::PosInt(table as u64)),
                    ),
                    now,
                ),
            )
        } else {
            None
        },
        NetlinkMessage::NewAddress { address } => Some(
            report("address.added"@, address_facts(address), now),
        ),
        NetlinkMessage::DelAddress { address } => Some(
            report("address.removed"@, address_facts(address), now),
        ),
        NetlinkMessage::Other => None,
    }
}

fn name_of(attrs: &Vec<LinkAttr>) -> (r: Option<String>)
    ensures
        r.deep_view() == link_name(attrs@),
{
    let mut found: Option<String> = None;
    let mut i: usize = 0;
    assert(attrs@.take(0) =~= Seq::empty());
    while i < attrs.len()
        invariant
            i <= attrs.len(),
            found.deep_view() == link_name(attrs@.take(i as int)),
        decreases attrs.len() - i,
    {
        proof {
            assert(attrs@.take(i + 1).drop_last() =~= attrs@.take(i as int));
            assert(attrs@.take(i + 1).last() == attrs@[i as int]);
        }
        if found.is_none() {
            if let LinkAttr::IfName(n) = &attrs[i] {
                found = Some(n.clone());
            }
        }
        i += 1;
    }
    assert(attrs@.take(attrs@.len() as int) =~= attrs@);
    found
}

fn number_of(attrs: &Vec<LinkAttr>, kind: u8) -> (r: JsonValue)
    ensures
        r@ == link_number(attrs@, kind as int),
{
    let mut found: JsonValue = JsonValue::Null;
    let mut i: usize = 0;
    assert(attrs@.take(0) =~= Seq::empty());
    while i < attrs.len()
        invariant
            i <= attrs.len(),
            found@ == link_number(attrs@.take(i as int), kind as int),
        decreases attrs.len() - i,
    {
        proof {
            assert(attrs@.take(i + 1).drop_last() =~= attrs@.take(i as int));
            assert(attrs@.take(i + 1).last() == attrs@[i as int]);
        }
        if let JsonValue::Null = found {
            match &attrs[i] {
                LinkAttr::Mtu(n) => {
                    if kind == 0 {
                        found = JsonValue::of_u64(*n as u64);
                    }
                },
                LinkAttr::NetnsId(n) => {
                    if kind == 1 {
                        found = snapshot::integer_value(*n as i64);
                    }
                },
                LinkAttr::NetNsFd(n) => {
                    if kind == 2 {
                        found = snapshot::integer_value(*n as i64);
                    }
                },
                _ => {},
            }
        }
        i += 1;
    }
    assert(attrs@.take(attrs@.len() as int) =~= attrs@);
    found
}

fn gateway_of(attrs: &Vec<RouteAttr>) -> (r: JsonValue)
    ensures
        r@ == known_text(route_gateway(attrs@)),
{
    let mut i: usize = 0;
    assert(attrs@.take(0) =~= Seq::empty());
    while i < attrs.len()
        invariant
            i <= attrs.len(),
            route_gateway(attrs@.take(i as int)) is None,
        decreases attrs.len() - i,
    {
        proof {
            assert(attrs@.take(i + 1).drop_last() =~= attrs@.take(i as int));
            assert(attrs@.take(i + 1).last() == attrs@[i as int]);
        }
        if let RouteAttr::Gateway(g) = &attrs[i] {
            proof {
                lemma_gateway_stays(attrs@, i + 1);
            }
            return JsonValue::of_option(g);
        }
        i += 1;
    }
    assert(attrs@.take(attrs@.len() as int) =~= attrs@);
    JsonValue::Null
}

proof fn lemma_gateway_stays(attrs: Seq<RouteAttr>, n: int)
    requires
        0 <= n <= attrs.len(),
        route_gateway(attrs.take(n)) is Some,
    ensures
        route_gateway(attrs) == route_gateway(attrs.take(n)),
    decreases attrs.len() - n,
{
    if n < attrs.len() {
        assert(attrs.take(n + 1).drop_last() =~= attrs.take(n));
        lemma_gateway_stays(attrs, n + 1);
    } else {
        assert(attrs.take(n) =~= attrs);
    }
}

fn address_text(attrs: &Vec<AddressAttr>) -> (r: JsonValue)
    ensures
        r@ == known_text(first_address(attrs@)),
{
    let mut i: usize = 0;
    assert(attrs@.take(0) =~= Seq::empty());
    while i < attrs.len()
        invariant
            i <= attrs.len(),
            first_address(attrs@.take(i as int)) is None,
        decreases attrs.len() - i,
    {
        proof {
            assert(attrs@.take(i + 1).drop_last() =~= attrs@.take(i as int));
            assert(attrs@.take(i + 1).last() == attrs@[i as int]);
        }
        if let AddressAttr::Address(a) = &attrs[i] {
            proof {
                lemma_address_stays(attrs@, i + 1);
            }
            return JsonValue::of_option(a);
        }
        i += 1;
    }
    assert(attrs@.take(attrs@.len() as int) =~= attrs@);
    JsonValue::Null
}

proof fn lemma_address_stays(attrs: Seq<AddressAttr>, n: int)
    requires
        0 <= n <= attrs.len(),
        first_address(attrs.take(n)) is Some,
    ensures
        first_address(attrs) == first_address(attrs.take(n)),
    decreases attrs.len() - n,
{
    if n < attrs.len() {
        assert(attrs.take(n + 1).drop_last() =~= attrs.take(n));
        lemma_address_stays(attrs, n + 1);
    } else {
        assert(attrs.take(n) =~= attrs);
    }
}

fn label_of(attrs: &Vec<AddressAttr>) -> (r: Option<String>)
    ensures
        r.deep_view() == first_label(attrs@),
{
    let mut found: Option<String> = None;
    let mut i: usize = 0;
    assert(attrs@.take(0) =~= Seq::empty());
    while i < attrs.len()
        invariant
            i <= attrs.len(),
            found.deep_view() == first_label(attrs@.take(i as int)),
        decreases attrs.len() - i,
    {
        proof {
            assert(attrs@.take(i + 1).drop_last() =~= attrs@.take(i as int));
            assert(attrs@.take(i + 1).last() == attrs@[i as int]);
        }
        if found.is_none() {
            if let AddressAttr::Label(l) = &attrs[i] {
                found = Some(l.clone());
            }
        }
        i += 1;
    }
    assert(attrs@.take(attrs@.len() as int) =~= attrs@);
    found
}

fn facts_of(m: &AddressMessage) -> (r: JsonValue)
    ensures
        r@ == address_facts(*m),
{
    JsonValue::empty().with("ifindex", JsonValue::of_u64(m.index as u64)).with(
        "prefix_len",
        JsonValue::of_u64(m.prefix_len as u64),
    ).with("family", JsonValue::of_u64(m.family as u64)).with(
        "address",
        address_text(&m.attrs),
    ).with("label", JsonValue::of_option(&label_of(&m.attrs)))
}

fn network_event(kind: &str, payload: JsonValue, now: u64) -> (r: RawEvent)
    ensures
        r.deep_view() == report(kind@, payload@, now),
{
    RawEvent { source: AdapterSource::Network, kind: kind.to_owned(), payload, timestamp: now }
}

/// The report that a message of the kernel calls for.
pub fn netlink_event(m: &NetlinkMessage, now: u64) -> (r: Option<RawEvent>)
    ensures
        r.deep_view() == netlink_report(*m, now),
{
    match m {
        NetlinkMessage::NewLink { index, flags, attrs } => match name_of(attrs) {
            Some(name) => {
                let kind = if *flags & LINK_UP != 0 {
                    "link.up"
                } else {
                    "link.down"
                };
                let payload = JsonValue::empty().with(
                    "ifname",
                    JsonValue::of_text(name.as_str()),
                ).with("index", JsonValue::of_u64(*index as u64)).with(
                    "mtu",
                    number_of(attrs, 0),
                ).with("netns_id", number_of(attrs, 1)).with("netns_fd", number_of(attrs, 2));
                Some(network_event(kind, payload, now))
            },
            None => None,
        },
        NetlinkMessage::NewRoute { prefix_len, table, route: attrs } => {
            if *prefix_len == 0 {
                let payload = JsonValue::empty().with("gateway", gateway_of(attrs)).with(
                    "table",
                    JsonValue::of_u64(*table as u64),
                );
                Some(network_event("route.default.changed", payload, now))
            } else {
                None
            }
        },
        NetlinkMessage::NewAddress { address } => Some(
            network_event("address.added", facts_of(address), now),
        ),
        NetlinkMessage::DelAddress { address } => Some(
            network_event("address.removed", facts_of(address), now),
        ),
        NetlinkMessage::Other => None,
    }
}

/// The text of an address of four bytes.
pub open spec fn dotted(b: Seq<u8>) -> Seq<char> {
    text::decimal(b[0] as nat) + "."@ + text::decimal(b[1] as nat) + "."@ + text::decimal(
        b[2] as nat,
    ) + "."@ + text::decimal(b[3] as nat)
}

/// The text of an address of four bytes; addresses of other lengths have none
/// here.
pub fn ipv4_from_bytes(bytes: &Vec<u8>) -> (r: Option<String>)
    ensures
        r.deep_view() == (if bytes.len() == 4 {
            Some(dotted(bytes@))
        } else {
            None
        }),
{
    if bytes.len() != 4 {
        return None;
    }
    let mut r = text::decimal_u64(bytes[0] as u64);
    r.append(".");
    r.append(text::decimal_u64(bytes[1] as u64).as_str());
    r.append(".");
    r.append(text::decimal_u64(bytes[2] as u64).as_str());
    r.append(".");
    r.append(text::decimal_u64(bytes[3] as u64).as_str());
    Some(r)
}

/// The name of a link is the first that the message gives.
pub proof fn law_first_name_counts(attrs: Seq<LinkAttr>, i: int)
    ensures
        0 <= i < attrs.len() && (forall|j: int|
            0 <= j < i ==> !(#[trigger] attrs[j] is IfName)) ==> (attrs[i] matches LinkAttr::IfName(x) ==> link_name(attrs) == Some(x@)),
        (forall|j: int| 0 <= j < attrs.len() ==> !(#[trigger] attrs[j] is IfName)) ==> link_name(attrs) is None,
    decreases attrs.len(),
{
    if attrs.len() > 0 {
        let rest = attrs.drop_last();
        assert forall|j: int| 0 <= j < rest.len() implies #[trigger] rest[j] == attrs[j] by {}
        law_first_name_counts(rest, i);
        if 0 <= i < rest.len() {
            assert(rest[i] == attrs[i]);
        }
    }
}

/// The largest size of a packet is the first that the message gives.
pub proof fn law_first_mtu_counts(attrs: Seq<LinkAttr>, i: int)
    ensures
        0 <= i < attrs.len() && (forall|j: int|
            0 <= j < i ==> !(#[trigger] attrs[j] is Mtu)) ==> (attrs[i] matches LinkAttr::Mtu(x) ==> link_number(attrs, 0) == Json::Num(Numeral::PosInt(x as u64))),
        (forall|j: int| 0 <= j < attrs.len() ==> !(#[trigger] attrs[j] is Mtu)) ==> link_number(attrs, 0) == Json::Null,
    decreases attrs.len(),
{
    if attrs.len() > 0 {
        let rest = attrs.drop_last();
        assert forall|j: int| 0 <= j < rest.len() implies #[trigger] rest[j] == attrs[j] by {}
        law_first_mtu_counts(rest, i);
        if 0 <= i < rest.len() {
            assert(rest[i] == attrs[i]);
        }
    }
}

/// The gateway of a route is the first that the message gives.
pub proof fn law_first_gateway_counts(attrs: Seq<RouteAttr>, i: int)
    ensures
        0 <= i < attrs.len() && (forall|j: int|
            0 <= j < i ==> !(#[trigger] attrs[j] is Gateway)) ==> (attrs[i] matches RouteAttr::Gateway(x) ==> route_gateway(attrs) == Some(x.deep_view())),
        (forall|j: int| 0 <= j < attrs.len() ==> !(#[trigger] attrs[j] is Gateway)) ==> route_gateway(attrs) is None,
    decreases attrs.len(),
{
    if attrs.len() > 0 {
        let rest = attrs.drop_last();
        assert forall|j: int| 0 <= j < rest.len() implies #[trigger] rest[j] == attrs[j] by {}
        law_first_gateway_counts(rest, i);
        if 0 <= i < rest.len() {
            assert(rest[i] == attrs[i]);
        }
    }
}

/// The address is the first that the message gives.
pub proof fn law_first_address_counts(attrs: Seq<AddressAttr>, i: int)
    ensures
        0 <= i < attrs.len() && (forall|j: int|
            0 <= j < i ==> !(#[trigger] attrs[j] is Address)) ==> (attrs[i] matches AddressAttr::Address(x) ==> first_address(attrs) == Some(x.deep_view())),
        (forall|j: int| 0 <= j < attrs.len() ==> !(#[trigger] attrs[j] is Address)) ==> first_address(attrs) is None,
    decreases attrs.len(),
{
    if attrs.len() > 0 {
        let rest = attrs.drop_last();
        assert forall|j: int| 0 <= j < rest.len() implies #[trigger] rest[j] == attrs[j] by {}
        law_first_address_counts(rest, i);
        if 0 <= i < rest.len() {
            assert(rest[i] == attrs[i]);
        }
    }
}

/// The label is the first that the message gives.
pub proof fn law_first_label_counts(attrs: Seq<AddressAttr>, i: int)
    ensures
        0 <= i < attrs.len() && (forall|j: int|
            0 <= j < i ==> !(#[trigger] attrs[j] is Label)) ==> (attrs[i] matches AddressAttr::Label(x) ==> first_label(attrs) == Some(x@)),
        (forall|j: int| 0 <= j < attrs.len() ==> !(#[trigger] attrs[j] is Label)) ==> first_label(attrs) is None,
    decreases attrs.len(),
{
    if attrs.len() > 0 {
        let rest = attrs.drop_last();
        assert forall|j: int| 0 <= j < rest.len() implies #[trigger] rest[j] == attrs[j] by {}
        law_first_label_counts(rest, i);
        if 0 <= i < rest.len() {
            assert(rest[i] == attrs[i]);
        }
    }
}

/// A message on a link that has a name is reported as `link.up` or `link.down` by its
/// lowest flag, with the name and the number of the link.
pub proof fn law_links_are_reported_by_their_flag(
    index: u32,
    flags: u32,
    attrs: Vec<LinkAttr>,
    now: u64,
    name: Seq<char>,
)
    requires
        link_name(attrs@) == Some(name),
    ensures
        netlink_report(NetlinkMessage::NewLink { index, flags, attrs }, now) matches Some(r) && {
            &&& flags & 1u32 != 0 ==> r.kind == "link.up"@
            &&& flags & 1u32 == 0 ==> r.kind == "link.down"@
            &&& r.source == Source::Network && r.timestamp == now
            &&& r.payload.get("ifname"@) == Some(Json::Text(name))
            &&& r.payload.get("index"@) == Some(Json::Num(Numeral::PosInt(index as u64)))
            &&& r.payload.get("mtu"@) == Some(link_number(attrs@, 0))
            &&& r.payload.get("netns_id"@) == Some(link_number(attrs@, 1))
            &&& r.payload.get("netns_fd"@) == Some(link_number(attrs@, 2))
            &&& r.payload.get("online"@) is None
        },
{
    reveal_strlit("ifname");
    reveal_strlit("index");
    reveal_strlit("mtu");
    reveal_strlit("netns_id");
    reveal_strlit("netns_fd");
    reveal_strlit("online");
    assert("ifname"@.len() == 6);
    assert("index"@.len() == 5);
    assert("mtu"@.len() == 3);
    assert("netns_id"@.len() == 8);
    assert("netns_fd"@.len() == 8);
    assert("online"@.len() == 6);
    assert("ifname"@[0] != "online"@[0]);
    assert("netns_id"@[6] != "netns_fd"@[6]);
}

/// A link that comes up has the machine online in the state, and one that goes down
/// does not.
pub proof fn law_links_reach_the_state(
    n: normalizer::NormalizerView,
    index: u32,
    flags: u32,
    attrs: Vec<LinkAttr>,
    now: u64,
    s: RuntimeView,
)
    requires
        link_name(attrs@) is Some,
    ensures
        netlink_report(NetlinkMessage::NewLink { index, flags, attrs }, now) matches Some(r) && ({
            let events = normalizer::translated(n, r);
            &&& events.len() == 1
            &&& events[0].event == (if flags & 1u32 != 0 {
                "bread.network.connected"@
            } else {
                "bread.network.disconnected"@
            })
            &&& state_engine::after_event(s, events[0].event, events[0].data).network.online == (
            flags & 1u32 != 0)
        }),
{
    law_links_are_reported_by_their_flag(index, flags, attrs, now, link_name(attrs@)->0);
    let r = netlink_report(NetlinkMessage::NewLink { index, flags, attrs }, now)->0;
    normalizer::law_network_reports_say_what_happened(n, r);
    normalizer::law_network_reports_reach_the_state(n, r, s);
}

/// An address that the machine gets is reported as `address.added` and one that it
/// loses as `address.removed`, with what the message says of it; a route is reported
/// where it leads everywhere, with its gateway.
pub proof fn law_addresses_and_routes_are_reported(
    address: AddressMessage,
    prefix_len: u8,
    table: u8,
    route: Vec<RouteAttr>,
    now: u64,
)
    ensures
        netlink_report(NetlinkMessage::NewAddress { address }, now) matches Some(r) && r.kind
            == "address.added"@ && r.source == Source::Network && r.timestamp == now && ({
            let p = r.payload;
            &&& p.get("ifindex"@) == Some(Json::Num(Numeral::PosInt(address.index as u64)))
            &&& p.get("prefix_len"@) == Some(Json::Num(Numeral::PosInt(address.prefix_len as u64)))
            &&& p.get("family"@) == Some(Json::Num(Numeral::PosInt(address.family as u64)))
            &&& first_address(address.attrs@) matches Some(Some(t)) ==> p.get("address"@) == Some(
                Json::Text(t),
            )
            &&& first_label(address.attrs@) matches Some(t) ==> p.get("label"@) == Some(
                Json::Text(t),
            )
            &&& p.get("online"@) is None
        }),
        netlink_report(NetlinkMessage::DelAddress { address }, now) matches Some(r) && r.kind
            == "address.removed"@ && r.source == Source::Network && r.timestamp == now
            && netlink_report(NetlinkMessage::NewAddress { address }, now) == Some(
            (RawView { kind: "address.added"@, ..r }),
        ),
        prefix_len != 0 ==> netlink_report(
            NetlinkMessage::NewRoute { prefix_len, table, route },
            now,
        ) is None,
        prefix_len == 0 ==> (netlink_report(
            NetlinkMessage::NewRoute { prefix_len, table, route },
            now,
        ) matches Some(r) && r.kind == "route.default.changed"@ && r.source == Source::Network
            && r.timestamp == now && r.payload.get("table"@) == Some(
            Json::Num(Numeral::PosInt(table as u64)),
        ) && r.payload.get("gateway"@) == Some(
            match route_gateway(route@) {
                Some(Some(t)) => Json::Text(t),
                _ => Json::Null,
            },
        )),
        netlink_report(NetlinkMessage::Other, now) is None,
{
    reveal_strlit("ifindex");
    reveal_strlit("prefix_len");
    reveal_strlit("family");
    reveal_strlit("address");
    reveal_strlit("label");
    reveal_strlit("online");
    reveal_strlit("gateway");
    reveal_strlit("table");
    assert("ifindex"@.len() == 7);
    assert("prefix_len"@.len() == 10);
    assert("family"@.len() == 6);
    assert("address"@.len() == 7);
    assert("label"@.len() == 5);
    assert("online"@.len() == 6);
    assert("gateway"@.len() == 7);
    assert("table"@.len() == 5);
    assert("ifindex"@[0] != "address"@[0]);
    assert("ifindex"@[0] != "gateway"@[0]);
    assert("family"@[0] != "online"@[0]);
    assert("address"@[0] != "gateway"@[0]);
    assert("label"@[0] != "table"@[0]);
}

/// An address of four bytes is their decimal numbers with dots between them.
pub proof fn law_dotted_address_splits_into_its_bytes(b: Seq<u8>)
    requires
        b.len() == 4,
    ensures
        text::split(dotted(b), '.') == seq![
            text::decimal(b[0] as nat),
            text::decimal(b[1] as nat),
            text::decimal(b[2] as nat),
            text::decimal(b[3] as nat),
        ],
{
    reveal_strlit(".");
    assert("."@ =~= seq!['.']);
    let (w, x, y, z) = (
        text::decimal(b[0] as nat),
        text::decimal(b[1] as nat),
        text::decimal(b[2] as nat),
        text::decimal(b[3] as nat),
    );
    lemma_plain(b[0] as nat);
    lemma_plain(b[1] as nat);
    lemma_plain(b[2] as nat);
    lemma_plain(b[3] as nat);
    text::lemma_split_joined(w + seq!['.'] + x + seq!['.'] + y, '.', z);
    text::lemma_split_joined(w + seq!['.'] + x, '.', y);
    text::lemma_split_joined(w, '.', x);
    assert(text::split(dotted(b), '.') =~= seq![w, x, y, z]);
}

proof fn lemma_plain(n: nat)
    ensures
        text::split(text::decimal(n), '.') == seq![text::decimal(n)],
{
    let d = text::decimal(n);
    text::lemma_decimal_is_digits(n);
    text::lemma_index_from(d, '.', 0);
    assert(d.subrange(0, d.len() as int) =~= d);
    assert(text::split(d, '.') =~= seq![d]);
}

/// Each number of a link is that of its own attribute.
pub proof fn law_numbers_are_those_of_their_attribute(n: u32, z: i32)
    ensures
        link_number(seq![LinkAttr::Mtu(n)], 0) == Json::Num(Numeral::PosInt(n as u64)),
        link_number(seq![LinkAttr::Mtu(n)], 1) == Json::Null,
        link_number(seq![LinkAttr::Mtu(n)], 2) == Json::Null,
        link_number(seq![LinkAttr::NetnsId(z)], 0) == Json::Null,
        link_number(seq![LinkAttr::NetnsId(z)], 1) == snapshot::integer_json(z as int),
        link_number(seq![LinkAttr::NetnsId(z)], 2) == Json::Null,
        link_number(seq![LinkAttr::NetNsFd(z)], 0) == Json::Null,
        link_number(seq![LinkAttr::NetNsFd(z)], 1) == Json::Null,
        link_number(seq![LinkAttr::NetNsFd(z)], 2) == snapshot::integer_json(z as int),
{
    reveal_with_fuel(link_number, 2);
    assert(seq![LinkAttr::Mtu(n)].drop_last() =~= Seq::empty());
    assert(seq![LinkAttr::NetnsId(z)].drop_last() =~= Seq::empty());
    assert(seq![LinkAttr::NetNsFd(z)].drop_last() =~= Seq::empty());
}

} // verus!
