//! The power supply as the system's files describe it.

use crate::events::{AdapterSource, RawEvent, RawView, Source};
use crate::json::{Json, JsonValue, Numeral};
use crate::normalizer;
use crate::state_engine;
use crate::text;
use crate::types::RuntimeView;
use vstd::prelude::*;

verus! {

/// Looks at the power supply at intervals.
#[derive(Debug, Clone, Copy)]
pub struct PowerAdapter {
    poll_interval_secs: u64,
}

impl PowerAdapter {
    /// The seconds between two looks that were asked for.
    pub closed spec fn asked(&self) -> u64 {
        self.poll_interval_secs
    }

    /// The adapter with the given seconds between two looks.
    pub fn new(poll_interval_secs: u64) -> (r: Self)
        ensures
            r.asked() == poll_interval_secs,
    {
        PowerAdapter { poll_interval_secs }
    }

    /// The seconds between two looks: what was asked for, and five at least.
    pub fn interval_secs(&self) -> (r: u64)
        ensures
            r == (if self.asked() < 5 {
                5
            } else {
                self.asked()
            }),
    {
        if self.poll_interval_secs < 5 {
            5
        } else {
            self.poll_interval_secs
        }
    }
}

/// What is known of the power supply.
#[derive(Debug, Clone, Copy, PartialEq, Eq, Structural)]
pub struct PowerSnapshot {
    pub ac_connected: bool,
    pub battery_percent: Option<u8>,
}

/// One entry of the system's power supplies: the texts of its files.
#[derive(Debug)]
pub struct SupplyFiles {
    pub kind: String,
    pub online: String,
    pub capacity: String,
}

/// What an entry stands for.
#[verifier::ext_equal]
pub struct SupplyView {
    pub kind: Seq<char>,
    pub online: Seq<char>,
    pub capacity: Seq<char>,
}

impl DeepView for SupplyFiles {
    type V = SupplyView;

    open spec fn deep_view(&self) -> SupplyView {
        SupplyView { kind: self.kind@, online: self.online@, capacity: self.capacity@ }
    }
}

/// What is known after one more entry was looked at.
pub open spec fn with_supply(s: PowerSnapshot, f: SupplyView) -> PowerSnapshot {
    let kind = text::trimmed(f.kind);
    if text::same_but_case(kind, "Mains"@) || text::same_but_case(kind, "USB"@) {
        PowerSnapshot {
            ac_connected: s.ac_connected || text::trimmed(f.online) == "1"@,
            ..s
        }
    } else if text::same_but_case(kind, "Battery"@) {
        match text::unsigned(text::trimmed(f.capacity), 255) {
            Some(n) => PowerSnapshot {
                battery_percent: Some(
                    if n > 100 {
                        100u8
                    } else {
                        n as u8
                    },
                ),
                ..s
            },
            None => s,
        }
    } else {
        s
    }
}

/// What the entries tell of the power supply.
pub open spec fn power_snapshot(supplies: Seq<SupplyView>) -> PowerSnapshot
    decreases supplies.len(),
{
    if supplies.len() == 0 {
        PowerSnapshot { ac_connected: false, battery_percent: None }
    } else {
        with_supply(power_snapshot(supplies.drop_last()), supplies.last())
    }
}

/// What the entries tell of the power supply: whether one of them gives mains
/// power, and the charge of the last battery that tells it.
pub fn read_power_state(supplies: &Vec<SupplyFiles>) -> (r: PowerSnapshot)
    ensures
        r == power_snapshot(supplies.deep_view()),
{
    let mut ac_connected = false;
    let mut battery_percent: Option<u8> = None;
    let mut i: usize = 0;
    assert(supplies.deep_view().take(0) =~= Seq::empty());
    while i < supplies.len()
        invariant
            i <= supplies.len(),
            (PowerSnapshot { ac_connected, battery_percent }) == power_snapshot(
                supplies.deep_view().take(i as int),
            ),
        decreases supplies.len() - i,
    {
        let f = &supplies[i];
        proof {
            let t = supplies.deep_view().take(i + 1);
            assert(t.drop_last() =~= supplies.deep_view().take(i as int));
            assert(t.last() == supplies@[i as int].deep_view());
        }
        let kind = text::trim(f.kind.as_str());
        if text::equal_ignoring_case(kind.as_str(), "Mains") || text::equal_ignoring_case(
            kind.as_str(),
            "USB",
        ) {
            if text::same(text::trim(f.online.as_str()).as_str(), "1") {
                ac_connected = true;
            }
        } else if text::equal_ignoring_case(kind.as_str(), "Battery") {
            if let Some(n) = text::parse_u8(text::trim(f.capacity.as_str()).as_str()) {
                battery_percent = Some(
                    if n > 100 {
                        100u8
                    } else {
                        n
                    },
                );
            }
        }
        i += 1;
    }
    assert(supplies.deep_view().take(supplies@.len() as int) =~= supplies.deep_view());
    PowerSnapshot { ac_connected, battery_percent }
}

/// The report on the power supply.
pub open spec fn power_report(s: PowerSnapshot, now: u64) -> RawView {
    RawView {
        source: Source::Power,
        kind: "power.snapshot"@,
        payload: Json::empty().with("ac_connected"@, Json::Bool(s.ac_connected)).with(
            "battery_percent"@,
            match s.battery_percent {
                Some(n) => Json::Num(Numeral::PosInt(n as u64)),
                None => Json::Null,
            },
        ),
        timestamp: now,
    }
}

/// The report on the power supply.
pub fn power_raw_event(snapshot: &PowerSnapshot, now: u64) -> (r: RawEvent)
    ensures
        r.deep_view() == power_report(*snapshot, now),
{
    let percent = match snapshot.battery_percent {
        Some(n) => JsonValue::of_u64(n as u64),
        None => JsonValue::Null,
    };
    RawEvent {
        source: AdapterSource::Power,
        kind: "power.snapshot".to_owned(),
        payload: JsonValue::empty().with(
            "ac_connected",
            JsonValue::Bool(snapshot.ac_connected),
        ).with("battery_percent", percent),
        timestamp: now,
    }
}

/// The report that a look at the power supply calls for: none where it is as at
/// the look before.
pub fn poll_power(last: Option<PowerSnapshot>, current: PowerSnapshot, now: u64) -> (r: Option<
    RawEvent,
>)
    ensures
        r.deep_view() == (if last == Some(current) {
            None
        } else {
            Some(power_report(current, now))
        }),
{
    match last {
        Some(l) if l == current => None,
        _ => Some(power_raw_event(&current, now)),
    }
}

/// The supply is one of those that charge.
pub open spec fn charges(f: SupplyView) -> bool {
    text::same_but_case(text::trimmed(f.kind), "Mains"@) || text::same_but_case(
        text::trimmed(f.kind),
        "USB"@,
    )
}

/// The charger is in exactly when a supply from the mains or over USB says that it
/// is online.
pub proof fn law_any_charger_counts(supplies: Seq<SupplyView>)
    ensures
        power_snapshot(supplies).ac_connected <==> exists|i: int|
            0 <= i < supplies.len() && charges(#[trigger] supplies[i]) && text::trimmed(
                supplies[i].online,
            ) == "1"@,
    decreases supplies.len(),
{
    if supplies.len() > 0 {
        let rest = supplies.drop_last();
        law_any_charger_counts(rest);
        if exists|i: int|
            0 <= i < rest.len() && charges(#[trigger] rest[i]) && text::trimmed(rest[i].online)
                == "1"@ {
            let i = choose|i: int|
                0 <= i < rest.len() && charges(#[trigger] rest[i]) && text::trimmed(rest[i].online)
                    == "1"@;
            assert(charges(supplies[i]));
        }
        if charges(supplies.last()) && text::trimmed(supplies.last().online) == "1"@ {
            assert(charges(supplies[supplies.len() - 1]));
        }
        if exists|i: int|
            0 <= i < supplies.len() && charges(#[trigger] supplies[i]) && text::trimmed(
                supplies[i].online,
            ) == "1"@ {
            let i = choose|i: int|
                0 <= i < supplies.len() && charges(#[trigger] supplies[i]) && text::trimmed(
                    supplies[i].online,
                ) == "1"@;
            if i < rest.len() {
                assert(charges(rest[i]));
            }
        }
    }
}

/// The charge is that of the last battery that tells one, at most a hundred percent.
pub proof fn law_last_battery_counts(supplies: Seq<SupplyView>, i: int, charge: nat)
    requires
        0 <= i < supplies.len(),
        text::same_but_case(text::trimmed(supplies[i].kind), "Battery"@),
        text::unsigned(text::trimmed(supplies[i].capacity), 255) == Some(charge),
        forall|j: int|
            i < j < supplies.len() ==> !text::same_but_case(
                text::trimmed((#[trigger] supplies[j]).kind),
                "Battery"@,
            ),
    ensures
        power_snapshot(supplies).battery_percent matches Some(p) && p == vstd::math::min(
            charge as int,
            100,
        ),
    decreases supplies.len(),
{
    let rest = supplies.drop_last();
    if i < supplies.len() - 1 {
        assert(supplies[supplies.len() - 1] == supplies.last());
        assert forall|j: int| i < j < rest.len() implies !text::same_but_case(
            text::trimmed((#[trigger] rest[j]).kind),
            "Battery"@,
        ) by {
            assert(supplies[j] == rest[j]);
        }
        law_last_battery_counts(rest, i, charge);
    } else {
        let kind = text::trimmed(supplies[i].kind);
        reveal_strlit("Mains");
        reveal_strlit("USB");
        reveal_strlit("Battery");
        assert(text::in_small_letters(kind).len() == kind.len());
        assert(text::in_small_letters("Battery"@).len() == 7);
        assert(text::in_small_letters("Mains"@).len() == 5);
        assert(text::in_small_letters("USB"@).len() == 3);
        assert(kind.len() == 7);
    }
}

/// What a look at the power supply finds is what the state holds after the first
/// event that the report leads to.
pub proof fn law_power_looks_reach_the_state(
    n: normalizer::NormalizerView,
    found: PowerSnapshot,
    now: u64,
    s: RuntimeView,
)
    ensures
        ({
            let event = normalizer::translated(n, power_report(found, now))[0];
            let power = state_engine::after_event(s, event.event, event.data).power;
            &&& found.ac_connected ==> event.event == "bread.power.ac.connected"@
            &&& !found.ac_connected ==> event.event == "bread.power.ac.disconnected"@
            &&& power.ac_connected == found.ac_connected
            &&& found.battery_percent matches Some(p) ==> (power.battery_percent matches Some(kept)
                && kept == vstd::math::min(p as int, 100) && power.battery_low == (p <= 20))
            &&& found.battery_percent is None ==> power.battery_percent == s.power.battery_percent
        }),
{
    reveal_strlit("ac_connected");
    reveal_strlit("battery_percent");
    assert("ac_connected"@.len() == 12);
    assert("battery_percent"@.len() == 15);
    let raw = power_report(found, now);
    normalizer::law_power_reports_say_what_happened(n, raw);
    normalizer::law_power_reports_reach_the_state(n, raw, s);
    let event = normalizer::translated(n, raw)[0];
    state_engine::law_power_events_are_taken_over(s, event.event, event.data);
}

/// Mains and USB supplies charge, in whatever case they are written, and a battery tells
/// its charge, which is at most a hundred.
pub proof fn law_supplies_go_by_their_kind(s: PowerSnapshot, f: SupplyView)
    ensures
        text::trimmed(f.kind) == "Mains"@ ==>
            with_supply(s, f) == (PowerSnapshot { ac_connected: s.ac_connected
            || text::trimmed(f.online) == "1"@, ..s }),
        text::trimmed(f.kind) == "USB"@ ==>
            with_supply(s, f) == (PowerSnapshot { ac_connected: s.ac_connected
            || text::trimmed(f.online) == "1"@, ..s }),
        text::trimmed(f.kind) == "Battery"@ ==>
            (text::unsigned(text::trimmed(f.capacity), 255) matches Some(n) ==> with_supply(s, f)
            == (PowerSnapshot { battery_percent: Some(if n > 100 { 100u8 } else { n as u8 }),
                ..s })),
        text::trimmed(f.kind) == "Battery"@
            && text::unsigned(text::trimmed(f.capacity), 255) is None ==> with_supply(s, f) == s,
        text::trimmed(f.kind).len() == 0 ==> with_supply(s, f) == s,
{
    reveal_strlit("Mains");
    reveal_strlit("USB");
    reveal_strlit("Battery");
    assert("Mains"@.len() == 5 && "USB"@.len() == 3 && "Battery"@.len() == 7);
    assert(text::in_small_letters("Mains"@).len() == 5);
    assert(text::in_small_letters("USB"@).len() == 3);
    assert(text::in_small_letters("Battery"@).len() == 7);
    assert(text::in_small_letters(text::trimmed(f.kind)).len() == text::trimmed(f.kind).len());
}

} // verus!
