//! What systemd says of the units that are watched.

use super::bus::{BodyView, BusBody, BusMessage, BusView};
use crate::events::{AdapterSource, RawEvent, RawView, Source};
use crate::json::{self, Json, JsonValue};
use crate::normalizer;
use crate::text;
use vstd::prelude::*;

verus! {

/// Watches the units that are named.
#[derive(Debug)]
pub struct SystemdAdapter {
    units: Vec<String>,
}

impl SystemdAdapter {
    /// The units that are watched.
    pub closed spec fn watched(&self) -> Seq<Seq<char>> {
        self.units.deep_view()
    }

    /// The adapter for the given units.
    pub fn new(units: Vec<String>) -> (r: Self)
        ensures
            r.watched() == units.deep_view(),
    {
        SystemdAdapter { units }
    }

    /// The units that are watched.
    pub fn units(&self) -> (r: &Vec<String>)
        ensures
            r.deep_view() == self.watched(),
    {
        &self.units
    }
}

/// What has become of a unit, by the state in which a job left it. A failure is
/// told of by the change of properties, and a state on the way to another not
/// at all.
pub open spec fn resting_kind(state: Seq<char>) -> Option<Seq<char>> {
    if state == "active"@ {
        Some("unit.started"@)
    } else if state == "inactive"@ || state == "dead"@ {
        Some("unit.stopped"@)
    } else {
        None
    }
}

/// What has become of a unit, by the state in which a job left it.
pub fn active_state_to_kind(state: &str) -> (r: Option<&'static str>)
    ensures
        match r {
            Some(kind) => resting_kind(state@) == Some(kind@),
            None => resting_kind(state@) is None,
        },
{
    if text::same(state, "active") {
        Some("unit.started")
    } else if text::same(state, "inactive") || text::same(state, "dead") {
        Some("unit.stopped")
    } else {
        None
    }
}

/// Whether changed properties tell of a failure.
pub fn is_failed_transition(changed: &JsonValue) -> (r: bool)
    ensures
        r == (changed@.text("ActiveState"@) == Some("failed"@)),
{
    match changed.text("ActiveState") {
        Some(s) => text::same(s, "failed"),
        None => false,
    }
}

/// Why a unit has failed, where changed properties tell.
pub fn failure_result(changed: &JsonValue) -> (r: Option<String>)
    ensures
        r.deep_view() == changed@.text("Result"@),
{
    changed.owned_text("Result")
}

/// What to do with a message of the bus.
#[derive(Debug)]
pub enum SystemdStep {
    /// Nothing.
    Ignore,
    /// Ask for the state of the unit, and report what has become of it.
    AskState(String),
    /// Report.
    Report(RawEvent),
}

/// What a step stands for.
pub enum StepView {
    Ignore,
    AskState(Seq<char>),
    Report(RawView),
}

impl DeepView for SystemdStep {
    type V = StepView;

    open spec fn deep_view(&self) -> StepView {
        match self {
            SystemdStep::Ignore => StepView::Ignore,
            SystemdStep::AskState(unit) => StepView::AskState(unit@),
            SystemdStep::Report(event) => StepView::Report(event.deep_view()),
        }
    }
}

/// What to do with a message: a job that has ended on a watched unit, or a
/// watched unit that has failed. `units_at` names the units by object path.
pub open spec fn systemd_step(
    m: BusView,
    watched: Seq<Seq<char>>,
    units_at: Map<Seq<char>, Seq<char>>,
    now: u64,
) -> StepView {
    if m.is("org.freedesktop.systemd1.Manager"@, "JobRemoved"@) {
        match m.body {
            BodyView::Job(unit) if watched.contains(unit) => StepView::AskState(unit),
            _ => StepView::Ignore,
        }
    } else if m.is("org.freedesktop.DBus.Properties"@, "PropertiesChanged"@)
        && units_at.contains_key(m.path_or_empty()) {
        match m.body {
            BodyView::Changed(iface, changed, invalidated) if iface
                == "org.freedesktop.systemd1.Unit"@ && changed.text("ActiveState"@) == Some(
                "failed"@,
            ) => StepView::Report(
                RawView {
                    source: Source::Systemd,
                    kind: "unit.failed"@,
                    payload: Json::empty().with(
                        "unit"@,
                        Json::Text(units_at[m.path_or_empty()]),
                    ).with("result"@, json::text_or_null(changed.text("Result"@))),
                    timestamp: now,
                },
            ),
            _ => StepView::Ignore,
        }
    } else {
        StepView::Ignore
    }
}

fn unit_at(pairs: &Vec<(String, String)>, path: &str) -> (r: Option<String>)
    ensures
        match r {
            Some(unit) => crate::types::named(pairs@).contains_key(path@) && unit@
                == crate::types::named(pairs@)[path@],
            None => !crate::types::named(pairs@).contains_key(path@),
        },
{
    let mut i: usize = 0;
    let mut found: Option<String> = None;
    assert(pairs@.take(0) =~= Seq::empty());
    while i < pairs.len()
        invariant
            i <= pairs.len(),
            match found {
                Some(unit) => crate::types::named(pairs@.take(i as int)).contains_key(path@)
                    && unit@ == crate::types::named(pairs@.take(i as int))[path@],
                None => !crate::types::named(pairs@.take(i as int)).contains_key(path@),
            },
        decreases pairs.len() - i,
    {
        proof {
            assert(pairs@.take(i + 1).drop_last() =~= pairs@.take(i as int));
            assert(pairs@.take(i + 1).last() == pairs@[i as int]);
        }
        if text::same(pairs[i].0.as_str(), path) {
            found = Some(pairs[i].1.clone());
        }
        i += 1;
    }
    assert(pairs@.take(pairs@.len() as int) =~= pairs@);
    found
}

/// What to do with a message of the bus.
pub fn handle_message(
    m: &BusMessage,
    units: &Vec<String>,
    path_to_unit: &Vec<(String, String)>,
    now: u64,
) -> (r: SystemdStep)
    ensures
        r.deep_view() == systemd_step(
            m.deep_view(),
            units.deep_view(),
            crate::types::named(path_to_unit@),
            now,
        ),
{
    if m.is_signal("org.freedesktop.systemd1.Manager", "JobRemoved") {
        match &m.body {
            BusBody::Job { unit } => {
                if text::list_has(units, unit.as_str()) {
                    SystemdStep::AskState(unit.clone())
                } else {
                    SystemdStep::Ignore
                }
            },
            _ => SystemdStep::Ignore,
        }
    } else if m.is_signal("org.freedesktop.DBus.Properties", "PropertiesChanged") {
        let path = m.path_text();
        match unit_at(path_to_unit, path.as_str()) {
            Some(unit) => match &m.body {
                BusBody::Changed { iface, changed, invalidated } => {
                    if text::same(iface.as_str(), "org.freedesktop.systemd1.Unit")
                        && is_failed_transition(changed) {
                        let result = failure_result(changed);
                        SystemdStep::Report(
                            RawEvent {
                                source: AdapterSource::Systemd,
                                kind: "unit.failed".to_owned(),
                                payload: JsonValue::empty().with(
                                    "unit",
                                    JsonValue::of_text(unit.as_str()),
                                ).with("result", JsonValue::of_option(&result)),
                                timestamp: now,
                            },
                        )
                    } else {
                        SystemdStep::Ignore
                    }
                },
                _ => SystemdStep::Ignore,
            },
            None => SystemdStep::Ignore,
        }
    } else {
        SystemdStep::Ignore
    }
}

/// The report on a unit that has come to rest in a state, if the state is one of
/// rest.
pub open spec fn unit_report(unit: Seq<char>, state: Seq<char>, now: u64) -> Option<RawView> {
    match resting_kind(state) {
        Some(kind) => Some(
            RawView {
                source: Source::Systemd,
                kind,
                payload: Json::empty().with("unit"@, Json::Text(unit)),
                timestamp: now,
            },
        ),
        None => None,
    }
}

/// The report on a unit that a job has left in the given state.
pub fn job_report(unit: &str, state: &str, now: u64) -> (r: Option<RawEvent>)
    ensures
        r.deep_view() == unit_report(unit@, state@, now),
{
    match active_state_to_kind(state) {
        Some(kind) => Some(
            RawEvent {
                source: AdapterSource::Systemd,
                kind: kind.to_owned(),
                payload: JsonValue::empty().with("unit", JsonValue::of_text(unit)),
                timestamp: now,
            },
        ),
        None => None,
    }
}

/// A unit that was found active is reported as started, and one that was found
/// inactive or dead as stopped; of one in another state nothing is reported. The
/// events are `bread.service.started` and `bread.service.stopped`.
pub proof fn law_units_at_rest_are_reported(
    n: normalizer::NormalizerView,
    unit: Seq<char>,
    state: Seq<char>,
    now: u64,
)
    ensures
        state == "active"@ ==> (unit_report(unit, state, now) matches Some(r) && r.kind
            == "unit.started"@ && normalizer::translated(n, r)[0].event
            == "bread.service.started"@),
        state == "inactive"@ || state == "dead"@ ==> (unit_report(unit, state, now) matches Some(r)
            && r.kind == "unit.stopped"@ && normalizer::translated(n, r)[0].event
            == "bread.service.stopped"@),
        state != "active"@ && state != "inactive"@ && state != "dead"@ ==> unit_report(
            unit,
            state,
            now,
        ) is None,
        unit_report(unit, state, now) matches Some(r) ==> r.source == Source::Systemd
            && r.timestamp == now && r.payload.get("unit"@) == Some(Json::Text(unit)),
{
    reveal_strlit("active");
    reveal_strlit("inactive");
    reveal_strlit("dead");
    reveal_strlit("unit.");
    reveal_strlit("started");
    reveal_strlit("stopped");
    reveal_strlit("unit.started");
    reveal_strlit("unit.stopped");
    reveal_strlit("bread.service.");
    reveal_strlit("bread.service.started");
    reveal_strlit("bread.service.stopped");
    assert("active"@.len() == 6);
    assert("inactive"@.len() == 8);
    assert("dead"@.len() == 4);
    assert("unit."@.len() == 5);
    assert("started"@.len() == 7);
    assert("stopped"@.len() == 7);
    assert("unit.started"@.len() == 12);
    assert("unit.stopped"@.len() == 12);
    assert("bread.service."@.len() == 14);
    assert("bread.service.started"@.len() == 21);
    assert("bread.service.stopped"@.len() == 21);
    assert("started"@[2] != "stopped"@[2]);
    assert("unit.started"@[7] != "unit.stopped"@[7]);
    assert("bread.service.started"@[16] != "bread.service.stopped"@[16]);
    assert("unit.started"@ =~= "unit."@ + "started"@);
    assert("unit.stopped"@ =~= "unit."@ + "stopped"@);
    assert("bread.service."@ + "started"@ =~= "bread.service.started"@);
    assert("bread.service."@ + "stopped"@ =~= "bread.service.stopped"@);
    if let Some(r) = unit_report(unit, state, now) {
        normalizer::law_reports_are_carried_on(n, r, "started"@);
        normalizer::law_reports_are_carried_on(n, r, "stopped"@);
    }
}

/// A watched unit whose job has ended is asked for its state, and one that has
/// failed is reported with the reason, as `bread.service.failed`; units that nobody
/// watches are passed over.
pub proof fn law_watched_units_are_followed(
    n: normalizer::NormalizerView,
    m: BusView,
    watched: Seq<Seq<char>>,
    units_at: Map<Seq<char>, Seq<char>>,
    now: u64,
)
    ensures
        m.interface == Some("org.freedesktop.systemd1.Manager"@) && m.member == Some(
            "JobRemoved"@,
        ) ==> (m.body matches BodyView::Job(unit) ==> {
            &&& watched.contains(unit) ==> systemd_step(m, watched, units_at, now)
                == StepView::AskState(unit)
            &&& !watched.contains(unit) ==> systemd_step(m, watched, units_at, now)
                == StepView::Ignore
        }),
        m.interface == Some("org.freedesktop.DBus.Properties"@) && m.member == Some(
            "PropertiesChanged"@,
        ) ==> (m.path matches Some(path) ==> (m.body matches BodyView::Changed(
            iface,
            changed,
            invalidated,
        ) ==> ({
            let failed = iface == "org.freedesktop.systemd1.Unit"@ && changed.get("ActiveState"@)
                == Some(Json::Text("failed"@));
            &&& !units_at.contains_key(path) || !failed ==> systemd_step(m, watched, units_at, now)
                == StepView::Ignore
            &&& units_at.contains_key(path) && failed ==> (systemd_step(m, watched, units_at, now) matches StepView::Report(r)
                && {
                &&& r.kind == "unit.failed"@
                &&& r.payload.get("unit"@) == Some(Json::Text(units_at[path]))
                &&& changed.get("Result"@) matches Some(Json::Text(t)) ==> r.payload.get("result"@)
                    == Some(Json::Text(t))
                &&& r.source == Source::Systemd && r.timestamp == now
                &&& normalizer::translated(n, r)[0].event == "bread.service.failed"@
            })
        }))),
{
    reveal_strlit("org.freedesktop.systemd1.Manager");
    reveal_strlit("org.freedesktop.DBus.Properties");
    reveal_strlit("JobRemoved");
    reveal_strlit("PropertiesChanged");
    reveal_strlit("unit");
    reveal_strlit("result");
    reveal_strlit("unit.");
    reveal_strlit("failed");
    reveal_strlit("unit.failed");
    reveal_strlit("bread.service.");
    reveal_strlit("bread.service.failed");
    assert("org.freedesktop.systemd1.Manager"@.len() == 32);
    assert("org.freedesktop.DBus.Properties"@.len() == 31);
    assert("JobRemoved"@.len() == 10);
    assert("PropertiesChanged"@.len() == 17);
    assert("unit"@.len() == 4);
    assert("result"@.len() == 6);
    assert("unit."@.len() == 5);
    assert("failed"@.len() == 6);
    assert("unit.failed"@.len() == 11);
    assert("bread.service."@.len() == 14);
    assert("bread.service.failed"@.len() == 20);
    assert("result"@[0] != "failed"@[0]);
    assert("unit.failed"@ =~= "unit."@ + "failed"@);
    assert("bread.service."@ + "failed"@ =~= "bread.service.failed"@);
    if let StepView::Report(r) = systemd_step(m, watched, units_at, now) {
        normalizer::law_reports_are_carried_on(n, r, "failed"@);
    }
}

} // verus!
