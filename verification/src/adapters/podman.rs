//! What podman says of containers.

use crate::events::{AdapterSource, RawEvent, RawView, Source};
use crate::json::{Json, JsonValue};
use crate::normalizer;
use crate::text;
use crate::wire;
use vstd::prelude::*;

verus! {

/// Listens to podman.
#[derive(Debug, Clone, Copy)]
pub struct PodmanAdapter;

impl PodmanAdapter {
    /// The adapter.
    pub fn new() -> (r: Self)
        ensures
            r == PodmanAdapter,
    {
        PodmanAdapter
    }
}

impl Default for PodmanAdapter {
    fn default() -> (r: Self)
        ensures
            r == PodmanAdapter,
    {
        PodmanAdapter::new()
    }
}

/// The text under `key` of the value `v`, or `unknown` where there is none.
pub open spec fn text_or_unknown(v: Option<Json>, key: Seq<char>) -> Seq<char> {
    match v {
        Some(v) => v.text_or(key, "unknown"@),
        None => "unknown"@,
    }
}

fn known_text(v: Option<&JsonValue>, key: &str) -> (r: String)
    ensures
        r@ == text_or_unknown(v.deep_view(), key@),
{
    match v {
        Some(v) => v.text_or(key, "unknown"),
        None => "unknown".to_owned(),
    }
}

/// The kind and the payload of the report that an event of podman calls for.
/// A container that ends is told of once, by its death: that it was stopped or
/// removed is not told again.
pub open spec fn podman_report(value: Json) -> Option<(Seq<char>, Json)> {
    let actor = value.get("Actor"@);
    let attributes = match actor {
        Some(a) => a.get("Attributes"@),
        None => None,
    };
    let id = Json::Text(text_or_unknown(actor, "ID"@));
    let name = Json::Text(text_or_unknown(attributes, "name"@));
    let action = value.text("Action"@);
    if value.text("Type"@) != Some("container"@) {
        None
    } else if action == Some("start"@) {
        Some(
            (
                "container.started"@,
                Json::empty().with("id"@, id).with("name"@, name).with(
                    "image"@,
                    Json::Text(text_or_unknown(attributes, "image"@)),
                ),
            ),
        )
    } else if action == Some("died"@) {
        Some(("container.stopped"@, Json::empty().with("id"@, id).with("name"@, name)))
    } else if action == Some("health_status"@) {
        Some(
            (
                "container.health_status"@,
                Json::empty().with("id"@, id).with("name"@, name).with(
                    "health"@,
                    Json::Text(text_or_unknown(attributes, "health_status"@)),
                ),
            ),
        )
    } else {
        None
    }
}

/// The kind and the payload of the report that an event of podman calls for.
pub fn map_podman_event(value: &JsonValue) -> (r: Option<(String, JsonValue)>)
    ensures
        r.deep_view() == podman_report(value@),
{
    match value.text("Type") {
        Some(t) => {
            if !text::same(t, "container") {
                return None;
            }
        },
        None => {
            return None;
        },
    }
    let action = match value.text("Action") {
        Some(a) => a,
        None => {
            return None;
        },
    };
    let actor = value.get("Actor");
    let attributes = match actor {
        Some(a) => a.get("Attributes"),
        None => None,
    };
    let id = known_text(actor, "ID");
    let name = known_text(attributes, "name");
    let base = JsonValue::empty().with("id", JsonValue::of_text(id.as_str())).with(
        "name",
        JsonValue::of_text(name.as_str()),
    );
    if text::same(action, "start") {
        let image = known_text(attributes, "image");
        Some(
            (
                "container.started".to_owned(),
                base.with("image", JsonValue::of_text(image.as_str())),
            ),
        )
    } else if text::same(action, "died") {
        Some(("container.stopped".to_owned(), base))
    } else if text::same(action, "health_status") {
        let health = known_text(attributes, "health_status");
        Some(
            (
                "container.health_status".to_owned(),
                base.with("health", JsonValue::of_text(health.as_str())),
            ),
        )
    } else {
        None
    }
}

/// The report that a parsed line of podman's output calls for.
pub open spec fn line_report(parsed: Option<Json>, now: u64) -> Option<RawView> {
    match parsed {
        Some(v) => match podman_report(v) {
            Some((kind, payload)) => Some(
                RawView { source: Source::Podman, kind, payload, timestamp: now },
            ),
            None => None,
        },
        None => None,
    }
}

/// The report that a parsed line of podman's output calls for.
pub fn podman_event(parsed: Option<JsonValue>, now: u64) -> (r: Option<RawEvent>)
    ensures
        r.deep_view() == line_report(parsed.deep_view(), now),
{
    match parsed {
        Some(v) => match map_podman_event(&v) {
            Some((kind, payload)) => Some(
                RawEvent { source: AdapterSource::Podman, kind, payload, timestamp: now },
            ),
            None => None,
        },
        None => None,
    }
}

/// The report that a line of podman's output calls for. A blank line, and one
/// that is no JSON text, is passed over.
pub fn parse_podman_line(line: &str, now: u64) -> (r: Option<RawEvent>)
    ensures
        r.deep_view() == (if text::trimmed(line@).len() == 0 {
            None
        } else {
            line_report(wire::json_parsed(line@), now)
        }),
{
    if text::trim(line).as_str().is_empty() {
        return None;
    }
    podman_event(wire::parse(line), now)
}

/// A container that starts is reported as `container.started`, one whose process has
/// ended as `container.stopped`, and one whose health was looked at as
/// `container.health_status`; each report names the container and tells its image or
/// its health. Other actions, and what is no container, are passed over.
pub proof fn law_containers_are_reported(
    value: Json,
    actor: Json,
    attributes: Json,
    action: Seq<char>,
    now: u64,
)
    requires
        value.get("Action"@) == Some(Json::Text(action)),
        value.get("Actor"@) == Some(actor),
        actor.get("Attributes"@) == Some(attributes),
    ensures
        ({
            let text = |v: Json, key: Seq<char>|
                match v.get(key) {
                    Some(Json::Text(t)) => Some(Json::Text(t)),
                    _ => Some(Json::Text("unknown"@)),
                };
            let report = podman_report(value);
            let container = value.get("Type"@) == Some(Json::Text("container"@));
            &&& !container ==> report is None
            &&& action != "start"@ && action != "died"@ && action != "health_status"@ ==> report is None
            &&& container && action == "start"@ ==> (report matches Some((kind, payload)) && kind
                == "container.started"@ && payload.get("image"@) == text(attributes, "image"@))
            &&& container && action == "died"@ ==> (report matches Some((kind, payload)) && kind
                == "container.stopped"@)
            &&& container && action == "health_status"@ ==> (report matches Some((kind, payload))
                && kind == "container.health_status"@ && payload.get("health"@) == text(
                attributes,
                "health_status"@,
            ))
            &&& report matches Some((kind, payload)) ==> payload.get("id"@) == text(actor, "ID"@)
                && payload.get("name"@) == text(attributes, "name"@) && line_report(
                Some(value),
                now,
            ) == Some(RawView { source: Source::Podman, kind, payload, timestamp: now })
        }),
{
    reveal_strlit("start");
    reveal_strlit("died");
    reveal_strlit("health_status");
    reveal_strlit("id");
    reveal_strlit("name");
    reveal_strlit("image");
    reveal_strlit("health");
    assert("start"@.len() == 5);
    assert("died"@.len() == 4);
    assert("health_status"@.len() == 13);
    assert("id"@.len() == 2);
    assert("name"@.len() == 4);
    assert("image"@.len() == 5);
    assert("health"@.len() == 6);
    assert("start"@[0] != "image"@[0]);
    assert("died"@[0] != "name"@[0]);
}

/// A container that starts is told of as `bread.container.started`, one that stops
/// as `bread.container.stopped`, and one whose health was looked at as
/// `bread.container.health.changed`.
pub proof fn law_containers_reach_the_events(
    n: normalizer::NormalizerView,
    value: Json,
    actor: Json,
    attributes: Json,
    action: Seq<char>,
    now: u64,
)
    requires
        value.get("Type"@) == Some(Json::Text("container"@)),
        value.get("Action"@) == Some(Json::Text(action)),
        value.get("Actor"@) == Some(actor),
        actor.get("Attributes"@) == Some(attributes),
        action == "start"@ || action == "died"@ || action == "health_status"@,
    ensures
        line_report(Some(value), now) matches Some(r) && ({
            let event = normalizer::translated(n, r)[0].event;
            &&& action == "start"@ ==> event == "bread.container.started"@
            &&& action == "died"@ ==> event == "bread.container.stopped"@
            &&& action == "health_status"@ ==> event == "bread.container.health.changed"@
        }),
{
    law_containers_are_reported(value, actor, attributes, action, now);
    let r = line_report(Some(value), now)->0;
    normalizer::law_reports_are_carried_on(n, r, ""@);
    reveal_strlit("start");
    reveal_strlit("died");
    reveal_strlit("health_status");
    reveal_strlit("bread.");
    reveal_strlit("container.started");
    reveal_strlit("container.stopped");
    reveal_strlit("container.health_status");
    reveal_strlit("bread.container.started");
    reveal_strlit("bread.container.stopped");
    assert("start"@.len() == 5);
    assert("died"@.len() == 4);
    assert("health_status"@.len() == 13);
    assert("bread."@.len() == 6);
    assert("container.started"@.len() == 17);
    assert("container.stopped"@.len() == 17);
    assert("container.health_status"@.len() == 23);
    assert("bread.container.started"@.len() == 23);
    assert("bread.container.stopped"@.len() == 23);
    assert("container.started"@[12] != "container.stopped"@[12]);
    assert("container.health_status"@[0] != "bread.container.started"@[0]);
    assert("container.health_status"@[0] != "bread.container.stopped"@[0]);
    assert("bread.container.started"@[18] != "bread.container.stopped"@[18]);
    assert("bread."@ + "container.started"@ =~= "bread.container.started"@);
    assert("bread."@ + "container.stopped"@ =~= "bread.container.stopped"@);
}

} // verus!
