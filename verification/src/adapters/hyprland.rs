//! What Hyprland says of windows, workspaces and monitors.

use crate::events::{AdapterSource, RawEvent, RawView, Source};
use crate::json::{Json, JsonValue};
use crate::paths;
use crate::text;
use vstd::prelude::*;

verus! {

/// Listens to Hyprland.
#[derive(Debug, Clone, Copy)]
pub struct HyprlandAdapter;

impl Default for HyprlandAdapter {
    fn default() -> (r: Self)
        ensures
            r == HyprlandAdapter,
    {
        HyprlandAdapter
    }
}

/// The kind and the data of a line that Hyprland sends: what stands before the
/// first `>>`, and what follows it. A line without it is of an unknown kind.
pub open spec fn line_parts(line: Seq<char>) -> (Seq<char>, Seq<char>) {
    let i = text::find_from(line, ">>"@, 0);
    if i < 0 {
        ("unknown"@, line)
    } else {
        (line.subrange(0, i), line.subrange(i + 2, line.len() as int))
    }
}

/// The kind and the data of a line that Hyprland sends.
pub fn parse_hyprland_line(line: &str) -> (r: (String, String))
    ensures
        r.0@ == line_parts(line@).0,
        r.1@ == line_parts(line@).1,
{
    let v = text::chars_of(line);
    let sep = text::chars_of(">>");
    proof {
        reveal_strlit(">>");
        assert(sep@.len() == 2);
    }
    match text::find(&v, &sep, 0) {
        Some(i) => (text::slice(&v, 0, i), text::slice(&v, i + 2, v.len())),
        None => ("unknown".to_owned(), line.to_owned()),
    }
}

/// The report that a line calls for.
pub open spec fn line_report(line: Seq<char>, now: u64) -> RawView {
    RawView {
        source: Source::Hyprland,
        kind: "hyprland.event"@,
        payload: Json::empty().with("kind"@, Json::Text(line_parts(line).0)).with(
            "raw"@,
            Json::Text(line),
        ).with("data"@, Json::Text(line_parts(line).1)),
        timestamp: now,
    }
}

/// The report that a line of Hyprland calls for.
pub fn hyprland_event(line: &str, now: u64) -> (r: RawEvent)
    ensures
        r.deep_view() == line_report(line@, now),
{
    let (kind, data) = parse_hyprland_line(line);
    RawEvent {
        source: AdapterSource::Hyprland,
        kind: "hyprland.event".to_owned(),
        payload: JsonValue::empty().with("kind", JsonValue::of_text(kind.as_str())).with(
            "raw",
            JsonValue::of_text(line),
        ).with("data", JsonValue::of_text(data.as_str())),
        timestamp: now,
    }
}

/// The directory in which Hyprland keeps one directory for each instance.
pub open spec fn instances_dir(runtime_dir: Option<Seq<char>>) -> Seq<char> {
    paths::joined(
        match runtime_dir {
            Some(dir) => dir,
            None => "/tmp"@,
        },
        "hypr"@,
    )
}

/// The directory in which Hyprland keeps one directory for each instance.
pub fn hyprland_dir(runtime_dir: Option<&str>) -> (r: String)
    ensures
        r@ == instances_dir(runtime_dir.deep_view()),
{
    paths::join(
        match runtime_dir {
            Some(dir) => dir,
            None => "/tmp",
        },
        "hypr",
    )
}

/// The socket of the instance that is named, or else the first of those that
/// were found; an error where there is none.
pub fn hyprland_socket(
    runtime_dir: Option<&str>,
    instance: Option<&str>,
    socket_name: &str,
    found: &Vec<String>,
) -> (r: Result<String, String>)
    ensures
        match instance {
            Some(i) => r matches Ok(path) && path@ == paths::joined(
                paths::joined(instances_dir(runtime_dir.deep_view()), i@),
                socket_name@,
            ),
            None => if found.len() > 0 {
                r matches Ok(path) && path@ == found@[0]@
            } else {
                r matches Err(e) && e@ == "no Hyprland instance found in "@ + instances_dir(
                    runtime_dir.deep_view(),
                )
            },
        },
{
    let dir = hyprland_dir(runtime_dir);
    match instance {
        Some(i) => Ok(paths::join(paths::join(dir.as_str(), i).as_str(), socket_name)),
        None => if found.len() > 0 {
            Ok(found[0].clone())
        } else {
            Err(text::concat("no Hyprland instance found in ", dir.as_str()))
        },
    }
}

/// A line of the compositor is split at its first mark: what is before it is the
/// kind and all behind it the data. A line without a mark is of an unknown kind.
pub proof fn law_lines_are_split_at_the_first_mark(kind: Seq<char>, data: Seq<char>, now: u64)
    requires
        forall|i: int| 0 <= i < kind.len() ==> #[trigger] kind[i] != '>',
    ensures
        ({
            let line = kind + ">>"@ + data;
            let r = line_report(line, now);
            &&& r.source == Source::Hyprland && r.kind == "hyprland.event"@ && r.timestamp == now
            &&& r.payload.get("kind"@) == Some(Json::Text(kind))
            &&& r.payload.get("data"@) == Some(Json::Text(data))
            &&& r.payload.get("raw"@) == Some(Json::Text(line))
        }),
        line_report(kind, now).payload.get("kind"@) == Some(Json::Text("unknown"@)),
        line_report(kind, now).payload.get("data"@) == Some(Json::Text(kind)),
{
    reveal_strlit("kind");
    reveal_strlit("raw");
    reveal_strlit("data");
    assert("kind"@.len() == 4);
    assert("raw"@.len() == 3);
    assert("data"@.len() == 4);
    assert("kind"@[0] != "data"@[0]);
    reveal_strlit(">>");
    let line = kind + ">>"@ + data;
    let i = text::find_from(line, ">>"@, 0);
    text::lemma_find_from(line, ">>"@, 0);
    assert(line.subrange(kind.len() as int, kind.len() as int + 2) =~= ">>"@);
    assert(text::occurs_at(line, kind.len() as int, ">>"@));
    assert(i >= 0 && i <= kind.len());
    if i < kind.len() {
        assert(line.subrange(i, i + 2)[0] == line[i]);
        assert(line[i] == kind[i]);
        assert(">>"@[0] == '>');
    }
    assert(line.subrange(0, i) =~= kind);
    assert(line.subrange(i + 2, line.len() as int) =~= data);
    let k = text::find_from(kind, ">>"@, 0);
    text::lemma_find_from(kind, ">>"@, 0);
    if k >= 0 {
        assert(kind.subrange(k, k + 2)[0] == kind[k]);
        assert(">>"@[0] == '>');
    }
}

/// The sockets of the compositor are below the directory for what runs, or below
/// `/tmp` where there is none.
pub proof fn law_sockets_are_below_the_runtime_directory(dir: Seq<char>)
    requires
        dir.len() > 0,
        dir.last() != '/',
    ensures
        instances_dir(Some(dir)) == dir + "/hypr"@,
        instances_dir(None) == "/tmp/hypr"@,
{
    reveal_strlit("/");
    reveal_strlit("hypr");
    reveal_strlit("/hypr");
    reveal_strlit("/tmp");
    reveal_strlit("/tmp/hypr");
    assert("/tmp"@.last() == 'p');
    assert("hypr"@[0] == 'h');
    assert("/tmp"@ + "/"@ + "hypr"@ =~= "/tmp/hypr"@);
    assert(dir + "/"@ + "hypr"@ =~= dir + "/hypr"@);
}

} // verus!
