//! What the machine is called, and what an optional file says of it.

use crate::json::{self, Json, JsonValue};
use crate::paths;
use crate::text;
use crate::wire;
use vstd::prelude::*;

verus! {

/// The file that says what the machine is called: below the configuration
/// directory, or else that of the home directory, or else the current one.
pub open spec fn sync_file(
    config_dir: Option<Seq<char>>,
    home: Option<Seq<char>>,
) -> Seq<char> {
    let base = match config_dir {
        Some(dir) => dir,
        None => match home {
            Some(home) => paths::joined(home, ".config"@),
            None => ".config"@,
        },
    };
    paths::joined(paths::joined(base, "bread"@), "sync.toml"@)
}

/// The file that says what the machine is called.
pub fn sync_path(config_dir: Option<&str>, home: Option<&str>) -> (r: String)
    ensures
        r@ == sync_file(config_dir.deep_view(), home.deep_view()),
{
    let base = match config_dir {
        Some(dir) => dir.to_owned(),
        None => match home {
            Some(home) => paths::join(home, ".config"),
            None => ".config".to_owned(),
        },
    };
    paths::join(paths::join(base.as_str(), "bread").as_str(), "sync.toml")
}

/// What the file holds, where it is there and is a TOML document.
pub open spec fn sync_value(file: Option<Seq<char>>) -> Option<Json> {
    match file {
        Some(s) => match wire::toml_parsed(s) {
            Ok(v) => Some(v),
            Err(e) => None,
        },
        None => None,
    }
}

fn read_sync(file: Option<&str>) -> (r: Option<JsonValue>)
    ensures
        r.deep_view() == sync_value(file.deep_view()),
{
    match file {
        Some(s) => match wire::parse_toml(s) {
            Ok(v) => Some(v),
            Err(_) => None,
        },
        None => None,
    }
}

/// The text under a key of a section.
pub open spec fn section_text(v: Json, section: Seq<char>, key: Seq<char>) -> Option<Seq<char>> {
    match v.get(section) {
        Some(s) => s.text(key),
        None => None,
    }
}

fn read_section_text(v: &JsonValue, section: &str, key: &str) -> (r: Option<String>)
    ensures
        r.deep_view() == section_text(v@, section@, key@),
{
    match v.get(section) {
        Some(s) => s.owned_text(key),
        None => None,
    }
}

/// The name of the machine: what the value says, or else the host name.
pub open spec fn name_in(v: Option<Json>, hostname: Seq<char>) -> Seq<char> {
    match v {
        Some(v) => match section_text(v, "machine"@, "name"@) {
            Some(name) => name,
            None => hostname,
        },
        None => hostname,
    }
}

/// The name of the machine: what the value says, or else the host name.
pub fn machine_name(v: &Option<JsonValue>, hostname: &str) -> (r: String)
    ensures
        r@ == name_in(v.deep_view(), hostname@),
{
    if let Some(v) = v {
        if let Some(name) = read_section_text(v, "machine", "name") {
            return name;
        }
    }
    hostname.to_owned()
}

/// The name of the machine: what the file says, or else the host name.
pub fn lua_machine_name(sync_toml: Option<&str>, hostname: &str) -> (r: String)
    ensures
        r@ == name_in(sync_value(sync_toml.deep_view()), hostname@),
{
    machine_name(&read_sync(sync_toml), hostname)
}

/// The text is there and not empty.
pub open spec fn given(s: Option<Seq<char>>) -> bool {
    s is Some && s->0.len() > 0
}

/// The host name: the first that is known of what the system says, what is in
/// the file of host names, and what the environment says.
pub open spec fn host(
    system: Option<Seq<char>>,
    file: Option<Seq<char>>,
    hostname: Option<Seq<char>>,
    short: Option<Seq<char>>,
) -> Seq<char> {
    if given(system) {
        system->0
    } else if file is Some && text::trimmed(file->0).len() > 0 {
        text::trimmed(file->0)
    } else if hostname is Some {
        hostname->0
    } else if short is Some {
        short->0
    } else {
        "unknown"@
    }
}

/// The host name.
pub fn lua_hostname(
    system: Option<String>,
    file: Option<String>,
    hostname: Option<String>,
    short: Option<String>,
) -> (r: String)
    ensures
        r@ == host(
            system.deep_view(),
            file.deep_view(),
            hostname.deep_view(),
            short.deep_view(),
        ),
{
    if let Some(s) = system {
        if !s.as_str().is_empty() {
            return s;
        }
    }
    if let Some(f) = file {
        let t = text::trim(f.as_str());
        if !t.as_str().is_empty() {
            return t;
        }
    }
    match hostname {
        Some(s) => s,
        None => match short {
            Some(s) => s,
            None => "unknown".to_owned(),
        },
    }
}

/// The texts among the values.
pub open spec fn texts_among(items: Seq<Json>) -> Seq<Seq<char>>
    decreases items.len(),
{
    if items.len() == 0 {
        Seq::empty()
    } else {
        match items.last() {
            Json::Text(s) => texts_among(items.drop_last()).push(s),
            _ => texts_among(items.drop_last()),
        }
    }
}

/// The tags of the machine that the value lists.
pub open spec fn tags_in(v: Option<Json>) -> Seq<Seq<char>> {
    match v {
        Some(v) => match v.get("machine"@) {
            Some(m) => match m.get("tags"@) {
                Some(Json::Array(items)) => texts_among(items),
                _ => Seq::empty(),
            },
            None => Seq::empty(),
        },
        None => Seq::empty(),
    }
}

fn collect_texts(items: &Vec<JsonValue>) -> (r: Vec<String>)
    ensures
        r.deep_view() == texts_among(json::item_models(items@)),
{
    let ghost all = json::item_models(items@);
    let mut r: Vec<String> = Vec::new();
    let mut i: usize = 0;
    proof {
        json::lemma_item_models(items@);
        assert(all.take(0) =~= Seq::empty());
        assert(r.deep_view() =~= Seq::empty());
    }
    while i < items.len()
        invariant
            i <= items.len(),
            items.len() == all.len(),
            all == json::item_models(items@),
            r.deep_view() == texts_among(all.take(i as int)),
        decreases items.len() - i,
    {
        let ghost so_far = r.deep_view();
        proof {
            json::lemma_item_models(items@);
            assert(all.take(i + 1).drop_last() =~= all.take(i as int));
            assert(all.take(i + 1).last() == items@[i as int]@);
        }
        if let Some(s) = items[i].as_str() {
            r.push(s.to_owned());
            assert(r.deep_view() =~= so_far.push(s@));
        }
        i += 1;
    }
    assert(all.take(all.len() as int) =~= all);
    r
}

/// The tags of the machine that the value lists.
pub fn machine_tags(v: &Option<JsonValue>) -> (r: Vec<String>)
    ensures
        r.deep_view() == tags_in(v.deep_view()),
{
    if let Some(v) = v {
        if let Some(m) = v.get("machine") {
            if let Some(JsonValue::Array(items)) = m.get("tags") {
                return collect_texts(items);
            }
        }
    }
    let r: Vec<String> = Vec::new();
    assert(r.deep_view() =~= Seq::empty());
    r
}

/// The tags of the machine that the file lists.
pub fn lua_machine_tags(sync_toml: Option<&str>) -> (r: Vec<String>)
    ensures
        r.deep_view() == tags_in(sync_value(sync_toml.deep_view())),
{
    machine_tags(&read_sync(sync_toml))
}

/// What is told of the value: the machine and where its copy is kept.
pub open spec fn status_json(v: Option<Json>) -> Json {
    match v {
        Some(v) => Json::empty().with("initialized"@, Json::Bool(true)).with(
            "machine"@,
            Json::Text(
                match section_text(v, "machine"@, "name"@) {
                    Some(s) => s,
                    None => "unknown"@,
                },
            ),
        ).with(
            "remote"@,
            Json::Text(
                match section_text(v, "remote"@, "url"@) {
                    Some(s) => s,
                    None => "unknown"@,
                },
            ),
        ),
        None => Json::empty().with("initialized"@, Json::Bool(false)),
    }
}

fn known_or_unknown(s: Option<String>) -> (r: JsonValue)
    ensures
        r@ == Json::Text(
            match s.deep_view() {
                Some(s) => s,
                None => "unknown"@,
            },
        ),
{
    match s {
        Some(s) => JsonValue::Text(s),
        None => JsonValue::of_text("unknown"),
    }
}

/// What is told of the value: the machine and where its copy is kept.
pub fn status_value(v: &Option<JsonValue>) -> (r: JsonValue)
    ensures
        r@ == status_json(v.deep_view()),
{
    match v {
        Some(v) => JsonValue::empty().with("initialized", JsonValue::Bool(true)).with(
            "machine",
            known_or_unknown(read_section_text(v, "machine", "name")),
        ).with("remote", known_or_unknown(read_section_text(v, "remote", "url"))),
        None => JsonValue::empty().with("initialized", JsonValue::Bool(false)),
    }
}

/// What is told of the file.
pub fn sync_status(sync_toml: Option<&str>) -> (r: JsonValue)
    ensures
        r@ == status_json(sync_value(sync_toml.deep_view())),
{
    status_value(&read_sync(sync_toml))
}

/// The file about the machine is `bread/sync.toml` in the configuration directory, and
/// otherwise in `.config` of the home directory, or of the current one.
pub proof fn law_sync_file_has_its_place(dir: Seq<char>, home: Option<Seq<char>>)
    ensures
        sync_file(Some(dir), home) == paths::joined(paths::joined(dir, "bread"@), "sync.toml"@),
        sync_file(None, Some(dir)) == paths::joined(paths::joined(paths::joined(dir, ".config"@),
            "bread"@), "sync.toml"@),
        sync_file(None, None) == paths::joined(paths::joined(".config"@, "bread"@), "sync.toml"@),
{
}

/// The machine is called what the file says under `name` in the section `machine`, and
/// by its host name where the file says nothing.
pub proof fn law_machine_has_a_name(v: Json, m: Json, name: Seq<char>, hostname: Seq<char>)
    ensures
        v.get("machine"@) == Some(m) && m.get("name"@) == Some(Json::Text(name)) ==>
            name_in(Some(v), hostname) == name,
        v.get("machine"@) == Some(m) && m.get("name"@) is None ==>
            name_in(Some(v), hostname) == hostname,
        v.get("machine"@) is None ==> name_in(Some(v), hostname) == hostname,
        name_in(None, hostname) == hostname,
{
}

/// The host name is what the system says, or the file of the system, or the variables
/// of the environment in turn: whichever is known first. If none is, it is unknown.
pub proof fn law_host_name_is_the_first_known(
    file: Option<Seq<char>>,
    a: Seq<char>,
    b: Option<Seq<char>>,
)
    requires
        a.len() > 0,
    ensures
        host(Some(a), file, b, b) == a,
        text::trimmed(a).len() > 0 ==> host(None, Some(a), b, b) == text::trimmed(a),
        text::trimmed(a).len() > 0 ==>
            host(Some(Seq::empty()), Some(a), b, b) == text::trimmed(a),
        host(None, None, Some(a), b) == a,
        host(None, Some(Seq::empty()), Some(a), b) == a,
        host(None, None, None, Some(a)) == a,
        host(None, None, None, None) == "unknown"@,
{
}

/// The tags are the texts of the list under `tags` in the section `machine`, in order.
pub proof fn law_tags_are_the_texts_listed(v: Json, m: Json, items: Seq<Json>, i: int)
    requires
        v.get("machine"@) == Some(m),
        m.get("tags"@) == Some(Json::Array(items)),
        0 <= i < items.len(),
        forall|k: int| 0 <= k < items.len() ==> (#[trigger] items[k]) is Text,
    ensures
        tags_in(Some(v)).len() == items.len(),
        items[i] == Json::Text(tags_in(Some(v))[i]),
{
    lemma_texts_listed(items, i);
}

proof fn lemma_texts_listed(items: Seq<Json>, i: int)
    requires
        0 <= i < items.len(),
        forall|k: int| 0 <= k < items.len() ==> (#[trigger] items[k]) is Text,
    ensures
        texts_among(items).len() == items.len(),
        items[i] == Json::Text(texts_among(items)[i]),
    decreases items.len(),
{
    let rest = items.drop_last();
    assert forall|k: int| 0 <= k < rest.len() implies (#[trigger] rest[k]) is Text by {
        assert(items[k] is Text);
    }
    assert(items[items.len() - 1] is Text);
    if i < rest.len() {
        lemma_texts_listed(rest, i);
        assert(rest[i] == items[i]);
    } else if rest.len() > 0 {
        lemma_texts_listed(rest, 0);
    } else {
        reveal_with_fuel(texts_among, 2);
    }
}

/// A machine without a file, or without tags in it, has no tags.
pub proof fn law_no_tags_where_none_are_listed(v: Json, m: Json)
    ensures
        tags_in(None).len() == 0,
        v.get("machine"@) is None ==> tags_in(Some(v)).len() == 0,
        v.get("machine"@) == Some(m) && m.get("tags"@) is None ==> tags_in(Some(v)).len() == 0,
{
}

/// What is told of the file: whether there is one, and what it calls the machine and
/// the remote.
pub proof fn law_status_tells_machine_and_remote(v: Json, m: Json, r: Json, name: Seq<char>,
    url: Seq<char>)
    ensures
        status_json(None).get("initialized"@) == Some(Json::Bool(false)),
        status_json(None).get("machine"@) is None,
        status_json(None).get("remote"@) is None,
        status_json(Some(v)).get("initialized"@) == Some(Json::Bool(true)),
        v.get("machine"@) == Some(m) && m.get("name"@) == Some(Json::Text(name)) ==>
            status_json(Some(v)).get("machine"@) == Some(Json::Text(name)),
        v.get("remote"@) == Some(r) && r.get("url"@) == Some(Json::Text(url)) ==>
            status_json(Some(v)).get("remote"@) == Some(Json::Text(url)),
        v.get("machine"@) is None ==>
            status_json(Some(v)).get("machine"@) == Some(Json::Text("unknown"@)),
        v.get("remote"@) is None ==>
            status_json(Some(v)).get("remote"@) == Some(Json::Text("unknown"@)),
{
    reveal_strlit("initialized");
    reveal_strlit("machine");
    reveal_strlit("remote");
    assert("initialized"@.len() == 11);
    assert("machine"@.len() == 7);
    assert("remote"@.len() == 6);
}

} // verus!
