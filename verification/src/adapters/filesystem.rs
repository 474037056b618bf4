//! What happens to the files of projects.

use crate::events::{AdapterSource, RawEvent, RawView, Source};
use crate::json::{Json, JsonValue};
use crate::ordered;
use crate::paths;
use crate::recency::{self, Recency};
use crate::snapshot;
use crate::text;
use vstd::prelude::*;

verus! {

/// Changes of one file that follow each other within this time, in nanoseconds,
/// are one change.
pub const DEBOUNCE_WINDOW_NS: u64 = 300_000_000;

/// Watches the files below some roots.
#[derive(Debug)]
pub struct FilesystemAdapter {
    roots: Vec<String>,
}

impl FilesystemAdapter {
    /// The patterns of the roots.
    pub closed spec fn patterns(&self) -> Seq<Seq<char>> {
        self.roots.deep_view()
    }

    /// The adapter for the given roots.
    pub fn new(roots: Vec<String>) -> (r: Self)
        ensures
            r.patterns() == roots.deep_view(),
    {
        FilesystemAdapter { roots }
    }

    /// The patterns of the roots.
    pub fn roots(&self) -> (r: &Vec<String>)
        ensures
            r.deep_view() == self.patterns(),
    {
        &self.roots
    }
}

/// What marks a directory as a project.
pub open spec fn markers() -> Seq<Seq<char>> {
    seq![".git"@, "Cargo.toml"@, "package.json"@, "go.mod"@]
}

/// Those of the first `n` markers that are among the names.
pub open spec fn markers_among(names: Seq<Seq<char>>, n: int) -> Seq<Seq<char>>
    decreases n,
{
    if n <= 0 {
        Seq::empty()
    } else if names.contains(markers()[n - 1]) {
        markers_among(names, n - 1).push(markers()[n - 1])
    } else {
        markers_among(names, n - 1)
    }
}

fn push_marker(found: &mut Vec<String>, names: &Vec<String>, marker: &str, Ghost(n): Ghost<int>)
    requires
        0 < n <= 4,
        marker@ == markers()[n - 1],
        old(found).deep_view() == markers_among(names.deep_view(), n - 1),
    ensures
        final(found).deep_view() == markers_among(names.deep_view(), n),
{
    let ghost before = found.deep_view();
    if text::list_has(names, marker) {
        found.push(marker.to_owned());
        assert(found.deep_view() =~= before.push(marker@));
    }
}

/// The markers of a project that are among the names in a directory.
pub fn detect_markers(names: &Vec<String>) -> (r: Vec<String>)
    ensures
        r.deep_view() == markers_among(names.deep_view(), 4),
{
    let mut found: Vec<String> = Vec::new();
    assert(found.deep_view() =~= Seq::empty());
    push_marker(&mut found, names, ".git", Ghost(1));
    push_marker(&mut found, names, "Cargo.toml", Ghost(2));
    push_marker(&mut found, names, "package.json", Ghost(3));
    push_marker(&mut found, names, "go.mod", Ghost(4));
    found
}

/// The report on a root by the names of what is in it, if these make it a project.
pub open spec fn detection(root: Seq<char>, names: Seq<Seq<char>>, now: u64) -> Option<RawView> {
    let found = markers_among(names, 4);
    if found.len() == 0 {
        None
    } else {
        Some(
            RawView {
                source: Source::Filesystem,
                kind: "detected"@,
                payload: Json::empty().with("root"@, Json::Text(root)).with(
                    "markers"@,
                    snapshot::list_json::<String>(found),
                ),
                timestamp: now,
            },
        )
    }
}

/// The report on a directory that is a project when the daemon starts; none
/// where it is no project.
pub fn detected_event(root: &str, names: &Vec<String>, now: u64) -> (r: Option<RawEvent>)
    ensures
        r.deep_view() == detection(root@, names.deep_view(), now),
{
    let found = detect_markers(names);
    assert(found.deep_view().len() == found@.len());
    if found.len() == 0 {
        return None;
    }
    Some(
        RawEvent {
            source: AdapterSource::Filesystem,
            kind: "detected".to_owned(),
            payload: JsonValue::empty().with("root", JsonValue::of_text(root)).with(
                "markers",
                snapshot::list_value(&found),
            ),
            timestamp: now,
        },
    )
}

/// The name is that of a directory whose files are not told of as such.
pub open spec fn excluded(name: Seq<char>) -> bool {
    ||| name == ".git"@
    ||| name == "target"@
    ||| name == "node_modules"@
    ||| name == "dist"@
    ||| name == "build"@
}

/// The first excluded name among the components from position `i` on.
pub open spec fn first_excluded(parts: Seq<Seq<char>>, i: int) -> Option<Seq<char>>
    decreases parts.len() - i,
{
    if i < 0 || i >= parts.len() {
        None
    } else if excluded(parts[i]) {
        Some(parts[i])
    } else {
        first_excluded(parts, i + 1)
    }
}

fn excluded_name(name: &str) -> (r: Option<&'static str>)
    ensures
        match r {
            Some(e) => excluded(name@) && e@ == name@,
            None => !excluded(name@),
        },
{
    if text::same(name, ".git") {
        Some(".git")
    } else if text::same(name, "target") {
        Some("target")
    } else if text::same(name, "node_modules") {
        Some("node_modules")
    } else if text::same(name, "dist") {
        Some("dist")
    } else if text::same(name, "build") {
        Some("build")
    } else {
        None
    }
}

/// The first excluded directory among the components of a path.
pub fn excluded_dir_component(relative: &str) -> (r: Option<&'static str>)
    ensures
        match r {
            Some(e) => first_excluded(paths::components(relative@), 0) == Some(e@),
            None => first_excluded(paths::components(relative@), 0) is None,
        },
{
    let parts = paths::components_of(relative);
    let mut i: usize = 0;
    while i < parts.len()
        invariant
            i <= parts.len(),
            parts.deep_view() == paths::components(relative@),
            first_excluded(paths::components(relative@), 0) == first_excluded(
                paths::components(relative@),
                i as int,
            ),
        decreases parts.len() - i,
    {
        assert(paths::components(relative@)[i as int] == parts@[i as int]@);
        if let Some(e) = excluded_name(parts[i].as_str()) {
            return Some(e);
        }
        i += 1;
    }
    assert(paths::components(relative@).len() == parts@.len());
    None
}

/// The report on a file of a project.
pub open spec fn file_report(kind: Seq<char>, root: Seq<char>, path: Seq<char>, now: u64) -> RawView {
    RawView {
        source: Source::Filesystem,
        kind,
        payload: Json::empty().with("path"@, Json::Text(path)).with(
            "project_root"@,
            Json::Text(root),
        ),
        timestamp: now,
    }
}

/// What a change of the file at `path` calls for: a new file among the build
/// results is told of as such, the files of git and of installed packages are
/// not told of, and of any other file a change that does not follow the one
/// before too closely. Paths with the same components are those of one file.
pub open spec fn classified(
    root: Seq<char>,
    path: Seq<char>,
    created: bool,
    seen: Map<Seq<Seq<char>>, u64>,
    at: u64,
    now: u64,
) -> Option<RawView> {
    match first_excluded(paths::components(paths::relative_to(path, root)), 0) {
        Some(e) => if created && (e == "target"@ || e == "dist"@ || e == "build"@) {
            Some(file_report("build_artifact.created"@, root, path, now))
        } else {
            None
        },
        None => if recency::repeated(seen, paths::components(path), at, DEBOUNCE_WINDOW_NS) {
            None
        } else {
            Some(file_report("file.changed"@, root, path, now))
        },
    }
}

/// What is remembered of the file at `path` after a change.
pub open spec fn seen_after(
    root: Seq<char>,
    path: Seq<char>,
    seen: Map<Seq<Seq<char>>, u64>,
    at: u64,
) -> Map<Seq<Seq<char>>, u64> {
    if first_excluded(paths::components(paths::relative_to(path, root)), 0) is None
        && !recency::repeated(seen, paths::components(path), at, DEBOUNCE_WINDOW_NS) {
        seen.insert(paths::components(path), at)
    } else {
        seen
    }
}

fn file_event(kind: &str, root: &str, path: &str, now: u64) -> (r: RawEvent)
    ensures
        r.deep_view() == file_report(kind@, root@, path@, now),
{
    RawEvent {
        source: AdapterSource::Filesystem,
        kind: kind.to_owned(),
        payload: JsonValue::empty().with("path", JsonValue::of_text(path)).with(
            "project_root",
            JsonValue::of_text(root),
        ),
        timestamp: now,
    }
}

/// The report that a change of the file at `path` calls for. `at` is the time
/// of the change in nanoseconds on a clock that never runs backwards, and `now`
/// the time that the report carries.
pub fn classify(
    root: &str,
    path: &str,
    created: bool,
    last_seen: &mut Recency,
    at: u64,
    now: u64,
) -> (r: Option<RawEvent>)
    ensures
        r.deep_view() == classified(root@, path@, created, old(last_seen)@, at, now),
        final(last_seen)@ == seen_after(root@, path@, old(last_seen)@, at),
{
    let relative = paths::strip_root(path, root);
    match excluded_dir_component(relative.as_str()) {
        Some(e) => {
            if created && (text::same(e, "target") || text::same(e, "dist") || text::same(
                e,
                "build",
            )) {
                Some(file_event("build_artifact.created", root, path, now))
            } else {
                None
            }
        },
        None => {
            let key = paths::components_of(path);
            if last_seen.is_repeated(&key, at, DEBOUNCE_WINDOW_NS) {
                return None;
            }
            last_seen.set(&key, at);
            Some(file_event("file.changed", root, path, now))
        },
    }
}

/// The first root that the path lies below.
pub fn root_of(roots: &Vec<String>, path: &str) -> (r: Option<usize>)
    ensures
        match r {
            Some(i) => i < roots.len() && paths::is_below(path@, roots@[i as int]@) && forall|k: int|
                0 <= k < i ==> !paths::is_below(path@, (#[trigger] roots@[k])@),
            None => forall|k: int|
                0 <= k < roots.len() ==> !paths::is_below(path@, (#[trigger] roots@[k])@),
        },
{
    let mut i: usize = 0;
    while i < roots.len()
        invariant
            i <= roots.len(),
            forall|k: int| 0 <= k < i ==> !paths::is_below(path@, (#[trigger] roots@[k])@),
        decreases roots.len() - i,
    {
        if paths::starts_with(path, roots[i].as_str()) {
            return Some(i);
        }
        i += 1;
    }
    None
}

/// The components joined to a path.
pub open spec fn path_of(parts: Seq<Seq<char>>) -> Seq<char>
    decreases parts.len(),
{
    if parts.len() == 0 {
        Seq::empty()
    } else {
        paths::joined(path_of(parts.drop_last()), parts.last())
    }
}

fn join_parts(parts: &Vec<String>, from: usize, to: usize) -> (r: String)
    requires
        from <= to <= parts.len(),
    ensures
        r@ == path_of(parts.deep_view().subrange(from as int, to as int)),
{
    let mut r = String::new();
    let mut i: usize = from;
    assert(parts.deep_view().subrange(from as int, from as int) =~= Seq::empty());
    while i < to
        invariant
            from <= i <= to <= parts.len(),
            r@ == path_of(parts.deep_view().subrange(from as int, i as int)),
        decreases to - i,
    {
        proof {
            let t = parts.deep_view().subrange(from as int, i + 1);
            assert(t.drop_last() =~= parts.deep_view().subrange(from as int, i as int));
            assert(t.last() == parts@[i as int]@);
        }
        r = paths::join(r.as_str(), parts[i].as_str());
        i += 1;
    }
    r
}

/// The position of the first component that is a star, or the number of
/// components.
pub open spec fn star_at(parts: Seq<Seq<char>>, i: int) -> int
    decreases parts.len() - i,
{
    if i < 0 || i >= parts.len() {
        parts.len() as int
    } else if parts[i] == "*"@ {
        i
    } else {
        star_at(parts, i + 1)
    }
}

/// The directory whose entries a pattern with a star stands for, and the path
/// below each of them; none where the pattern has no star.
pub fn glob_split(pattern: &str) -> (r: Option<(String, String)>)
    ensures
        ({
            let parts = paths::components(pattern@);
            let i = star_at(parts, 0);
            r.deep_view() == (if i < parts.len() {
                Some(
                    (
                        path_of(parts.subrange(0, i)),
                        path_of(parts.subrange(i + 1, parts.len() as int)),
                    ),
                )
            } else {
                None
            })
        }),
{
    let parts = paths::components_of(pattern);
    let mut i: usize = 0;
    while i < parts.len()
        invariant
            i <= parts.len(),
            parts.deep_view() == paths::components(pattern@),
            star_at(paths::components(pattern@), 0) == star_at(
                paths::components(pattern@),
                i as int,
            ),
        decreases parts.len() - i,
    {
        assert(paths::components(pattern@)[i as int] == parts@[i as int]@);
        if text::same(parts[i].as_str(), "*") {
            assert(paths::components(pattern@).len() == parts@.len());
            let parent = join_parts(&parts, 0, i);
            let suffix = join_parts(&parts, i + 1, parts.len());
            return Some((parent, suffix));
        }
        i += 1;
    }
    assert(paths::components(pattern@).len() == parts@.len());
    None
}

/// The path of an entry, and below it the rest of the pattern.
pub open spec fn below_entry(parent: Seq<char>, name: Seq<char>, suffix: Seq<char>) -> Seq<char> {
    let p = paths::joined(parent, name);
    if suffix.len() == 0 {
        p
    } else {
        paths::joined(p, suffix)
    }
}

/// The roots that a pattern stands for, given the names of the directories in
/// the one that its star ranges over: one for each, in the order of their names.
/// A pattern without a star stands for itself.
pub fn expand_glob(pattern: &str, names: Vec<String>) -> (r: Vec<String>)
    ensures
        ({
            let parts = paths::components(pattern@);
            let i = star_at(parts, 0);
            let parent = path_of(parts.subrange(0, i));
            let suffix = path_of(parts.subrange(i + 1, parts.len() as int));
            if i < parts.len() {
                exists|sorted: Seq<Seq<char>>|
                    {
                        &&& ordered::sorted::<String>(sorted)
                        &&& #[trigger] sorted.to_multiset() == names.deep_view().to_multiset()
                        &&& r.deep_view() == sorted.map_values(
                            |n: Seq<char>| below_entry(parent, n, suffix),
                        )
                    }
            } else {
                r.deep_view() == seq![pattern@]
            }
        }),
{
    match glob_split(pattern) {
        None => {
            let mut r: Vec<String> = Vec::new();
            r.push(pattern.to_owned());
            assert(r.deep_view() =~= seq![pattern@]);
            r
        },
        Some((parent, suffix)) => {
            let sorted = ordered::sort(names);
            let ghost form = |n: Seq<char>| below_entry(parent@, n, suffix@);
            let mut r: Vec<String> = Vec::new();
            let mut i: usize = 0;
            while i < sorted.len()
                invariant
                    i <= sorted.len(),
                    r.len() == i,
                    forall|k: int|
                        0 <= k < i ==> (#[trigger] r@[k])@ == below_entry(
                            parent@,
                            sorted@[k]@,
                            suffix@,
                        ),
                decreases sorted.len() - i,
            {
                let p = paths::join(parent.as_str(), sorted[i].as_str());
                if suffix.as_str().is_empty() {
                    r.push(p);
                } else {
                    r.push(paths::join(p.as_str(), suffix.as_str()));
                }
                i += 1;
            }
            assert(r.deep_view() =~= sorted.deep_view().map_values(form));
            r
        },
    }
}

/// Of a file that changes several times in quick succession only the first
/// change is told, however its path is written.
pub proof fn law_quick_repeats_are_silent(
    root: Seq<char>,
    path: Seq<char>,
    other: Seq<char>,
    created: bool,
    seen: Map<Seq<Seq<char>>, u64>,
    at: u64,
    again: bool,
    later: u64,
    now: u64,
)
    requires
        first_excluded(paths::components(paths::relative_to(path, root)), 0) is None,
        first_excluded(paths::components(paths::relative_to(other, root)), 0) is None,
        paths::components(path) == paths::components(other),
        classified(root, path, created, seen, at, now) is Some,
        at <= later < at + DEBOUNCE_WINDOW_NS,
    ensures
        classified(root, other, again, seen_after(root, path, seen, at), later, now) is None,
{
}

/// A change of the file at `path` below `root` at the time `at`.
pub struct Change {
    pub root: Seq<char>,
    pub path: Seq<char>,
    pub at: u64,
}

/// The file lies in no excluded directory.
pub open spec fn watched(root: Seq<char>, path: Seq<char>) -> bool {
    first_excluded(paths::components(paths::relative_to(path, root)), 0) is None
}

/// What is remembered after each of the changes in turn.
pub open spec fn seen_after_all(
    seen: Map<Seq<Seq<char>>, u64>,
    changes: Seq<Change>,
) -> Map<Seq<Seq<char>>, u64>
    decreases changes.len(),
{
    if changes.len() == 0 {
        seen
    } else {
        let c = changes.last();
        seen_after(c.root, c.path, seen_after_all(seen, changes.drop_last()), c.at)
    }
}

/// The changes of files in no excluded directory that are told.
pub open spec fn told(seen: Map<Seq<Seq<char>>, u64>, changes: Seq<Change>) -> Seq<Change>
    decreases changes.len(),
{
    if changes.len() == 0 {
        Seq::empty()
    } else {
        let before = told(seen, changes.drop_last());
        let c = changes.last();
        if watched(c.root, c.path) && classified(
            c.root,
            c.path,
            false,
            seen_after_all(seen, changes.drop_last()),
            c.at,
            0,
        ) is Some {
            before.push(c)
        } else {
            before
        }
    }
}

/// When the last of the changes to the file with the given components happened.
pub open spec fn last_change(changes: Seq<Change>, parts: Seq<Seq<char>>) -> Option<u64>
    decreases changes.len(),
{
    if changes.len() == 0 {
        None
    } else if paths::components(changes.last().path) == parts {
        Some(changes.last().at)
    } else {
        last_change(changes.drop_last(), parts)
    }
}

proof fn lemma_told(changes: Seq<Change>, parts: Seq<Seq<char>>)
    ensures
        last_change(told(Map::empty(), changes), parts) == (if seen_after_all(
            Map::empty(),
            changes,
        ).contains_key(parts) {
            Some(seen_after_all(Map::empty(), changes)[parts])
        } else {
            None
        }),
    decreases changes.len(),
{
    if changes.len() > 0 {
        let rest = changes.drop_last();
        lemma_told(rest, parts);
        let before = told(Map::empty(), rest);
        assert(before.push(changes.last()).drop_last() =~= before);
    }
}

/// A change of a file in no excluded directory is not told exactly when the last
/// one of that file that was told came less than the window of time before,
/// whatever changed between them.
pub proof fn law_last_told_decides(
    changes: Seq<Change>,
    root: Seq<char>,
    path: Seq<char>,
    created: bool,
    at: u64,
    now: u64,
)
    requires
        watched(root, path),
    ensures
        classified(root, path, created, seen_after_all(Map::empty(), changes), at, now) is None
            <==> (last_change(told(Map::empty(), changes), paths::components(path)) matches Some(t)
            && recency::less(at, t) < DEBOUNCE_WINDOW_NS),
{
    lemma_told(changes, paths::components(path));
}

/// The files in excluded directories are told of only where a new one appears
/// among the build results, and then as such; those of git and of installed
/// packages never.
pub proof fn law_excluded_files_are_silent(
    root: Seq<char>,
    path: Seq<char>,
    created: bool,
    seen: Map<Seq<Seq<char>>, u64>,
    at: u64,
    now: u64,
)
    requires
        first_excluded(paths::components(paths::relative_to(path, root)), 0) is Some,
    ensures
        classified(root, path, created, seen, at, now) matches Some(report) ==> created
            && report.kind == "build_artifact.created"@,
        ({
            let e = first_excluded(paths::components(paths::relative_to(path, root)), 0)->0;
            (e == ".git"@ || e == "node_modules"@) ==> classified(
                root,
                path,
                created,
                seen,
                at,
                now,
            ) is None
        }),
        seen_after(root, path, seen, at) == seen,
{
    reveal_strlit(".git");
    reveal_strlit("node_modules");
    reveal_strlit("target");
    reveal_strlit("dist");
    reveal_strlit("build");
    assert(".git"@[0] == '.');
    assert("node_modules"@[0] == 'n');
    assert("target"@[0] == 't');
    assert("dist"@[0] == 'd');
    assert("build"@[0] == 'b');
}

/// A root is a project exactly when it holds a git directory or the manifest of a
/// Rust, JavaScript or Go project; the report names the root and what was found.
pub proof fn law_projects_are_known_by_their_markers(root: Seq<char>, names: Seq<Seq<char>>, now: u64)
    ensures
        ({
            let project = names.contains(".git"@) || names.contains("Cargo.toml"@)
                || names.contains("package.json"@) || names.contains("go.mod"@);
            &&& detection(root, names, now) is Some <==> project
            &&& detection(root, names, now) matches Some(r) ==> {
                &&& r.kind == "detected"@ && r.source == Source::Filesystem && r.timestamp == now
                &&& r.payload.get("root"@) == Some(Json::Text(root))
                &&& r.payload.get("markers"@) matches Some(Json::Array(a)) && forall|m: Seq<char>|
                    #[trigger] a.contains(Json::Text(m)) <==> names.contains(m) && (m == ".git"@ || m
                        == "Cargo.toml"@ || m == "package.json"@ || m == "go.mod"@)
            }
        }),
{
    reveal_strlit("root");
    reveal_strlit("markers");
    assert("root"@.len() == 4);
    assert("markers"@.len() == 7);
    let found = markers_among(names, 4);
    assert forall|m: Seq<char>| #[trigger] found.contains(m) <==> names.contains(m) && (m == ".git"@
        || m == "Cargo.toml"@ || m == "package.json"@ || m == "go.mod"@) by {
        lemma_markers(names, 4, m);
        assert(markers()[0] == ".git"@ && markers()[1] == "Cargo.toml"@ && markers()[2]
            == "package.json"@ && markers()[3] == "go.mod"@);
    }
    if found.len() > 0 {
        assert(found.contains(found[0]));
        let a = found.map_values(|v: Seq<char>| <String as snapshot::Snapshot>::json(v));
        assert(snapshot::list_json::<String>(found) == Json::Array(a));
        assert forall|m: Seq<char>| #[trigger] a.contains(Json::Text(m)) <==> found.contains(m) by {
            if found.contains(m) {
                let i = choose|i: int| 0 <= i < found.len() && found[i] == m;
                assert(a[i] == Json::Text(m));
            }
            if a.contains(Json::Text(m)) {
                let i = choose|i: int| 0 <= i < a.len() && a[i] == Json::Text(m);
                assert(a[i] == Json::Text(found[i]));
                assert(found[i] == m);
            }
        }
    } else {
        if names.contains(".git"@) {
            assert(found.contains(".git"@));
        }
        if names.contains("Cargo.toml"@) {
            assert(found.contains("Cargo.toml"@));
        }
        if names.contains("package.json"@) {
            assert(found.contains("package.json"@));
        }
        if names.contains("go.mod"@) {
            assert(found.contains("go.mod"@));
        }
    }
}

proof fn lemma_markers(names: Seq<Seq<char>>, n: int, m: Seq<char>)
    requires
        0 <= n <= 4,
    ensures
        markers_among(names, n).contains(m) <==> exists|i: int|
            0 <= i < n && names.contains(m) && #[trigger] markers()[i] == m,
    decreases n,
{
    if n > 0 {
        lemma_markers(names, n - 1, m);
        let before = markers_among(names, n - 1);
        let last = markers()[n - 1];
        let all = before.push(last);
        assert(all[before.len() as int] == last);
        if before.contains(m) {
            let i = choose|i: int| 0 <= i < before.len() && before[i] == m;
            assert(all[i] == m);
        }
        if all.contains(m) && m != last {
            let i = choose|i: int| 0 <= i < all.len() && all[i] == m;
            assert(before[i] == m);
        }
    }
}

/// A file below one of the directories `.git`, `target`, `node_modules`, `dist` and
/// `build` is excluded, by the first of them on its way from the root: a new one is
/// told of as `build_artifact.created` where that holds build results. Any other
/// file is told of as `file.changed` when it was not seen before.
pub proof fn law_files_are_told_of_by_where_they_are(
    root: Seq<char>,
    path: Seq<char>,
    created: bool,
    at: u64,
    now: u64,
    i: int,
)
    ensures
        ({
            let parts = paths::components(paths::relative_to(path, root));
            let report = classified(root, path, created, Map::empty(), at, now);
            let out = |name: Seq<char>|
                name == ".git"@ || name == "target"@ || name == "node_modules"@ || name == "dist"@
                    || name == "build"@;
            &&& (forall|j: int| 0 <= j < parts.len() ==> !out(#[trigger] parts[j])) ==> (
            report matches Some(r) && r.kind == "file.changed"@)
            &&& 0 <= i < parts.len() && (forall|j: int| 0 <= j < i ==> !out(#[trigger] parts[j])) ==> {
                &&& parts[i] == ".git"@ || parts[i] == "node_modules"@ ==> report is None
                &&& parts[i] == "target"@ || parts[i] == "dist"@ || parts[i] == "build"@ ==> (
                created ==> (report matches Some(r) && r.kind == "build_artifact.created"@))
                &&& out(parts[i]) && !created ==> report is None
            }
            &&& report matches Some(r) ==> r.source == Source::Filesystem && r.timestamp == now
                && r.payload.get("path"@) == Some(Json::Text(path)) && r.payload.get(
                "project_root"@,
            ) == Some(Json::Text(root))
        }),
{
    reveal_strlit(".git");
    reveal_strlit("target");
    reveal_strlit("node_modules");
    reveal_strlit("dist");
    reveal_strlit("build");
    reveal_strlit("path");
    reveal_strlit("project_root");
    assert(".git"@.len() == 4);
    assert("target"@.len() == 6);
    assert("node_modules"@.len() == 12);
    assert("dist"@.len() == 4);
    assert("build"@.len() == 5);
    assert("path"@.len() == 4);
    assert("project_root"@.len() == 12);
    assert(".git"@[0] != "dist"@[0]);
    assert(".git"@[0] != "path"@[0]);
    assert("node_modules"@[0] != "project_root"@[0]);
    assert("dist"@[0] != "path"@[0]);
    let parts = paths::components(paths::relative_to(path, root));
    if 0 <= i < parts.len() && (forall|j: int|
        0 <= j < i ==> !excluded(#[trigger] parts[j])) && excluded(parts[i]) {
        lemma_first_excluded(parts, 0, i);
    }
    if forall|j: int| 0 <= j < parts.len() ==> !excluded(#[trigger] parts[j]) {
        lemma_none_excluded(parts, 0);
    }
}

proof fn lemma_first_excluded(parts: Seq<Seq<char>>, from: int, i: int)
    requires
        0 <= from <= i < parts.len(),
        excluded(parts[i]),
        forall|j: int| from <= j < i ==> !excluded(#[trigger] parts[j]),
    ensures
        first_excluded(parts, from) == Some(parts[i]),
    decreases i - from,
{
    if from < i {
        lemma_first_excluded(parts, from + 1, i);
    }
}

proof fn lemma_none_excluded(parts: Seq<Seq<char>>, from: int)
    requires
        0 <= from <= parts.len(),
        forall|j: int| from <= j < parts.len() ==> !excluded(#[trigger] parts[j]),
    ensures
        first_excluded(parts, from) is None,
    decreases parts.len() - from,
{
    if from < parts.len() {
        lemma_none_excluded(parts, from + 1);
    }
}

/// The star of a pattern is its first component that is one.
pub proof fn law_first_star_counts(parts: Seq<Seq<char>>)
    ensures
        0 <= star_at(parts, 0) <= parts.len(),
        star_at(parts, 0) < parts.len() ==> parts[star_at(parts, 0)] == "*"@,
        forall|k: int| 0 <= k < star_at(parts, 0) ==> #[trigger] parts[k] != "*"@,
{
    lemma_star_from(parts, 0);
}

proof fn lemma_star_from(parts: Seq<Seq<char>>, i: int)
    requires
        0 <= i <= parts.len(),
    ensures
        i <= star_at(parts, i) <= parts.len(),
        star_at(parts, i) < parts.len() ==> parts[star_at(parts, i)] == "*"@,
        forall|k: int| i <= k < star_at(parts, i) ==> #[trigger] parts[k] != "*"@,
    decreases parts.len() - i,
{
    if i < parts.len() && parts[i] != "*"@ {
        lemma_star_from(parts, i + 1);
    }
}

/// The rest of a pattern goes on below each entry that its star stands for.
pub proof fn law_patterns_go_on_below_entries(parent: Seq<char>, name: Seq<char>,
    suffix: Seq<char>)
    ensures
        below_entry(parent, name, Seq::empty()) == paths::joined(parent, name),
        suffix.len() > 0 ==>
            below_entry(parent, name, suffix) == paths::joined(paths::joined(parent, name),
            suffix),
{
}

} // verus!
