//! The state of git working trees.

use crate::events::{AdapterSource, RawEvent, RawView, Source};
use crate::json::{Json, JsonValue, Numeral};
use crate::normalizer;
use crate::paths;
use crate::text;
use vstd::prelude::*;

verus! {

/// The seconds between two looks at the working trees.
pub const DEFAULT_POLL_INTERVAL_SECS: u64 = 2;

/// How many checks may run at a time.
pub const MAX_CONCURRENT_GIT_OPS: usize = 4;

/// A span of time: whole seconds, and the nanoseconds beyond them.
#[derive(Debug, Clone, Copy, PartialEq, Eq, Structural)]
pub struct Span {
    pub secs: u64,
    pub nanos: u32,
}

/// Looks at the working trees below some roots at intervals.
#[derive(Debug)]
pub struct GitAdapter {
    root_patterns: Vec<String>,
    poll_interval: Span,
}

impl GitAdapter {
    /// The patterns of the roots.
    pub closed spec fn patterns(&self) -> Seq<Seq<char>> {
        self.root_patterns.deep_view()
    }

    /// The time between two looks.
    pub closed spec fn interval(&self) -> Span {
        self.poll_interval
    }

    /// The adapter for the given roots.
    pub fn new(root_patterns: Vec<String>) -> (r: Self)
        ensures
            r.patterns() == root_patterns.deep_view(),
            r.interval() == (Span { secs: DEFAULT_POLL_INTERVAL_SECS, nanos: 0 }),
    {
        GitAdapter::with_interval(
            root_patterns,
            Span { secs: DEFAULT_POLL_INTERVAL_SECS, nanos: 0 },
        )
    }

    /// The adapter for the given roots, with the given time between two looks.
    pub fn with_interval(root_patterns: Vec<String>, poll_interval: Span) -> (r: Self)
        ensures
            r.patterns() == root_patterns.deep_view(),
            r.interval() == poll_interval,
    {
        GitAdapter { root_patterns, poll_interval }
    }

    /// The patterns of the roots.
    pub fn root_patterns(&self) -> (r: &Vec<String>)
        ensures
            r.deep_view() == self.patterns(),
    {
        &self.root_patterns
    }

    /// The time between two looks.
    pub fn poll_interval(&self) -> (r: Span)
        ensures
            r == self.interval(),
    {
        self.poll_interval
    }
}

/// What is known of a working tree from the looks before.
#[derive(Debug)]
pub struct RepoTrack {
    pub path: String,
    pub last_dirty: Option<bool>,
    pub last_ahead_behind: Option<(u32, u32)>,
}

/// What a track stands for.
#[verifier::ext_equal]
pub struct TrackView {
    pub path: Seq<char>,
    pub dirty: Option<bool>,
    pub ahead_behind: Option<(u32, u32)>,
}

impl DeepView for RepoTrack {
    type V = TrackView;

    open spec fn deep_view(&self) -> TrackView {
        TrackView {
            path: self.path@,
            dirty: self.last_dirty,
            ahead_behind: self.last_ahead_behind,
        }
    }
}

impl RepoTrack {
    /// The track of a working tree that was not looked at yet.
    pub fn new(path: String) -> (r: Self)
        ensures
            r.deep_view() == (TrackView { path: path@, dirty: None, ahead_behind: None }),
    {
        RepoTrack { path, last_dirty: None, last_ahead_behind: None }
    }
}

/// The reports on a working tree that a look calls for, and what is known after
/// it: `dirty` is whether it has changes, and `counts` the branch and by how
/// many commits it is ahead and behind, as far as the look could tell. Only a
/// change is told.
pub open spec fn look(
    t: TrackView,
    dirty: Option<bool>,
    counts: Option<(Seq<char>, u32, u32)>,
    now: u64,
) -> (TrackView, Seq<RawView>) {
    let repo = Json::Text(t.path);
    let turned = dirty is Some && t.dirty != dirty;
    let first = if turned {
        seq![
            RawView {
                source: Source::Git,
                kind: if dirty == Some(true) {
                    "state.dirty"@
                } else {
                    "state.clean"@
                },
                payload: Json::empty().with("repo"@, repo),
                timestamp: now,
            },
        ]
    } else {
        Seq::empty()
    };
    let moved = counts is Some && t.ahead_behind != Some(((counts->0).1, (counts->0).2));
    let second = if moved {
        seq![
            RawView {
                source: Source::Git,
                kind: "ahead_behind.changed"@,
                payload: Json::empty().with("repo"@, repo).with(
                    "ahead"@,
                    Json::Num(Numeral::PosInt((counts->0).1 as u64)),
                ).with("behind"@, Json::Num(Numeral::PosInt((counts->0).2 as u64))).with(
                    "branch"@,
                    Json::Text((counts->0).0),
                ),
                timestamp: now,
            },
        ]
    } else {
        Seq::empty()
    };
    (
        TrackView {
            path: t.path,
            dirty: if turned {
                dirty
            } else {
                t.dirty
            },
            ahead_behind: if moved {
                Some(((counts->0).1, (counts->0).2))
            } else {
                t.ahead_behind
            },
        },
        first + second,
    )
}

/// The reports on a working tree that a look calls for.
pub fn apply_check(
    track: &mut RepoTrack,
    dirty: Option<bool>,
    counts: Option<(String, u32, u32)>,
    now: u64,
) -> (r: Vec<RawEvent>)
    ensures
        final(track).deep_view() == look(
            old(track).deep_view(),
            dirty,
            counts.deep_view(),
            now,
        ).0,
        r.deep_view() == look(old(track).deep_view(), dirty, counts.deep_view(), now).1,
        dirty == Some(true) && old(track).last_dirty != Some(true) ==> r@.len() > 0 && r@[0].kind@
            == "state.dirty"@ && r@[0].payload@.get("repo"@) == Some(Json::Text(old(track).path@)),
        dirty == Some(false) && old(track).last_dirty != Some(false) ==> r@.len() > 0 && r@[0].kind@
            == "state.clean"@ && r@[0].payload@.get("repo"@) == Some(Json::Text(old(track).path@)),
{
    let mut r: Vec<RawEvent> = Vec::new();
    let ghost before = track.deep_view();
    let ghost seen = counts.deep_view();
    if let Some(is_dirty) = dirty {
        let known = match track.last_dirty {
            Some(d) => d == is_dirty,
            None => false,
        };
        if !known {
            let kind = if is_dirty {
                "state.dirty"
            } else {
                "state.clean"
            };
            track.last_dirty = Some(is_dirty);
            r.push(
                RawEvent {
                    source: AdapterSource::Git,
                    kind: kind.to_owned(),
                    payload: JsonValue::empty().with(
                        "repo",
                        JsonValue::of_text(track.path.as_str()),
                    ),
                    timestamp: now,
                },
            );
        }
    }
    if let Some((branch, ahead, behind)) = counts {
        let known = match track.last_ahead_behind {
            Some((a, b)) => a == ahead && b == behind,
            None => false,
        };
        if !known {
            track.last_ahead_behind = Some((ahead, behind));
            r.push(
                RawEvent {
                    source: AdapterSource::Git,
                    kind: "ahead_behind.changed".to_owned(),
                    payload: JsonValue::empty().with(
                        "repo",
                        JsonValue::of_text(track.path.as_str()),
                    ).with("ahead", JsonValue::of_u64(ahead as u64)).with(
                        "behind",
                        JsonValue::of_u64(behind as u64),
                    ).with("branch", JsonValue::of_text(branch.as_str())),
                    timestamp: now,
                },
            );
        }
    }
    assert(r.deep_view() =~= look(before, dirty, seen, now).1);
    r
}

/// A second look that finds what the first one found tells nothing.
pub proof fn law_only_changes_are_told(
    t: TrackView,
    dirty: Option<bool>,
    counts: Option<(Seq<char>, u32, u32)>,
    now: u64,
    later: u64,
)
    ensures
        look(look(t, dirty, counts, now).0, dirty, counts, later) == (
            look(t, dirty, counts, now).0,
            Seq::<RawView>::empty(),
        ),
{
    assert(Seq::<RawView>::empty() + Seq::<RawView>::empty() =~= Seq::<RawView>::empty());
}

/// The numbers of commits ahead and behind: the first two words of the output.
pub open spec fn counts_of(output: Seq<char>) -> Option<(nat, nat)> {
    let w = text::words(output);
    if w.len() < 2 {
        None
    } else {
        match (text::unsigned(w[0], u32::MAX as nat), text::unsigned(w[1], u32::MAX as nat)) {
            (Some(a), Some(b)) => Some((a, b)),
            _ => None,
        }
    }
}

/// The numbers of commits ahead and behind that git prints.
pub fn parse_ahead_behind(output: &str) -> (r: Option<(u32, u32)>)
    ensures
        match r {
            Some((a, b)) => counts_of(output@) == Some((a as nat, b as nat)),
            None => counts_of(output@) is None,
        },
{
    let w = text::words_of(output);
    assert(w.deep_view().len() == w@.len());
    if w.len() < 2 {
        return None;
    }
    assert(w.deep_view()[0] == w@[0]@);
    assert(w.deep_view()[1] == w@[1]@);
    match (text::parse_u32(w[0].as_str()), text::parse_u32(w[1].as_str())) {
        (Some(a), Some(b)) => Some((a, b)),
        _ => None,
    }
}

/// The path that a line of a pointer file gives.
pub open spec fn pointed(line: Seq<char>) -> Option<Seq<char>> {
    let t = text::trimmed(line);
    if text::has_prefix(t, "gitdir:"@) {
        Some(text::trimmed(t.subrange("gitdir:"@.len() as int, t.len() as int)))
    } else {
        None
    }
}

/// The path that the first line from position `i` on gives.
pub open spec fn first_pointed(lines: Seq<Seq<char>>, i: int) -> Option<Seq<char>>
    decreases lines.len() - i,
{
    if i < 0 || i >= lines.len() {
        None
    } else if pointed(lines[i]) is Some {
        pointed(lines[i])
    } else {
        first_pointed(lines, i + 1)
    }
}

/// The path that a pointer file, which stands in place of a git directory,
/// gives: that of its first line of the form `gitdir: path`.
pub fn parse_gitdir_file(content: &str) -> (r: Option<String>)
    ensures
        r.deep_view() == first_pointed(text::split(content@, '\n'), 0),
{
    let lines = text::split_on(content, '\n');
    let mut i: usize = 0;
    while i < lines.len()
        invariant
            i <= lines.len(),
            lines.deep_view() == text::split(content@, '\n'),
            first_pointed(text::split(content@, '\n'), 0) == first_pointed(
                text::split(content@, '\n'),
                i as int,
            ),
        decreases lines.len() - i,
    {
        assert(text::split(content@, '\n')[i as int] == lines@[i as int]@);
        let line = text::trim(lines[i].as_str());
        if let Some(rest) = text::strip_prefix(line.as_str(), "gitdir:") {
            return Some(text::trim(rest));
        }
        i += 1;
    }
    assert(text::split(content@, '\n').len() == lines@.len());
    None
}

/// The git directory that a pointer file below `root` names.
pub fn pointed_git_dir(root: &str, content: &str) -> (r: Option<String>)
    ensures
        r.deep_view() == (match first_pointed(text::split(content@, '\n'), 0) {
            Some(p) => Some(paths::joined(root@, p)),
            None => None,
        }),
{
    match parse_gitdir_file(content) {
        Some(p) => Some(paths::join(root, p.as_str())),
        None => None,
    }
}

/// What stands below a root in the place of the git directory.
#[derive(Debug)]
pub enum DotGit {
    /// The git directory itself.
    Directory,
    /// A file with the given content.
    File(String),
    /// Nothing, or what is neither.
    Nothing,
}

/// The git directory of the working tree at `root`, if there is one: the
/// directory below it, or the one that the file in its place names.
pub fn resolve_git_dir(root: &str, found: &DotGit) -> (r: Option<String>)
    ensures
        r.deep_view() == (match found {
            DotGit::Directory => Some(paths::joined(root@, ".git"@)),
            DotGit::File(content) => match first_pointed(text::split(content@, '\n'), 0) {
                Some(p) => Some(paths::joined(root@, p)),
                None => None,
            },
            DotGit::Nothing => None,
        }),
{
    match found {
        DotGit::Directory => Some(paths::join(root, ".git")),
        DotGit::File(content) => pointed_git_dir(root, content.as_str()),
        DotGit::Nothing => None,
    }
}

/// The tracks of those roots that are working trees, in order. Each root comes
/// with whether it is one.
pub open spec fn repos(roots: Seq<(Seq<char>, bool)>) -> Seq<TrackView>
    decreases roots.len(),
{
    if roots.len() == 0 {
        Seq::empty()
    } else if roots.last().1 {
        repos(roots.drop_last()).push(
            TrackView { path: roots.last().0, dirty: None, ahead_behind: None },
        )
    } else {
        repos(roots.drop_last())
    }
}

/// The tracks of those roots that are working trees.
pub fn discover_repos(roots: &Vec<(String, bool)>) -> (r: Vec<RepoTrack>)
    ensures
        r.deep_view() == repos(roots.deep_view()),
{
    let mut r: Vec<RepoTrack> = Vec::new();
    let mut i: usize = 0;
    assert(r.deep_view() =~= Seq::empty());
    assert(roots.deep_view().take(0) =~= Seq::empty());
    while i < roots.len()
        invariant
            i <= roots.len(),
            r.deep_view() == repos(roots.deep_view().take(i as int)),
        decreases roots.len() - i,
    {
        let ghost before = r.deep_view();
        proof {
            let t = roots.deep_view().take(i + 1);
            assert(t.drop_last() =~= roots.deep_view().take(i as int));
            assert(t.last() == roots@[i as int].deep_view());
        }
        if roots[i].1 {
            let track = RepoTrack::new(roots[i].0.clone());
            let ghost view = track.deep_view();
            r.push(track);
            assert(r.deep_view() =~= before.push(view));
        }
        i += 1;
    }
    assert(roots.deep_view().take(roots@.len() as int) =~= roots.deep_view());
    r
}

/// The directory whose entries a pattern stands for, where its last component is
/// a star.
pub open spec fn star_dir(pattern: Seq<char>) -> Option<Seq<char>> {
    if paths::leaf(pattern) == Some("*"@) {
        match paths::parent(pattern) {
            Some(dir) => Some(dir),
            None => Some("."@),
        }
    } else {
        None
    }
}

/// The directory whose entries a pattern stands for, where its last component is
/// a star.
pub fn star_parent(pattern: &str) -> (r: Option<String>)
    ensures
        r.deep_view() == star_dir(pattern@),
{
    match paths::file_name(pattern) {
        Some(name) if text::same(name.as_str(), "*") => match paths::parent_of(pattern) {
            Some(dir) => Some(dir),
            None => Some(".".to_owned()),
        },
        _ => None,
    }
}

/// The roots that a pattern stands for. Where its last component is a star, they
/// are the named directories below its parent; else it is the root itself.
pub fn expand_roots(pattern: &str, names: Vec<String>) -> (r: Vec<String>)
    ensures
        r.deep_view() == (match star_dir(pattern@) {
            None => seq![pattern@],
            Some(dir) => names.deep_view().map_values(|n: Seq<char>| paths::joined(dir, n)),
        }),
{
    let mut r: Vec<String> = Vec::new();
    match star_parent(pattern) {
        None => {
            r.push(pattern.to_owned());
            assert(r.deep_view() =~= seq![pattern@]);
            r
        },
        Some(dir) => {
            let ghost all = names.deep_view().map_values(|n: Seq<char>| paths::joined(dir@, n));
            let mut i: usize = 0;
            while i < names.len()
                invariant
                    i <= names.len(),
                    all == names.deep_view().map_values(|n: Seq<char>| paths::joined(dir@, n)),
                    r.deep_view() =~= all.take(i as int),
                decreases names.len() - i,
            {
                let ghost before = r.deep_view();
                assert(names.deep_view()[i as int] == names@[i as int]@);
                r.push(paths::join(dir.as_str(), names[i].as_str()));
                assert(r.deep_view() =~= before.push(all[i as int]));
                i += 1;
            }
            assert(r.deep_view() =~= all);
            r
        },
    }
}

/// Whether a working tree has changes, by what git prints of its status.
pub fn is_dirty(status: &str) -> (r: bool)
    ensures
        r == (text::trimmed(status@).len() > 0),
{
    !text::trim(status).as_str().is_empty()
}

/// What a look at the commits ahead and behind gives: nothing where git knows of
/// no upstream, and what it prints where that makes no sense.
pub open spec fn counts_outcome(upstream: Option<Seq<char>>, branch: Option<Seq<char>>) -> Result<
    Option<(Seq<char>, nat, nat)>,
    Seq<char>,
> {
    match upstream {
        None => Ok(None),
        Some(output) => match counts_of(output) {
            None => Err(output),
            Some((ahead, behind)) => Ok(
                Some(
                    (
                        match branch {
                            Some(b) => text::trimmed(b),
                            None => "HEAD"@,
                        },
                        ahead,
                        behind,
                    ),
                ),
            ),
        },
    }
}

/// What a look at the commits ahead and behind gives. `upstream` is what git
/// prints of them, where it knows of an upstream, and `branch` what it prints of
/// the branch, where it knows of one.
pub fn check_ahead_behind(upstream: Option<&str>, branch: Option<&str>) -> (r: Result<
    Option<(String, u32, u32)>,
    String,
>)
    ensures
        ({
            let o = counts_outcome(upstream.deep_view(), branch.deep_view());
            match r {
                Ok(Some((b, ahead, behind))) => o matches Ok(Some(t)) && t == (
                    b@,
                    ahead as nat,
                    behind as nat,
                ),
                Ok(None) => o matches Ok(None),
                Err(e) => o matches Err(t) && t == e@,
            }
        }),
{
    match upstream {
        None => Ok(None),
        Some(output) => match parse_ahead_behind(output) {
            None => Err(output.to_owned()),
            Some((ahead, behind)) => {
                let name = match branch {
                    Some(b) => text::trim(b),
                    None => "HEAD".to_owned(),
                };
                Ok(Some((name, ahead, behind)))
            },
        },
    }
}

/// A look that finds changes where none were known is reported as `state.dirty`,
/// one that finds none where some were known as `state.clean`, and the first look as
/// either; the report names the working tree and comes first. What was found is
/// known from then on.
pub proof fn law_dirty_and_clean_are_told_apart(
    t: TrackView,
    counts: Option<(Seq<char>, u32, u32)>,
    now: u64,
)
    ensures
        t.dirty != Some(true) ==> ({
            let (after, reports) = look(t, Some(true), counts, now);
            &&& reports.len() > 0 && reports[0].kind == "state.dirty"@
            &&& reports[0].payload.get("repo"@) == Some(Json::Text(t.path))
            &&& reports[0].source == Source::Git && reports[0].timestamp == now
            &&& after.dirty == Some(true) && after.path == t.path
        }),
        t.dirty != Some(false) ==> ({
            let (after, reports) = look(t, Some(false), counts, now);
            &&& reports.len() > 0 && reports[0].kind == "state.clean"@
            &&& reports[0].payload.get("repo"@) == Some(Json::Text(t.path))
            &&& reports[0].source == Source::Git && reports[0].timestamp == now
            &&& after.dirty == Some(false) && after.path == t.path
        }),
{
}

/// A look that finds other numbers of commits reports them with the branch, after
/// all else, and knows them from then on. A look that finds nothing out tells
/// nothing and leaves what is known.
pub proof fn law_commits_are_told(
    t: TrackView,
    dirty: Option<bool>,
    branch: Seq<char>,
    ahead: u32,
    behind: u32,
    now: u64,
)
    ensures
        t.ahead_behind != Some((ahead, behind)) ==> ({
            let (after, reports) = look(t, dirty, Some((branch, ahead, behind)), now);
            &&& reports.len() > 0 && reports.last().kind == "ahead_behind.changed"@
            &&& reports.last().payload.get("repo"@) == Some(Json::Text(t.path))
            &&& reports.last().payload.get("branch"@) == Some(Json::Text(branch))
            &&& reports.last().payload.get("ahead"@) == Some(
                Json::Num(Numeral::PosInt(ahead as u64)),
            )
            &&& reports.last().payload.get("behind"@) == Some(
                Json::Num(Numeral::PosInt(behind as u64)),
            )
            &&& reports.last().source == Source::Git && reports.last().timestamp == now
            &&& after.ahead_behind == Some((ahead, behind))
        }),
        look(t, None, None, now) == (t, Seq::<RawView>::empty()),
        look(t, dirty, Some((branch, ahead, behind)), now).1.len() <= 2,
{
    reveal_strlit("repo");
    reveal_strlit("ahead");
    reveal_strlit("behind");
    reveal_strlit("branch");
    assert("repo"@.len() == 4);
    assert("ahead"@.len() == 5);
    assert("behind"@.len() == 6);
    assert("branch"@.len() == 6);
    assert("behind"@[1] != "branch"@[1]);
    assert(Seq::<RawView>::empty() + Seq::<RawView>::empty() =~= Seq::<RawView>::empty());
}

/// A working tree that turns dirty is told of as `bread.git.state.dirty`, and one
/// that turns clean as `bread.git.state.clean`.
pub proof fn law_dirty_trees_reach_the_events(
    n: normalizer::NormalizerView,
    t: TrackView,
    counts: Option<(Seq<char>, u32, u32)>,
    now: u64,
)
    ensures
        t.dirty != Some(true) ==> normalizer::translated(n, look(t, Some(true), counts, now).1[0])[0].event
            == "bread.git.state.dirty"@,
        t.dirty != Some(false) ==> normalizer::translated(
            n,
            look(t, Some(false), counts, now).1[0],
        )[0].event == "bread.git.state.clean"@,
{
    law_dirty_and_clean_are_told_apart(t, counts, now);
    normalizer::law_reports_are_carried_on(n, look(t, Some(true), counts, now).1[0], ""@);
    normalizer::law_reports_are_carried_on(n, look(t, Some(false), counts, now).1[0], ""@);
    reveal_strlit("bread.git.");
    reveal_strlit("state.dirty");
    reveal_strlit("state.clean");
    reveal_strlit("bread.git.state.dirty");
    reveal_strlit("bread.git.state.clean");
    assert("bread.git."@.len() == 10);
    assert("state.dirty"@.len() == 11);
    assert("state.clean"@.len() == 11);
    assert("bread.git.state.dirty"@.len() == 21);
    assert("bread.git.state.clean"@.len() == 21);
    assert("state.dirty"@[6] != "state.clean"@[6]);
    assert("bread.git.state.dirty"@[16] != "bread.git.state.clean"@[16]);
    assert("bread.git."@ + "state.dirty"@ =~= "bread.git.state.dirty"@);
    assert("bread.git."@ + "state.clean"@ =~= "bread.git.state.clean"@);
}

/// The tracked working trees are those of the roots that are one, and nothing is
/// known of them yet.
pub proof fn law_only_working_trees_are_tracked(roots: Seq<(Seq<char>, bool)>, t: TrackView)
    ensures
        repos(roots).contains(t) <==> roots.contains((t.path, true)) && t.dirty is None
            && t.ahead_behind is None,
    decreases roots.len(),
{
    if roots.len() > 0 {
        let rest = roots.drop_last();
        law_only_working_trees_are_tracked(rest, t);
        let last = roots.last();
        assert(roots =~= rest.push(last));
        assert(roots.contains((t.path, true)) <==> rest.contains((t.path, true)) || last == (
            t.path,
            true,
        )) by {
            if rest.contains((t.path, true)) {
                let i = choose|i: int| 0 <= i < rest.len() && rest[i] == (t.path, true);
                assert(roots[i] == (t.path, true));
            }
            if last == (t.path, true) {
                assert(roots[roots.len() - 1] == (t.path, true));
            }
            if roots.contains((t.path, true)) && last != (t.path, true) {
                let i = choose|i: int| 0 <= i < roots.len() && roots[i] == (t.path, true);
                assert(rest[i] == (t.path, true));
            }
        }
        if last.1 {
            let before = repos(rest);
            let new = TrackView { path: last.0, dirty: None, ahead_behind: None };
            let all = before.push(new);
            assert(all[before.len() as int] == new);
            if before.contains(t) {
                let i = choose|i: int| 0 <= i < before.len() && before[i] == t;
                assert(all[i] == t);
            }
            if all.contains(t) && t != new {
                let i = choose|i: int| 0 <= i < all.len() && all[i] == t;
                assert(before[i] == t);
            }
        }
    }
}

/// A file in place of a repository points to it behind the word `gitdir:`; any other text
/// points nowhere.
pub proof fn law_pointers_are_followed(path: Seq<char>, line: Seq<char>)
    requires
        path.len() > 0,
        !text::whitespace(path[0]),
        !text::whitespace(path.last()),
    ensures
        pointed("gitdir: "@ + path) == Some(path),
        line.len() > 0 && line[0] != 'g' && !text::whitespace(line[0]) ==> pointed(line) is None,
{
    reveal_strlit("gitdir: ");
    reveal_strlit("gitdir:");
    let whole = "gitdir: "@ + path;
    assert(whole[0] == 'g');
    assert(whole.last() == path.last());
    assert(!text::whitespace('g'));
    text::lemma_already_trimmed(whole);
    assert(whole.subrange(0, 7) =~= "gitdir:"@);
    let rest = whole.subrange(7, whole.len() as int);
    assert(rest =~= seq![' '] + path);
    text::lemma_blank_before(path);
    if line.len() > 0 && line[0] != 'g' && !text::whitespace(line[0]) {
        let t = text::trimmed(line);
        text::lemma_first_is_kept(line);
        if text::has_prefix(t, "gitdir:"@) {
            assert(t.subrange(0, 7)[0] == 'g');
        }
    }
}

/// The commits ahead and behind are the two numbers that git prints, in this order, on the
/// branch that it names; without a name it is the head.
pub proof fn law_counts_are_read_in_order(ahead: nat, behind: nat, branch: Option<Seq<char>>)
    requires
        ahead <= u32::MAX,
        behind <= u32::MAX,
    ensures
        counts_of(text::decimal(ahead) + seq![' '] + text::decimal(behind)) == Some((ahead,
            behind)),
        counts_outcome(Some(text::decimal(ahead) + seq![' '] + text::decimal(behind)), None)
            == Ok::<Option<(Seq<char>, nat, nat)>, Seq<char>>(Some(("HEAD"@, ahead, behind))),
        counts_outcome(None, branch) == Ok::<Option<(Seq<char>, nat, nat)>, Seq<char>>(None),
{
    text::lemma_decimal_is_dark(ahead);
    text::lemma_decimal_is_dark(behind);
    text::law_two_words(text::decimal(ahead), text::decimal(behind));
    text::law_numbers_read_back(ahead, u32::MAX as nat);
    text::law_numbers_read_back(behind, u32::MAX as nat);
}

/// A pattern whose last component is a star stands for what is in the directory before it;
/// any other pattern stands for itself.
pub proof fn law_stars_stand_for_entries(dir: Seq<char>, name: Seq<char>)
    requires
        dir.len() > 0,
        dir.last() != '/',
        name.len() > 0,
        !name.contains('/'),
        name != "."@,
    ensures
        name != "*"@ ==> star_dir(paths::joined(dir, name)) is None,
        paths::components(dir).len() > 0 && paths::spans(dir).last().1 == dir.len() ==>
            star_dir(paths::joined(dir, "*"@)) == Some(dir),
{
    reveal_strlit("*");
    reveal_strlit(".");
    reveal_strlit("..");
    assert("*"@ =~= seq!['*']);
    assert("*"@.len() == 1 && "."@.len() == 1 && ".."@.len() == 2);
    assert("*"@[0] != "."@[0]);
    paths::law_join_adds_a_component(dir, name);
    paths::law_join_adds_a_component(dir, "*"@);
    assert(paths::components(paths::joined(dir, name)).last() == name);
}

/// The first line that points somewhere is the one that counts.
pub proof fn law_first_pointer_counts(lines: Seq<Seq<char>>, from: int, i: int)
    requires
        0 <= from <= i < lines.len(),
        pointed(lines[i]) is Some,
        forall|k: int| from <= k < i ==> pointed(#[trigger] lines[k]) is None,
    ensures
        first_pointed(lines, from) == pointed(lines[i]),
    decreases i - from,
{
    if from < i {
        assert(pointed(lines[from]) is None);
        law_first_pointer_counts(lines, from + 1, i);
    }
}

} // verus!
