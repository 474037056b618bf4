use breadd::adapters::bluetooth::address_from_path;
use breadd::adapters::filesystem::{
    classify, detect_markers, excluded_dir_component, expand_glob, glob_split,
};
use breadd::adapters::git::{
    expand_roots, parse_ahead_behind, parse_gitdir_file, resolve_git_dir, star_parent, DotGit,
};
use breadd::adapters::podman::map_podman_event;
use breadd::adapters::systemd::{active_state_to_kind, failure_result, is_failed_transition};
use breadd::json::JsonValue;
use breadd::recency::Recency;
use breadd::wire;

fn j(s: &str) -> JsonValue {
    wire::parse(s).expect("a JSON text")
}

fn container_event(action: &str, more_attributes: &str) -> JsonValue {
    j(&format!(
        r#"{{
            "Type": "container",
            "Action": "{action}",
            "Actor": {{
                "ID": "abc123fullid",
                "Attributes": {{
                    "name": "my-container",
                    "image": "docker.io/library/nginx:latest"{more_attributes}
                }}
            }},
            "Status": "{action}",
            "time": 1700000000
        }}"#
    ))
}

#[test]
fn maps_start_event() {
    let event = container_event("start", "");
    let (kind, payload) = map_podman_event(&event).expect("should map start event");
    assert_eq!(kind, "container.started");
    assert_eq!(payload.text("id"), Some("abc123fullid"));
    assert_eq!(payload.text("name"), Some("my-container"));
    assert_eq!(payload.text("image"), Some("docker.io/library/nginx:latest"));
}

#[test]
fn maps_died_event() {
    let event = container_event("died", "");
    let (kind, payload) = map_podman_event(&event).expect("should map died event");
    assert_eq!(kind, "container.stopped");
    assert_eq!(payload.text("id"), Some("abc123fullid"));
    assert_eq!(payload.text("name"), Some("my-container"));
}

#[test]
fn ignores_stop_event_to_avoid_double_emit_with_died() {
    let event = container_event("stop", "");
    assert!(map_podman_event(&event).is_none());
}

#[test]
fn ignores_remove_event() {
    let event = container_event("remove", "");
    assert!(map_podman_event(&event).is_none());
}

#[test]
fn maps_health_status_event() {
    let event = container_event("health_status", r#", "health_status": "healthy""#);
    let (kind, payload) = map_podman_event(&event).expect("should map health_status event");
    assert_eq!(kind, "container.health_status");
    assert_eq!(payload.text("id"), Some("abc123fullid"));
    assert_eq!(payload.text("name"), Some("my-container"));
    assert_eq!(payload.text("health"), Some("healthy"));
}

#[test]
fn ignores_unknown_action() {
    let event = container_event("exec_die", "");
    assert!(map_podman_event(&event).is_none());
}

#[test]
fn ignores_non_container_type() {
    let event = j(r#"{ "Type": "network", "Action": "start", "Actor": { "ID": "netid", "Attributes": {} }}"#);
    assert!(map_podman_event(&event).is_none());
}

#[test]
fn missing_fields_fall_back_to_unknown() {
    let event = j(r#"{ "Type": "container", "Action": "start", "Actor": { "ID": "onlyid" }}"#);
    let (kind, payload) = map_podman_event(&event).expect("should still map");
    assert_eq!(kind, "container.started");
    assert_eq!(payload.text("id"), Some("onlyid"));
    assert_eq!(payload.text("name"), Some("unknown"));
    assert_eq!(payload.text("image"), Some("unknown"));
}

#[test]
fn active_state_to_kind_maps_active_to_started() {
    assert_eq!(active_state_to_kind("active"), Some("unit.started"));
}

#[test]
fn active_state_to_kind_maps_inactive_and_dead_to_stopped() {
    assert_eq!(active_state_to_kind("inactive"), Some("unit.stopped"));
    assert_eq!(active_state_to_kind("dead"), Some("unit.stopped"));
}

#[test]
fn active_state_to_kind_excludes_failed() {
    // Failed transitions are reported via PropertiesChanged instead, so
    // JobRemoved handling must not also emit for this state.
    assert_eq!(active_state_to_kind("failed"), None);
}

#[test]
fn active_state_to_kind_ignores_transitional_states() {
    assert_eq!(active_state_to_kind("activating"), None);
    assert_eq!(active_state_to_kind("deactivating"), None);
    assert_eq!(active_state_to_kind("reloading"), None);
}

#[test]
fn is_failed_transition_detects_failed_active_state() {
    let changed = j(r#"{ "ActiveState": "failed", "SubState": "failed" }"#);
    assert!(is_failed_transition(&changed));
}

#[test]
fn is_failed_transition_ignores_other_active_states() {
    let changed = j(r#"{ "ActiveState": "active" }"#);
    assert!(!is_failed_transition(&changed));
}

#[test]
fn is_failed_transition_ignores_unrelated_property_changes() {
    // A PropertiesChanged batch that doesn't touch ActiveState at all
    // (e.g. just MemoryCurrent ticking) must not be treated as a failure.
    let changed = j(r#"{ "MemoryCurrent": 12345 }"#);
    assert!(!is_failed_transition(&changed));
}

#[test]
fn failure_result_extracts_reason_when_present() {
    let changed = j(r#"{ "ActiveState": "failed", "Result": "exit-code" }"#);
    assert_eq!(failure_result(&changed), Some("exit-code".to_string()));
}

#[test]
fn failure_result_is_none_when_absent() {
    let changed = j(r#"{ "ActiveState": "failed" }"#);
    assert_eq!(failure_result(&changed), None);
}

#[test]
fn address_from_path_parses_standard_bluez_path() {
    assert_eq!(
        address_from_path("/org/bluez/hci0/dev_AA_BB_CC_DD_EE_FF"),
        "AA:BB:CC:DD:EE:FF"
    );
}

#[test]
fn address_from_path_returns_empty_for_adapter_path() {
    assert_eq!(address_from_path("/org/bluez/hci0"), "");
}

#[test]
fn address_from_path_returns_empty_for_root() {
    assert_eq!(address_from_path("/"), "");
}

#[test]
fn excluded_dir_component_finds_git_at_top_level() {
    assert_eq!(excluded_dir_component(".git/HEAD"), Some(".git"));
}

#[test]
fn excluded_dir_component_finds_target_nested_deeply() {
    assert_eq!(
        excluded_dir_component("crates/foo/target/debug/build/out.o"),
        Some("target")
    );
}

#[test]
fn excluded_dir_component_finds_node_modules() {
    assert_eq!(
        excluded_dir_component("web/node_modules/lodash/index.js"),
        Some("node_modules")
    );
}

#[test]
fn excluded_dir_component_none_for_ordinary_source_file() {
    assert_eq!(excluded_dir_component("src/main.rs"), None);
}

#[test]
fn classify_silent_under_git() {
    let mut last_seen = Recency::new();
    let root = "/proj";
    let path = "/proj/.git/HEAD";
    let result = classify(
        root,
        path,
        true,
        &mut last_seen,
        1_000_000_000,
        1,
    );
    assert!(result.is_none());
}

#[test]
fn classify_silent_under_node_modules() {
    let mut last_seen = Recency::new();
    let root = "/proj";
    let path = "/proj/node_modules/foo/index.js";
    let result = classify(
        root,
        path,
        false,
        &mut last_seen,
        1_000_000_000,
        1,
    );
    assert!(result.is_none());
}

#[test]
fn classify_build_artifact_created_in_target() {
    let mut last_seen = Recency::new();
    let root = "/proj";
    let path = "/proj/target/debug/breadd";
    let result = classify(
        root,
        path,
        true,
        &mut last_seen,
        1_000_000_000,
        1,
    );
    let event = result.expect("expected build_artifact.created event");
    assert_eq!(event.kind, "build_artifact.created");
    assert_eq!(event.payload.text("path"), Some("/proj/target/debug/breadd"));
    assert_eq!(event.payload.text("project_root"), Some("/proj"));
}

#[test]
fn classify_silent_for_modify_in_target_not_create() {
    let mut last_seen = Recency::new();
    let root = "/proj";
    let path = "/proj/target/debug/breadd";
    let result = classify(
        root,
        path,
        false,
        &mut last_seen,
        1_000_000_000,
        1,
    );
    assert!(result.is_none());
}

#[test]
fn classify_file_changed_for_ordinary_source_file() {
    let mut last_seen = Recency::new();
    let root = "/proj";
    let path = "/proj/src/main.rs";
    let result = classify(
        root,
        path,
        false,
        &mut last_seen,
        1_000_000_000,
        1,
    );
    let event = result.expect("expected file.changed event");
    assert_eq!(event.kind, "file.changed");
    assert_eq!(event.payload.text("path"), Some("/proj/src/main.rs"));
    assert_eq!(event.payload.text("project_root"), Some("/proj"));
}

#[test]
fn classify_debounces_rapid_repeat_events_for_same_path() {
    let mut last_seen = Recency::new();
    let root = "/proj";
    let path = "/proj/src/main.rs";
    let created = false;

    let first = classify(root, path, created, &mut last_seen, 1_000_000_000, 1);
    assert!(first.is_some());

    let second = classify(root, path, created, &mut last_seen, 1_000_050_000, 1);
    assert!(second.is_none(), "second rapid event should be debounced");
}

fn names(list: &[&str]) -> Vec<String> {
    list.iter().map(|s| s.to_string()).collect()
}

#[test]
fn detect_markers_finds_cargo_toml() {
    let markers = detect_markers(&names(&["Cargo.toml"]));
    assert_eq!(markers, vec!["Cargo.toml".to_string()]);
}

#[test]
fn detect_markers_finds_multiple() {
    let mut markers = detect_markers(&names(&["package.json", ".git"]));
    markers.sort();
    let mut expected = vec![".git".to_string(), "package.json".to_string()];
    expected.sort();
    assert_eq!(markers, expected);
}

#[test]
fn detect_markers_empty_for_plain_directory() {
    assert!(detect_markers(&names(&[])).is_empty());
}

#[test]
fn expand_glob_returns_single_path_unchanged_without_star() {
    let path = "/home/user/Projects/bread";
    assert_eq!(expand_glob(path, vec![]), vec![path.to_string()]);
}

#[test]
fn expand_glob_expands_star_to_subdirectories() {
    assert_eq!(
        glob_split("/tmp/x/*"),
        Some(("/tmp/x".to_string(), String::new()))
    );
    let results = expand_glob("/tmp/x/*", names(&["beta", "alpha"]));
    assert_eq!(results, names(&["/tmp/x/alpha", "/tmp/x/beta"]));
    let deeper = expand_glob("/tmp/x/*/src", names(&["beta", "alpha"]));
    assert_eq!(deeper, names(&["/tmp/x/alpha/src", "/tmp/x/beta/src"]));
}

#[test]
fn expand_glob_returns_empty_for_nonexistent_parent() {
    let pattern = "/definitely/does/not/exist/*";
    assert!(expand_glob(pattern, vec![]).is_empty());
}

// --- parse_ahead_behind ---

#[test]
fn parse_ahead_behind_parses_tab_separated_counts() {
    assert_eq!(parse_ahead_behind("3\t2\n"), Some((3, 2)));
}

#[test]
fn parse_ahead_behind_parses_space_separated_counts() {
    assert_eq!(parse_ahead_behind("0 5"), Some((0, 5)));
}

#[test]
fn parse_ahead_behind_handles_zero_zero() {
    assert_eq!(parse_ahead_behind("0\t0"), Some((0, 0)));
}

#[test]
fn parse_ahead_behind_rejects_malformed_output() {
    assert_eq!(parse_ahead_behind(""), None);
    assert_eq!(parse_ahead_behind("only-one"), None);
    assert_eq!(parse_ahead_behind("not a number\t2"), None);
}

// --- parse_gitdir_file ---

#[test]
fn parse_gitdir_file_extracts_path() {
    assert_eq!(
        parse_gitdir_file("gitdir: /home/user/repo/.git/worktrees/feature\n").as_deref(),
        Some("/home/user/repo/.git/worktrees/feature")
    );
}

#[test]
fn parse_gitdir_file_trims_whitespace() {
    assert_eq!(
        parse_gitdir_file("gitdir:   ../.git/modules/sub  \n").as_deref(),
        Some("../.git/modules/sub")
    );
}

#[test]
fn parse_gitdir_file_rejects_unrecognized_content() {
    assert_eq!(parse_gitdir_file("not a gitdir pointer\n").as_deref(), None);
    assert_eq!(parse_gitdir_file("").as_deref(), None);
}

// --- expand_roots ---

#[test]
fn expand_roots_uses_literal_path_without_trailing_star() {
    assert_eq!(star_parent("/tmp/d/myrepo"), None);
    assert_eq!(expand_roots("/tmp/d/myrepo", vec![]), vec!["/tmp/d/myrepo"]);
    // Names make no difference then.
    assert_eq!(
        expand_roots("/tmp/d/myrepo", names(&["repo-a"])),
        vec!["/tmp/d/myrepo"]
    );
}

#[test]
fn expand_roots_globs_single_trailing_star() {
    assert_eq!(star_parent("/tmp/d/*").as_deref(), Some("/tmp/d"));
    let mut roots = expand_roots("/tmp/d/*", names(&["repo-b", "repo-a"]));
    assert_eq!(roots, vec!["/tmp/d/repo-b", "/tmp/d/repo-a"]);
    roots.sort();
    assert_eq!(roots, vec!["/tmp/d/repo-a", "/tmp/d/repo-b"]);
    assert_eq!(expand_roots("/*", names(&["srv"])), vec!["/srv"]);
    assert_eq!(expand_roots("*", names(&["here"])), vec!["here"]);
}

#[test]
fn expand_roots_skips_unreadable_glob_parent_without_panicking() {
    let roots = expand_roots("/definitely/does/not/exist/*", vec![]);
    assert!(roots.is_empty());
}

// --- resolve_git_dir ---

#[test]
fn resolve_git_dir_finds_standard_directory_git() {
    assert_eq!(
        resolve_git_dir("/tmp/d/repo", &DotGit::Directory).as_deref(),
        Some("/tmp/d/repo/.git")
    );
}

#[test]
fn resolve_git_dir_resolves_worktree_style_git_file() {
    let pointer = DotGit::File("gitdir: /tmp/d/main-repo/.git\n".to_string());
    assert_eq!(
        resolve_git_dir("/tmp/d/worktree-checkout", &pointer).as_deref(),
        Some("/tmp/d/main-repo/.git")
    );
    let relative = DotGit::File("gitdir: ../main-repo/.git\n".to_string());
    assert_eq!(
        resolve_git_dir("/tmp/d/worktree-checkout", &relative).as_deref(),
        Some("/tmp/d/worktree-checkout/../main-repo/.git")
    );
}

#[test]
fn resolve_git_dir_returns_none_for_non_repo() {
    assert_eq!(resolve_git_dir("/tmp/d/just-a-folder", &DotGit::Nothing), None);
    let other = DotGit::File("something else\n".to_string());
    assert_eq!(resolve_git_dir("/tmp/d/just-a-folder", &other), None);
}
