use breadd::drift::{
    self, compare, ipc_section, lua_api_section, read_schema, readme_cli_section, repo_root,
    section, usage, CheckReport, SchemaEntry, SchemaError,
};
use breadd::surface::{
    extract_cli_commands, extract_enum_variants, extract_ipc_methods, extract_lua_bindings, kebab,
};
use breadd::wire;
use std::collections::BTreeSet;

fn check(
    lua_src: &str,
    ipc_src: &str,
    cli_src: &str,
    schema_toml: &str,
    doc_md: &str,
    readme_md: &str,
) -> Result<CheckReport, SchemaError> {
    drift::check(lua_src, ipc_src, cli_src, schema_toml, doc_md, readme_md, "no registry")
}

const LUA_SRC: &str = r#"
    bread.set("on", on_fn)?;
    bread.set("state", state_tbl)?;
    state_tbl.set("get", get_fn)?;
    state_tbl.set("watch", watch_fn)?;
    bread.set("__log_info", info_fn)?;
    function bread.debounce(delay_ms, fn)
    bread.spawn = function(fn)
    bread.workflow = {}
    bread.workflow.define = function(name, fn)
"#;

const IPC_SRC: &str = r#"
    if req.method == "events.subscribe" {
    }
    let result = match req.method.as_str() {
        "ping" => Ok(json!({ "ok": true })),
        "emit" => {
            let source = match source_str {
                "terminal" => AdapterSource::Terminal,
                "git" => AdapterSource::Git,
                other => AdapterSource::App(other.to_string()),
            };
            Ok(json!({ "emitted": true }))
        }
        _ => Err("unknown method".to_string()),
    };
"#;

const DOC_MD: &str = r#"
## Dictionary: Lua API

#### `bread.on(pattern, fn) -> id`
#### `bread.state.get(path)`
#### `bread.state.watch(path, fn) -> id`
#### `bread.debounce(delay_ms, fn) -> wrapped_fn`
#### `bread.spawn(fn)`
### Workflows
#### `bread.workflow.define(name, fn)`

## Dictionary: IPC protocol

| Method | Params | Description |
|--------|--------|-------------|
| `ping` | - | Connectivity check |
| `emit` | - | Inject an event |
| `events.subscribe` | - | Upgrade to streaming mode |
"#;

/// Mirrors the real `bread-cli/src/main.rs` shape closely enough to
/// exercise both a flat leaf command (`Ping`) and a subcommand group
/// (`Modules` -> `ModulesCommand`), including a struct-style variant
/// with fields (`Info { name: String }`).
const CLI_SRC: &str = r#"
enum Commands {
/// Health check daemon connectivity
Ping,
/// Manage installed Lua modules
Modules {
    #[command(subcommand)]
    subcommand: ModulesCommand,
},
}

enum ModulesCommand {
/// List all installed modules
List,
/// Show full manifest details for a module
Info { name: String },
}
"#;

const README_MD: &str = r#"
## CLI reference

```bash
bread ping
bread modules list
bread modules info <name>
```

---

## Module system
"#;

fn schema_toml_for(entries: &[(&str, &str, &str)]) -> String {
    let mut out = String::new();
    for (name, kind, since) in entries {
        out.push_str(&format!(
            "[[entry]]\nname = \"{name}\"\nkind = \"{kind}\"\nsince = \"{since}\"\n\n"
        ));
    }
    out
}

fn full_schema() -> String {
    schema_toml_for(&[
        ("on", "lua_function", "1.0"),
        ("state", "lua_table", "1.0"),
        ("state.get", "lua_function", "1.0"),
        ("state.watch", "lua_function", "1.0"),
        ("debounce", "lua_function", "1.0"),
        ("spawn", "lua_function", "1.0"),
        ("workflow", "lua_table", "1.2"),
        ("workflow.define", "lua_function", "1.2"),
        ("ping", "ipc_method", "1.0"),
        ("emit", "ipc_method", "1.0"),
        ("events.subscribe", "ipc_method", "1.0"),
        ("ping", "cli_command", "0.7"),
        ("modules.list", "cli_command", "0.7"),
        ("modules.info", "cli_command", "0.7"),
    ])
}

#[test]
fn extracts_lua_bindings_precisely() {
    let got = extract_lua_bindings(LUA_SRC).into_iter().collect::<BTreeSet<_>>();
    let want: BTreeSet<(String, String)> = [
        ("lua_function", "on"),
        ("lua_table", "state"),
        ("lua_function", "state.get"),
        ("lua_function", "state.watch"),
        ("lua_function", "debounce"),
        ("lua_function", "spawn"),
        ("lua_table", "workflow"),
        ("lua_function", "workflow.define"),
    ]
    .into_iter()
    .map(|(k, n)| (k.to_string(), n.to_string()))
    .collect();
    assert_eq!(got, want, "must exclude __-prefixed internals");
}

#[test]
fn extracts_ipc_methods_without_leaking_nested_match_arms() {
    let got = extract_ipc_methods(IPC_SRC).into_iter().collect::<BTreeSet<_>>();
    let want: BTreeSet<String> = ["events.subscribe", "ping", "emit"]
        .into_iter()
        .map(String::from)
        .collect();
    assert_eq!(
        got, want,
        "must not pick up \"terminal\"/\"git\" from the nested `match source_str` inside the emit arm"
    );
}

#[test]
fn clean_state_passes() {
    let report = check(LUA_SRC, IPC_SRC, CLI_SRC, &full_schema(), DOC_MD, README_MD).unwrap();
    assert!(report.is_clean(), "{report:#?}");
}

#[test]
fn renamed_schema_entry_is_caught_as_drift() {
    // Simulate a contributor renaming `bread.debounce` in code without
    // updating api-schema.toml: schema still says "debounce", code no
    // longer does (only "debounce_v2" now exists).
    let renamed_lua_src = LUA_SRC.replace("bread.debounce", "bread.debounce_v2");
    let report = check(
        &renamed_lua_src,
        IPC_SRC,
        CLI_SRC,
        &full_schema(),
        DOC_MD,
        README_MD,
    )
    .unwrap();
    assert!(!report.is_clean());
    assert!(report
        .missing_from_schema
        .contains(&("lua_function".to_string(), "debounce_v2".to_string())));
    assert!(report
        .stale_in_schema
        .contains(&("lua_function".to_string(), "debounce".to_string())));
}

#[test]
fn removed_ipc_method_is_caught_as_drift() {
    let without_emit = IPC_SRC.replacen("\"emit\" => {", "\"emit_removed\" => {", 1);
    let report = check(
        LUA_SRC,
        &without_emit,
        CLI_SRC,
        &full_schema(),
        DOC_MD,
        README_MD,
    )
    .unwrap();
    assert!(!report.is_clean());
    assert!(report
        .stale_in_schema
        .contains(&("ipc_method".to_string(), "emit".to_string())));
}

#[test]
fn missing_doc_heading_is_caught_as_drift() {
    let doc_without_spawn_heading = DOC_MD.replace("#### `bread.spawn(fn)`\n", "");
    let report = check(
        LUA_SRC,
        IPC_SRC,
        CLI_SRC,
        &full_schema(),
        &doc_without_spawn_heading,
        README_MD,
    )
    .unwrap();
    assert!(!report.is_clean());
    assert!(report
        .undocumented
        .contains(&("lua_function".to_string(), "spawn".to_string())));
}

#[test]
fn unknown_kind_is_rejected() {
    let bad_schema = schema_toml_for(&[("on", "lua_thing", "1.0")]);
    let report = check(LUA_SRC, IPC_SRC, CLI_SRC, &bad_schema, DOC_MD, README_MD).unwrap();
    assert!(!report.is_clean());
    assert!(report
        .bad_kind
        .contains(&("lua_thing".to_string(), "on".to_string())));
}

#[test]
fn kebab_converts_pascal_case_correctly() {
    assert_eq!(kebab("Ping"), "ping");
    assert_eq!(kebab("ProfileList"), "profile-list");
    assert_eq!(kebab("InstallShell"), "install-shell");
}

#[test]
fn extracts_cli_commands_with_subcommand_groups_dotted() {
    let got = extract_cli_commands(CLI_SRC).into_iter().collect::<BTreeSet<_>>();
    let want: BTreeSet<String> = ["ping", "modules.list", "modules.info"]
        .into_iter()
        .map(String::from)
        .collect();
    assert_eq!(
        got, want,
        "flat leaf commands stay bare; subcommand-group members get `<group>.<sub>` names"
    );
}

#[test]
fn renamed_cli_command_is_caught_as_drift() {
    // Simulate a contributor renaming the `modules info` subcommand in
    // code (e.g. to `Show`) without updating api-schema.toml.
    let renamed_cli_src = CLI_SRC.replace("Info { name: String }", "Show { name: String }");
    let report = check(
        LUA_SRC,
        IPC_SRC,
        &renamed_cli_src,
        &full_schema(),
        DOC_MD,
        README_MD,
    )
    .unwrap();
    assert!(!report.is_clean());
    assert!(report
        .missing_from_schema
        .contains(&("cli_command".to_string(), "modules.show".to_string())));
    assert!(report
        .stale_in_schema
        .contains(&("cli_command".to_string(), "modules.info".to_string())));
}

#[test]
fn missing_readme_cli_line_is_caught_as_drift() {
    // The exact class of drift this coverage exists to catch: a real
    // command exists in code and api-schema.toml, but README's "CLI
    // reference" section never got a line added for it.
    let readme_without_modules_info = README_MD.replace("bread modules info <name>\n", "");
    let report = check(
        LUA_SRC,
        IPC_SRC,
        CLI_SRC,
        &full_schema(),
        DOC_MD,
        &readme_without_modules_info,
    )
    .unwrap();
    assert!(!report.is_clean());
    assert!(report
        .missing_from_readme
        .contains(&("cli_command".to_string(), "modules.info".to_string())));
}

#[test]
fn extracted_items_come_in_order_and_once() {
    let got = extract_lua_bindings("bread.set(\"b\", 1) bread.set(\"a\", 1) bread.set(\"b\", 2)");
    let pair = |k: &str, n: &str| (k.to_string(), n.to_string());
    assert_eq!(
        got,
        vec![pair("lua_function", "a"), pair("lua_function", "b")]
    );
}

#[test]
fn enum_variants_come_in_the_order_of_the_source() {
    assert_eq!(
        extract_enum_variants(CLI_SRC, "Commands"),
        vec!["Ping", "Modules"]
    );
    assert!(extract_enum_variants(CLI_SRC, "Missing").is_empty());
}

#[test]
fn registries_that_cannot_be_read_are_told_apart() {
    let report = |schema: &str| check(LUA_SRC, IPC_SRC, CLI_SRC, schema, DOC_MD, README_MD);
    assert!(matches!(report("[[entry"), Err(SchemaError::Syntax(_))));
    assert!(matches!(report("entry = 3"), Err(SchemaError::Shape(e)) if e == "no registry"));
    assert!(matches!(
        report("[[entry]]\nname = \"on\"\n"),
        Err(SchemaError::Shape(e)) if e == "no registry"
    ));
    // An entry may leave out since when it is there; that is reported.
    let undated = report("[[entry]]\nname = \"on\"\nkind = \"lua_function\"\n").unwrap();
    assert_eq!(
        undated.missing_since,
        vec![("lua_function".to_string(), "on".to_string())]
    );
}

#[test]
fn reports_are_written_part_by_part() {
    let clean = check(LUA_SRC, IPC_SRC, CLI_SRC, &full_schema(), DOC_MD, README_MD).unwrap();
    assert_eq!(clean.lines().len(), 1);
    assert!(clean.lines()[0].starts_with("check-docs: OK"));
    let entries = vec![SchemaEntry {
        name: "gone".to_string(),
        kind: "ipc_method".to_string(),
        since: "1.0".to_string(),
    }];
    let report = compare("", "", "", &entries, DOC_MD, README_MD);
    let lines = report.lines();
    assert_eq!(
        lines,
        vec![
            "Stale in api-schema.toml (no longer found in code):",
            "  - [ipc_method] gone",
            "",
            "In api-schema.toml but missing from Documentation.md (no `#### bread.<name>` heading for a lua_function/lua_table, or no `<name>` row in the IPC Methods table):",
            "  - [ipc_method] gone",
            "",
            "check-docs: FAILED \u{2014} see above.",
        ]
    );
    let bad = check("", "", "", &schema_toml_for(&[("on", "lua_thing", "1.0")]), "", "").unwrap();
    assert_eq!(bad.lines()[1], "  - on (kind = \"lua_thing\")");
}

#[test]
fn sections_end_before_the_next_heading() {
    let doc = "## A\nfirst\n## B\nsecond\n";
    assert_eq!(section(doc, "## A"), "## A\nfirst");
    assert_eq!(section(doc, "## B"), "## B\nsecond\n");
    assert_eq!(section(doc, "## C"), "");
    assert!(lua_api_section(DOC_MD).contains("bread.spawn"));
    assert!(!lua_api_section(DOC_MD).contains("| Method"));
    assert!(ipc_section(DOC_MD).contains("`ping`"));
    assert!(!readme_cli_section(README_MD).contains("Module system"));
}

#[test]
fn entries_can_be_given_in_order() {
    let v = wire::parse(r#"{"entry": [["on", "lua_function"], ["ping", "ipc_method", "1.0"]]}"#)
        .expect("a JSON text");
    let entries = read_schema(&v).expect("entries");
    assert_eq!(entries.len(), 2);
    assert_eq!(entries[0].since, "");
    assert_eq!(entries[1].name, "ping");
}

#[test]
fn the_root_of_the_repository_holds_the_program() {
    assert_eq!(repo_root("/work/bread/xtask"), Some("/work/bread".to_string()));
    assert_eq!(repo_root("/"), None);
    assert!(usage().contains("check-docs"));
}
