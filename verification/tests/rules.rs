use breadd::rules::{
    load_rules, rule_pattern, rule_step, ParsedRule, RuleAction, RuleIssue, RuleStep,
    RulesLoadOutcome,
};

fn load(read: Option<Result<String, String>>) -> RulesLoadOutcome {
    load_rules(read, "no rules")
}

fn file_with(contents: &str) -> Option<Result<String, String>> {
    Some(Ok(contents.to_string()))
}

#[test]
fn absent_file_is_not_an_error() {
    assert!(matches!(load(None), RulesLoadOutcome::Absent));
}

#[test]
fn invalid_toml_is_fatal() {
    let file = file_with("[[rule\nbroken");
    match load(file) {
        RulesLoadOutcome::Fatal(msg) => assert!(msg.contains("failed to parse")),
        other => panic!("expected Fatal, got {other:?}"),
    }
}

#[test]
fn empty_file_loads_with_no_rules() {
    let file = file_with("");
    let RulesLoadOutcome::Loaded { rules, issues } = load(file) else {
        panic!("expected Loaded");
    };
    assert!(rules.is_empty());
    assert!(issues.is_empty());
}

#[test]
fn well_formed_rules_all_three_action_kinds_parse() {
    let file = file_with(
        r#"
[[rule]]
on = "device.dock.connected"
run = "~/.config/bread/scripts/dock-connected.sh"

[[rule]]
on = "power.ac.disconnected"
notify = "Unplugged"

[[rule]]
on = "device.keyboard.connected"
exec = "xset r rate 200 40"
"#,
    );
    let RulesLoadOutcome::Loaded { rules, issues } = load(file) else {
        panic!("expected Loaded");
    };
    assert!(issues.is_empty());
    assert_eq!(rules.len(), 3);
    assert_eq!(rules[0].on, "device.dock.connected");
    assert!(matches!(
        &rules[0].action,
        RuleAction::Run(path) if path == "~/.config/bread/scripts/dock-connected.sh"
    ));
    assert_eq!(rules[1].on, "power.ac.disconnected");
    assert!(matches!(&rules[1].action, RuleAction::Notify(message) if message == "Unplugged"));
    assert_eq!(rules[2].on, "device.keyboard.connected");
    assert!(matches!(&rules[2].action, RuleAction::Exec(line) if line == "xset r rate 200 40"));
}

#[test]
fn wildcard_on_is_passed_through_unvalidated() {
    let file = file_with(
        r#"
[[rule]]
on = "device.*.connected"
exec = "true"
"#,
    );
    let RulesLoadOutcome::Loaded { rules, issues } = load(file) else {
        panic!("expected Loaded");
    };
    assert!(issues.is_empty());
    assert_eq!(rules[0].on, "device.*.connected");
}

#[test]
fn missing_on_is_reported_with_index_and_no_on() {
    let file = file_with(
        r#"
[[rule]]
exec = "true"
"#,
    );
    let RulesLoadOutcome::Loaded { rules, issues } = load(file) else {
        panic!("expected Loaded");
    };
    assert!(rules.is_empty());
    assert_eq!(issues.len(), 1);
    assert_eq!(issues[0].index, 0);
    assert_eq!(issues[0].on, None);
    assert!(issues[0].message.contains("missing or empty"));
}

#[test]
fn empty_on_is_treated_as_missing() {
    let file = file_with(
        r#"
[[rule]]
on = "   "
exec = "true"
"#,
    );
    let RulesLoadOutcome::Loaded { issues, .. } = load(file) else {
        panic!("expected Loaded");
    };
    assert_eq!(issues.len(), 1);
    assert!(issues[0].message.contains("missing or empty"));
}

#[test]
fn zero_action_keys_is_reported() {
    let file = file_with(
        r#"
[[rule]]
on = "power.ac.disconnected"
"#,
    );
    let RulesLoadOutcome::Loaded { rules, issues } = load(file) else {
        panic!("expected Loaded");
    };
    assert!(rules.is_empty());
    assert_eq!(issues.len(), 1);
    assert_eq!(issues[0].on.as_deref(), Some("power.ac.disconnected"));
    assert!(issues[0].message.contains("none set"));
}

#[test]
fn multiple_action_keys_is_reported() {
    let file = file_with(
        r#"
[[rule]]
on = "power.ac.disconnected"
notify = "Unplugged"
exec = "true"
"#,
    );
    let RulesLoadOutcome::Loaded { rules, issues } = load(file) else {
        panic!("expected Loaded");
    };
    assert!(rules.is_empty());
    assert_eq!(issues.len(), 1);
    assert!(issues[0].message.contains("notify"));
    assert!(issues[0].message.contains("exec"));
}

#[test]
fn one_bad_rule_does_not_block_other_valid_rules() {
    let file = file_with(
        r#"
[[rule]]
on = "device.dock.connected"
exec = "true"

[[rule]]
notify = "no on here"

[[rule]]
on = "power.ac.disconnected"
notify = "Unplugged"
"#,
    );
    let RulesLoadOutcome::Loaded { rules, issues } = load(file) else {
        panic!("expected Loaded");
    };
    assert_eq!(rules.len(), 2);
    assert_eq!(issues.len(), 1);
    assert_eq!(issues[0].index, 1);
}

#[test]
fn rule_issue_display_includes_index_and_on() {
    let issue = RuleIssue {
        index: 2,
        on: Some("power.ac.disconnected".to_string()),
        message: "must set exactly one of `run`, `notify`, `exec` (none set)".to_string(),
    };
    assert_eq!(
        issue.to_string(),
        "rule #2 (on = \"power.ac.disconnected\"): must set exactly one of `run`, `notify`, `exec` (none set)"
    );
}

#[test]
fn unreadable_and_misshapen_files_are_fatal() {
    match load(Some(Err("no permission".to_string()))) {
        RulesLoadOutcome::Fatal(msg) => assert_eq!(msg, "failed to read rules.toml: no permission"),
        other => panic!("expected Fatal, got {other:?}"),
    }
    for content in ["rule = 3", "rule = [3]", "[[rule]]\non = 3\n"] {
        match load(file_with(content)) {
            RulesLoadOutcome::Fatal(msg) => assert_eq!(msg, "failed to parse rules.toml: no rules"),
            other => panic!("expected Fatal, got {other:?}"),
        }
    }
}

fn first_rule(content: &str) -> ParsedRule {
    let RulesLoadOutcome::Loaded { mut rules, .. } = load(file_with(content)) else {
        panic!("expected Loaded");
    };
    rules.remove(0)
}

#[test]
fn rules_act_on_the_events_of_the_daemon() {
    let rule = first_rule("[[rule]]\non = \"device.*.connected\"\nexec = \"true\"\n");
    assert_eq!(rule_pattern(&rule), "bread.device.*.connected");
}

#[test]
fn programs_run_as_one_word_and_command_lines_as_they_stand() {
    let rule = first_rule("[[rule]]\non = \"a\"\nrun = \"~/my scripts/it's.sh\"\n");
    match rule_step(&rule, Some("/home/me")) {
        RuleStep::Shell(line) => assert_eq!(line, "'/home/me/my scripts/it'\\''s.sh'"),
        other => panic!("unexpected {other:?}"),
    }
    let rule = first_rule("[[rule]]\non = \"a\"\nexec = \"xset r rate 200 40\"\n");
    match rule_step(&rule, Some("/home/me")) {
        RuleStep::Shell(line) => assert_eq!(line, "xset r rate 200 40"),
        other => panic!("unexpected {other:?}"),
    }
    let rule = first_rule("[[rule]]\non = \"a\"\nnotify = \"Unplugged\"\n");
    match rule_step(&rule, None) {
        RuleStep::Notify(message) => assert_eq!(message, "Unplugged"),
        other => panic!("unexpected {other:?}"),
    }
}
