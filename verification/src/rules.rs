//! Rules of the kind "when this event happens, do that", as a rules file
//! declares them.

use crate::config;
use crate::json::{self, Json, JsonValue};
use crate::text;
use crate::wire;
use vstd::prelude::*;

verus! {

/// A rule as it stands in the file.
#[derive(Debug)]
pub struct RawRule {
    pub on: Option<String>,
    pub run: Option<String>,
    pub notify: Option<String>,
    pub command: Option<String>,
}

/// What a rule in the file stands for.
#[verifier::ext_equal]
pub struct RawRuleView {
    pub on: Option<Seq<char>>,
    pub run: Option<Seq<char>>,
    pub notify: Option<Seq<char>>,
    pub command: Option<Seq<char>>,
}

impl DeepView for RawRule {
    type V = RawRuleView;

    open spec fn deep_view(&self) -> RawRuleView {
        RawRuleView {
            on: self.on.deep_view(),
            run: self.run.deep_view(),
            notify: self.notify.deep_view(),
            command: self.command.deep_view(),
        }
    }
}

/// What a rule does when its event happens.
#[derive(Debug)]
pub enum RuleAction {
    /// Runs one program, whose path may hold blanks.
    Run(String),
    /// Runs a command line of the shell as it stands.
    Exec(String),
    /// Shows a message on the desktop.
    Notify(String),
}

/// What an action stands for.
pub enum ActionView {
    Run(Seq<char>),
    Exec(Seq<char>),
    Notify(Seq<char>),
}

impl DeepView for RuleAction {
    type V = ActionView;

    open spec fn deep_view(&self) -> ActionView {
        match self {
            RuleAction::Run(s) => ActionView::Run(s@),
            RuleAction::Exec(s) => ActionView::Exec(s@),
            RuleAction::Notify(s) => ActionView::Notify(s@),
        }
    }
}

impl PartialEq for RuleAction {
    fn eq(&self, other: &RuleAction) -> (r: bool) {
        match (self, other) {
            (RuleAction::Run(a), RuleAction::Run(b)) => a.eq(b),
            (RuleAction::Exec(a), RuleAction::Exec(b)) => a.eq(b),
            (RuleAction::Notify(a), RuleAction::Notify(b)) => a.eq(b),
            _ => false,
        }
    }
}

impl vstd::std_specs::cmp::PartialEqSpecImpl for RuleAction {
    open spec fn obeys_eq_spec() -> bool {
        true
    }

    open spec fn eq_spec(&self, other: &RuleAction) -> bool {
        self.deep_view() == other.deep_view()
    }
}

/// A rule that is in order. The event is the one named `bread.` and `on`, which
/// may hold wildcards.
#[derive(Debug)]
pub struct ParsedRule {
    pub on: String,
    pub action: RuleAction,
}

/// What a rule that is in order stands for.
#[verifier::ext_equal]
pub struct ParsedView {
    pub on: Seq<char>,
    pub action: ActionView,
}

impl DeepView for ParsedRule {
    type V = ParsedView;

    open spec fn deep_view(&self) -> ParsedView {
        ParsedView { on: self.on@, action: self.action.deep_view() }
    }
}

impl PartialEq for ParsedRule {
    fn eq(&self, other: &ParsedRule) -> (r: bool) {
        self.on.eq(&other.on) && self.action.eq(&other.action)
    }
}

impl vstd::std_specs::cmp::PartialEqSpecImpl for ParsedRule {
    open spec fn obeys_eq_spec() -> bool {
        true
    }

    open spec fn eq_spec(&self, other: &ParsedRule) -> bool {
        self.deep_view() == other.deep_view()
    }
}

/// What is wrong with a rule in the file.
#[derive(Debug)]
pub struct RuleIssue {
    /// The position of the rule in the file, from zero.
    pub index: usize,
    /// The event that the rule names, if it names one.
    pub on: Option<String>,
    pub message: String,
}

/// What an issue stands for.
#[verifier::ext_equal]
pub struct IssueView {
    pub index: usize,
    pub on: Option<Seq<char>>,
    pub message: Seq<char>,
}

impl DeepView for RuleIssue {
    type V = IssueView;

    open spec fn deep_view(&self) -> IssueView {
        IssueView { index: self.index, on: self.on.deep_view(), message: self.message@ }
    }
}

/// The text that tells of an issue.
pub open spec fn issue_text(issue: IssueView) -> Seq<char> {
    let number = "rule #"@ + text::decimal(issue.index as nat);
    match issue.on {
        Some(on) => number + " (on = \""@ + on + "\"): "@ + issue.message,
        None => number + ": "@ + issue.message,
    }
}

impl RuleIssue {
    /// The text that tells of the issue.
    pub fn to_string(&self) -> (r: String)
        ensures
            r@ == issue_text(self.deep_view()),
    {
        let mut r = text::concat("rule #", text::decimal_u64(self.index as u64).as_str());
        match &self.on {
            Some(on) => {
                r.append(" (on = \"");
                r.append(on.as_str());
                r.append("\"): ");
            },
            None => {
                r.append(": ");
            },
        }
        r.append(self.message.as_str());
        r
    }
}

/// What came of the attempt to load the rules file.
#[derive(Debug)]
pub enum RulesLoadOutcome {
    /// There is no such file, which is in order.
    Absent,
    /// The file cannot be read or is not well formed.
    Fatal(String),
    /// The rules that are in order, and what is wrong with the others.
    Loaded { rules: Vec<ParsedRule>, issues: Vec<RuleIssue> },
}

/// The names of the actions that a rule sets.
pub open spec fn actions_set(raw: RawRuleView) -> Seq<Seq<char>> {
    let run = if raw.run is Some {
        seq!["run"@]
    } else {
        Seq::empty()
    };
    let notify = if raw.notify is Some {
        seq!["notify"@]
    } else {
        Seq::empty()
    };
    let command = if raw.command is Some {
        seq!["exec"@]
    } else {
        Seq::empty()
    };
    run + notify + command
}

/// The event that a rule names, unless it is blank.
pub open spec fn event_named(raw: RawRuleView) -> Option<Seq<char>> {
    match raw.on {
        Some(on) if text::trimmed(on).len() > 0 => Some(on),
        _ => None,
    }
}

/// The action of a rule that sets exactly one.
pub open spec fn action_of(raw: RawRuleView) -> ActionView {
    if let Some(v) = raw.run {
        ActionView::Run(v)
    } else if let Some(v) = raw.notify {
        ActionView::Notify(v)
    } else {
        ActionView::Exec(raw.command->0)
    }
}

/// A rule is in order when it names an event and sets exactly one action.
pub open spec fn checked(index: usize, raw: RawRuleView) -> Result<ParsedView, IssueView> {
    match event_named(raw) {
        None => Err(IssueView { index, on: None, message: "missing or empty `on`"@ }),
        Some(on) => {
            let set = actions_set(raw);
            if set.len() == 0 {
                Err(
                    IssueView {
                        index,
                        on: Some(on),
                        message: "must set exactly one of `run`, `notify`, `exec` (none set)"@,
                    },
                )
            } else if set.len() > 1 {
                Err(
                    IssueView {
                        index,
                        on: Some(on),
                        message: "must set exactly one of `run`, `notify`, `exec` (found: "@
                            + text::join(set, ", "@) + ")"@,
                    },
                )
            } else {
                Ok(ParsedView { on, action: action_of(raw) })
            }
        },
    }
}

/// Checks a rule of the file.
pub fn validate_rule(index: usize, raw: RawRule) -> (r: Result<ParsedRule, RuleIssue>)
    ensures
        match r {
            Ok(rule) => checked(index, raw.deep_view()) == Ok::<ParsedView, IssueView>(
                rule.deep_view(),
            ),
            Err(issue) => checked(index, raw.deep_view()) == Err::<ParsedView, IssueView>(
                issue.deep_view(),
            ),
        },
{
    let ghost view = raw.deep_view();
    let mut present: Vec<String> = Vec::new();
    if raw.run.is_some() {
        present.push("run".to_owned());
    }
    if raw.notify.is_some() {
        present.push("notify".to_owned());
    }
    if raw.command.is_some() {
        present.push("exec".to_owned());
    }
    assert(present.deep_view() =~= actions_set(view));
    assert(present.deep_view().len() == present@.len());
    let on = match raw.on {
        Some(on) => if text::trim(on.as_str()).as_str().is_empty() {
            None
        } else {
            Some(on)
        },
        None => None,
    };
    let on = match on {
        Some(on) => on,
        None => {
            return Err(
                RuleIssue { index, on: None, message: "missing or empty `on`".to_owned() },
            );
        },
    };
    if present.len() == 0 {
        return Err(
            RuleIssue {
                index,
                on: Some(on),
                message: "must set exactly one of `run`, `notify`, `exec` (none set)".to_owned(),
            },
        );
    }
    if present.len() > 1 {
        let mut message = "must set exactly one of `run`, `notify`, `exec` (found: ".to_owned();
        message.append(text::join_with(&present, ", ").as_str());
        message.append(")");
        return Err(RuleIssue { index, on: Some(on), message });
    }
    let action = if let Some(v) = raw.run {
        RuleAction::Run(v)
    } else if let Some(v) = raw.notify {
        RuleAction::Notify(v)
    } else if let Some(v) = raw.command {
        RuleAction::Exec(v)
    } else {
        assert(false);
        RuleAction::Exec(String::new())
    };
    Ok(ParsedRule { on, action })
}

/// The rules among the first `n` that are in order.
pub open spec fn rules_of(raw: Seq<RawRuleView>, n: int) -> Seq<ParsedView>
    decreases n,
{
    if n <= 0 {
        Seq::empty()
    } else {
        match checked((n - 1) as usize, raw[n - 1]) {
            Ok(rule) => rules_of(raw, n - 1).push(rule),
            Err(_) => rules_of(raw, n - 1),
        }
    }
}

/// What is wrong with the others among the first `n` rules.
pub open spec fn issues_of(raw: Seq<RawRuleView>, n: int) -> Seq<IssueView>
    decreases n,
{
    if n <= 0 {
        Seq::empty()
    } else {
        match checked((n - 1) as usize, raw[n - 1]) {
            Ok(_) => issues_of(raw, n - 1),
            Err(issue) => issues_of(raw, n - 1).push(issue),
        }
    }
}

/// Checks the rules of a file. A rule that is not in order is told of and does
/// not keep the others from being used.
pub fn validate_rules(raw: Vec<RawRule>) -> (r: RulesLoadOutcome)
    ensures
        r matches RulesLoadOutcome::Loaded { rules, issues } && rules.deep_view() == rules_of(
            raw.deep_view(),
            raw.len() as int,
        ) && issues.deep_view() == issues_of(raw.deep_view(), raw.len() as int),
{
    let ghost all = raw.deep_view();
    let mut rules: Vec<ParsedRule> = Vec::new();
    let mut issues: Vec<RuleIssue> = Vec::new();
    let n: usize = raw.len();
    let mut index: usize = 0;
    assert(rules.deep_view() =~= Seq::empty());
    assert(issues.deep_view() =~= Seq::empty());
    for rule in it: raw
        invariant
            it.seq().len() == all.len(),
            all.len() == n,
            forall|i: int| 0 <= i < all.len() ==> (#[trigger] it.seq()[i]).deep_view() == all[i],
            index == it.index(),
            rules.deep_view() == rules_of(all, index as int),
            issues.deep_view() == issues_of(all, index as int),
    {
        let ghost rules_before = rules.deep_view();
        let ghost issues_before = issues.deep_view();
        match validate_rule(index, rule) {
            Ok(parsed) => {
                let ghost view = parsed.deep_view();
                rules.push(parsed);
                assert(rules.deep_view() =~= rules_before.push(view));
            },
            Err(issue) => {
                let ghost view = issue.deep_view();
                issues.push(issue);
                assert(issues.deep_view() =~= issues_before.push(view));
            },
        }
        index += 1;
    }
    RulesLoadOutcome::Loaded { rules, issues }
}

/// The text that a field holds, which may be left out.
pub open spec fn optional_text(v: Option<Json>) -> Option<Option<Seq<char>>> {
    match v {
        None => Some(None),
        Some(Json::Text(s)) => Some(Some(s)),
        _ => None,
    }
}

/// The rule with the given fields, where each is a text or left out.
pub open spec fn rule_from(
    on: Option<Json>,
    run: Option<Json>,
    notify: Option<Json>,
    command: Option<Json>,
) -> Option<RawRuleView> {
    match (optional_text(on), optional_text(run), optional_text(notify), optional_text(command)) {
        (Some(on), Some(run), Some(notify), Some(command)) => Some(
            RawRuleView { on, run, notify, command },
        ),
        _ => None,
    }
}

/// The rule that a value describes: its fields are given by name, or all of
/// them in order.
pub open spec fn raw_rule(v: Json) -> Option<RawRuleView> {
    match v {
        Json::Object(m) => rule_from(
            v.get("on"@),
            v.get("run"@),
            v.get("notify"@),
            v.get("exec"@),
        ),
        Json::Array(items) => if items.len() >= 4 {
            rule_from(Some(items[0]), Some(items[1]), Some(items[2]), Some(items[3]))
        } else {
            None
        },
        _ => None,
    }
}

/// The rules that the values describe, where each describes one.
pub open spec fn raw_rules_of(items: Seq<Json>) -> Option<Seq<RawRuleView>>
    decreases items.len(),
{
    if items.len() == 0 {
        Some(Seq::empty())
    } else {
        match (raw_rules_of(items.drop_last()), raw_rule(items.last())) {
            (Some(rest), Some(r)) => Some(rest.push(r)),
            _ => None,
        }
    }
}

/// The rules of a file. One without rules is empty.
pub open spec fn raw_rules(v: Json) -> Option<Seq<RawRuleView>> {
    match v.get("rule"@) {
        None => Some(Seq::empty()),
        Some(Json::Array(items)) => raw_rules_of(items),
        _ => None,
    }
}

fn read_text(v: Option<&JsonValue>) -> (r: Option<Option<String>>)
    ensures
        match r {
            Some(s) => optional_text(
                (match v {
                    Some(v) => Some(v@),
                    None => None,
                }),
            ) == Some(s.deep_view()),
            None => optional_text(
                (match v {
                    Some(v) => Some(v@),
                    None => None,
                }),
            ) is None,
        },
{
    match v {
        None => Some(None),
        Some(JsonValue::Text(s)) => Some(Some(s.clone())),
        _ => None,
    }
}

fn make_rule(
    on: Option<&JsonValue>,
    run: Option<&JsonValue>,
    notify: Option<&JsonValue>,
    command: Option<&JsonValue>,
) -> (r: Option<RawRule>)
    ensures
        r.deep_view() == rule_from(
            (match on {
                Some(v) => Some(v@),
                None => None,
            }),
            (match run {
                Some(v) => Some(v@),
                None => None,
            }),
            (match notify {
                Some(v) => Some(v@),
                None => None,
            }),
            (match command {
                Some(v) => Some(v@),
                None => None,
            }),
        ),
{
    match (read_text(on), read_text(run), read_text(notify), read_text(command)) {
        (Some(on), Some(run), Some(notify), Some(command)) => Some(
            RawRule { on, run, notify, command },
        ),
        _ => None,
    }
}

fn read_rule(v: &JsonValue) -> (r: Option<RawRule>)
    ensures
        r.deep_view() == raw_rule(v@),
{
    match v {
        JsonValue::Object(_) => make_rule(
            v.get("on"),
            v.get("run"),
            v.get("notify"),
            v.get("exec"),
        ),
        JsonValue::Array(items) => {
            proof {
                json::lemma_item_models(items@);
            }
            if items.len() >= 4 {
                make_rule(Some(&items[0]), Some(&items[1]), Some(&items[2]), Some(&items[3]))
            } else {
                None
            }
        },
        _ => None,
    }
}

proof fn lemma_no_raw_rules(items: Seq<Json>, k: int)
    requires
        0 <= k < items.len(),
        raw_rule(items[k]) is None,
    ensures
        raw_rules_of(items) is None,
    decreases items.len(),
{
    if k < items.len() - 1 {
        lemma_no_raw_rules(items.drop_last(), k);
    }
}

/// The rules of a file, where the value is one.
pub fn read_rules(v: &JsonValue) -> (r: Option<Vec<RawRule>>)
    ensures
        r.deep_view() == raw_rules(v@),
{
    let mut r: Vec<RawRule> = Vec::new();
    assert(r.deep_view() =~= Seq::empty());
    match v.get("rule") {
        None => Some(r),
        Some(JsonValue::Array(items)) => {
            let ghost all = json::item_models(items@);
            proof {
                json::lemma_item_models(items@);
                assert(all.take(0) =~= Seq::empty());
            }
            let mut i: usize = 0;
            while i < items.len()
                invariant
                    i <= items.len(),
                    items.len() == all.len(),
                    all == json::item_models(items@),
                    v@.get("rule"@) == Some(Json::Array(all)),
                    raw_rules_of(all.take(i as int)) == Some(r.deep_view()),
                decreases items.len() - i,
            {
                let ghost before = r.deep_view();
                proof {
                    json::lemma_item_models(items@);
                    assert(all.take(i + 1).drop_last() =~= all.take(i as int));
                    assert(all.take(i + 1).last() == items@[i as int]@);
                }
                match read_rule(&items[i]) {
                    Some(rule) => {
                        let ghost view = rule.deep_view();
                        r.push(rule);
                        assert(r.deep_view() =~= before.push(view));
                    },
                    None => {
                        proof {
                            lemma_no_raw_rules(all, i as int);
                        }
                        return None;
                    },
                }
                i += 1;
            }
            assert(all.take(all.len() as int) =~= all);
            Some(r)
        },
        Some(_) => None,
    }
}

/// The attempt to load the rules file has failed, and this is why.
pub open spec fn fatal(r: RulesLoadOutcome, message: Seq<char>) -> bool {
    r matches RulesLoadOutcome::Fatal(m) && m@ == message
}

/// What came of the attempt to load the rules file, by what reading it gave:
/// nothing where there is no file, else the rules in its text or why there are
/// none. `misfit` is what the deserializer says of a document that is not one of
/// rules; of any other it is not looked at.
pub fn load_rules(read: Option<Result<String, String>>, misfit: &str) -> (r: RulesLoadOutcome)
    ensures
        match read {
            None => r is Absent,
            Some(Err(e)) => fatal(r, "failed to read rules.toml: "@ + e@),
            Some(Ok(content)) => match wire::toml_parsed(content@) {
                Err(e) => fatal(r, "failed to parse rules.toml: "@ + e),
                Ok(v) => match raw_rules(v) {
                    None => fatal(r, "failed to parse rules.toml: "@ + misfit@),
                    Some(raw) => r matches RulesLoadOutcome::Loaded { rules, issues }
                        && rules.deep_view() == rules_of(raw, raw.len() as int)
                        && issues.deep_view() == issues_of(raw, raw.len() as int),
                },
            },
        },
{
    match read {
        None => RulesLoadOutcome::Absent,
        Some(Err(e)) => RulesLoadOutcome::Fatal(
            text::concat("failed to read rules.toml: ", e.as_str()),
        ),
        Some(Ok(content)) => match wire::parse_toml(content.as_str()) {
            Err(e) => RulesLoadOutcome::Fatal(
                text::concat("failed to parse rules.toml: ", e.as_str()),
            ),
            Ok(v) => match read_rules(&v) {
                None => RulesLoadOutcome::Fatal(
                    text::concat("failed to parse rules.toml: ", misfit),
                ),
                Some(raw) => {
                    assert(raw.deep_view().len() == raw@.len());
                    validate_rules(raw)
                },
            },
        },
    }
}

/// The pattern of the events on which a rule acts.
pub fn rule_pattern(rule: &ParsedRule) -> (r: String)
    ensures
        r@ == "bread."@ + rule.deep_view().on,
{
    text::concat("bread.", rule.on.as_str())
}

/// The text with each single quotation mark written so that it can stand
/// between such marks on a command line.
pub open spec fn escaped(s: Seq<char>) -> Seq<char>
    decreases s.len(),
{
    if s.len() == 0 {
        Seq::empty()
    } else if s[0] == '\'' {
        seq!['\'', '\\', '\'', '\''] + escaped(s.drop_first())
    } else {
        seq![s[0]] + escaped(s.drop_first())
    }
}

/// The text as one word of a command line.
pub open spec fn shell_quoted(s: Seq<char>) -> Seq<char> {
    seq!['\''] + escaped(s) + seq!['\'']
}

/// The word that the shell reads from a text, inside or outside of single
/// quotation marks; none where the text is not a whole word.
pub open spec fn shell_word(s: Seq<char>, inside: bool) -> Option<Seq<char>>
    decreases s.len(),
{
    if s.len() == 0 {
        if inside {
            None
        } else {
            Some(Seq::empty())
        }
    } else if s[0] == '\'' {
        shell_word(s.drop_first(), !inside)
    } else if inside {
        match shell_word(s.drop_first(), true) {
            Some(rest) => Some(seq![s[0]] + rest),
            None => None,
        }
    } else if s[0] == '\\' && s.len() > 1 {
        match shell_word(s.subrange(2, s.len() as int), false) {
            Some(rest) => Some(seq![s[1]] + rest),
            None => None,
        }
    } else {
        None
    }
}

fn quote(s: &str) -> (r: String)
    ensures
        r@ == shell_quoted(s@),
{
    let v = text::chars_of(s);
    let mut r: Vec<char> = Vec::new();
    r.push('\'');
    let mut i: usize = 0;
    assert(v@.subrange(0, v@.len() as int) =~= v@);
    assert(r@ + escaped(v@) =~= seq!['\''] + escaped(v@));
    while i < v.len()
        invariant
            i <= v.len(),
            r@ + escaped(v@.subrange(i as int, v@.len() as int)) == seq!['\''] + escaped(v@),
        decreases v.len() - i,
    {
        let ghost before = r@;
        let ghost rest = v@.subrange(i as int, v@.len() as int);
        assert(rest.drop_first() =~= v@.subrange(i + 1, v@.len() as int));
        if v[i] == '\'' {
            r.push('\'');
            r.push('\\');
            r.push('\'');
            r.push('\'');
            assert(r@ =~= before + seq!['\'', '\\', '\'', '\'']);
            assert(r@ + escaped(rest.drop_first()) =~= before + (seq!['\'', '\\', '\'', '\'']
                + escaped(rest.drop_first())));
        } else {
            r.push(v[i]);
            assert(r@ + escaped(rest.drop_first()) =~= before + (seq![rest[0]] + escaped(
                rest.drop_first(),
            )));
        }
        i += 1;
    }
    assert(escaped(v@.subrange(v@.len() as int, v@.len() as int)) =~= Seq::empty());
    assert(r@ =~= seq!['\''] + escaped(v@));
    r.push('\'');
    assert(r@ =~= shell_quoted(v@));
    text::text_of(&r)
}

/// What is done when a rule's event happens.
#[derive(Debug)]
pub enum RuleStep {
    /// The command line is given to the shell.
    Shell(String),
    /// The message is shown.
    Notify(String),
}

/// What is done when a rule's event happens. A program runs as one word, with
/// its path below the home directory written out.
pub fn rule_step(rule: &ParsedRule, home: Option<&str>) -> (r: RuleStep)
    ensures
        match rule.deep_view().action {
            ActionView::Run(path) => r matches RuleStep::Shell(line) && line@ == shell_quoted(
                config::tilde_expanded(path, home.deep_view()),
            ),
            ActionView::Exec(command) => r matches RuleStep::Shell(line) && line@ == command,
            ActionView::Notify(message) => r matches RuleStep::Notify(m) && m@ == message,
        },
{
    match &rule.action {
        RuleAction::Run(path) => RuleStep::Shell(
            quote(config::lua_expand_path(path.as_str(), home).as_str()),
        ),
        RuleAction::Exec(command) => RuleStep::Shell(command.clone()),
        RuleAction::Notify(message) => RuleStep::Notify(message.clone()),
    }
}

proof fn lemma_escaped_word(s: Seq<char>, tail: Seq<char>)
    requires
        shell_word(tail, true) is Some,
    ensures
        shell_word(escaped(s) + tail, true) == Some(s + shell_word(tail, true)->0),
    decreases s.len(),
{
    let end = shell_word(tail, true)->0;
    if s.len() == 0 {
        assert(escaped(s) + tail =~= tail);
        assert(s + end =~= end);
    } else {
        let rest = s.drop_first();
        lemma_escaped_word(rest, tail);
        let after = escaped(rest) + tail;
        assert(s + end =~= seq![s[0]] + (rest + end));
        let whole = escaped(s) + tail;
        if s[0] == '\'' {
            let a = whole.drop_first();
            assert(a.subrange(2, a.len() as int) =~= seq!['\''] + after);
            let b = seq!['\''] + after;
            assert(b.drop_first() =~= after);
            assert(shell_word(b, false) == Some(rest + end));
            assert(shell_word(a, false) == Some(seq!['\''] + (rest + end)));
        } else {
            assert(whole.drop_first() =~= after);
        }
    }
}

/// The shell reads a quoted text as one word, which is the text, whatever
/// characters it holds.
pub proof fn law_quoted_text_is_one_word(s: Seq<char>)
    ensures
        shell_word(shell_quoted(s), false) == Some(s),
{
    let tail = seq!['\''];
    assert(tail.drop_first() =~= Seq::empty());
    assert(shell_word(tail.drop_first(), false) == Some(Seq::<char>::empty()));
    assert(shell_word(tail, true) == Some(Seq::<char>::empty()));
    lemma_escaped_word(s, tail);
    assert(s + Seq::<char>::empty() =~= s);
    assert(shell_quoted(s).drop_first() =~= escaped(s) + tail);
}

/// Every rule of the file is either used or told of.
pub proof fn law_every_rule_is_accounted(raw: Seq<RawRuleView>, n: int)
    requires
        0 <= n <= raw.len(),
    ensures
        rules_of(raw, n).len() + issues_of(raw, n).len() == n,
    decreases n,
{
    if n > 0 {
        law_every_rule_is_accounted(raw, n - 1);
    }
}

/// A rule is in order exactly when it names an event and sets one action.
pub proof fn law_exactly_one_action(index: usize, raw: RawRuleView)
    ensures
        checked(index, raw) is Ok <==> event_named(raw) is Some && actions_set(raw).len() == 1,
{
}

/// A rule is read by its keys. One that names an event and one action does that action
/// on that event: `run` runs a program, `exec` a command line, and `notify` shows a
/// message.
pub proof fn law_rules_do_what_they_say(v: Json, on: Seq<char>, what: Seq<char>, index: usize)
    requires
        v is Object,
        v.get("on"@) == Some(Json::Text(on)),
        text::trimmed(on).len() > 0,
    ensures
        v.get("run"@) == Some(Json::Text(what)) && v.get("notify"@) is None
            && v.get("exec"@) is None ==> (raw_rule(v) matches Some(raw)
            && checked(index, raw) == Ok::<ParsedView, IssueView>(ParsedView { on,
                action: ActionView::Run(what) })),
        v.get("notify"@) == Some(Json::Text(what)) && v.get("run"@) is None
            && v.get("exec"@) is None ==> (raw_rule(v) matches Some(raw)
            && checked(index, raw) == Ok::<ParsedView, IssueView>(ParsedView { on,
                action: ActionView::Notify(what) })),
        v.get("exec"@) == Some(Json::Text(what)) && v.get("run"@) is None
            && v.get("notify"@) is None ==> (raw_rule(v) matches Some(raw)
            && checked(index, raw) == Ok::<ParsedView, IssueView>(ParsedView { on,
                action: ActionView::Exec(what) })),
{
}

/// A rule that names no event, no action or more than one is refused, and the reason
/// tells which. What is wrong with a rule is told with its position and its event.
pub proof fn law_faulty_rules_are_explained(
    index: usize,
    raw: RawRuleView,
    on: Seq<char>,
)
    ensures
        raw.on is None ==>
            checked(index, raw) == Err::<ParsedView, IssueView>(IssueView { index, on: None,
            message: "missing or empty `on`"@ }),
        raw.on == Some(on) && text::trimmed(on).len() == 0 ==>
            checked(index, raw) == Err::<ParsedView, IssueView>(IssueView { index, on: None,
            message: "missing or empty `on`"@ }),
        raw.on == Some(on) && text::trimmed(on).len() > 0 && raw.run is None && raw.notify is None
            && raw.command is None ==> checked(index, raw)
            == Err::<ParsedView, IssueView>(IssueView { index, on: Some(on),
                message: "must set exactly one of `run`, `notify`, `exec` (none set)"@ }),
        raw.on == Some(on) && text::trimmed(on).len() > 0 && raw.run is Some && raw.notify is Some
            && raw.command is None ==> (checked(index, raw)
            matches Err(issue) && issue.index == index && issue.on == Some(on)
                && issue.message
                == "must set exactly one of `run`, `notify`, `exec` (found: run, notify)"@),
        raw.on == Some(on) && text::trimmed(on).len() > 0 && raw.run is Some && raw.notify is None
            && raw.command is Some ==> (checked(index, raw)
            matches Err(issue) && issue.index == index && issue.on == Some(on)
                && issue.message
                == "must set exactly one of `run`, `notify`, `exec` (found: run, exec)"@),
        raw.on == Some(on) && text::trimmed(on).len() > 0 && raw.run is None && raw.notify is Some
            && raw.command is Some ==> (checked(index, raw)
            matches Err(issue) && issue.index == index && issue.on == Some(on)
                && issue.message
                == "must set exactly one of `run`, `notify`, `exec` (found: notify, exec)"@),
        raw.on == Some(on) && text::trimmed(on).len() > 0 && raw.run is Some && raw.notify is Some
            && raw.command is Some ==> (checked(index, raw)
            matches Err(issue) && issue.index == index && issue.on == Some(on)
                && issue.message
                == "must set exactly one of `run`, `notify`, `exec` (found: run, notify, exec)"@),
{
    reveal_strlit("must set exactly one of `run`, `notify`, `exec` (found: ");
    reveal_strlit("must set exactly one of `run`, `notify`, `exec` (found: run, notify)");
    reveal_strlit("must set exactly one of `run`, `notify`, `exec` (found: run, exec)");
    reveal_strlit("must set exactly one of `run`, `notify`, `exec` (found: notify, exec)");
    reveal_strlit("must set exactly one of `run`, `notify`, `exec` (found: run, notify, exec)");
    reveal_strlit(")");
    reveal_strlit("run");
    reveal_strlit("notify");
    reveal_strlit("exec");
    reveal_strlit(", ");
    reveal_with_fuel(text::join, 4);
    let set = actions_set(raw);
    let found = "must set exactly one of `run`, `notify`, `exec` (found: "@;
    if raw.run is Some && raw.notify is Some && raw.command is None {
        assert(set =~= seq!["run"@, "notify"@]);
        assert(found + text::join(set,
            ", "@) + ")"@ =~= "must set exactly one of `run`, `notify`, `exec` (found: run, notify)"@);
    } else if raw.run is Some && raw.notify is None && raw.command is Some {
        assert(set =~= seq!["run"@, "exec"@]);
        assert(found + text::join(set,
            ", "@) + ")"@ =~= "must set exactly one of `run`, `notify`, `exec` (found: run, exec)"@);
    } else if raw.run is None && raw.notify is Some && raw.command is Some {
        assert(set =~= seq!["notify"@, "exec"@]);
        assert(found + text::join(set,
            ", "@) + ")"@ =~= "must set exactly one of `run`, `notify`, `exec` (found: notify, exec)"@);
    } else if raw.run is Some && raw.notify is Some && raw.command is Some {
        assert(set =~= seq!["run"@, "notify"@, "exec"@]);
        assert(found + text::join(set,
            ", "@) + ")"@ =~= "must set exactly one of `run`, `notify`, `exec` (found: run, notify, exec)"@);
    }
}

/// A file with rules holds them under `rule`, one after the other.
pub proof fn law_rules_are_listed_under_their_key(v: Json, items: Seq<Json>, i: int)
    requires
        v.get("rule"@) == Some(Json::Array(items)),
        0 <= i < items.len(),
    ensures
        raw_rules(v) matches Some(raw) ==> raw.len() == items.len()
            && raw_rule(items[i]) == Some(raw[i]),
        raw_rule(items[i]) is None ==> raw_rules(v) is None,
{
    lemma_rules_read(items, i);
}

proof fn lemma_rules_read(items: Seq<Json>, i: int)
    requires
        0 <= i < items.len(),
    ensures
        raw_rules_of(items) matches Some(raw) ==> raw.len() == items.len()
            && raw_rule(items[i]) == Some(raw[i]),
        raw_rule(items[i]) is None ==> raw_rules_of(items) is None,
    decreases items.len(),
{
    let rest = items.drop_last();
    if i < rest.len() {
        assert(rest[i] == items[i]);
        lemma_rules_read(rest, i);
    } else if rest.len() > 0 {
        lemma_rules_read(rest, 0);
    } else {
        reveal_with_fuel(raw_rules_of, 2);
    }
}

/// Rules that are in order are kept in order, and none is lost: the rule at a position
/// is among the rules, and what is wrong with it is among the faults otherwise.
pub proof fn law_rules_keep_their_order(raw: Seq<RawRuleView>, n: int, i: int)
    requires
        0 <= i < n <= raw.len(),
        n <= usize::MAX,
    ensures
        checked(i as usize, raw[i]) matches Ok(rule) ==> rules_of(raw, n).contains(rule),
        checked(i as usize, raw[i]) matches Err(issue) ==> issues_of(raw, n).contains(issue),
        (forall|k: int| 0 <= k < n ==> #[trigger] checked(k as usize, raw[k]) is Ok) ==>
            rules_of(raw, n).len() == n
            && checked(i as usize, raw[i]) == Ok::<ParsedView, IssueView>(rules_of(raw, n)[i]),
    decreases n,
{
    let before = rules_of(raw, n - 1);
    let faults = issues_of(raw, n - 1);
    let all = rules_of(raw, n);
    let all_faults = issues_of(raw, n);
    let last = checked((n - 1) as usize, raw[n - 1]);
    assert(all == before || all == before.push(last->Ok_0));
    assert(all_faults == faults || all_faults == faults.push(last->Err_0));
    if i < n - 1 {
        law_rules_keep_their_order(raw, n - 1, i);
        if let Ok(rule) = checked(i as usize, raw[i]) {
            let k = choose|k: int| 0 <= k < before.len() && before[k] == rule;
            assert(all[k] == rule);
        }
        if let Err(issue) = checked(i as usize, raw[i]) {
            let k = choose|k: int| 0 <= k < faults.len() && faults[k] == issue;
            assert(all_faults[k] == issue);
        }
    } else {
        if let Ok(rule) = last {
            assert(all[before.len() as int] == rule);
        }
        if let Err(issue) = last {
            assert(all_faults[faults.len() as int] == issue);
        }
        if n - 1 > 0 {
            law_rules_keep_their_order(raw, n - 1, 0);
        }
    }
}

/// What is wrong with a rule is told with its number, and with its event where it names
/// one.
pub proof fn law_issues_are_told_by_number(issue: IssueView, on: Seq<char>)
    ensures
        issue.on == Some(on) ==>
            issue_text(issue)
            == "rule #"@ + text::decimal(issue.index as nat) + " (on = \""@ + on + "\"): "@ + issue.message,
        issue.on is None ==>
            issue_text(issue)
            == "rule #"@ + text::decimal(issue.index as nat) + ": "@ + issue.message,
{
}

/// A rule that is written as a list holds its event, and then what it runs, shows and
/// gives to the shell.
pub proof fn law_listed_rules_have_places(on: Seq<char>, run: Seq<char>, notify: Seq<char>,
    command: Seq<char>)
    ensures
        raw_rule(Json::Array(seq![Json::Text(on), Json::Text(run), Json::Text(notify),
            Json::Text(command)]))
            == Some(RawRuleView { on: Some(on), run: Some(run), notify: Some(notify),
                command: Some(command) }),
        raw_rule(Json::Array(seq![Json::Text(on), Json::Text(run), Json::Text(notify)])) is None,
{
}

} // verus!
