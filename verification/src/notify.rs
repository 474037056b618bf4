//! Notifications on the desktop.

use crate::config::NotificationsConfig;
use crate::events::{AdapterSource, BreadEvent, EventView, Source};
use crate::json::{Json, JsonValue};
use crate::text;
use vstd::prelude::*;

verus! {

/// What may be said of a notification beside its message.
#[derive(Debug)]
pub struct NotifyOptions {
    pub title: Option<String>,
    pub urgency: Option<String>,
    pub timeout: Option<i64>,
    pub icon: Option<String>,
}

/// A notification that is to be shown.
#[derive(Debug)]
pub struct Notification {
    pub title: String,
    pub message: String,
    pub urgency: String,
    pub timeout: i64,
    pub icon: Option<String>,
}

/// What a notification stands for.
#[verifier::ext_equal]
pub struct NotificationView {
    pub title: Seq<char>,
    pub message: Seq<char>,
    pub urgency: Seq<char>,
    pub timeout: i64,
    pub icon: Option<Seq<char>>,
}

impl DeepView for Notification {
    type V = NotificationView;

    open spec fn deep_view(&self) -> NotificationView {
        NotificationView {
            title: self.title@,
            message: self.message@,
            urgency: self.urgency@,
            timeout: self.timeout,
            icon: self.icon.deep_view(),
        }
    }
}

/// The text, or else the other.
pub open spec fn or(s: Option<Seq<char>>, other: Seq<char>) -> Seq<char> {
    match s {
        Some(s) => s,
        None => other,
    }
}

fn text_or(s: Option<String>, other: &str) -> (r: String)
    ensures
        r@ == or(s.deep_view(), other@),
{
    match s {
        Some(s) => s,
        None => other.to_owned(),
    }
}

/// The notification with a message. What is not said of it is taken from the
/// settings.
pub fn notification(message: &str, opts: NotifyOptions, config: &NotificationsConfig) -> (r:
    Notification)
    ensures
        r.deep_view() == (NotificationView {
            title: or(opts.title.deep_view(), "bread"@),
            message: message@,
            urgency: or(opts.urgency.deep_view(), config.default_urgency@),
            timeout: match opts.timeout {
                Some(t) => t,
                None => config.default_timeout_ms,
            },
            icon: opts.icon.deep_view(),
        }),
{
    Notification {
        title: text_or(opts.title, "bread"),
        message: message.to_owned(),
        urgency: text_or(opts.urgency, config.default_urgency.as_str()),
        timeout: match opts.timeout {
            Some(t) => t,
            None => config.default_timeout_ms,
        },
        icon: opts.icon,
    }
}

/// The arguments with which the notification program shows a notification.
pub open spec fn arguments(n: NotificationView) -> Seq<Seq<char>> {
    seq![
        "--app-name"@,
        "bread"@,
        "--urgency"@,
        n.urgency,
        "--expire-time"@,
        text::signed_decimal(n.timeout as int),
    ] + (match n.icon {
        Some(icon) => seq!["--icon"@, icon],
        None => Seq::empty(),
    }) + seq![n.title, n.message]
}

/// The arguments with which the notification program shows a notification.
pub fn notify_args(n: &Notification) -> (r: Vec<String>)
    ensures
        r.deep_view() == arguments(n.deep_view()),
{
    let mut r: Vec<String> = Vec::new();
    r.push("--app-name".to_owned());
    r.push("bread".to_owned());
    r.push("--urgency".to_owned());
    r.push(n.urgency.clone());
    r.push("--expire-time".to_owned());
    r.push(text::decimal_i64(n.timeout));
    if let Some(icon) = &n.icon {
        r.push("--icon".to_owned());
        r.push(icon.clone());
    }
    r.push(n.title.clone());
    r.push(n.message.clone());
    assert(r.deep_view() =~= arguments(n.deep_view()));
    r
}

/// The event that tells of a notification.
pub fn sent_event(n: &Notification, now: u64) -> (r: BreadEvent)
    ensures
        r.deep_view() == (EventView {
            event: "bread.notify.sent"@,
            timestamp: now,
            source: Source::System,
            data: Json::empty().with("title"@, Json::Text(n.title@)).with(
                "message"@,
                Json::Text(n.message@),
            ).with("urgency"@, Json::Text(n.urgency@)),
        }),
{
    BreadEvent::new(
        "bread.notify.sent",
        AdapterSource::System,
        JsonValue::empty().with("title", JsonValue::of_text(n.title.as_str())).with(
            "message",
            JsonValue::of_text(n.message.as_str()),
        ).with("urgency", JsonValue::of_text(n.urgency.as_str())),
        now,
    )
}

/// The program that shows notifications gets each value behind its option, the title
/// and the message last, and an icon only where there is one.
pub proof fn law_options_go_before_their_values(n: NotificationView)
    ensures
        follows(arguments(n), "--app-name"@, "bread"@),
        follows(arguments(n), "--urgency"@, n.urgency),
        follows(arguments(n), "--expire-time"@, text::signed_decimal(n.timeout as int)),
        n.icon matches Some(icon) ==> follows(arguments(n), "--icon"@, icon),
        arguments(n).len() == (if n.icon is Some { 10int } else { 8 }),
        arguments(n)[arguments(n).len() - 2] == n.title,
        arguments(n)[arguments(n).len() - 1] == n.message,
{
    let a = arguments(n);
    assert(a[0] == "--app-name"@ && a[1] == "bread"@);
    assert(a[2] == "--urgency"@ && a[3] == n.urgency);
    assert(a[4] == "--expire-time"@ && a[5] == text::signed_decimal(n.timeout as int));
    if n.icon is Some {
        assert(a[6] == "--icon"@ && a[7] == n.icon->0);
    }
}

/// The value stands right behind the option.
pub open spec fn follows(args: Seq<Seq<char>>, option: Seq<char>, value: Seq<char>) -> bool {
    exists|i: int| 0 <= i < args.len() - 1 && #[trigger] args[i] == option && args[i + 1] == value
}

} // verus!
