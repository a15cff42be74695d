//! What a desktop notification for an alert says. Showing it is left to the caller.

use vstd::prelude::*;
use crate::text::{chars_of, push_char, string_of, sub_chars, trim, trimmed};
use super::models::{Alert, AlertSeverity};

verus! {

/// Sends alerts as desktop notifications when enabled.
pub struct Notifier {
    enabled: bool,
}

/// Urgency levels of the freedesktop notification protocol.
#[derive(Debug, Clone, Copy, PartialEq, Eq, Structural)]
pub enum Urgency {
    Low,
    Normal,
    Critical,
}

/// The title of a notification for an alert of the given severity.
pub open spec fn summary_text(s: AlertSeverity) -> Seq<char> {
    match s {
        AlertSeverity::Info => "PortWatch - Info"@,
        AlertSeverity::Warning => "PortWatch - Warning"@,
        AlertSeverity::Critical => "PortWatch - Critical"@,
    }
}

/// The urgency of a notification for an alert of the given severity.
pub open spec fn urgency_of(s: AlertSeverity) -> Urgency {
    match s {
        AlertSeverity::Info => Urgency::Low,
        AlertSeverity::Warning => Urgency::Normal,
        AlertSeverity::Critical => Urgency::Critical,
    }
}

impl Notifier {
    /// A notifier that sends when `enabled`.
    pub fn new(enabled: bool) -> (n: Self)
        ensures
            n.enabled() == enabled,
    {
        Notifier { enabled }
    }

    /// Whether notifications are sent.
    pub closed spec fn enabled(self) -> bool {
        self.enabled
    }

    /// Whether notifications are sent.
    pub fn is_enabled(&self) -> (b: bool)
        ensures
            b == self.enabled(),
    {
        self.enabled
    }

    /// The title of the notification for an alert.
    pub fn summary(severity: AlertSeverity) -> (s: String)
        ensures
            s@ == summary_text(severity),
    {
        match severity {
            AlertSeverity::Info => String::from_str("PortWatch - Info"),
            AlertSeverity::Warning => String::from_str("PortWatch - Warning"),
            AlertSeverity::Critical => String::from_str("PortWatch - Critical"),
        }
    }

    /// The urgency of the notification for an alert.
    pub fn urgency(severity: AlertSeverity) -> (u: Urgency)
        ensures
            u == urgency_of(severity),
    {
        match severity {
            AlertSeverity::Info => Urgency::Low,
            AlertSeverity::Warning => Urgency::Normal,
            AlertSeverity::Critical => Urgency::Critical,
        }
    }
}

/// What a notification for an alert shows.
pub struct NotificationContent {
    pub summary: String,
    pub body: String,
    pub urgency: Urgency,
}

impl Notifier {
    /// The notification to show for an alert: titled by the severity, with the
    /// alert's message as body; `None` when notifications are off.
    pub fn notification_for(&self, alert: &Alert) -> (n: Option<NotificationContent>)
        ensures
            n is None <==> !self.enabled(),
            n matches Some(c) ==> c.summary@ == summary_text(alert.severity) && c.body@
                == alert.message@ && c.urgency == urgency_of(alert.severity),
    {
        if !self.enabled {
            return None;
        }
        Some(
            NotificationContent {
                summary: Notifier::summary(alert.severity),
                body: alert.message.clone(),
                urgency: Notifier::urgency(alert.severity),
            },
        )
    }
}

impl Default for Notifier {
    fn default() -> (n: Self)
        ensures
            n.enabled(),
    {
        Notifier::new(true)
    }
}

/// Longest notification body, in characters.
pub const MAX_NOTIFICATION_CHARS: usize = 800;

/// A body of at most 800 characters: longer texts keep their first 799 characters and
/// end with an ellipsis.
pub open spec fn truncated(s: Seq<char>) -> Seq<char> {
    if s.len() <= MAX_NOTIFICATION_CHARS {
        s
    } else {
        s.take(MAX_NOTIFICATION_CHARS - 1).push('\u{2026}')
    }
}

/// Shortens a notification body to at most 800 characters.
pub fn truncate_for_notification(s: &str) -> (t: String)
    ensures
        t@ == truncated(s@),
        t@.len() <= MAX_NOTIFICATION_CHARS,
{
    let chars = chars_of(s);
    if chars.len() <= MAX_NOTIFICATION_CHARS {
        return string_of(&chars);
    }
    let mut out: Vec<char> = Vec::new();
    let mut i: usize = 0;
    while i < MAX_NOTIFICATION_CHARS - 1
        invariant
            i <= MAX_NOTIFICATION_CHARS - 1 < chars@.len(),
            out@ == chars@.take(i as int),
        decreases MAX_NOTIFICATION_CHARS - 1 - i,
    {
        out.push(chars[i]);
        assert(out@ =~= chars@.take(i + 1));
        i = i + 1;
    }
    out.push('\u{2026}');
    string_of(&out)
}

/// How a character is written inside a double-quoted AppleScript string literal.
pub open spec fn applescript_escape(c: char) -> Seq<char> {
    if c == '"' {
        seq!['\\', '"']
    } else if c == '\\' {
        seq!['\\', '\\']
    } else {
        seq![c]
    }
}

/// The characters of a text, escaped for an AppleScript string literal.
pub open spec fn applescript_escaped(s: Seq<char>) -> Seq<char>
    decreases s.len(),
{
    if s.len() == 0 {
        seq![]
    } else {
        applescript_escaped(s.drop_last()) + applescript_escape(s.last())
    }
}

/// A double-quoted AppleScript string literal holding the text.
pub open spec fn applescript_literal(s: Seq<char>) -> Seq<char> {
    seq!['"'] + applescript_escaped(s) + seq!['"']
}

/// Escape text for a double-quoted AppleScript string literal.
pub fn applescript_string_literal(s: &str) -> (out: String)
    ensures
        out@ == applescript_literal(s@),
{
    let chars = chars_of(s);
    let mut out = String::new();
    push_char(&mut out, '"');
    let mut i: usize = 0;
    while i < chars.len()
        invariant
            i <= chars@.len(),
            chars@ == s@,
            out@ == seq!['"'] + applescript_escaped(chars@.take(i as int)),
        decreases chars.len() - i,
    {
        let c = chars[i];
        if c == '"' {
            push_char(&mut out, '\\');
            push_char(&mut out, '"');
        } else if c == '\\' {
            push_char(&mut out, '\\');
            push_char(&mut out, '\\');
        } else {
            push_char(&mut out, c);
        }
        assert(chars@.take(i + 1).drop_last() =~= chars@.take(i as int));
        assert(out@ =~= seq!['"'] + applescript_escaped(chars@.take(i + 1)));
        i = i + 1;
    }
    assert(chars@.take(chars.len() as int) =~= chars@);
    push_char(&mut out, '"');
    assert(out@ =~= applescript_literal(s@));
    out
}

/// The `osascript` program that shows a notification with the given title and body.
pub fn osascript_program(title: &str, body: &str) -> (p: String)
    ensures
        p@ == "display notification "@ + applescript_literal(body@) + " with title "@
            + applescript_literal(title@),
{
    let mut p = String::from_str("display notification ");
    p.append(applescript_string_literal(body).as_str());
    p.append(" with title ");
    p.append(applescript_string_literal(title).as_str());
    p
}

/// `str::trim_start_matches` with a non-empty pattern: every leading occurrence of
/// `p` removed.
pub open spec fn strip_leading(s: Seq<char>, p: Seq<char>) -> Seq<char>
    decreases s.len(),
{
    if 0 < p.len() <= s.len() && s.take(p.len() as int) == p {
        strip_leading(s.skip(p.len() as int), p)
    } else {
        s
    }
}

/// The message of a failed `osascript` run, from its error output: trimmed, without
/// leading `osascript: ` prefixes, and trimmed again.
pub open spec fn osascript_error(stderr: Seq<char>) -> Seq<char> {
    trim(strip_leading(trim(stderr), "osascript: "@))
}

fn prefix_at(a: &Vec<char>, from: usize, p: &Vec<char>) -> (b: bool)
    requires
        from <= a@.len(),
    ensures
        b == (p@.len() <= a@.len() - from && a@.subrange(from as int, from + p@.len()) == p@),
{
    let n = a.len();
    if p.len() > n - from {
        return false;
    }
    let mut i: usize = 0;
    while i < p.len()
        invariant
            n == a@.len(),
            from <= a@.len(),
            p@.len() <= a@.len() - from,
            i <= p@.len(),
            forall|j: int| 0 <= j < i ==> a@[from + j] == p@[j],
        decreases p.len() - i,
    {
        if a[from + i] != p[i] {
            assert(a@.subrange(from as int, from + p@.len())[i as int] != p@[i as int]);
            return false;
        }
        i = i + 1;
    }
    assert(a@.subrange(from as int, from + p@.len()) =~= p@);
    true
}

/// The message of a failed `osascript` run, from its error output.
pub fn osascript_error_text(stderr: &str) -> (t: String)
    ensures
        t@ == osascript_error(stderr@),
{
    let s = trimmed(&chars_of(stderr));
    let p = chars_of("osascript: ");
    proof {
        reveal_strlit("osascript: ");
    }
    let n = s.len();
    let mut i: usize = 0;
    assert(s@.skip(0) =~= s@);
    while prefix_at(&s, i, &p)
        invariant
            i <= n == s@.len(),
            p@ == "osascript: "@,
            p@.len() > 0,
            strip_leading(s@, p@) == strip_leading(s@.skip(i as int), p@),
        decreases n - i,
    {
        assert(s@.skip(i as int).take(p@.len() as int) =~= s@.subrange(i as int, i + p@.len()));
        assert(s@.skip(i as int).skip(p@.len() as int) =~= s@.skip(i + p@.len()));
        i = i + p.len();
    }
    assert(s@.skip(i as int).take(p@.len() as int) =~= s@.subrange(i as int, i + p@.len())
        || p@.len() > s@.skip(i as int).len());
    let rest = sub_chars(&s, i, n);
    assert(rest@ =~= s@.skip(i as int));
    string_of(&trimmed(&rest))
}

/// The error of a notification that failed through `osascript` and through the
/// fallback as well: both errors, named.
pub open spec fn both_failed_text(os_error: Seq<char>, fallback_error: Seq<char>) -> Seq<char> {
    "osascript: "@ + os_error + "; notify-rust: "@ + fallback_error
}

/// Sending on macOS tries `osascript` first: when that succeeds the notification is
/// sent; when it fails the fallback is tried. `Some(result)` when sending is done,
/// `None` when the fallback is to be tried.
pub fn after_osascript(result: Result<(), String>) -> (r: Option<Result<(), String>>)
    ensures
        result is Ok <==> r == Some(Ok::<(), String>(())),
        result is Err <==> r is None,
{
    match result {
        Ok(()) => Some(Ok(())),
        Err(_) => None,
    }
}

/// The outcome of sending after the fallback was tried: its success, or both
/// errors.
pub fn after_fallback(os_error: &str, result: Result<(), String>) -> (r: Result<(), String>)
    ensures
        result is Ok ==> r is Ok,
        result matches Err(e) ==> r matches Err(t) && t@ == both_failed_text(os_error@, e@),
{
    match result {
        Ok(()) => Ok(()),
        Err(e) => {
            let mut t = String::from_str("osascript: ");
            t.append(os_error);
            t.append("; notify-rust: ");
            t.append(e.as_str());
            Err(t)
        },
    }
}

} // verus!
