//! The texts of the alerts panel: the title, and for each alert a time and
//! severity header and its message wrapped to the panel's width.

use vstd::prelude::*;
use crate::alerts::models::{AlertSeverity, Timestamp};
use crate::text::{
    chars_of, decimal, decimal_string, push_char, split_whitespace, string_of, utf8_len,
    utf8_length, views, ws_tokens,
};

verus! {

/// The short label of a severity.
pub open spec fn severity_label_text(s: AlertSeverity) -> Seq<char> {
    match s {
        AlertSeverity::Info => "INFO"@,
        AlertSeverity::Warning => "WARN"@,
        AlertSeverity::Critical => "CRIT"@,
    }
}

/// A number below a hundred written with two digits.
pub open spec fn two_digits(n: nat) -> Seq<char> {
    if n < 10 {
        seq!['0'] + decimal(n)
    } else {
        decimal(n)
    }
}

/// The UTC time of day of a moment given in seconds since 1970, as `HH:MM:SS`.
pub open spec fn time_of_day(secs: int) -> Seq<char> {
    let t = secs % 86400;
    two_digits((t / 3600) as nat) + ":"@ + two_digits(((t % 3600) / 60) as nat) + ":"@
        + two_digits((t % 60) as nat)
}

/// The words of a message gathered into lines: a word that would make the current
/// line longer than `width` bytes (counting the space before it) starts a new line,
/// unless the current line is empty. Returns the finished lines (each indented by two
/// spaces) and the current line.
pub open spec fn wrap_state(words: Seq<Seq<char>>, width: nat) -> (Seq<Seq<char>>, Seq<char>)
    decreases words.len(),
{
    if words.len() == 0 {
        (seq![], seq![])
    } else {
        let (lines, cur) = wrap_state(words.drop_last(), width);
        let w = words.last();
        let broken = utf8_len(cur) + utf8_len(w) + 1 > width && cur.len() > 0;
        let lines2 = if broken {
            lines.push("  "@ + cur)
        } else {
            lines
        };
        let cur2: Seq<char> = if broken {
            seq![]
        } else {
            cur
        };
        (lines2, if cur2.len() > 0 {
            cur2.push(' ') + w
        } else {
            w
        })
    }
}

/// The lines of a message wrapped to `width` bytes, each indented by two spaces.
pub open spec fn wrapped_lines(message: Seq<char>, width: nat) -> Seq<Seq<char>> {
    let (lines, cur) = wrap_state(ws_tokens(message), width);
    if cur.len() > 0 {
        lines.push("  "@ + cur)
    } else {
        lines
    }
}

/// The width available to messages in a panel `panel_width` columns wide.
pub open spec fn message_width(panel_width: u16) -> nat {
    if panel_width >= 4 {
        (panel_width - 4) as nat
    } else {
        0
    }
}

/// The short label of a severity.
pub fn severity_label(s: AlertSeverity) -> (t: String)
    ensures
        t@ == severity_label_text(s),
{
    match s {
        AlertSeverity::Info => String::from_str("INFO"),
        AlertSeverity::Warning => String::from_str("WARN"),
        AlertSeverity::Critical => String::from_str("CRIT"),
    }
}

fn push_two_digits(s: &mut String, n: u64)
    requires
        n < 100,
    ensures
        final(s)@ == old(s)@ + two_digits(n as nat),
{
    if n < 10 {
        push_char(s, '0');
    }
    s.append(decimal_string(n).as_str());
}

/// The UTC time of day of a moment, as `HH:MM:SS`.
pub fn clock_text(t: Timestamp) -> (s: String)
    requires
        t.wf(),
    ensures
        s@ == time_of_day(t.secs as int),
{
    // A multiple of a day that makes every valid time non-negative.
    let shifted: i64 = t.secs + 8_812_800_000_000;
    let day: u64 = (shifted as u64) % 86400;
    assert(day as int == (t.secs as int) % 86400) by {
        assert(8_812_800_000_000int == 86400 * 102_000_000);
        vstd::arithmetic::div_mod::lemma_mod_add_multiples_vanish(t.secs as int, 86400);
        assert((t.secs + 86400 * 102_000_000) % 86400 == (t.secs as int) % 86400) by {
            vstd::arithmetic::div_mod::lemma_mod_multiples_vanish(
                102_000_000,
                t.secs as int,
                86400,
            );
        }
    }
    let mut s = String::new();
    push_two_digits(&mut s, day / 3600);
    s.append(":");
    push_two_digits(&mut s, (day % 3600) / 60);
    s.append(":");
    push_two_digits(&mut s, day % 60);
    s
}

/// The title of the alerts panel for `n` alerts.
pub fn panel_title(n: usize) -> (t: String)
    ensures
        t@ == " Alerts ("@ + decimal(n as nat) + ") "@,
{
    let mut t = String::from_str(" Alerts (");
    t.append(decimal_string(n as u64).as_str());
    t.append(") ");
    t
}

fn push_all(dst: &mut Vec<char>, src: &Vec<char>)
    ensures
        final(dst)@ == old(dst)@ + src@,
{
    let mut i: usize = 0;
    while i < src.len()
        invariant
            i <= src@.len(),
            dst@ == old(dst)@ + src@.take(i as int),
        decreases src.len() - i,
    {
        dst.push(src[i]);
        assert(dst@ =~= old(dst)@ + src@.take(i + 1));
        i = i + 1;
    }
    assert(src@.take(src.len() as int) =~= src@);
}

fn indented(cur: &Vec<char>) -> (s: String)
    ensures
        s@ == "  "@ + cur@,
{
    let mut s = String::from_str("  ");
    s.append(string_of(cur).as_str());
    s
}

/// The lines of a message wrapped for a panel `panel_width` columns wide (four
/// columns go to borders and margins), each indented by two spaces.
pub fn wrap_message(message: &str, panel_width: u16) -> (lines: Vec<String>)
    ensures
        lines@.map_values(|s: String| s@) == wrapped_lines(
            message@,
            message_width(panel_width),
        ),
{
    let width: u64 = panel_width.saturating_sub(4) as u64;
    let ghost wd = message_width(panel_width);
    let words = split_whitespace(&chars_of(message));
    let ghost ws = views(words@);
    assert(ws == ws_tokens(message@));
    let mut lines: Vec<String> = Vec::new();
    let mut cur: Vec<char> = Vec::new();
    let mut i: usize = 0;
    assert(ws.take(0) =~= Seq::<Seq<char>>::empty());
    while i < words.len()
        invariant
            i <= words@.len(),
            ws == views(words@),
            width == wd,
            width < 65536,
            wrap_state(ws.take(i as int), wd) == (lines@.map_values(|s: String| s@), cur@),
        decreases words.len() - i,
    {
        assert(ws.take(i + 1).drop_last() =~= ws.take(i as int));
        assert(ws.take(i + 1).last() == words@[i as int]@);
        let ghost lv = lines@.map_values(|s: String| s@);
        let cb = utf8_length(&cur);
        let wb = utf8_length(&words[i]);
        let over = cb.saturating_add(wb).saturating_add(1) > width;
        assert(over == (utf8_len(cur@) + utf8_len(words@[i as int]@) + 1 > wd));
        if over && cur.len() > 0 {
            lines.push(indented(&cur));
            assert(lines@.map_values(|s: String| s@) =~= lv.push("  "@ + cur@));
            cur = Vec::new();
        }
        if cur.len() > 0 {
            cur.push(' ');
        }
        push_all(&mut cur, &words[i]);
        i = i + 1;
    }
    assert(ws.take(words.len() as int) =~= ws);
    if cur.len() > 0 {
        let ghost lv = lines@.map_values(|s: String| s@);
        lines.push(indented(&cur));
        assert(lines@.map_values(|s: String| s@) =~= lv.push("  "@ + cur@));
    }
    lines
}

} // verus!
