//! Stable identifiers of rules, derived from their name and condition.

use vstd::prelude::*;
use std::collections::hash_map::DefaultHasher;
use std::hash::Hasher;
use vstd::std_specs::hash::DefaultHasherAdditionalSpecFns;
use crate::text::{
    chars_of, decimal, decimal_string, digit_char, hex_string, hexadecimal, is_lower_hex_digit,
    law_hex_u64_digits, push_char,
};
use super::models::AlertCondition;

verus! {

/// How JSON writes one character inside a string literal.
pub open spec fn json_escape(c: char) -> Seq<char> {
    if c == '"' {
        seq!['\\', '"']
    } else if c == '\\' {
        seq!['\\', '\\']
    } else if c == '\u{8}' {
        seq!['\\', 'b']
    } else if c == '\u{9}' {
        seq!['\\', 't']
    } else if c == '\n' {
        seq!['\\', 'n']
    } else if c == '\u{c}' {
        seq!['\\', 'f']
    } else if c == '\r' {
        seq!['\\', 'r']
    } else if (c as u32) < 0x20 {
        seq!['\\', 'u', '0', '0', digit_char((c as nat) / 16), digit_char((c as nat) % 16)]
    } else {
        seq![c]
    }
}

/// The characters of a text, escaped for a JSON string literal.
pub open spec fn json_escaped(s: Seq<char>) -> Seq<char>
    decreases s.len(),
{
    if s.len() == 0 {
        seq![]
    } else {
        json_escaped(s.drop_last()) + json_escape(s.last())
    }
}

/// A JSON string literal.
pub open spec fn json_string(s: Seq<char>) -> Seq<char> {
    seq!['"'] + json_escaped(s) + seq!['"']
}

/// A JSON boolean.
pub open spec fn json_bool(b: bool) -> Seq<char> {
    if b {
        "true"@
    } else {
        "false"@
    }
}

/// The compact JSON form of a condition, as the rule file writes it: a `type` tag
/// and the variant's fields under `params`.
pub open spec fn condition_json(c: AlertCondition) -> Seq<char> {
    match c {
        AlertCondition::PortOpened { port } => "{\"type\":\"PortOpened\",\"params\":{\"port\":"@
            + decimal(port as nat) + "}}"@,
        AlertCondition::PortClosed { port } => "{\"type\":\"PortClosed\",\"params\":{\"port\":"@
            + decimal(port as nat) + "}}"@,
        AlertCondition::ExternalConnection { ip_pattern, exclude_private } =>
            "{\"type\":\"ExternalConnection\",\"params\":{\"ip_pattern\":"@ + json_string(
            ip_pattern@,
        ) + ",\"exclude_private\":"@ + json_bool(exclude_private) + "}}"@,
        AlertCondition::ProcessCpuThreshold { process_pattern, threshold_percent } =>
            "{\"type\":\"ProcessCpuThreshold\",\"params\":{\"process_pattern\":"@ + json_string(
            process_pattern@,
        ) + ",\"threshold_percent\":"@ + threshold_percent.json@ + "}}"@,
        AlertCondition::ProcessMemoryThreshold { process_pattern, threshold_mb } =>
            "{\"type\":\"ProcessMemoryThreshold\",\"params\":{\"process_pattern\":"@ + json_string(
            process_pattern@,
        ) + ",\"threshold_mb\":"@ + decimal(threshold_mb as nat) + "}}"@,
        AlertCondition::UnknownProcessListening => "{\"type\":\"UnknownProcessListening\"}"@,
        AlertCondition::PortRangeActivity { start_port, end_port } =>
            "{\"type\":\"PortRangeActivity\",\"params\":{\"start_port\":"@ + decimal(
            start_port as nat,
        ) + ",\"end_port\":"@ + decimal(end_port as nat) + "}}"@,
    }
}

/// The bytes that hashing a string feeds the hasher: its UTF-8 encoding, then 0xff.
pub open spec fn hashed_str(s: Seq<char>) -> Seq<Seq<u8>> {
    seq![vstd::utf8::encode_utf8(s), seq![0xffu8]]
}

/// The id of a rule: the hexadecimal digest of its name and of its condition's JSON.
pub open spec fn rule_id_of(name: Seq<char>, c: AlertCondition) -> Seq<char> {
    hexadecimal(
        DefaultHasher::spec_finish(hashed_str(name) + hashed_str(condition_json(c))) as nat,
    )
}

fn push_json_escape(out: &mut String, c: char)
    ensures
        final(out)@ == old(out)@ + json_escape(c),
{
    if c == '"' {
        push_char(out, '\\');
        push_char(out, '"');
    } else if c == '\\' {
        push_char(out, '\\');
        push_char(out, '\\');
    } else if c == '\u{8}' {
        push_char(out, '\\');
        push_char(out, 'b');
    } else if c == '\u{9}' {
        push_char(out, '\\');
        push_char(out, 't');
    } else if c == '\n' {
        push_char(out, '\\');
        push_char(out, 'n');
    } else if c == '\u{c}' {
        push_char(out, '\\');
        push_char(out, 'f');
    } else if c == '\r' {
        push_char(out, '\\');
        push_char(out, 'r');
    } else if (c as u32) < 0x20 {
        let v = c as u32;
        let hi = digit_char_of(v / 16);
        let lo = digit_char_of(v % 16);
        push_char(out, '\\');
        push_char(out, 'u');
        push_char(out, '0');
        push_char(out, '0');
        push_char(out, hi);
        push_char(out, lo);
    } else {
        push_char(out, c);
    }
    assert(final(out)@ =~= old(out)@ + json_escape(c));
}

fn digit_char_of(d: u32) -> (c: char)
    requires
        d < 16,
    ensures
        c == digit_char(d as nat),
{
    if d == 0 { '0' } else if d == 1 { '1' } else if d == 2 { '2' } else if d == 3 { '3' }
    else if d == 4 { '4' } else if d == 5 { '5' } else if d == 6 { '6' } else if d == 7 { '7' }
    else if d == 8 { '8' } else if d == 9 { '9' } else if d == 10 { 'a' } else if d == 11 { 'b' }
    else if d == 12 { 'c' } else if d == 13 { 'd' } else if d == 14 { 'e' } else { 'f' }
}

/// Appends a JSON string literal holding `s`.
fn push_json_string(out: &mut String, s: &str)
    ensures
        final(out)@ == old(out)@ + json_string(s@),
{
    let chars = chars_of(s);
    push_char(out, '"');
    let ghost start = out@;
    let mut i: usize = 0;
    while i < chars.len()
        invariant
            i <= chars@.len(),
            chars@ == s@,
            out@ == start + json_escaped(chars@.take(i as int)),
        decreases chars.len() - i,
    {
        push_json_escape(out, chars[i]);
        assert(chars@.take(i + 1).drop_last() =~= chars@.take(i as int));
        i = i + 1;
    }
    assert(chars@.take(chars.len() as int) =~= chars@);
    push_char(out, '"');
    assert(out@ =~= old(out)@ + json_string(s@));
}

/// The compact JSON form of a condition.
pub fn condition_to_json(c: &AlertCondition) -> (j: String)
    ensures
        j@ == condition_json(*c),
{
    match c {
        AlertCondition::PortOpened { port } => {
            let mut j = String::from_str("{\"type\":\"PortOpened\",\"params\":{\"port\":");
            j.append(decimal_string(*port as u64).as_str());
            j.append("}}");
            j
        },
        AlertCondition::PortClosed { port } => {
            let mut j = String::from_str("{\"type\":\"PortClosed\",\"params\":{\"port\":");
            j.append(decimal_string(*port as u64).as_str());
            j.append("}}");
            j
        },
        AlertCondition::ExternalConnection { ip_pattern, exclude_private } => {
            let mut j = String::from_str(
                "{\"type\":\"ExternalConnection\",\"params\":{\"ip_pattern\":",
            );
            push_json_string(&mut j, ip_pattern.as_str());
            j.append(",\"exclude_private\":");
            if *exclude_private {
                j.append("true");
            } else {
                j.append("false");
            }
            j.append("}}");
            j
        },
        AlertCondition::ProcessCpuThreshold { process_pattern, threshold_percent } => {
            let mut j = String::from_str(
                "{\"type\":\"ProcessCpuThreshold\",\"params\":{\"process_pattern\":",
            );
            push_json_string(&mut j, process_pattern.as_str());
            j.append(",\"threshold_percent\":");
            j.append(threshold_percent.json.as_str());
            j.append("}}");
            j
        },
        AlertCondition::ProcessMemoryThreshold { process_pattern, threshold_mb } => {
            let mut j = String::from_str(
                "{\"type\":\"ProcessMemoryThreshold\",\"params\":{\"process_pattern\":",
            );
            push_json_string(&mut j, process_pattern.as_str());
            j.append(",\"threshold_mb\":");
            j.append(decimal_string(*threshold_mb).as_str());
            j.append("}}");
            j
        },
        AlertCondition::UnknownProcessListening => {
            String::from_str("{\"type\":\"UnknownProcessListening\"}")
        },
        AlertCondition::PortRangeActivity { start_port, end_port } => {
            let mut j = String::from_str(
                "{\"type\":\"PortRangeActivity\",\"params\":{\"start_port\":",
            );
            j.append(decimal_string(*start_port as u64).as_str());
            j.append(",\"end_port\":");
            j.append(decimal_string(*end_port as u64).as_str());
            j.append("}}");
            j
        },
    }
}

/// Feeds a string to the hasher as `Hash for str` does: its bytes, then 0xff.
fn hash_str(hasher: &mut DefaultHasher, s: &str)
    ensures
        final(hasher)@ == old(hasher)@ + hashed_str(s@),
{
    hasher.write(s.as_bytes());
    let mut end: Vec<u8> = Vec::new();
    end.push(0xffu8);
    hasher.write(end.as_slice());
    assert(end@ =~= seq![0xffu8]);
    assert(final(hasher)@ =~= old(hasher)@ + hashed_str(s@));
}

/// Stable id derived from rule name + condition (for cooldown keys): the
/// `DefaultHasher` digest of the name and of the condition's JSON, in hexadecimal.
/// It changes when the condition changes.
pub fn derive_rule_id(name: &str, condition: &AlertCondition) -> (id: String)
    ensures
        id@ == rule_id_of(name@, *condition),
        1 <= id@.len() <= 16,
        forall|i: int| 0 <= i < id@.len() ==> is_lower_hex_digit(#[trigger] id@[i]),
{
    let json = condition_to_json(condition);
    let mut hasher = DefaultHasher::new();
    hash_str(&mut hasher, name);
    hash_str(&mut hasher, json.as_str());
    assert(hasher@ =~= hashed_str(name@) + hashed_str(condition_json(*condition)));
    let digest = hasher.finish();
    proof {
        law_hex_u64_digits(digest);
    }
    hex_string(digest)
}

/// A rule's id is stable: it depends on the name and on the JSON form of the
/// condition alone, so rules that agree on both have the same id.
pub proof fn law_rule_id_stable(name: Seq<char>, a: AlertCondition, b: AlertCondition)
    requires
        condition_json(a) == condition_json(b),
    ensures
        rule_id_of(name, a) == rule_id_of(name, b),
{
}

} // verus!
