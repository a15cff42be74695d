//! The alert rule editor: a list of rules and a form for one rule.

use vstd::prelude::*;
use crate::alerts::evaluator::regex_compile_error;
use crate::alerts::evaluator::regex_error;
use crate::alerts::models::{AlertCondition, AlertRule, AlertSeverity, Percent};
use crate::alerts::rule_id::{derive_rule_id, rule_id_of};
use crate::text::{chars_of, decimal, decimal_string, law_decimal_parses, parse_number, parse_unsigned, pop_char, push_char, trim, trimmed, string_of};

verus! {

/// The rule list and, while one is edited, its form.
#[derive(Debug, Clone)]
pub struct AlertRulesPanel {
    pub open: bool,
    pub selected: usize,
    pub form: Option<AlertRuleDraft>,
    /// Which field is focused in the form (0..)
    pub form_focus: usize,
    pub error: Option<String>,
}

impl Default for AlertRulesPanel {
    fn default() -> (p: Self)
        ensures
            !p.open && p.selected == 0 && p.form is None && p.form_focus == 0 && p.error is None,
    {
        AlertRulesPanel { open: false, selected: 0, form: None, form_focus: 0, error: None }
    }
}

/// The kinds of condition, in the order the form's number keys select them.
#[derive(Debug, Clone, Copy, PartialEq, Eq, Structural)]
pub enum ConditionKind {
    PortOpened,
    PortClosed,
    PortRangeActivity,
    ExternalConnection,
    ProcessCpuThreshold,
    ProcessMemoryThreshold,
    UnknownProcessListening,
}

/// The kind that number key `n` selects, for `n` below seven.
pub open spec fn kind_at(n: int) -> ConditionKind {
    if n == 0 {
        ConditionKind::PortOpened
    } else if n == 1 {
        ConditionKind::PortClosed
    } else if n == 2 {
        ConditionKind::PortRangeActivity
    } else if n == 3 {
        ConditionKind::ExternalConnection
    } else if n == 4 {
        ConditionKind::ProcessCpuThreshold
    } else if n == 5 {
        ConditionKind::ProcessMemoryThreshold
    } else {
        ConditionKind::UnknownProcessListening
    }
}

impl ConditionKind {
    /// All kinds, in key order.
    pub fn all() -> (v: Vec<ConditionKind>)
        ensures
            v@.len() == 7,
            forall|i: int| 0 <= i < 7 ==> #[trigger] v@[i] == kind_at(i),
    {
        let mut v: Vec<ConditionKind> = Vec::new();
        v.push(ConditionKind::PortOpened);
        v.push(ConditionKind::PortClosed);
        v.push(ConditionKind::PortRangeActivity);
        v.push(ConditionKind::ExternalConnection);
        v.push(ConditionKind::ProcessCpuThreshold);
        v.push(ConditionKind::ProcessMemoryThreshold);
        v.push(ConditionKind::UnknownProcessListening);
        v
    }

    /// The kind of number key `n`; out-of-range numbers select `PortOpened`.
    pub fn from_u8(n: u8) -> (k: Self)
        ensures
            k == (if n < 7 {
                kind_at(n as int)
            } else {
                ConditionKind::PortOpened
            }),
    {
        let all = Self::all();
        if (n as usize) < all.len() {
            all[n as usize]
        } else {
            ConditionKind::PortOpened
        }
    }
}

/// The kind of a condition.
pub open spec fn kind_of(c: AlertCondition) -> ConditionKind {
    match c {
        AlertCondition::PortOpened { .. } => ConditionKind::PortOpened,
        AlertCondition::PortClosed { .. } => ConditionKind::PortClosed,
        AlertCondition::PortRangeActivity { .. } => ConditionKind::PortRangeActivity,
        AlertCondition::ExternalConnection { .. } => ConditionKind::ExternalConnection,
        AlertCondition::ProcessCpuThreshold { .. } => ConditionKind::ProcessCpuThreshold,
        AlertCondition::ProcessMemoryThreshold { .. } => ConditionKind::ProcessMemoryThreshold,
        AlertCondition::UnknownProcessListening => ConditionKind::UnknownProcessListening,
    }
}

/// A rule being edited: every field as the text typed so far.
#[derive(Debug, Clone)]
pub struct AlertRuleDraft {
    pub editing_index: Option<usize>,
    pub name: String,
    pub enabled: bool,
    pub severity: AlertSeverity,
    pub cooldown_seconds: String,
    pub condition_kind: ConditionKind,
    pub port: String,
    pub start_port: String,
    pub end_port: String,
    pub ip_pattern: String,
    pub exclude_private: bool,
    pub process_pattern: String,
    pub threshold_percent: String,
    pub threshold_mb: String,
}

/// The fields of a new draft.
pub open spec fn is_default_draft(d: AlertRuleDraft) -> bool {
    &&& d.editing_index is None
    &&& d.name@ == Seq::<char>::empty()
    &&& d.enabled
    &&& d.severity == AlertSeverity::Info
    &&& d.cooldown_seconds@ == "60"@
    &&& d.condition_kind == ConditionKind::PortOpened
    &&& default_condition_fields(d)
}

/// The condition fields of a new draft.
pub open spec fn default_condition_fields(d: AlertRuleDraft) -> bool {
    &&& d.port@ == Seq::<char>::empty()
    &&& d.start_port@ == "1"@
    &&& d.end_port@ == "1024"@
    &&& d.ip_pattern@ == ".*"@
    &&& d.exclude_private
    &&& d.process_pattern@ == ".*"@
    &&& d.threshold_percent@ == "50"@
    &&& d.threshold_mb@ == "512"@
}

impl Default for AlertRuleDraft {
    fn default() -> (d: Self)
        ensures
            is_default_draft(d),
    {
        AlertRuleDraft {
            editing_index: None,
            name: String::new(),
            enabled: true,
            severity: AlertSeverity::Info,
            cooldown_seconds: String::from_str("60"),
            condition_kind: ConditionKind::PortOpened,
            port: String::new(),
            start_port: String::from_str("1"),
            end_port: String::from_str("1024"),
            ip_pattern: String::from_str(".*"),
            exclude_private: true,
            process_pattern: String::from_str(".*"),
            threshold_percent: String::from_str("50"),
            threshold_mb: String::from_str("512"),
        }
    }
}

/// The draft that editing rule `r` at position `index` starts from: the rule's
/// fields as text, the condition's own fields filled in and the others at their
/// defaults.
pub open spec fn draft_of(r: AlertRule, index: usize, d: AlertRuleDraft) -> bool {
    &&& d.editing_index == Some(index)
    &&& d.name@ == r.name@
    &&& d.enabled == r.enabled
    &&& d.severity == r.severity
    &&& d.cooldown_seconds@ == decimal(r.cooldown_seconds as nat)
    &&& d.condition_kind == kind_of(r.condition)
    &&& d.port@ == match r.condition {
        AlertCondition::PortOpened { port } => decimal(port as nat),
        AlertCondition::PortClosed { port } => decimal(port as nat),
        _ => Seq::<char>::empty(),
    }
    &&& d.start_port@ == match r.condition {
        AlertCondition::PortRangeActivity { start_port, .. } => decimal(start_port as nat),
        _ => "1"@,
    }
    &&& d.end_port@ == match r.condition {
        AlertCondition::PortRangeActivity { end_port, .. } => decimal(end_port as nat),
        _ => "1024"@,
    }
    &&& d.ip_pattern@ == match r.condition {
        AlertCondition::ExternalConnection { ip_pattern, .. } => ip_pattern@,
        _ => ".*"@,
    }
    &&& d.exclude_private == match r.condition {
        AlertCondition::ExternalConnection { exclude_private, .. } => exclude_private,
        _ => true,
    }
    &&& d.process_pattern@ == match r.condition {
        AlertCondition::ProcessCpuThreshold { process_pattern, .. } => process_pattern@,
        AlertCondition::ProcessMemoryThreshold { process_pattern, .. } => process_pattern@,
        _ => ".*"@,
    }
    &&& d.threshold_percent@ == match r.condition {
        AlertCondition::ProcessCpuThreshold { threshold_percent, .. } => threshold_percent.text@,
        _ => "50"@,
    }
    &&& d.threshold_mb@ == match r.condition {
        AlertCondition::ProcessMemoryThreshold { threshold_mb, .. } => decimal(threshold_mb as nat),
        _ => "512"@,
    }
}

/// The last focusable field of the form for a kind of condition.
pub open spec fn max_focus_of(k: ConditionKind) -> usize {
    match k {
        ConditionKind::PortOpened | ConditionKind::PortClosed => 5,
        ConditionKind::PortRangeActivity => 6,
        ConditionKind::ExternalConnection => 6,
        ConditionKind::ProcessCpuThreshold | ConditionKind::ProcessMemoryThreshold => 6,
        ConditionKind::UnknownProcessListening => 4,
    }
}

/// The text field that focus `f` edits for a kind of condition: 0 name,
/// 3 cooldown, 5 and 6 the condition's fields (see the form), none otherwise.
pub enum TextField {
    Name,
    Cooldown,
    Port,
    StartPort,
    EndPort,
    IpPattern,
    ProcessPattern,
    ThresholdPercent,
    ThresholdMb,
}

/// The text field a focus position edits, if any.
pub open spec fn text_field(k: ConditionKind, focus: usize) -> Option<TextField> {
    if focus == 0 {
        Some(TextField::Name)
    } else if focus == 3 {
        Some(TextField::Cooldown)
    } else if focus == 5 {
        match k {
            ConditionKind::PortOpened | ConditionKind::PortClosed => Some(TextField::Port),
            ConditionKind::PortRangeActivity => Some(TextField::StartPort),
            ConditionKind::ExternalConnection => Some(TextField::IpPattern),
            ConditionKind::ProcessCpuThreshold | ConditionKind::ProcessMemoryThreshold => Some(
                TextField::ProcessPattern,
            ),
            ConditionKind::UnknownProcessListening => None,
        }
    } else if focus == 6 {
        match k {
            ConditionKind::PortRangeActivity => Some(TextField::EndPort),
            ConditionKind::ProcessCpuThreshold => Some(TextField::ThresholdPercent),
            ConditionKind::ProcessMemoryThreshold => Some(TextField::ThresholdMb),
            _ => None,
        }
    } else {
        None
    }
}

/// The text of a field of the draft.
pub open spec fn field_text(d: AlertRuleDraft, f: TextField) -> Seq<char> {
    match f {
        TextField::Name => d.name@,
        TextField::Cooldown => d.cooldown_seconds@,
        TextField::Port => d.port@,
        TextField::StartPort => d.start_port@,
        TextField::EndPort => d.end_port@,
        TextField::IpPattern => d.ip_pattern@,
        TextField::ProcessPattern => d.process_pattern@,
        TextField::ThresholdPercent => d.threshold_percent@,
        TextField::ThresholdMb => d.threshold_mb@,
    }
}

/// The draft with one text field replaced and the others kept.
pub open spec fn with_field(a: AlertRuleDraft, b: AlertRuleDraft, f: TextField, t: Seq<char>) -> bool {
    &&& a.editing_index == b.editing_index
    &&& a.enabled == b.enabled
    &&& a.severity == b.severity
    &&& a.condition_kind == b.condition_kind
    &&& a.exclude_private == b.exclude_private
    &&& forall|g: TextField| #[trigger] field_text(b, g) == if g == f {
        t
    } else {
        field_text(a, g)
    }
}

/// The characters a field accepts: digits for numbers, digits and `.` for the CPU
/// percentage, anything for names and patterns.
pub open spec fn accepts(f: TextField, c: char) -> bool {
    match f {
        TextField::Name | TextField::IpPattern | TextField::ProcessPattern => true,
        TextField::ThresholdPercent => ('0' <= c <= '9') || c == '.',
        _ => '0' <= c <= '9',
    }
}

/// The severity after `s` in the cycle Info, Warning, Critical.
pub open spec fn next_severity(s: AlertSeverity) -> AlertSeverity {
    match s {
        AlertSeverity::Info => AlertSeverity::Warning,
        AlertSeverity::Warning => AlertSeverity::Critical,
        AlertSeverity::Critical => AlertSeverity::Info,
    }
}

/// What is wrong with a draft, if anything, in the order the form is checked:
/// cooldown, name, then the condition's fields. `pct` is the CPU threshold that
/// the threshold text reads as, if it reads as a number.
pub open spec fn draft_error(d: AlertRuleDraft, pct: Option<Percent>) -> Option<Seq<char>> {
    let cd = parse_unsigned(trim(d.cooldown_seconds@), 10, u64::MAX as nat);
    if cd is None {
        Some("cooldown must be a positive integer"@)
    } else if cd.unwrap() == 0 {
        Some("cooldown must be > 0"@)
    } else if trim(d.name@).len() == 0 {
        Some("name is required"@)
    } else {
        condition_error(d, pct)
    }
}

/// A pattern field's error: empty, or not a valid regular expression.
pub open spec fn pattern_error(p: Seq<char>, required: Seq<char>) -> Option<Seq<char>> {
    if p.len() == 0 {
        Some(required)
    } else {
        regex_error(p)
    }
}

/// What is wrong with the condition fields of a draft, if anything.
pub open spec fn condition_error(d: AlertRuleDraft, pct: Option<Percent>) -> Option<Seq<char>> {
    match d.condition_kind {
        ConditionKind::PortOpened | ConditionKind::PortClosed => if parse_unsigned(
            trim(d.port@),
            10,
            65535,
        ) is None {
            Some("port must be a valid u16"@)
        } else {
            None
        },
        ConditionKind::PortRangeActivity => {
            let sp = parse_unsigned(trim(d.start_port@), 10, 65535);
            let ep = parse_unsigned(trim(d.end_port@), 10, 65535);
            if sp is None {
                Some("start_port must be a valid u16"@)
            } else if ep is None {
                Some("end_port must be a valid u16"@)
            } else if sp.unwrap() > ep.unwrap() {
                Some("start_port must be <= end_port"@)
            } else {
                None
            }
        },
        ConditionKind::ExternalConnection => pattern_error(
            trim(d.ip_pattern@),
            "ip_pattern is required"@,
        ),
        ConditionKind::ProcessCpuThreshold => {
            let pe = pattern_error(trim(d.process_pattern@), "process_pattern is required"@);
            if pe is Some {
                pe
            } else if pct is None {
                Some("threshold_percent must be a number"@)
            } else {
                None
            }
        },
        ConditionKind::ProcessMemoryThreshold => {
            let pe = pattern_error(trim(d.process_pattern@), "process_pattern is required"@);
            if pe is Some {
                pe
            } else if parse_unsigned(trim(d.threshold_mb@), 10, u64::MAX as nat) is None {
                Some("threshold_mb must be a positive integer"@)
            } else {
                None
            }
        },
        ConditionKind::UnknownProcessListening => None,
    }
}

/// The condition that a valid draft describes.
pub open spec fn condition_built(d: AlertRuleDraft, pct: Option<Percent>, c: AlertCondition) -> bool {
    match d.condition_kind {
        ConditionKind::PortOpened => c matches AlertCondition::PortOpened { port } && port
            == parse_unsigned(trim(d.port@), 10, 65535).unwrap(),
        ConditionKind::PortClosed => c matches AlertCondition::PortClosed { port } && port
            == parse_unsigned(trim(d.port@), 10, 65535).unwrap(),
        ConditionKind::PortRangeActivity => c matches AlertCondition::PortRangeActivity {
            start_port,
            end_port,
        } && start_port == parse_unsigned(trim(d.start_port@), 10, 65535).unwrap() && end_port
            == parse_unsigned(trim(d.end_port@), 10, 65535).unwrap(),
        ConditionKind::ExternalConnection => c matches AlertCondition::ExternalConnection {
            ip_pattern,
            exclude_private,
        } && ip_pattern@ == trim(d.ip_pattern@) && exclude_private == d.exclude_private,
        ConditionKind::ProcessCpuThreshold => c matches AlertCondition::ProcessCpuThreshold {
            process_pattern,
            threshold_percent,
        } && process_pattern@ == trim(d.process_pattern@) && Some(threshold_percent) == pct,
        ConditionKind::ProcessMemoryThreshold => c matches AlertCondition::ProcessMemoryThreshold {
            process_pattern,
            threshold_mb,
        } && process_pattern@ == trim(d.process_pattern@) && threshold_mb == parse_unsigned(
            trim(d.threshold_mb@),
            10,
            u64::MAX as nat,
        ).unwrap(),
        ConditionKind::UnknownProcessListening => c is UnknownProcessListening,
    }
}

/// The rule that a valid draft describes: trimmed name, the draft's flags, the
/// parsed cooldown and condition, and the id derived from name and condition.
pub open spec fn rule_built(d: AlertRuleDraft, pct: Option<Percent>, r: AlertRule) -> bool {
    &&& r.name@ == trim(d.name@)
    &&& r.enabled == d.enabled
    &&& r.severity == d.severity
    &&& r.cooldown_seconds == parse_unsigned(trim(d.cooldown_seconds@), 10, u64::MAX as nat).unwrap()
    &&& condition_built(d, pct, r.condition)
    &&& r.id@ == rule_id_of(r.name@, r.condition)
}

/// `b` is `a` after typing `c` at focus `focus`: the character joins the focused
/// text field if that field accepts it; nothing else changes.
pub open spec fn appended(a: AlertRuleDraft, b: AlertRuleDraft, focus: usize, c: char) -> bool {
    match text_field(a.condition_kind, focus) {
        Some(f) => if accepts(f, c) {
            with_field(a, b, f, field_text(a, f).push(c))
        } else {
            with_field(a, b, f, field_text(a, f))
        },
        None => with_field(a, b, TextField::Name, a.name@),
    }
}

/// `b` is `a` after Backspace at focus `focus`: the focused text field loses its
/// last character, if it has one; nothing else changes.
pub open spec fn backspaced(a: AlertRuleDraft, b: AlertRuleDraft, focus: usize) -> bool {
    match text_field(a.condition_kind, focus) {
        Some(f) => with_field(
            a,
            b,
            f,
            if field_text(a, f).len() > 0 {
                field_text(a, f).drop_last()
            } else {
                field_text(a, f)
            },
        ),
        None => with_field(a, b, TextField::Name, a.name@),
    }
}

fn is_digit(c: char) -> (b: bool)
    ensures
        b == ('0' <= c && c <= '9'),
{
    '0' <= c && c <= '9'
}

fn pop_last(s: &mut String)
    ensures
        final(s)@ == if old(s)@.len() > 0 {
            old(s)@.drop_last()
        } else {
            old(s)@
        },
{
    let _ = pop_char(s);
}

fn trimmed_text(s: &String) -> (t: Vec<char>)
    ensures
        t@ == trim(s@),
{
    trimmed(&chars_of(s.as_str()))
}

fn error_text(s: &str) -> (e: String)
    ensures
        e@ == s@,
{
    String::from_str(s)
}

fn check_pattern(text: &String, required: &str) -> (r: Result<String, String>)
    ensures
        match r {
            Ok(p) => p@ == trim(text@) && pattern_error(trim(text@), required@) is None,
            Err(e) => pattern_error(trim(text@), required@) == Some(e@),
        },
{
    let p = string_of(&trimmed_text(text));
    if p.as_str().is_empty() {
        return Err(error_text(required));
    }
    match regex_compile_error(p.as_str()) {
        Some(e) => Err(e),
        None => Ok(p),
    }
}

impl AlertRuleDraft {
    /// The draft for editing rule `rule` at position `index`.
    pub fn from_rule(rule: &AlertRule, index: usize) -> (d: Self)
        ensures
            draft_of(*rule, index, d),
    {
        let condition_kind = match &rule.condition {
            AlertCondition::PortOpened { .. } => ConditionKind::PortOpened,
            AlertCondition::PortClosed { .. } => ConditionKind::PortClosed,
            AlertCondition::PortRangeActivity { .. } => ConditionKind::PortRangeActivity,
            AlertCondition::ExternalConnection { .. } => ConditionKind::ExternalConnection,
            AlertCondition::ProcessCpuThreshold { .. } => ConditionKind::ProcessCpuThreshold,
            AlertCondition::ProcessMemoryThreshold { .. } => ConditionKind::ProcessMemoryThreshold,
            AlertCondition::UnknownProcessListening => ConditionKind::UnknownProcessListening,
        };
        let base = Self::default();
        let mut d = AlertRuleDraft {
            editing_index: Some(index),
            name: rule.name.clone(),
            enabled: rule.enabled,
            severity: rule.severity,
            cooldown_seconds: decimal_string(rule.cooldown_seconds),
            condition_kind,
            ..base
        };
        match &rule.condition {
            AlertCondition::PortOpened { port } => d.port = decimal_string(*port as u64),
            AlertCondition::PortClosed { port } => d.port = decimal_string(*port as u64),
            AlertCondition::PortRangeActivity { start_port, end_port } => {
                d.start_port = decimal_string(*start_port as u64);
                d.end_port = decimal_string(*end_port as u64);
            },
            AlertCondition::ExternalConnection { ip_pattern, exclude_private } => {
                d.ip_pattern = ip_pattern.clone();
                d.exclude_private = *exclude_private;
            },
            AlertCondition::ProcessCpuThreshold { process_pattern, threshold_percent } => {
                d.process_pattern = process_pattern.clone();
                d.threshold_percent = threshold_percent.text.clone();
            },
            AlertCondition::ProcessMemoryThreshold { process_pattern, threshold_mb } => {
                d.process_pattern = process_pattern.clone();
                d.threshold_mb = decimal_string(*threshold_mb);
            },
            AlertCondition::UnknownProcessListening => {},
        }
        d
    }

    /// The last field that Tab reaches for the draft's kind of condition.
    pub fn max_focus(&self) -> (m: usize)
        ensures
            m == max_focus_of(self.condition_kind),
    {
        match self.condition_kind {
            ConditionKind::PortOpened | ConditionKind::PortClosed => 5,
            ConditionKind::PortRangeActivity => 6,
            ConditionKind::ExternalConnection => 6,
            ConditionKind::ProcessCpuThreshold | ConditionKind::ProcessMemoryThreshold => 6,
            ConditionKind::UnknownProcessListening => 4,
        }
    }

    /// Types a character into the focused field: names and patterns take any
    /// character, numbers only digits, the CPU percentage digits and `.`.
    pub fn append_to_field(&mut self, focus: usize, c: char)
        ensures
            appended(*old(self), *final(self), focus, c),
    {
        match focus {
            0 => push_char(&mut self.name, c),
            1 | 2 | 4 => {},
            3 => {
                if is_digit(c) {
                    push_char(&mut self.cooldown_seconds, c);
                }
            },
            _ => self.append_condition_field(focus, c),
        }
    }

    fn append_condition_field(&mut self, focus: usize, c: char)
        requires
            focus != 0 && focus != 1 && focus != 2 && focus != 3 && focus != 4,
        ensures
            appended(*old(self), *final(self), focus, c),
    {
        match self.condition_kind {
            ConditionKind::PortOpened | ConditionKind::PortClosed => {
                if focus == 5 && is_digit(c) {
                    push_char(&mut self.port, c);
                }
            },
            ConditionKind::PortRangeActivity => {
                if focus == 5 && is_digit(c) {
                    push_char(&mut self.start_port, c);
                }
                if focus == 6 && is_digit(c) {
                    push_char(&mut self.end_port, c);
                }
            },
            ConditionKind::ExternalConnection => {
                if focus == 5 {
                    push_char(&mut self.ip_pattern, c);
                }
            },
            ConditionKind::ProcessCpuThreshold => {
                if focus == 5 {
                    push_char(&mut self.process_pattern, c);
                }
                if focus == 6 && (is_digit(c) || c == '.') {
                    push_char(&mut self.threshold_percent, c);
                }
            },
            ConditionKind::ProcessMemoryThreshold => {
                if focus == 5 {
                    push_char(&mut self.process_pattern, c);
                }
                if focus == 6 && is_digit(c) {
                    push_char(&mut self.threshold_mb, c);
                }
            },
            ConditionKind::UnknownProcessListening => {},
        }
    }

    /// Deletes the last character of the focused field.
    pub fn backspace_field(&mut self, focus: usize)
        ensures
            backspaced(*old(self), *final(self), focus),
    {
        match focus {
            0 => pop_last(&mut self.name),
            3 => pop_last(&mut self.cooldown_seconds),
            5 => match self.condition_kind {
                ConditionKind::PortOpened | ConditionKind::PortClosed => pop_last(&mut self.port),
                ConditionKind::PortRangeActivity => pop_last(&mut self.start_port),
                ConditionKind::ExternalConnection => pop_last(&mut self.ip_pattern),
                ConditionKind::ProcessCpuThreshold | ConditionKind::ProcessMemoryThreshold => {
                    pop_last(&mut self.process_pattern)
                },
                ConditionKind::UnknownProcessListening => {},
            },
            6 => match self.condition_kind {
                ConditionKind::PortRangeActivity => pop_last(&mut self.end_port),
                ConditionKind::ProcessCpuThreshold => pop_last(&mut self.threshold_percent),
                ConditionKind::ProcessMemoryThreshold => pop_last(&mut self.threshold_mb),
                _ => {},
            },
            _ => {},
        }
    }

    /// Flips the flag under focus: 1 is `enabled`, 6 is "exclude private" of an
    /// external-connection condition.
    pub fn toggle_bool_field(&mut self, focus: usize)
        ensures
            final(self).enabled == (if focus == 1 {
                !old(self).enabled
            } else {
                old(self).enabled
            }),
            final(self).exclude_private == (if focus == 6 && old(self).condition_kind
                == ConditionKind::ExternalConnection {
                !old(self).exclude_private
            } else {
                old(self).exclude_private
            }),
            final(self).editing_index == old(self).editing_index,
            final(self).severity == old(self).severity,
            final(self).condition_kind == old(self).condition_kind,
            forall|g: TextField| #[trigger] field_text(*final(self), g) == field_text(*old(self), g),
    {
        if focus == 1 {
            self.enabled = !self.enabled;
        } else if focus == 6 && self.condition_kind == ConditionKind::ExternalConnection {
            self.exclude_private = !self.exclude_private;
        }
    }

    /// Moves the severity one step along Info, Warning, Critical, Info.
    pub fn cycle_severity(&mut self)
        ensures
            final(self).severity == next_severity(old(self).severity),
            final(self).enabled == old(self).enabled,
            final(self).exclude_private == old(self).exclude_private,
            final(self).editing_index == old(self).editing_index,
            final(self).condition_kind == old(self).condition_kind,
            forall|g: TextField| #[trigger] field_text(*final(self), g) == field_text(*old(self), g),
    {
        self.severity = match self.severity {
            AlertSeverity::Info => AlertSeverity::Warning,
            AlertSeverity::Warning => AlertSeverity::Critical,
            AlertSeverity::Critical => AlertSeverity::Info,
        };
    }

    /// Selects the kind of condition with number key `n`.
    pub fn set_condition_kind(&mut self, n: u8)
        ensures
            final(self).condition_kind == (if n < 7 {
                kind_at(n as int)
            } else {
                ConditionKind::PortOpened
            }),
            final(self).severity == old(self).severity,
            final(self).enabled == old(self).enabled,
            final(self).exclude_private == old(self).exclude_private,
            final(self).editing_index == old(self).editing_index,
            forall|g: TextField| #[trigger] field_text(*final(self), g) == field_text(*old(self), g),
    {
        self.condition_kind = ConditionKind::from_u8(n);
    }

    /// The rule the draft describes, or what is wrong with it. `threshold_percent`
    /// is what the trimmed CPU threshold text reads as, if it reads as a number.
    pub fn to_rule(&self, threshold_percent: Option<Percent>) -> (r: Result<AlertRule, String>)
        ensures
            match r {
                Ok(rule) => draft_error(*self, threshold_percent) is None && rule_built(
                    *self,
                    threshold_percent,
                    rule,
                ),
                Err(e) => draft_error(*self, threshold_percent) == Some(e@),
            },
    {
        let cooldown = match parse_number(&trimmed_text(&self.cooldown_seconds), 10, u64::MAX) {
            Some(c) => c,
            None => return Err(error_text("cooldown must be a positive integer")),
        };
        if cooldown == 0 {
            return Err(error_text("cooldown must be > 0"));
        }
        let name_chars = trimmed_text(&self.name);
        if name_chars.len() == 0 {
            return Err(error_text("name is required"));
        }
        let name = string_of(&name_chars);
        let condition = match self.condition_kind {
            ConditionKind::PortOpened => {
                match parse_number(&trimmed_text(&self.port), 10, 65535) {
                    Some(p) => AlertCondition::PortOpened { port: p as u16 },
                    None => return Err(error_text("port must be a valid u16")),
                }
            },
            ConditionKind::PortClosed => {
                match parse_number(&trimmed_text(&self.port), 10, 65535) {
                    Some(p) => AlertCondition::PortClosed { port: p as u16 },
                    None => return Err(error_text("port must be a valid u16")),
                }
            },
            ConditionKind::PortRangeActivity => {
                let start_port = match parse_number(&trimmed_text(&self.start_port), 10, 65535) {
                    Some(p) => p as u16,
                    None => return Err(error_text("start_port must be a valid u16")),
                };
                let end_port = match parse_number(&trimmed_text(&self.end_port), 10, 65535) {
                    Some(p) => p as u16,
                    None => return Err(error_text("end_port must be a valid u16")),
                };
                if start_port > end_port {
                    return Err(error_text("start_port must be <= end_port"));
                }
                AlertCondition::PortRangeActivity { start_port, end_port }
            },
            ConditionKind::ExternalConnection => {
                let ip_pattern = match check_pattern(&self.ip_pattern, "ip_pattern is required") {
                    Ok(p) => p,
                    Err(e) => return Err(e),
                };
                AlertCondition::ExternalConnection {
                    ip_pattern,
                    exclude_private: self.exclude_private,
                }
            },
            ConditionKind::ProcessCpuThreshold => {
                let process_pattern = match check_pattern(
                    &self.process_pattern,
                    "process_pattern is required",
                ) {
                    Ok(p) => p,
                    Err(e) => return Err(e),
                };
                let threshold_percent = match threshold_percent {
                    Some(t) => t,
                    None => return Err(error_text("threshold_percent must be a number")),
                };
                AlertCondition::ProcessCpuThreshold { process_pattern, threshold_percent }
            },
            ConditionKind::ProcessMemoryThreshold => {
                let process_pattern = match check_pattern(
                    &self.process_pattern,
                    "process_pattern is required",
                ) {
                    Ok(p) => p,
                    Err(e) => return Err(e),
                };
                let threshold_mb = match parse_number(
                    &trimmed_text(&self.threshold_mb),
                    10,
                    u64::MAX,
                ) {
                    Some(t) => t,
                    None => return Err(error_text("threshold_mb must be a positive integer")),
                };
                AlertCondition::ProcessMemoryThreshold { process_pattern, threshold_mb }
            },
            ConditionKind::UnknownProcessListening => AlertCondition::UnknownProcessListening,
        };
        let id = derive_rule_id(name.as_str(), &condition);
        Ok(
            AlertRule {
                id,
                name,
                condition,
                enabled: self.enabled,
                severity: self.severity,
                cooldown_seconds: cooldown,
            },
        )
    }
}

/// A rule that the editor saves back unchanged: its name has no surrounding
/// whitespace and is not empty, its cooldown is positive, its patterns have no
/// surrounding whitespace, are not empty and compile, and its port range is in order.
pub open spec fn editable(r: AlertRule) -> bool {
    &&& r.name@ == trim(r.name@)
    &&& r.name@.len() > 0
    &&& r.cooldown_seconds > 0
    &&& match r.condition {
        AlertCondition::PortRangeActivity { start_port, end_port } => start_port <= end_port,
        AlertCondition::ExternalConnection { ip_pattern, .. } => ip_pattern@ == trim(ip_pattern@)
            && ip_pattern@.len() > 0 && regex_error(ip_pattern@) is None,
        AlertCondition::ProcessCpuThreshold { process_pattern, .. } => process_pattern@ == trim(
            process_pattern@,
        ) && process_pattern@.len() > 0 && regex_error(process_pattern@) is None,
        AlertCondition::ProcessMemoryThreshold { process_pattern, .. } => process_pattern@
            == trim(process_pattern@) && process_pattern@.len() > 0 && regex_error(
            process_pattern@,
        ) is None,
        _ => true,
    }
}

/// Two conditions are the same, texts compared by their characters.
pub open spec fn same_condition(a: AlertCondition, b: AlertCondition) -> bool {
    match (a, b) {
        (AlertCondition::PortOpened { port: p }, AlertCondition::PortOpened { port: q }) => p == q,
        (AlertCondition::PortClosed { port: p }, AlertCondition::PortClosed { port: q }) => p == q,
        (
            AlertCondition::PortRangeActivity { start_port: s1, end_port: e1 },
            AlertCondition::PortRangeActivity { start_port: s2, end_port: e2 },
        ) => s1 == s2 && e1 == e2,
        (
            AlertCondition::ExternalConnection { ip_pattern: p1, exclude_private: x1 },
            AlertCondition::ExternalConnection { ip_pattern: p2, exclude_private: x2 },
        ) => p1@ == p2@ && x1 == x2,
        (
            AlertCondition::ProcessCpuThreshold { process_pattern: p1, threshold_percent: t1 },
            AlertCondition::ProcessCpuThreshold { process_pattern: p2, threshold_percent: t2 },
        ) => p1@ == p2@ && t1 == t2,
        (
            AlertCondition::ProcessMemoryThreshold { process_pattern: p1, threshold_mb: t1 },
            AlertCondition::ProcessMemoryThreshold { process_pattern: p2, threshold_mb: t2 },
        ) => p1@ == p2@ && t1 == t2,
        (AlertCondition::UnknownProcessListening, AlertCondition::UnknownProcessListening) => true,
        _ => false,
    }
}

/// Opening a rule in the editor and saving it without changes gives the same rule
/// back (its id derived again from name and condition), provided the CPU threshold
/// text reads back as the threshold it was written from.
pub proof fn law_edit_round_trip(
    r: AlertRule,
    index: usize,
    d: AlertRuleDraft,
    pct: Option<Percent>,
    saved: AlertRule,
)
    requires
        editable(r),
        draft_of(r, index, d),
        r.condition matches AlertCondition::ProcessCpuThreshold { threshold_percent, .. }
            ==> pct == Some(threshold_percent),
    ensures
        draft_error(d, pct) is None,
        rule_built(d, pct, saved) ==> {
            &&& saved.name@ == r.name@
            &&& saved.enabled == r.enabled
            &&& saved.severity == r.severity
            &&& saved.cooldown_seconds == r.cooldown_seconds
            &&& same_condition(r.condition, saved.condition)
            &&& saved.id@ == rule_id_of(r.name@, saved.condition)
        },
{
    law_decimal_parses(r.cooldown_seconds as nat, u64::MAX as nat);
    match r.condition {
        AlertCondition::PortOpened { port } => {
            law_decimal_parses(port as nat, 65535);
        },
        AlertCondition::PortClosed { port } => {
            law_decimal_parses(port as nat, 65535);
        },
        AlertCondition::PortRangeActivity { start_port, end_port } => {
            law_decimal_parses(start_port as nat, 65535);
            law_decimal_parses(end_port as nat, 65535);
        },
        AlertCondition::ProcessMemoryThreshold { threshold_mb, .. } => {
            law_decimal_parses(threshold_mb as nat, u64::MAX as nat);
        },
        _ => {},
    }
}

/// Cycling the severity three times comes back to where it started.
pub proof fn law_severity_cycle(s: AlertSeverity)
    ensures
        next_severity(next_severity(next_severity(s))) == s,
        next_severity(s) != s,
{
}

/// A condition in a few words, as the rule list shows it.
pub open spec fn condition_short_text(c: AlertCondition) -> Seq<char> {
    match c {
        AlertCondition::PortOpened { port } => "port open "@ + decimal(port as nat),
        AlertCondition::PortClosed { port } => "port close "@ + decimal(port as nat),
        AlertCondition::PortRangeActivity { start_port, end_port } => "range "@ + decimal(
            start_port as nat,
        ) + "-"@ + decimal(end_port as nat),
        AlertCondition::ExternalConnection { .. } => "external"@,
        AlertCondition::ProcessCpuThreshold { .. } => "cpu"@,
        AlertCondition::ProcessMemoryThreshold { .. } => "mem"@,
        AlertCondition::UnknownProcessListening => "unknown listener"@,
    }
}

/// A rule's line in the rule list: a check mark when enabled, its name and its
/// condition.
pub open spec fn rule_line_text(r: AlertRule) -> Seq<char> {
    "["@ + (if r.enabled {
        "\u{2713}"@
    } else {
        " "@
    }) + "] "@ + r.name@ + " \u{2014} "@ + condition_short_text(r.condition)
}

/// The help beside the rule list: the keys, then the selected rule's id (or a hint
/// when there are no rules).
pub open spec fn list_help_text(rules: Seq<AlertRule>, selected: usize) -> Seq<Seq<char>> {
    seq![
        "n new  d delete  t toggle  Enter edit  Esc close"@,
        Seq::<char>::empty(),
        if rules.len() == 0 {
            "No rules. Press n to add."@
        } else if selected < rules.len() {
            "Selected: "@ + rules[selected as int].id@
        } else {
            Seq::<char>::empty()
        },
    ]
}

/// How a severity is named in the form.
pub open spec fn severity_name(s: AlertSeverity) -> Seq<char> {
    match s {
        AlertSeverity::Info => "Info"@,
        AlertSeverity::Warning => "Warning"@,
        AlertSeverity::Critical => "Critical"@,
    }
}

/// How a kind of condition is named in the form.
pub open spec fn kind_name(k: ConditionKind) -> Seq<char> {
    match k {
        ConditionKind::PortOpened => "PortOpened"@,
        ConditionKind::PortClosed => "PortClosed"@,
        ConditionKind::PortRangeActivity => "PortRange"@,
        ConditionKind::ExternalConnection => "External"@,
        ConditionKind::ProcessCpuThreshold => "Cpu"@,
        ConditionKind::ProcessMemoryThreshold => "Memory"@,
        ConditionKind::UnknownProcessListening => "UnknownListener"@,
    }
}

/// How a flag is written.
pub open spec fn bool_text(b: bool) -> Seq<char> {
    if b {
        "true"@
    } else {
        "false"@
    }
}

/// The form's field lines; line `i` is the field that focus `i` edits.
pub open spec fn field_lines(d: AlertRuleDraft) -> Seq<Seq<char>> {
    seq![
        "Name: "@ + d.name@,
        "Enabled: "@ + bool_text(d.enabled) + " (Space toggles)"@,
        "Severity: "@ + severity_name(d.severity) + " (v cycle)"@,
        "Cooldown sec: "@ + d.cooldown_seconds@,
        "Condition type: "@ + kind_name(d.condition_kind) + " (keys 0-6)"@,
    ] + match d.condition_kind {
        ConditionKind::PortOpened | ConditionKind::PortClosed => seq!["Port: "@ + d.port@],
        ConditionKind::PortRangeActivity => seq![
            "Start port: "@ + d.start_port@,
            "End port: "@ + d.end_port@,
        ],
        ConditionKind::ExternalConnection => seq![
            "IP regex: "@ + d.ip_pattern@,
            "Exclude private: "@ + bool_text(d.exclude_private) + " (Space)"@,
        ],
        ConditionKind::ProcessCpuThreshold => seq![
            "Process regex: "@ + d.process_pattern@,
            "CPU % threshold: "@ + d.threshold_percent@,
        ],
        ConditionKind::ProcessMemoryThreshold => seq![
            "Process regex: "@ + d.process_pattern@,
            "Memory MB threshold: "@ + d.threshold_mb@,
        ],
        ConditionKind::UnknownProcessListening => seq![],
    }
}

/// The keys of the form.
pub open spec fn form_keys_text() -> Seq<char> {
    "Tab/Shift+Tab field \u{2022} Enter save \u{2022} Esc cancel \u{2022} type edits focused field"@
}

/// How a line of the rule form is drawn: the focused field stands out, the key
/// help is dimmed, every other line is plain.
#[derive(Debug, Clone, Copy, PartialEq, Eq, Structural)]
pub enum FormLineStyle {
    Plain,
    Focused,
    Keys,
}

/// The style of line `i` of the form of a draft whose focus is `focus`: the last line
/// holds the keys, line `focus + 2` the focused field (when the form has one there).
pub open spec fn form_line_style_of(d: AlertRuleDraft, focus: usize, i: int) -> FormLineStyle {
    if i == max_focus_of(d.condition_kind) + 4 {
        FormLineStyle::Keys
    } else if focus <= max_focus_of(d.condition_kind) && i == focus + 2 {
        FormLineStyle::Focused
    } else {
        FormLineStyle::Plain
    }
}

/// The lines of the rule form: the error (or an empty line), an empty line, the
/// field lines, an empty line and the keys.
pub open spec fn form_lines_of(d: AlertRuleDraft, err: Option<Seq<char>>) -> Seq<Seq<char>> {
    seq![
        match err {
            Some(e) => e,
            None => Seq::<char>::empty(),
        },
        Seq::<char>::empty(),
    ] + field_lines(d) + seq![Seq::<char>::empty(), form_keys_text()]
}

/// A condition in a few words.
pub fn condition_short(c: &AlertCondition) -> (s: String)
    ensures
        s@ == condition_short_text(*c),
{
    match c {
        AlertCondition::PortOpened { port } => {
            let mut s = String::from_str("port open ");
            s.append(decimal_string(*port as u64).as_str());
            s
        },
        AlertCondition::PortClosed { port } => {
            let mut s = String::from_str("port close ");
            s.append(decimal_string(*port as u64).as_str());
            s
        },
        AlertCondition::PortRangeActivity { start_port, end_port } => {
            let mut s = String::from_str("range ");
            s.append(decimal_string(*start_port as u64).as_str());
            s.append("-");
            s.append(decimal_string(*end_port as u64).as_str());
            s
        },
        AlertCondition::ExternalConnection { .. } => String::from_str("external"),
        AlertCondition::ProcessCpuThreshold { .. } => String::from_str("cpu"),
        AlertCondition::ProcessMemoryThreshold { .. } => String::from_str("mem"),
        AlertCondition::UnknownProcessListening => String::from_str("unknown listener"),
    }
}

/// A rule's line in the rule list.
pub fn rule_line(r: &AlertRule) -> (s: String)
    ensures
        s@ == rule_line_text(*r),
{
    let mut s = String::from_str("[");
    if r.enabled {
        s.append("\u{2713}");
    } else {
        s.append(" ");
    }
    s.append("] ");
    s.append(r.name.as_str());
    s.append(" \u{2014} ");
    s.append(condition_short(&r.condition).as_str());
    s
}

/// The help lines beside the rule list.
pub fn list_help(rules: &[AlertRule], selected: usize) -> (lines: Vec<String>)
    ensures
        lines@.map_values(|s: String| s@) == list_help_text(rules@, selected),
{
    let last = if rules.len() == 0 {
        String::from_str("No rules. Press n to add.")
    } else if selected < rules.len() {
        let mut t = String::from_str("Selected: ");
        t.append(rules[selected].id.as_str());
        t
    } else {
        String::new()
    };
    let lines = vec![
        String::from_str("n new  d delete  t toggle  Enter edit  Esc close"),
        String::new(),
        last,
    ];
    assert(lines@.map_values(|s: String| s@) =~= list_help_text(rules@, selected));
    lines
}

fn labelled(label: &str, value: &str, tail: &str) -> (s: String)
    ensures
        s@ == label@ + value@ + tail@,
{
    let mut s = String::from_str(label);
    s.append(value);
    s.append(tail);
    s
}

fn flag_text(b: bool) -> (s: String)
    ensures
        s@ == bool_text(b),
{
    if b {
        String::from_str("true")
    } else {
        String::from_str("false")
    }
}

impl AlertRuleDraft {
    /// The style of each line of the form (see `form_lines`) for a focus: the line of
    /// the focused field stands out, and only that line.
    pub fn form_line_styles(&self, focus: usize) -> (r: Vec<FormLineStyle>)
        ensures
            r@.len() == max_focus_of(self.condition_kind) + 5,
            forall|i: int| 0 <= i < r@.len() ==> r@[i] == form_line_style_of(*self, focus, i),
    {
        let n = self.max_focus() + 5;
        let mut r: Vec<FormLineStyle> = Vec::new();
        let mut i: usize = 0;
        while i < n
            invariant
                n == max_focus_of(self.condition_kind) + 5,
                i <= n,
                r@.len() == i,
                forall|j: int| 0 <= j < i ==> r@[j] == form_line_style_of(*self, focus, j),
            decreases n - i,
        {
            let style = if i == n - 1 {
                FormLineStyle::Keys
            } else if focus <= n - 5 && i == focus + 2 {
                FormLineStyle::Focused
            } else {
                FormLineStyle::Plain
            };
            r.push(style);
            i = i + 1;
        }
        r
    }

    /// The lines of the form for this draft and the error to show, if any. Line
    /// `i + 2` is the field that focus `i` edits, for every focus up to `max_focus`.
    pub fn form_lines(&self, err: Option<&str>) -> (lines: Vec<String>)
        ensures
            lines@.map_values(|s: String| s@) == form_lines_of(
                *self,
                match err {
                    Some(e) => Some(e@),
                    None => None,
                },
            ),
            lines@.len() == max_focus_of(self.condition_kind) + 5,
    {
        let sev = match self.severity {
            AlertSeverity::Info => String::from_str("Info"),
            AlertSeverity::Warning => String::from_str("Warning"),
            AlertSeverity::Critical => String::from_str("Critical"),
        };
        let kind = match self.condition_kind {
            ConditionKind::PortOpened => String::from_str("PortOpened"),
            ConditionKind::PortClosed => String::from_str("PortClosed"),
            ConditionKind::PortRangeActivity => String::from_str("PortRange"),
            ConditionKind::ExternalConnection => String::from_str("External"),
            ConditionKind::ProcessCpuThreshold => String::from_str("Cpu"),
            ConditionKind::ProcessMemoryThreshold => String::from_str("Memory"),
            ConditionKind::UnknownProcessListening => String::from_str("UnknownListener"),
        };
        let mut lines: Vec<String> = Vec::new();
        lines.push(
            match err {
                Some(e) => String::from_str(e),
                None => String::new(),
            },
        );
        lines.push(String::new());
        lines.push(labelled("Name: ", self.name.as_str(), ""));
        lines.push(labelled("Enabled: ", flag_text(self.enabled).as_str(), " (Space toggles)"));
        lines.push(labelled("Severity: ", sev.as_str(), " (v cycle)"));
        lines.push(labelled("Cooldown sec: ", self.cooldown_seconds.as_str(), ""));
        lines.push(labelled("Condition type: ", kind.as_str(), " (keys 0-6)"));
        match self.condition_kind {
            ConditionKind::PortOpened | ConditionKind::PortClosed => {
                lines.push(labelled("Port: ", self.port.as_str(), ""));
            },
            ConditionKind::PortRangeActivity => {
                lines.push(labelled("Start port: ", self.start_port.as_str(), ""));
                lines.push(labelled("End port: ", self.end_port.as_str(), ""));
            },
            ConditionKind::ExternalConnection => {
                lines.push(labelled("IP regex: ", self.ip_pattern.as_str(), ""));
                lines.push(
                    labelled("Exclude private: ", flag_text(self.exclude_private).as_str(), " (Space)"),
                );
            },
            ConditionKind::ProcessCpuThreshold => {
                lines.push(labelled("Process regex: ", self.process_pattern.as_str(), ""));
                lines.push(labelled("CPU % threshold: ", self.threshold_percent.as_str(), ""));
            },
            ConditionKind::ProcessMemoryThreshold => {
                lines.push(labelled("Process regex: ", self.process_pattern.as_str(), ""));
                lines.push(labelled("Memory MB threshold: ", self.threshold_mb.as_str(), ""));
            },
            ConditionKind::UnknownProcessListening => {},
        }
        lines.push(String::new());
        lines.push(
            String::from_str(
                "Tab/Shift+Tab field \u{2022} Enter save \u{2022} Esc cancel \u{2022} type edits focused field",
            ),
        );
        proof {
            reveal_strlit("");
        }
        assert(lines@.map_values(|s: String| s@) =~= form_lines_of(
            *self,
            match err {
                Some(e) => Some(e@),
                None => None,
            },
        ));
        lines
    }
}

} // verus!
