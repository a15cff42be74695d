//! Evaluation of single rules against port scans and process samples.

use vstd::prelude::*;
use std::collections::HashMap;
use crate::ip::{ip_of, parse_ip};
use crate::models::PortRecord;
use crate::text::{decimal, decimal_string};
use super::models::{bits_greater, Alert, AlertCondition, AlertRule, Percent, MIB};

verus! {

broadcast use vstd::std_specs::hash::group_hash_axioms;

// ---------------------------------------------------------------- outside calls

/// `regex::Regex::new`: `None` when the pattern compiles, else the text of the error.
pub uninterp spec fn regex_error(pattern: Seq<char>) -> Option<Seq<char>>;

/// `regex::Regex::is_match` of a compiled pattern against a text.
pub uninterp spec fn regex_matches(pattern: Seq<char>, text: Seq<char>) -> bool;

/// Compiles the pattern with `regex::Regex::new` and reports the error's text if it
/// does not compile. Both outcomes depend on the pattern alone; nothing more is
/// stated of them.
#[verifier::external_body]
pub(crate) fn regex_compile_error(pattern: &str) -> (r: Option<String>)
    ensures
        match r {
            Some(m) => regex_error(pattern@) == Some(m@),
            None => regex_error(pattern@) is None,
        },
{
    match regex::Regex::new(pattern) {
        Ok(_) => None,
        Err(e) => Some(e.to_string()),
    }
}

/// Compiles the pattern with `regex::Regex::new` and runs `Regex::is_match` on the
/// text; the answer depends on the pattern and the text alone.
#[verifier::external_body]
pub(crate) fn regex_is_match(pattern: &str, text: &str) -> (b: bool)
    requires
        regex_error(pattern@) is None,
    ensures
        b == regex_matches(pattern@, text@),
{
    regex::Regex::new(pattern).unwrap().is_match(text)
}

/// An IP address: the four octets of IPv4, or IPv6 as one 128-bit number (see
/// `crate::ip` for how text is read as one).
#[derive(Debug, Clone, Copy, PartialEq, Eq, Structural)]
pub enum IpAddress {
    V4(u8, u8, u8, u8),
    V6(u128),
}

// ---------------------------------------------------------------- specifications

/// Loopback, private (10/8, 172.16/12, 192.168/16) and "this network" (0/8) IPv4
/// addresses, and the IPv6 loopback and unspecified addresses.
pub open spec fn ip_is_private(a: IpAddress) -> bool {
    match a {
        IpAddress::V4(a0, a1, _, _) => a0 == 127 || a0 == 10 || (a0 == 172 && 16 <= a1 <= 31)
            || (a0 == 192 && a1 == 168) || a0 == 0,
        IpAddress::V6(v) => v == 1 || v == 0,
    }
}

/// A parsed address is private; text that is no address is not private.
pub open spec fn parsed_is_private(a: Option<IpAddress>) -> bool {
    match a {
        Some(a) => ip_is_private(a),
        None => false,
    }
}

/// Some record of the scan satisfies `p`.
pub open spec fn has_hit(s: Seq<PortRecord>, p: spec_fn(PortRecord) -> bool) -> bool {
    exists|i: int| 0 <= i < s.len() && #[trigger] p(s[i])
}

/// `i` is the first record of the scan that satisfies `p`.
pub open spec fn is_first_hit(s: Seq<PortRecord>, p: spec_fn(PortRecord) -> bool, i: int) -> bool {
    &&& 0 <= i < s.len()
    &&& p(s[i])
    &&& forall|j: int| 0 <= j < i ==> !#[trigger] p(s[j])
}

/// The first record of the scan that satisfies `p`.
pub open spec fn first_hit(s: Seq<PortRecord>, p: spec_fn(PortRecord) -> bool) -> int {
    choose|i: int| is_first_hit(s, p, i)
}

pub proof fn lemma_first_hit(s: Seq<PortRecord>, p: spec_fn(PortRecord) -> bool, i: int)
    requires
        is_first_hit(s, p, i),
    ensures
        first_hit(s, p) == i,
        has_hit(s, p),
{
    let c = first_hit(s, p);
    assert(is_first_hit(s, p, c));
    if c < i {
        assert(!p(s[c]));
    }
    if i < c {
        assert(!p(s[i]));
    }
}

/// Records on a given local port.
pub open spec fn on_port(port: u16) -> spec_fn(PortRecord) -> bool {
    |r: PortRecord| r.local_port == port
}

/// The scan has a record on the port.
pub open spec fn port_present(s: Seq<PortRecord>, port: u16) -> bool {
    has_hit(s, on_port(port))
}

/// How a record's process is named in messages.
pub open spec fn name_or_unknown(n: Option<String>) -> Seq<char> {
    match n {
        Some(s) => s@,
        None => "unknown"@,
    }
}

/// Records in the port range whose port was absent from the previous scan.
pub open spec fn new_in_range(prev: Seq<PortRecord>, start: u16, end: u16) -> spec_fn(PortRecord) -> bool {
    |r: PortRecord| start <= r.local_port <= end && !port_present(prev, r.local_port)
}

/// The message that a port rule fires with for two consecutive scans, if it fires.
pub open spec fn port_change_message(c: AlertCondition, prev: Seq<PortRecord>, cur: Seq<PortRecord>) -> Option<Seq<char>> {
    match c {
        AlertCondition::PortOpened { port } => if !port_present(prev, port) && port_present(cur, port) {
            Some("Port "@ + decimal(port as nat) + " opened by "@ + name_or_unknown(
                cur[first_hit(cur, on_port(port))].process_name,
            ))
        } else {
            None
        },
        AlertCondition::PortClosed { port } => if port_present(prev, port) && !port_present(cur, port) {
            Some("Port "@ + decimal(port as nat) + " closed"@)
        } else {
            None
        },
        AlertCondition::PortRangeActivity { start_port, end_port } => {
            let p = new_in_range(prev, start_port, end_port);
            if has_hit(cur, p) {
                Some("Activity detected on port "@ + decimal(cur[first_hit(cur, p)].local_port as nat)
                    + " (range "@ + decimal(start_port as nat) + "-"@ + decimal(end_port as nat)
                    + ")"@)
            } else {
                None
            }
        },
        _ => None,
    }
}

/// Records with a remote address that the pattern matches, private addresses (by
/// the address that the remote address text spells) skipped when asked to.
pub open spec fn external_hit(
    ports: Seq<PortRecord>,
    pattern: Seq<char>,
    exclude_private: bool,
) -> spec_fn(int) -> bool {
    |i: int|
        ports[i].remote_addr is Some && !(exclude_private && parsed_is_private(
            ip_of(ports[i].remote_addr.unwrap()@),
        )) && regex_matches(pattern, ports[i].remote_addr.unwrap()@)
}

/// `i` is the first index below `n` that satisfies `p`.
pub open spec fn is_first_index(n: int, p: spec_fn(int) -> bool, i: int) -> bool {
    &&& 0 <= i < n
    &&& p(i)
    &&& forall|j: int| 0 <= j < i ==> !#[trigger] p(j)
}

/// Some index below `n` satisfies `p`.
pub open spec fn has_index(n: int, p: spec_fn(int) -> bool) -> bool {
    exists|i: int| 0 <= i < n && #[trigger] p(i)
}

/// The first index below `n` that satisfies `p`.
pub open spec fn first_index(n: int, p: spec_fn(int) -> bool) -> int {
    choose|i: int| is_first_index(n, p, i)
}

pub proof fn lemma_first_index(n: int, p: spec_fn(int) -> bool, i: int)
    requires
        is_first_index(n, p, i),
    ensures
        first_index(n, p) == i,
        has_index(n, p),
{
    let c = first_index(n, p);
    assert(is_first_index(n, p, c));
    if c < i {
        assert(!p(c));
    }
    if i < c {
        assert(!p(i));
    }
}

/// The message that a connection rule fires with, if it fires.
pub open spec fn connection_message(
    c: AlertCondition,
    ports: Seq<PortRecord>,
) -> Option<Seq<char>> {
    match c {
        AlertCondition::ExternalConnection { ip_pattern, exclude_private } => {
            let p = external_hit(ports, ip_pattern@, exclude_private);
            if regex_error(ip_pattern@) is None && has_index(ports.len() as int, p) {
                let r = ports[first_index(ports.len() as int, p)];
                Some("External connection to "@ + r.remote_addr.unwrap()@ + " on port "@ + decimal(
                    r.local_port as nat,
                ))
            } else {
                None
            }
        },
        _ => None,
    }
}

/// Records of a named process matching the pattern whose sample satisfies `over`.
pub open spec fn sampled_hit<V>(pattern: Seq<char>, usage: Map<u32, V>, over: spec_fn(V) -> bool) -> spec_fn(PortRecord) -> bool {
    |r: PortRecord|
        r.process_name is Some && r.pid is Some && regex_matches(pattern, r.process_name.unwrap()@)
            && usage.contains_key(r.pid.unwrap()) && over(usage[r.pid.unwrap()])
}

/// The message that a CPU rule fires with, if it fires.
pub open spec fn cpu_message(c: AlertCondition, ports: Seq<PortRecord>, usage: Map<u32, Percent>) -> Option<Seq<char>> {
    match c {
        AlertCondition::ProcessCpuThreshold { process_pattern, threshold_percent } => {
            let p = sampled_hit(
                process_pattern@,
                usage,
                |v: Percent| bits_greater(v.bits, threshold_percent.bits),
            );
            if regex_error(process_pattern@) is None && has_hit(ports, p) {
                let r = ports[first_hit(ports, p)];
                Some("Process "@ + r.process_name.unwrap()@ + " (PID: "@ + decimal(
                    r.pid.unwrap() as nat,
                ) + ") CPU usage: "@ + usage[r.pid.unwrap()].one_decimal@ + "% (threshold: "@
                    + threshold_percent.one_decimal@ + "%)"@)
            } else {
                None
            }
        },
        _ => None,
    }
}

/// The message that a memory rule fires with, if it fires.
pub open spec fn memory_message(c: AlertCondition, ports: Seq<PortRecord>, usage: Map<u32, u64>) -> Option<Seq<char>> {
    match c {
        AlertCondition::ProcessMemoryThreshold { process_pattern, threshold_mb } => {
            let p = sampled_hit(process_pattern@, usage, |v: u64| v > threshold_mb * MIB);
            if regex_error(process_pattern@) is None && has_hit(ports, p) {
                let r = ports[first_hit(ports, p)];
                Some("Process "@ + r.process_name.unwrap()@ + " (PID: "@ + decimal(
                    r.pid.unwrap() as nat,
                ) + ") memory usage: "@ + decimal((usage[r.pid.unwrap()] / 1024 / 1024) as nat)
                    + " MB (threshold: "@ + decimal(threshold_mb as nat) + " MB)"@)
            } else {
                None
            }
        },
        _ => None,
    }
}

/// The alert carries the rule's id and severity, the message, and a valid time.
pub open spec fn fired_as(r: Option<Alert>, rule: AlertRule, m: Option<Seq<char>>) -> bool {
    match m {
        None => r is None,
        Some(msg) => match r {
            Some(a) => a.rule_id@ == rule.id@ && a.message@ == msg && a.severity == rule.severity
                && a.timestamp.wf(),
            None => false,
        },
    }
}

// ---------------------------------------------------------------- evaluation

fn find_port(ports: &[PortRecord], port: u16) -> (r: Option<usize>)
    ensures
        match r {
            Some(i) => is_first_hit(ports@, on_port(port), i as int),
            None => !port_present(ports@, port),
        },
{
    let mut i: usize = 0;
    while i < ports.len()
        invariant
            i <= ports@.len(),
            forall|j: int| 0 <= j < i ==> !#[trigger] on_port(port)(ports@[j]),
        decreases ports.len() - i,
    {
        if ports[i].local_port == port {
            return Some(i);
        }
        i = i + 1;
    }
    None
}

fn new_alert(rule: &AlertRule, message: String) -> (a: Alert)
    ensures
        a.rule_id@ == rule.id@,
        a.message == message,
        a.severity == rule.severity,
        a.timestamp.wf(),
{
    Alert::new(rule.id.clone(), message, rule.severity)
}

/// Whether a parsed address is loopback, private or unspecified.
pub fn is_private_ip(ip: &Option<IpAddress>) -> (b: bool)
    ensures
        b == parsed_is_private(*ip),
{
    match *ip {
        Some(IpAddress::V4(a0, a1, _, _)) => a0 == 127 || a0 == 10 || (a0 == 172 && 16 <= a1
            && a1 <= 31) || (a0 == 192 && a1 == 168) || a0 == 0,
        Some(IpAddress::V6(v)) => v == 1 || v == 0,
        None => false,
    }
}

/// Rule evaluation; every method looks at one family of conditions and yields
/// `None` for the others.
pub struct AlertEvaluator;

impl AlertEvaluator {
    /// Port opened, closed, or new activity in a range, between two scans.
    pub fn evaluate_port_changes(
        rule: &AlertRule,
        previous_ports: &[PortRecord],
        current_ports: &[PortRecord],
    ) -> (r: Option<Alert>)
        ensures
            fired_as(r, *rule, port_change_message(rule.condition, previous_ports@, current_ports@)),
    {
        match &rule.condition {
            AlertCondition::PortOpened { port } => {
                let was = find_port(previous_ports, *port);
                let is = find_port(current_ports, *port);
                match (was, is) {
                    (None, Some(i)) => {
                        proof {
                            lemma_first_hit(current_ports@, on_port(*port), i as int);
                        }
                        let record = &current_ports[i];
                        let mut m = String::from_str("Port ");
                        m.append(decimal_string(*port as u64).as_str());
                        m.append(" opened by ");
                        match &record.process_name {
                            Some(n) => m.append(n.as_str()),
                            None => m.append("unknown"),
                        }
                        Some(new_alert(rule, m))
                    },
                    (Some(j), _) => {
                        proof {
                            lemma_first_hit(previous_ports@, on_port(*port), j as int);
                        }
                        None
                    },
                    _ => None,
                }
            },
            AlertCondition::PortClosed { port } => {
                let was = find_port(previous_ports, *port);
                let is = find_port(current_ports, *port);
                match (was, is) {
                    (Some(j), None) => {
                        proof {
                            lemma_first_hit(previous_ports@, on_port(*port), j as int);
                        }
                        let mut m = String::from_str("Port ");
                        m.append(decimal_string(*port as u64).as_str());
                        m.append(" closed");
                        Some(new_alert(rule, m))
                    },
                    (_, Some(i)) => {
                        proof {
                            lemma_first_hit(current_ports@, on_port(*port), i as int);
                        }
                        None
                    },
                    _ => None,
                }
            },
            AlertCondition::PortRangeActivity { start_port, end_port } => {
                let ghost p = new_in_range(previous_ports@, *start_port, *end_port);
                let mut i: usize = 0;
                while i < current_ports.len()
                    invariant
                        i <= current_ports@.len(),
                        p == new_in_range(previous_ports@, *start_port, *end_port),
                        rule.condition == (AlertCondition::PortRangeActivity {
                            start_port: *start_port,
                            end_port: *end_port,
                        }),
                        forall|j: int| 0 <= j < i ==> !#[trigger] p(current_ports@[j]),
                    decreases current_ports.len() - i,
                {
                    let lp = current_ports[i].local_port;
                    if lp >= *start_port && lp <= *end_port {
                        match find_port(previous_ports, lp) {
                            None => {
                                proof {
                                    lemma_first_hit(current_ports@, p, i as int);
                                }
                                let mut m = String::from_str("Activity detected on port ");
                                m.append(decimal_string(lp as u64).as_str());
                                m.append(" (range ");
                                m.append(decimal_string(*start_port as u64).as_str());
                                m.append("-");
                                m.append(decimal_string(*end_port as u64).as_str());
                                m.append(")");
                                return Some(new_alert(rule, m));
                            },
                            Some(j) => {
                                proof {
                                    lemma_first_hit(previous_ports@, on_port(lp), j as int);
                                }
                            },
                        }
                    }
                    i = i + 1;
                }
                None
            },
            _ => None,
        }
    }
}


impl AlertEvaluator {
    /// A connection whose remote address matches the rule's pattern, skipping
    /// loopback, private and unspecified addresses when the rule excludes them.
    pub fn evaluate_connections(rule: &AlertRule, ports: &[PortRecord]) -> (r: Option<Alert>)
        ensures
            fired_as(r, *rule, connection_message(rule.condition, ports@)),
    {
        match &rule.condition {
            AlertCondition::ExternalConnection { ip_pattern, exclude_private } => {
                if regex_compile_error(ip_pattern.as_str()).is_some() {
                    return None;
                }
                let ghost p = external_hit(ports@, ip_pattern@, *exclude_private);
                let mut i: usize = 0;
                while i < ports.len()
                    invariant
                        i <= ports@.len(),
                        regex_error(ip_pattern@) is None,
                        p == external_hit(ports@, ip_pattern@, *exclude_private),
                        rule.condition == (AlertCondition::ExternalConnection {
                            ip_pattern: *ip_pattern,
                            exclude_private: *exclude_private,
                        }),
                        forall|j: int| 0 <= j < i ==> !#[trigger] p(j),
                    decreases ports.len() - i,
                {
                    match &ports[i].remote_addr {
                        Some(addr) => {
                            let skip = *exclude_private && is_private_ip(&parse_ip(addr.as_str()));
                            if !skip && regex_is_match(ip_pattern.as_str(), addr.as_str()) {
                                proof {
                                    lemma_first_index(ports@.len() as int, p, i as int);
                                }
                                let mut m = String::from_str("External connection to ");
                                m.append(addr.as_str());
                                m.append(" on port ");
                                m.append(decimal_string(ports[i].local_port as u64).as_str());
                                return Some(new_alert(rule, m));
                            }
                        },
                        None => {},
                    }
                    i = i + 1;
                }
                None
            },
            _ => None,
        }
    }

    /// A process of a matching name whose CPU sample exceeds the threshold.
    pub fn evaluate_process_cpu(
        rule: &AlertRule,
        ports: &[PortRecord],
        cpu_usage: &HashMap<u32, Percent>,
    ) -> (r: Option<Alert>)
        ensures
            fired_as(r, *rule, cpu_message(rule.condition, ports@, cpu_usage@)),
    {
        match &rule.condition {
            AlertCondition::ProcessCpuThreshold { process_pattern, threshold_percent } => {
                if regex_compile_error(process_pattern.as_str()).is_some() {
                    return None;
                }
                let ghost p = sampled_hit(
                    process_pattern@,
                    cpu_usage@,
                    |v: Percent| bits_greater(v.bits, threshold_percent.bits),
                );
                let mut i: usize = 0;
                while i < ports.len()
                    invariant
                        i <= ports@.len(),
                        regex_error(process_pattern@) is None,
                        p == sampled_hit(
                            process_pattern@,
                            cpu_usage@,
                            |v: Percent| bits_greater(v.bits, threshold_percent.bits),
                        ),
                        rule.condition == (AlertCondition::ProcessCpuThreshold {
                            process_pattern: *process_pattern,
                            threshold_percent: *threshold_percent,
                        }),
                        forall|j: int| 0 <= j < i ==> !#[trigger] p(ports@[j]),
                    decreases ports.len() - i,
                {
                    let port = &ports[i];
                    match (&port.process_name, port.pid) {
                        (Some(name), Some(pid)) => {
                            if regex_is_match(process_pattern.as_str(), name.as_str()) {
                                match cpu_usage.get(&pid) {
                                    Some(cpu) => {
                                        if cpu.exceeds(threshold_percent) {
                                            proof {
                                                lemma_first_hit(ports@, p, i as int);
                                            }
                                            let mut m = String::from_str("Process ");
                                            m.append(name.as_str());
                                            m.append(" (PID: ");
                                            m.append(decimal_string(pid as u64).as_str());
                                            m.append(") CPU usage: ");
                                            m.append(cpu.one_decimal.as_str());
                                            m.append("% (threshold: ");
                                            m.append(threshold_percent.one_decimal.as_str());
                                            m.append("%)");
                                            return Some(new_alert(rule, m));
                                        }
                                    },
                                    None => {},
                                }
                            }
                        },
                        _ => {},
                    }
                    i = i + 1;
                }
                None
            },
            _ => None,
        }
    }

    /// A process of a matching name whose resident memory exceeds the threshold.
    pub fn evaluate_process_memory(
        rule: &AlertRule,
        ports: &[PortRecord],
        memory_usage: &HashMap<u32, u64>,
    ) -> (r: Option<Alert>)
        requires
            rule.condition.evaluable(),
        ensures
            fired_as(r, *rule, memory_message(rule.condition, ports@, memory_usage@)),
    {
        match &rule.condition {
            AlertCondition::ProcessMemoryThreshold { process_pattern, threshold_mb } => {
                if regex_compile_error(process_pattern.as_str()).is_some() {
                    return None;
                }
                let threshold_bytes = *threshold_mb * MIB;
                let ghost p = sampled_hit(
                    process_pattern@,
                    memory_usage@,
                    |v: u64| v > threshold_mb * MIB,
                );
                let mut i: usize = 0;
                while i < ports.len()
                    invariant
                        i <= ports@.len(),
                        regex_error(process_pattern@) is None,
                        threshold_bytes == threshold_mb * MIB,
                        p == sampled_hit(
                            process_pattern@,
                            memory_usage@,
                            |v: u64| v > threshold_mb * MIB,
                        ),
                        rule.condition == (AlertCondition::ProcessMemoryThreshold {
                            process_pattern: *process_pattern,
                            threshold_mb: *threshold_mb,
                        }),
                        forall|j: int| 0 <= j < i ==> !#[trigger] p(ports@[j]),
                    decreases ports.len() - i,
                {
                    let port = &ports[i];
                    match (&port.process_name, port.pid) {
                        (Some(name), Some(pid)) => {
                            if regex_is_match(process_pattern.as_str(), name.as_str()) {
                                match memory_usage.get(&pid) {
                                    Some(memory) => {
                                        if *memory > threshold_bytes {
                                            proof {
                                                lemma_first_hit(ports@, p, i as int);
                                            }
                                            let mut m = String::from_str("Process ");
                                            m.append(name.as_str());
                                            m.append(" (PID: ");
                                            m.append(decimal_string(pid as u64).as_str());
                                            m.append(") memory usage: ");
                                            m.append(decimal_string(*memory / 1024 / 1024).as_str());
                                            m.append(" MB (threshold: ");
                                            m.append(decimal_string(*threshold_mb).as_str());
                                            m.append(" MB)");
                                            return Some(new_alert(rule, m));
                                        }
                                    },
                                    None => {},
                                }
                            }
                        },
                        _ => {},
                    }
                    i = i + 1;
                }
                None
            },
            _ => None,
        }
    }
}

/// An opening fires for scans `a` then `b` exactly when the closing of the same
/// port fires for `b` then `a`.
pub proof fn law_open_close_duality(port: u16, a: Seq<PortRecord>, b: Seq<PortRecord>)
    ensures
        port_change_message(AlertCondition::PortOpened { port }, a, b) is Some
            <==> port_change_message(AlertCondition::PortClosed { port }, b, a) is Some,
{
}

/// Two identical scans fire no port rule.
pub proof fn law_unchanged_scan_is_quiet(c: AlertCondition, s: Seq<PortRecord>)
    ensures
        port_change_message(c, s, s) is None,
{
    match c {
        AlertCondition::PortRangeActivity { start_port, end_port } => {
            let p = new_in_range(s, start_port, end_port);
            if has_hit(s, p) {
                let i = choose|i: int| 0 <= i < s.len() && #[trigger] p(s[i]);
                assert(on_port(s[i].local_port)(s[i]));
                assert(port_present(s, s[i].local_port));
            }
        },
        _ => {},
    }
}

proof fn lemma_some_first_hit(s: Seq<PortRecord>, p: spec_fn(PortRecord) -> bool, i: int)
    requires
        0 <= i < s.len(),
        p(s[i]),
    ensures
        is_first_hit(s, p, first_hit(s, p)),
    decreases i,
{
    if forall|m: int| 0 <= m < i ==> !#[trigger] p(s[m]) {
        lemma_first_hit(s, p, i);
    } else {
        let m = choose|m: int| 0 <= m < i && #[trigger] p(s[m]);
        lemma_some_first_hit(s, p, m);
    }
}

proof fn lemma_some_first_index(n: int, p: spec_fn(int) -> bool, i: int)
    requires
        0 <= i < n,
        p(i),
    ensures
        is_first_index(n, p, first_index(n, p)),
    decreases i,
{
    if forall|m: int| 0 <= m < i ==> !#[trigger] p(m) {
        lemma_first_index(n, p, i);
    } else {
        let m = choose|m: int| 0 <= m < i && #[trigger] p(m);
        lemma_some_first_index(n, p, m);
    }
}

/// A range rule reports a port inside its range that the previous scan did not have.
pub proof fn law_range_reports_new_port_in_range(
    start_port: u16,
    end_port: u16,
    prev: Seq<PortRecord>,
    cur: Seq<PortRecord>,
)
    requires
        port_change_message(AlertCondition::PortRangeActivity { start_port, end_port }, prev, cur)
            is Some,
    ensures
        ({
            let r = cur[first_hit(cur, new_in_range(prev, start_port, end_port))];
            start_port <= r.local_port <= end_port && !port_present(prev, r.local_port)
        }),
{
    let p = new_in_range(prev, start_port, end_port);
    let i = choose|i: int| 0 <= i < cur.len() && #[trigger] p(cur[i]);
    lemma_some_first_hit(cur, p, i);
}

/// A range rule fires exactly when the current scan has a record whose port lies in
/// the range, both ends included, and that no record of the previous scan had.
pub proof fn law_range_fires_iff_new_port_in_range(
    start_port: u16,
    end_port: u16,
    prev: Seq<PortRecord>,
    cur: Seq<PortRecord>,
)
    ensures
        port_change_message(AlertCondition::PortRangeActivity { start_port, end_port }, prev, cur)
            is Some <==> exists|i: int|
            0 <= i < cur.len() && start_port <= #[trigger] cur[i].local_port <= end_port
                && forall|j: int| 0 <= j < prev.len() ==> #[trigger] prev[j].local_port != cur[i].local_port,
{
    let p = new_in_range(prev, start_port, end_port);
    assert forall|i: int| 0 <= i < cur.len() implies (#[trigger] p(cur[i]) <==> (start_port
        <= cur[i].local_port <= end_port && forall|j: int|
        0 <= j < prev.len() ==> #[trigger] prev[j].local_port != cur[i].local_port)) by {
        if port_present(prev, cur[i].local_port) {
            let j = choose|j: int| 0 <= j < prev.len() && #[trigger] on_port(cur[i].local_port)(prev[j]);
            assert(prev[j].local_port == cur[i].local_port);
        } else {
            assert forall|j: int| 0 <= j < prev.len() implies #[trigger] prev[j].local_port
                != cur[i].local_port by {
                assert(!on_port(cur[i].local_port)(prev[j]));
            }
        }
    }
    if has_hit(cur, p) {
        let i = choose|i: int| 0 <= i < cur.len() && #[trigger] p(cur[i]);
        assert(p(cur[i]));
    }
    if exists|i: int|
        0 <= i < cur.len() && start_port <= #[trigger] cur[i].local_port <= end_port && forall|j: int|
            0 <= j < prev.len() ==> #[trigger] prev[j].local_port != cur[i].local_port {
        let i = choose|i: int|
            0 <= i < cur.len() && start_port <= #[trigger] cur[i].local_port <= end_port && forall|j: int|
                0 <= j < prev.len() ==> #[trigger] prev[j].local_port != cur[i].local_port;
        assert(p(cur[i]));
        assert(has_hit(cur, p));
    }
}

/// A port-opened rule fires exactly when some record of the current scan is on the
/// port and none of the previous scan was; a port-closed rule exactly when some record
/// of the previous scan was on the port and none of the current scan is.
pub proof fn law_open_close_fire_iff(port: u16, prev: Seq<PortRecord>, cur: Seq<PortRecord>)
    ensures
        port_change_message(AlertCondition::PortOpened { port }, prev, cur) is Some <==> (
        (exists|i: int| 0 <= i < cur.len() && #[trigger] cur[i].local_port == port) && forall|j: int|
            0 <= j < prev.len() ==> #[trigger] prev[j].local_port != port),
        port_change_message(AlertCondition::PortClosed { port }, prev, cur) is Some <==> (
        (exists|j: int| 0 <= j < prev.len() && #[trigger] prev[j].local_port == port) && forall|i: int|
            0 <= i < cur.len() ==> #[trigger] cur[i].local_port != port),
{
    lemma_port_present_iff(prev, port);
    lemma_port_present_iff(cur, port);
}

proof fn lemma_port_present_iff(s: Seq<PortRecord>, port: u16)
    ensures
        port_present(s, port) <==> exists|i: int| 0 <= i < s.len() && #[trigger] s[i].local_port == port,
{
    if port_present(s, port) {
        let i = choose|i: int| 0 <= i < s.len() && #[trigger] on_port(port)(s[i]);
        assert(s[i].local_port == port);
    }
    if exists|i: int| 0 <= i < s.len() && #[trigger] s[i].local_port == port {
        let i = choose|i: int| 0 <= i < s.len() && #[trigger] s[i].local_port == port;
        assert(on_port(port)(s[i]));
    }
}

/// A one-port range fires on a new record on that very port.
pub proof fn law_one_port_range_fires_on_new_port(
    port: u16,
    prev: Seq<PortRecord>,
    cur: Seq<PortRecord>,
    i: int,
)
    requires
        0 <= i < cur.len(),
        cur[i].local_port == port,
        forall|j: int| 0 <= j < prev.len() ==> #[trigger] prev[j].local_port != port,
    ensures
        port_change_message(
            AlertCondition::PortRangeActivity { start_port: port, end_port: port },
            prev,
            cur,
        ) is Some,
{
    law_range_fires_iff_new_port_in_range(port, port, prev, cur);
    assert(port <= cur[i].local_port <= port);
}

/// With private addresses excluded, a connection rule never reports a private or
/// loopback address.
pub proof fn law_private_addresses_excluded(
    ip_pattern: String,
    ports: Seq<PortRecord>,
)
    requires
        connection_message(
            AlertCondition::ExternalConnection { ip_pattern, exclude_private: true },
            ports,
        ) is Some,
    ensures
        ({
            let i = first_index(
                ports.len() as int,
                external_hit(ports, ip_pattern@, true),
            );
            0 <= i < ports.len() && ports[i].remote_addr is Some && !parsed_is_private(
                ip_of(ports[i].remote_addr.unwrap()@),
            )
        }),
{
    let p = external_hit(ports, ip_pattern@, true);
    let i = choose|i: int| 0 <= i < ports.len() && #[trigger] p(i);
    lemma_some_first_index(ports.len() as int, p, i);
}

} // verus!
