//! One evaluation cycle of all rules against a pair of scans.

use vstd::prelude::*;
use std::collections::HashMap;
use crate::models::PortRecord;
use super::evaluator::{
    connection_message, cpu_message, fired_as, memory_message, port_change_message,
    AlertEvaluator,
};
use super::manager::{bounded_push, cooldown_over, elapsed_seconds, AlertManager};
use super::models::{current_time, Alert, AlertCondition, AlertRule, AlertSeverity, Percent, Timestamp};

verus! {

/// What an alert says: its rule's id, its message, its severity and its time.
pub open spec fn alert_view(a: Alert) -> (Seq<char>, Seq<char>, AlertSeverity, Timestamp) {
    (a.rule_id@, a.message@, a.severity, a.timestamp)
}

/// What each alert of a sequence says.
pub open spec fn alert_views(s: Seq<Alert>) -> Seq<(Seq<char>, Seq<char>, AlertSeverity, Timestamp)> {
    s.map_values(|a: Alert| alert_view(a))
}

/// The message a rule fires with against the scans and samples, if it fires.
pub open spec fn rule_message(
    c: AlertCondition,
    prev: Seq<PortRecord>,
    cur: Seq<PortRecord>,
    cpu: Map<u32, Percent>,
    mem: Map<u32, u64>,
) -> Option<Seq<char>> {
    match c {
        AlertCondition::PortOpened { .. } => port_change_message(c, prev, cur),
        AlertCondition::PortClosed { .. } => port_change_message(c, prev, cur),
        AlertCondition::PortRangeActivity { .. } => port_change_message(c, prev, cur),
        AlertCondition::ExternalConnection { .. } => connection_message(c, cur),
        AlertCondition::ProcessCpuThreshold { .. } => cpu_message(c, cur, cpu),
        AlertCondition::ProcessMemoryThreshold { .. } => memory_message(c, cur, mem),
        AlertCondition::UnknownProcessListening => None,
    }
}

/// The message each rule fires with against the scans and samples, if it fires.
pub open spec fn messages(
    prev: Seq<PortRecord>,
    cur: Seq<PortRecord>,
    cpu: Map<u32, Percent>,
    mem: Map<u32, u64>,
) -> spec_fn(AlertRule) -> Option<Seq<char>> {
    |r: AlertRule| rule_message(r.condition, prev, cur, cpu, mem)
}

/// Evaluates one rule with the evaluator that its condition calls for.
pub fn evaluate_rule(
    rule: &AlertRule,
    previous_ports: &[PortRecord],
    current_ports: &[PortRecord],
    cpu_usage: &HashMap<u32, Percent>,
    memory_usage: &HashMap<u32, u64>,
) -> (r: Option<Alert>)
    requires
        rule.condition.evaluable(),
    ensures
        fired_as(
            r,
            *rule,
            rule_message(
                rule.condition,
                previous_ports@,
                current_ports@,
                cpu_usage@,
                memory_usage@,
            ),
        ),
{
    match &rule.condition {
        AlertCondition::PortOpened { .. } | AlertCondition::PortClosed { .. }
        | AlertCondition::PortRangeActivity { .. } => {
            AlertEvaluator::evaluate_port_changes(rule, previous_ports, current_ports)
        },
        AlertCondition::ExternalConnection { .. } => {
            AlertEvaluator::evaluate_connections(rule, current_ports)
        },
        AlertCondition::ProcessCpuThreshold { .. } => {
            AlertEvaluator::evaluate_process_cpu(rule, current_ports, cpu_usage)
        },
        AlertCondition::ProcessMemoryThreshold { .. } => {
            AlertEvaluator::evaluate_process_memory(rule, current_ports, memory_usage)
        },
        AlertCondition::UnknownProcessListening => None,
    }
}

/// The state a cycle works on: when each rule last fired, the history, and the
/// alerts fired so far in this cycle.
pub type CycleState = (
    Map<Seq<char>, Timestamp>,
    Seq<(Seq<char>, Seq<char>, AlertSeverity, Timestamp)>,
    Seq<(Seq<char>, Seq<char>, AlertSeverity, Timestamp)>,
);

/// The first `n` steps of a cycle. Step `i` reads the clock once, as `nows[i]`: a
/// rule fires when it is enabled, its cooldown is over at that reading and its
/// condition yields a message, and its alert carries that reading.
pub open spec fn cycle(
    start: CycleState,
    max: nat,
    rules: Seq<AlertRule>,
    msg: spec_fn(AlertRule) -> Option<Seq<char>>,
    nows: Seq<Timestamp>,
    n: nat,
) -> CycleState
    decreases n,
{
    if n == 0 {
        start
    } else {
        let prev = cycle(start, max, rules, msg, nows, (n - 1) as nat);
        let r = rules[n - 1];
        let last = prev.0;
        let lt = if last.contains_key(r.id@) {
            Some(last[r.id@])
        } else {
            None
        };
        if r.enabled && cooldown_over(lt, r.cooldown_seconds, nows[n - 1]) && msg(r) is Some {
            let a = (r.id@, msg(r).unwrap(), r.severity, nows[n - 1]);
            (last.insert(r.id@, nows[n - 1]), bounded_push(prev.1, a, max), prev.2.push(a))
        } else {
            prev
        }
    }
}

proof fn lemma_cycle_prefix(
    start: CycleState,
    max: nat,
    rules: Seq<AlertRule>,
    msg: spec_fn(AlertRule) -> Option<Seq<char>>,
    nows: Seq<Timestamp>,
    nows2: Seq<Timestamp>,
    n: nat,
)
    requires
        n <= nows.len(),
        n <= nows2.len(),
        forall|i: int| 0 <= i < n ==> nows[i] == nows2[i],
    ensures
        cycle(start, max, rules, msg, nows, n) == cycle(start, max, rules, msg, nows2, n),
    decreases n,
{
    if n > 0 {
        lemma_cycle_prefix(start, max, rules, msg, nows, nows2, (n - 1) as nat);
    }
}

/// Clock readings for the steps of a cycle: one valid time per rule.
pub open spec fn clock_reads(nows: Seq<Timestamp>, n: nat) -> bool {
    &&& nows.len() == n
    &&& forall|i: int| 0 <= i < n ==> #[trigger] nows[i].wf()
}

/// What a cycle starts from: the manager's firing table and history, and no alerts.
pub open spec fn cycle_start(m: AlertManager) -> CycleState {
    (m.last_triggered(), alert_views(m.history()), seq![])
}

/// What one cycle does to a manager: the rules and capacity stay, and for some
/// clock readings the firing table, the history and the fired alerts are those that
/// `cycle` gives for the manager's rules against the scans and samples.
pub open spec fn cycle_ran(
    before: AlertManager,
    after: AlertManager,
    fired: Seq<Alert>,
    prev: Seq<PortRecord>,
    cur: Seq<PortRecord>,
    cpu: Map<u32, Percent>,
    mem: Map<u32, u64>,
) -> bool {
    &&& after.wf()
    &&& after.rules() == before.rules()
    &&& after.max_history() == before.max_history()
    &&& exists|nows: Seq<Timestamp>|
        #[trigger] clock_reads(nows, before.rules().len()) && cycle(
            cycle_start(before),
            before.max_history(),
            before.rules(),
            messages(prev, cur, cpu, mem),
            nows,
            before.rules().len(),
        ) == (
            after.last_triggered(),
            alert_views(after.history()),
            alert_views(fired),
        )
}

/// A fired alert, its message and how sending its notification went.
pub struct TriggeredAlert {
    pub message: String,
    pub notify_result: Result<(), String>,
}

/// Evaluates the enabled rules against the previous and current port snapshots, in
/// order. A rule whose cooldown is over and whose condition holds fires: its alert
/// is recorded by the manager (cooldown and history) and returned. Each enabled rule
/// reads the clock once; its cooldown is checked against that reading, which its
/// alert carries.
#[verifier::rlimit(30)]
pub fn run_alert_cycle(
    alert_manager: &mut AlertManager,
    previous_ports: &[PortRecord],
    current_ports: &[PortRecord],
    cpu_usage: &HashMap<u32, Percent>,
    memory_usage: &HashMap<u32, u64>,
) -> (fired: Vec<Alert>)
    requires
        old(alert_manager).wf(),
        forall|i: int|
            0 <= i < old(alert_manager).rules().len() && (#[trigger] old(
                alert_manager,
            ).rules()[i]).enabled ==> old(alert_manager).rules()[i].condition.evaluable(),
    ensures
        cycle_ran(
            *old(alert_manager),
            *final(alert_manager),
            fired@,
            previous_ports@,
            current_ports@,
            cpu_usage@,
            memory_usage@,
        ),
{
    let ghost start = cycle_start(*alert_manager);
    let ghost max = alert_manager.max_history();
    let ghost rules = alert_manager.rules();
    let ghost msg = |r: AlertRule|
        rule_message(
            r.condition,
            previous_ports@,
            current_ports@,
            cpu_usage@,
            memory_usage@,
        );
    let ghost mut nows: Seq<Timestamp> = seq![];
    let mut out: Vec<Alert> = Vec::new();
    let n = alert_manager.get_rules().len();
    let mut i: usize = 0;
    while i < n
        invariant
            alert_manager.wf(),
            alert_manager.rules() == rules,
            alert_manager.max_history() == max,
            n == rules.len(),
            forall|j: int|
                0 <= j < rules.len() && (#[trigger] rules[j]).enabled ==> rules[j].condition.evaluable(),
            i <= n,
            nows.len() == i,
            forall|j: int| 0 <= j < nows.len() ==> #[trigger] nows[j].wf(),
            msg == (|r: AlertRule|
                rule_message(
                    r.condition,
                    previous_ports@,
                    current_ports@,
                    cpu_usage@,
                    memory_usage@,
                )),
            cycle(start, max, rules, msg, nows, i as nat) == (
                alert_manager.last_triggered(),
                alert_views(alert_manager.history()),
                alert_views(out@),
            ),
        decreases n - i,
    {
        let ghost hist_before = alert_manager.history();
        let ghost mut t: Timestamp = Timestamp { secs: 0, nanos: 0 };
        let alert = {
            let rule = &alert_manager.get_rules()[i];
            if rule.enabled {
                let now = current_time();
                proof {
                    t = now;
                }
                if alert_manager.can_trigger_at(rule.id.as_str(), rule.cooldown_seconds, now) {
                    match evaluate_rule(
                        rule,
                        previous_ports,
                        current_ports,
                        cpu_usage,
                        memory_usage,
                    ) {
                        Some(mut a) => {
                            a.timestamp = now;
                            Some(a)
                        },
                        None => None,
                    }
                } else {
                    None
                }
            } else {
                None
            }
        };
        proof {
            lemma_cycle_prefix(start, max, rules, msg, nows, nows.push(t), i as nat);
            nows = nows.push(t);
        }
        match alert {
            Some(a) => {
                let ghost av = alert_view(a);
                let ghost out_before = out@;
                alert_manager.trigger_alert(a.duplicate());
                out.push(a);
                proof {
                    assert(alert_views(out@) =~= alert_views(out_before).push(av));
                    assert(alert_views(alert_manager.history()) =~= bounded_push(
                        alert_views(hist_before),
                        av,
                        max,
                    ));
                }
            },
            None => {},
        }
        i = i + 1;
    }
    assert(clock_reads(nows, rules.len()));
    out
}

/// The reserved condition never fires.
pub proof fn law_reserved_condition_is_silent(
    prev: Seq<PortRecord>,
    cur: Seq<PortRecord>,
    cpu: Map<u32, Percent>,
    mem: Map<u32, u64>,
)
    ensures
        rule_message(AlertCondition::UnknownProcessListening, prev, cur, cpu, mem) is None,
{
}

/// Disabled rules never fire: a cycle over rules that are all disabled changes
/// nothing and fires nothing, whatever the clock reads.
pub proof fn law_disabled_rules_never_fire(
    start: CycleState,
    max: nat,
    rules: Seq<AlertRule>,
    msg: spec_fn(AlertRule) -> Option<Seq<char>>,
    nows: Seq<Timestamp>,
    n: nat,
)
    requires
        n <= rules.len(),
        forall|i: int| 0 <= i < rules.len() ==> !(#[trigger] rules[i]).enabled,
    ensures
        cycle(start, max, rules, msg, nows, n) == start,
    decreases n,
{
    if n > 0 {
        law_disabled_rules_never_fire(start, max, rules, msg, nows, (n - 1) as nat);
        assert(!rules[n - 1].enabled);
    }
}

/// No two fired alerts come from rules with the same id.
pub open spec fn one_alert_per_id(fired: Seq<(Seq<char>, Seq<char>, AlertSeverity, Timestamp)>) -> bool {
    forall|a: int, b: int| 0 <= a < b < fired.len() ==> #[trigger] fired[a].0 != #[trigger] fired[b].0
}

/// The times of the fired alerts never go back and lie within one second: the
/// cycle took under a second on a clock that did not go back.
pub open spec fn under_a_second(fired: Seq<(Seq<char>, Seq<char>, AlertSeverity, Timestamp)>) -> bool {
    forall|a: int, b: int|
        0 <= a < b < fired.len() ==> 0 <= #[trigger] fired[b].3.total_nanos() - #[trigger] fired[a].3.total_nanos()
            < 1_000_000_000
}

/// Each fired alert's rule id is in the firing table with the time of a fired alert.
spec fn fired_recorded(c: CycleState) -> bool {
    forall|f: int|
        0 <= f < c.2.len() ==> #[trigger] c.0.contains_key(c.2[f].0) && exists|g: int|
            0 <= g < c.2.len() && c.0[c.2[f].0] == #[trigger] c.2[g].3
}

proof fn lemma_cycle_once_per_id(
    start: CycleState,
    max: nat,
    rules: Seq<AlertRule>,
    msg: spec_fn(AlertRule) -> Option<Seq<char>>,
    nows: Seq<Timestamp>,
    n: nat,
)
    requires
        start.2.len() == 0,
        n <= rules.len(),
        forall|i: int| 0 <= i < rules.len() ==> (#[trigger] rules[i]).cooldown_seconds > 0,
        under_a_second(cycle(start, max, rules, msg, nows, n).2),
    ensures
        one_alert_per_id(cycle(start, max, rules, msg, nows, n).2),
        fired_recorded(cycle(start, max, rules, msg, nows, n)),
    decreases n,
{
    if n > 0 {
        let m = (n - 1) as nat;
        let prev = cycle(start, max, rules, msg, nows, m);
        let cur = cycle(start, max, rules, msg, nows, n);
        let r = rules[m as int];
        let last = prev.0;
        let lt = if last.contains_key(r.id@) {
            Some(last[r.id@])
        } else {
            None
        };
        if r.enabled && cooldown_over(lt, r.cooldown_seconds, nows[m as int]) && msg(r) is Some {
            let a = (r.id@, msg(r).unwrap(), r.severity, nows[m as int]);
            assert(cur.2 == prev.2.push(a));
            assert(cur.0 == last.insert(r.id@, nows[m as int]));
            assert(under_a_second(prev.2)) by {
                assert forall|x: int, y: int| 0 <= x < y < prev.2.len() implies 0
                    <= #[trigger] prev.2[y].3.total_nanos() - #[trigger] prev.2[x].3.total_nanos()
                    < 1_000_000_000 by {
                    assert(cur.2[x] == prev.2[x] && cur.2[y] == prev.2[y]);
                }
            }
            lemma_cycle_once_per_id(start, max, rules, msg, nows, m);
            assert forall|f: int| 0 <= f < prev.2.len() implies #[trigger] prev.2[f].0 != r.id@ by {
                if prev.2[f].0 == r.id@ {
                    assert(last.contains_key(prev.2[f].0));
                    let g = choose|g: int| 0 <= g < prev.2.len() && last[prev.2[f].0] == #[trigger] prev.2[g].3;
                    assert(cur.2[g] == prev.2[g]);
                    assert(cur.2[prev.2.len() as int] == a);
                    let top = prev.2.len() as int;
                    assert(0 <= cur.2[top].3.total_nanos() - cur.2[g].3.total_nanos()
                        < 1_000_000_000);
                    assert(elapsed_seconds(nows[m as int], prev.2[g].3) == 0);
                }
            }
            assert forall|x: int, y: int| 0 <= x < y < cur.2.len() implies #[trigger] cur.2[x].0
                != #[trigger] cur.2[y].0 by {
                if y == prev.2.len() {
                    assert(prev.2[x].0 != r.id@);
                } else {
                    assert(cur.2[x] == prev.2[x] && cur.2[y] == prev.2[y]);
                }
            }
            assert forall|f: int| 0 <= f < cur.2.len() implies #[trigger] cur.0.contains_key(
                cur.2[f].0,
            ) && exists|g: int| 0 <= g < cur.2.len() && cur.0[cur.2[f].0] == #[trigger] cur.2[g].3 by {
                if f == prev.2.len() {
                    assert(cur.0[r.id@] == cur.2[f].3);
                } else {
                    assert(cur.2[f] == prev.2[f]);
                    assert(prev.2[f].0 != r.id@);
                    assert(last.contains_key(prev.2[f].0));
                    let g = choose|g: int| 0 <= g < prev.2.len() && last[prev.2[f].0] == #[trigger] prev.2[g].3;
                    assert(cur.2[g] == prev.2[g]);
                    assert(cur.0[cur.2[f].0] == cur.2[g].3);
                }
            }
        } else {
            assert(cur == prev);
            lemma_cycle_once_per_id(start, max, rules, msg, nows, m);
        }
    }
}

/// A cycle only adds alerts, and a cycle that fires nothing leaves the firing table
/// and the history as they were.
pub proof fn law_quiet_cycle_changes_nothing(
    start: CycleState,
    max: nat,
    rules: Seq<AlertRule>,
    msg: spec_fn(AlertRule) -> Option<Seq<char>>,
    nows: Seq<Timestamp>,
    n: nat,
)
    ensures
        cycle(start, max, rules, msg, nows, n).2.len() >= start.2.len(),
        cycle(start, max, rules, msg, nows, n).2.len() == start.2.len() ==> cycle(
            start,
            max,
            rules,
            msg,
            nows,
            n,
        ) == start,
    decreases n,
{
    if n > 0 {
        law_quiet_cycle_changes_nothing(start, max, rules, msg, nows, (n - 1) as nat);
    }
}

/// A run of the alert cycle whose fired alerts span under a second (on a clock that
/// did not go back), over rules with positive cooldowns, fires at most one alert per
/// rule id, even when several rules share an id.
pub proof fn law_alert_cycle_fires_once_per_id(
    before: AlertManager,
    after: AlertManager,
    fired: Seq<Alert>,
    prev: Seq<PortRecord>,
    cur: Seq<PortRecord>,
    cpu: Map<u32, Percent>,
    mem: Map<u32, u64>,
)
    requires
        cycle_ran(before, after, fired, prev, cur, cpu, mem),
        forall|i: int|
            0 <= i < before.rules().len() ==> (#[trigger] before.rules()[i]).cooldown_seconds > 0,
        under_a_second(alert_views(fired)),
    ensures
        one_alert_per_id(alert_views(fired)),
{
    let msg = messages(prev, cur, cpu, mem);
    let nows = choose|nows: Seq<Timestamp>|
        #[trigger] clock_reads(nows, before.rules().len()) && cycle(
            cycle_start(before),
            before.max_history(),
            before.rules(),
            msg,
            nows,
            before.rules().len(),
        ) == (
            after.last_triggered(),
            alert_views(after.history()),
            alert_views(fired),
        );
    lemma_cycle_once_per_id(
        cycle_start(before),
        before.max_history(),
        before.rules(),
        msg,
        nows,
        before.rules().len(),
    );
}

/// A run of the alert cycle that fires nothing leaves the firing table and the
/// history as they were.
pub proof fn law_quiet_alert_cycle_changes_nothing(
    before: AlertManager,
    after: AlertManager,
    fired: Seq<Alert>,
    prev: Seq<PortRecord>,
    cur: Seq<PortRecord>,
    cpu: Map<u32, Percent>,
    mem: Map<u32, u64>,
)
    requires
        cycle_ran(before, after, fired, prev, cur, cpu, mem),
        fired.len() == 0,
    ensures
        after.last_triggered() == before.last_triggered(),
        alert_views(after.history()) == alert_views(before.history()),
{
    let msg = messages(prev, cur, cpu, mem);
    let nows = choose|nows: Seq<Timestamp>|
        #[trigger] clock_reads(nows, before.rules().len()) && cycle(
            cycle_start(before),
            before.max_history(),
            before.rules(),
            msg,
            nows,
            before.rules().len(),
        ) == (
            after.last_triggered(),
            alert_views(after.history()),
            alert_views(fired),
        );
    law_quiet_cycle_changes_nothing(
        cycle_start(before),
        before.max_history(),
        before.rules(),
        msg,
        nows,
        before.rules().len(),
    );
}

/// When the rule with id `k` last fired according to a firing table.
pub open spec fn last_firing(table: Map<Seq<char>, Timestamp>, k: Seq<char>) -> Option<Timestamp> {
    if table.contains_key(k) {
        Some(table[k])
    } else {
        None
    }
}

/// Fired alert `f` comes from rule `i`: an enabled rule with the alert's id and
/// severity, whose condition yields the alert's message; and when no earlier alert of
/// the cycle has that id, the rule's cooldown since its id last fired before the cycle
/// (by `table`) is over at the alert's time.
pub open spec fn fired_from(
    table: Map<Seq<char>, Timestamp>,
    rules: Seq<AlertRule>,
    msg: spec_fn(AlertRule) -> Option<Seq<char>>,
    fired: Seq<(Seq<char>, Seq<char>, AlertSeverity, Timestamp)>,
    f: int,
    i: int,
) -> bool {
    &&& 0 <= i < rules.len()
    &&& rules[i].enabled
    &&& rules[i].id@ == fired[f].0
    &&& rules[i].severity == fired[f].2
    &&& msg(rules[i]) == Some(fired[f].1)
    &&& (forall|g: int| 0 <= g < f ==> #[trigger] fired[g].0 != fired[f].0) ==> cooldown_over(
        last_firing(table, fired[f].0),
        rules[i].cooldown_seconds,
        fired[f].3,
    )
}

/// Fired alert `f` comes from some rule (see `fired_from`).
pub open spec fn has_source(
    table: Map<Seq<char>, Timestamp>,
    rules: Seq<AlertRule>,
    msg: spec_fn(AlertRule) -> Option<Seq<char>>,
    fired: Seq<(Seq<char>, Seq<char>, AlertSeverity, Timestamp)>,
    f: int,
) -> bool {
    exists|i: int| #[trigger] fired_from(table, rules, msg, fired, f, i)
}

proof fn lemma_cycle_sources(
    start: CycleState,
    max: nat,
    rules: Seq<AlertRule>,
    msg: spec_fn(AlertRule) -> Option<Seq<char>>,
    nows: Seq<Timestamp>,
    n: nat,
)
    requires
        start.2.len() == 0,
        n <= rules.len(),
    ensures
        forall|f: int|
            0 <= f < cycle(start, max, rules, msg, nows, n).2.len() ==> #[trigger] has_source(
                start.0,
                rules,
                msg,
                cycle(start, max, rules, msg, nows, n).2,
                f,
            ),
        forall|k: Seq<char>|
            (forall|f: int|
                0 <= f < cycle(start, max, rules, msg, nows, n).2.len() ==> #[trigger] cycle(
                    start,
                    max,
                    rules,
                    msg,
                    nows,
                    n,
                ).2[f].0 != k) ==> #[trigger] last_firing(cycle(start, max, rules, msg, nows, n).0, k)
                == last_firing(start.0, k),
    decreases n,
{
    if n > 0 {
        let m = (n - 1) as nat;
        lemma_cycle_sources(start, max, rules, msg, nows, m);
        let prev = cycle(start, max, rules, msg, nows, m);
        let cur = cycle(start, max, rules, msg, nows, n);
        let r = rules[m as int];
        let last = prev.0;
        let lt = if last.contains_key(r.id@) {
            Some(last[r.id@])
        } else {
            None
        };
        if r.enabled && cooldown_over(lt, r.cooldown_seconds, nows[m as int]) && msg(r) is Some {
            let a = (r.id@, msg(r).unwrap(), r.severity, nows[m as int]);
            assert(cur.2 == prev.2.push(a));
            assert(cur.0 == last.insert(r.id@, nows[m as int]));
            assert forall|f: int| 0 <= f < cur.2.len() implies #[trigger] has_source(
                start.0,
                rules,
                msg,
                cur.2,
                f,
            ) by {
                if f < prev.2.len() {
                    assert(has_source(start.0, rules, msg, prev.2, f));
                    let i = choose|i: int| #[trigger] fired_from(start.0, rules, msg, prev.2, f, i);
                    assert forall|g: int| 0 <= g <= f implies cur.2[g] == prev.2[g] by {}
                    assert(fired_from(start.0, rules, msg, cur.2, f, i));
                } else {
                    if forall|g: int| 0 <= g < f ==> #[trigger] cur.2[g].0 != cur.2[f].0 {
                        assert forall|g: int| 0 <= g < prev.2.len() implies #[trigger] prev.2[g].0
                            != r.id@ by {
                            assert(cur.2[g] == prev.2[g]);
                        }
                        assert(last_firing(last, r.id@) == last_firing(start.0, r.id@));
                        assert(lt == last_firing(last, r.id@));
                    }
                    assert(fired_from(start.0, rules, msg, cur.2, f, m as int));
                }
            }
            assert forall|k: Seq<char>|
                (forall|f: int| 0 <= f < cur.2.len() ==> #[trigger] cur.2[f].0 != k) implies
                #[trigger] last_firing(cur.0, k) == last_firing(start.0, k) by {
                assert(cur.2[prev.2.len() as int].0 == r.id@);
                assert forall|f: int| 0 <= f < prev.2.len() implies #[trigger] prev.2[f].0 != k by {
                    assert(cur.2[f] == prev.2[f]);
                }
                assert(last_firing(last, k) == last_firing(start.0, k));
            }
        } else {
            assert(cur == prev);
        }
    }
}

/// Every alert a run of the alert cycle fires comes from an enabled rule with the
/// alert's id and severity whose condition yields its message; and an alert whose id
/// fired earlier in no part of the run comes from a rule whose cooldown, counted from
/// its id's last firing before the run, is over at the alert's time: a rule whose id
/// fired less than its cooldown ago fires nothing.
pub proof fn law_alert_cycle_respects_cooldown(
    before: AlertManager,
    after: AlertManager,
    fired: Seq<Alert>,
    prev: Seq<PortRecord>,
    cur: Seq<PortRecord>,
    cpu: Map<u32, Percent>,
    mem: Map<u32, u64>,
)
    requires
        cycle_ran(before, after, fired, prev, cur, cpu, mem),
    ensures
        forall|f: int|
            0 <= f < fired.len() ==> #[trigger] has_source(
                before.last_triggered(),
                before.rules(),
                messages(prev, cur, cpu, mem),
                alert_views(fired),
                f,
            ),
{
    let msg = messages(prev, cur, cpu, mem);
    let nows = choose|nows: Seq<Timestamp>|
        #[trigger] clock_reads(nows, before.rules().len()) && cycle(
            cycle_start(before),
            before.max_history(),
            before.rules(),
            msg,
            nows,
            before.rules().len(),
        ) == (
            after.last_triggered(),
            alert_views(after.history()),
            alert_views(fired),
        );
    lemma_cycle_sources(
        cycle_start(before),
        before.max_history(),
        before.rules(),
        msg,
        nows,
        before.rules().len(),
    );
    let c = cycle(
        cycle_start(before),
        before.max_history(),
        before.rules(),
        msg,
        nows,
        before.rules().len(),
    );
    assert(c.2 == alert_views(fired));
    assert(cycle_start(before).0 == before.last_triggered());
    assert forall|f: int| 0 <= f < fired.len() implies #[trigger] has_source(
        before.last_triggered(),
        before.rules(),
        msg,
        alert_views(fired),
        f,
    ) by {
        assert(has_source(cycle_start(before).0, before.rules(), msg, c.2, f));
    }
}

} // verus!
