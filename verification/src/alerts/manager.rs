//! The rule set, the last firing time of each rule, and the bounded alert history.

use vstd::prelude::*;
use super::models::{current_time, Alert, AlertCondition, AlertRule, Timestamp};

verus! {

/// Nanoseconds in a second.
pub const NANOS_PER_SEC: i64 = 1_000_000_000;

/// Whole seconds from `last` to `now`, rounded toward zero (chrono's
/// `signed_duration_since(..).num_seconds()`).
pub open spec fn elapsed_seconds(now: Timestamp, last: Timestamp) -> int {
    let d = now.total_nanos() - last.total_nanos();
    if d >= 0 {
        d / 1_000_000_000
    } else {
        -((-d) / 1_000_000_000)
    }
}

/// The value of a signed 64-bit number reinterpreted as unsigned (`as u64`).
pub open spec fn as_unsigned(x: int) -> int {
    if x < 0 {
        x + 0x1_0000_0000_0000_0000
    } else {
        x
    }
}

/// A rule last fired at `last` (if ever) may fire again at `now`: it never fired, or
/// the elapsed whole seconds, read as unsigned, reach the cooldown.
pub open spec fn cooldown_over(last: Option<Timestamp>, cooldown: u64, now: Timestamp) -> bool {
    match last {
        None => true,
        Some(t) => as_unsigned(elapsed_seconds(now, t)) >= cooldown,
    }
}

/// A sequence after one entry is appended, the oldest entry dropped when the bound
/// is exceeded.
pub open spec fn bounded_push<T>(h: Seq<T>, a: T, max: nat) -> Seq<T> {
    if h.len() + 1 > max {
        h.push(a).drop_first()
    } else {
        h.push(a)
    }
}

/// The history after one alert is recorded.
pub open spec fn history_after(h: Seq<Alert>, a: Alert, max: nat) -> Seq<Alert> {
    bounded_push(h, a, max)
}

/// The last `count` entries of the history (all of them when there are fewer).
pub open spec fn recent(h: Seq<Alert>, count: nat) -> Seq<Alert> {
    if count >= h.len() {
        h
    } else {
        h.subrange(h.len() - count, h.len() as int)
    }
}

/// The rules whose `enabled` flag is set, in order.
pub open spec fn enabled_rules(s: Seq<AlertRule>) -> Seq<AlertRule>
    decreases s.len(),
{
    if s.len() == 0 {
        seq![]
    } else if s.last().enabled {
        enabled_rules(s.drop_last()).push(s.last())
    } else {
        enabled_rules(s.drop_last())
    }
}

/// A rule with this condition needs CPU or memory samples of processes.
pub open spec fn samples_processes(c: AlertCondition) -> bool {
    c is ProcessCpuThreshold || c is ProcessMemoryThreshold
}

/// The number of alerts kept in the history.
pub const MAX_HISTORY: usize = 100;

/// Keeps the rules, when each rule last fired, and the most recent alerts.
pub struct AlertManager {
    rules: Vec<AlertRule>,
    last_triggered: Vec<(String, Timestamp)>,
    triggered: Ghost<Map<Seq<char>, Timestamp>>,
    alert_history: Vec<Alert>,
    max_history: usize,
}

fn elapsed(now: Timestamp, last: Timestamp) -> (e: i64)
    requires
        now.wf(),
        last.wf(),
    ensures
        e == elapsed_seconds(now, last),
{
    let ds: i64 = now.secs - last.secs;
    let dn: i64 = now.nanos as i64 - last.nanos as i64;
    let e: i64 = if ds > 0 && dn < 0 {
        ds - 1
    } else if ds < 0 && dn > 0 {
        ds + 1
    } else {
        ds
    };
    proof {
        let d = now.total_nanos() - last.total_nanos();
        assert(d == ds * 1_000_000_000 + dn) by (nonlinear_arith)
            requires
                d == now.total_nanos() - last.total_nanos(),
                now.total_nanos() == now.secs * 1_000_000_000 + now.nanos,
                last.total_nanos() == last.secs * 1_000_000_000 + last.nanos,
                ds == now.secs - last.secs,
                dn == now.nanos - last.nanos,
        ;
        if d >= 0 {
            if ds > 0 && dn < 0 {
                vstd::arithmetic::div_mod::lemma_fundamental_div_mod_converse(
                    d,
                    1_000_000_000,
                    ds - 1,
                    dn + 1_000_000_000,
                );
            } else {
                vstd::arithmetic::div_mod::lemma_fundamental_div_mod_converse(
                    d,
                    1_000_000_000,
                    ds as int,
                    dn as int,
                );
            }
        } else {
            if ds < 0 && dn > 0 {
                vstd::arithmetic::div_mod::lemma_fundamental_div_mod_converse(
                    -d,
                    1_000_000_000,
                    -ds - 1,
                    1_000_000_000 - dn,
                );
            } else {
                vstd::arithmetic::div_mod::lemma_fundamental_div_mod_converse(
                    -d,
                    1_000_000_000,
                    -ds,
                    -dn,
                );
            }
        }
    }
    e
}

fn position(pairs: &Vec<(String, Timestamp)>, key: &String) -> (r: Option<usize>)
    ensures
        match r {
            Some(i) => i < pairs@.len() && pairs@[i as int].0@ == key@,
            None => forall|j: int| 0 <= j < pairs@.len() ==> #[trigger] pairs@[j].0@ != key@,
        },
{
    let mut i: usize = 0;
    while i < pairs.len()
        invariant
            i <= pairs@.len(),
            forall|j: int| 0 <= j < i ==> #[trigger] pairs@[j].0@ != key@,
        decreases pairs.len() - i,
    {
        if pairs[i].0 == *key {
            return Some(i);
        }
        i = i + 1;
    }
    None
}

impl AlertManager {
    /// The rules, in the order they were added.
    pub closed spec fn rules(self) -> Seq<AlertRule> {
        self.rules@
    }

    /// When each rule (by id) last fired.
    pub closed spec fn last_triggered(self) -> Map<Seq<char>, Timestamp> {
        self.triggered@
    }

    /// The recorded alerts, oldest first.
    pub closed spec fn history(self) -> Seq<Alert> {
        self.alert_history@
    }

    /// How many alerts the history keeps.
    pub closed spec fn max_history(self) -> nat {
        self.max_history as nat
    }

    /// The firing table and the history are consistent and within bounds.
    pub closed spec fn wf(self) -> bool {
        &&& self.max_history == MAX_HISTORY
        &&& self.alert_history@.len() <= self.max_history
        &&& forall|i: int|
            0 <= i < self.last_triggered@.len() ==> {
                &&& self.triggered@.contains_key(#[trigger] self.last_triggered@[i].0@)
                &&& self.triggered@[self.last_triggered@[i].0@] == self.last_triggered@[i].1
            }
        &&& forall|k: Seq<char>|
            #[trigger] self.triggered@.contains_key(k) ==> exists|i: int|
                0 <= i < self.last_triggered@.len() && #[trigger] self.last_triggered@[i].0@ == k
        &&& forall|i: int, j: int|
            0 <= i < j < self.last_triggered@.len() ==> #[trigger] self.last_triggered@[i].0@
                != #[trigger] self.last_triggered@[j].0@
        &&& forall|k: Seq<char>| #[trigger]
            self.triggered@.contains_key(k) ==> self.triggered@[k].wf()
    }

    /// A consistent manager keeps at most 100 alerts, every rule that fired has a
    /// valid time, and its history holds no more alerts than that bound.
    pub proof fn lemma_wf_bounds(self)
        requires
            self.wf(),
        ensures
            self.max_history() == 100,
            self.history().len() <= self.max_history(),
            forall|k: Seq<char>| #[trigger]
                self.last_triggered().contains_key(k) ==> self.last_triggered()[k].wf(),
    {
    }

    /// An empty manager: no rules, nothing fired, an empty history of capacity 100.
    pub fn new() -> (m: Self)
        ensures
            m.wf(),
            m.rules() == Seq::<AlertRule>::empty(),
            m.last_triggered() == Map::<Seq<char>, Timestamp>::empty(),
            m.history() == Seq::<Alert>::empty(),
            m.max_history() == 100,
    {
        AlertManager {
            rules: Vec::new(),
            last_triggered: Vec::new(),
            triggered: Ghost(Map::empty()),
            alert_history: Vec::new(),
            max_history: MAX_HISTORY,
        }
    }

    /// Appends a rule.
    pub fn add_rule(&mut self, rule: AlertRule)
        requires
            old(self).wf(),
        ensures
            final(self).wf(),
            final(self).rules() == old(self).rules().push(rule),
            final(self).last_triggered() == old(self).last_triggered(),
            final(self).history() == old(self).history(),
    {
        self.rules.push(rule);
        proof {
            assert(self.last_triggered@ == old(self).last_triggered@);
            assert(self.triggered@ == old(self).triggered@);
        }
    }

    /// Replaces the whole rule set.
    pub fn set_rules(&mut self, rules: Vec<AlertRule>)
        requires
            old(self).wf(),
        ensures
            final(self).wf(),
            final(self).rules() == rules@,
            final(self).last_triggered() == old(self).last_triggered(),
            final(self).history() == old(self).history(),
    {
        self.rules = rules;
        proof {
            assert(self.last_triggered@ == old(self).last_triggered@);
            assert(self.triggered@ == old(self).triggered@);
        }
    }

    /// All rules.
    pub fn get_rules(&self) -> (r: &Vec<AlertRule>)
        ensures
            r@ == self.rules(),
    {
        &self.rules
    }

    /// The enabled rules, in order.
    pub fn get_enabled_rules(&self) -> (r: Vec<&AlertRule>)
        ensures
            r@.map_values(|x: &AlertRule| *x) == enabled_rules(self.rules()),
    {
        let mut out: Vec<&AlertRule> = Vec::new();
        let mut i: usize = 0;
        while i < self.rules.len()
            invariant
                i <= self.rules@.len(),
                out@.map_values(|x: &AlertRule| *x) == enabled_rules(self.rules@.take(i as int)),
            decreases self.rules.len() - i,
        {
            let ghost before = out@.map_values(|x: &AlertRule| *x);
            assert(self.rules@.take(i + 1).drop_last() =~= self.rules@.take(i as int));
            let r = &self.rules[i];
            if r.enabled {
                out.push(r);
                assert(out@.map_values(|x: &AlertRule| *x) =~= before.push(*r));
            }
            i = i + 1;
        }
        assert(self.rules@.take(self.rules.len() as int) =~= self.rules@);
        out
    }

    /// Whether an enabled rule needs CPU or memory samples of processes.
    pub fn needs_process_metrics(&self) -> (b: bool)
        ensures
            b == exists|i: int|
                0 <= i < self.rules().len() && (#[trigger] self.rules()[i]).enabled
                    && samples_processes(self.rules()[i].condition),
    {
        let mut i: usize = 0;
        while i < self.rules.len()
            invariant
                i <= self.rules@.len(),
                forall|j: int|
                    0 <= j < i ==> !((#[trigger] self.rules@[j]).enabled && samples_processes(
                        self.rules@[j].condition,
                    )),
            decreases self.rules.len() - i,
        {
            let r = &self.rules[i];
            if r.enabled {
                match &r.condition {
                    AlertCondition::ProcessCpuThreshold { .. } => {
                        return true;
                    },
                    AlertCondition::ProcessMemoryThreshold { .. } => {
                        return true;
                    },
                    _ => {},
                }
            }
            i = i + 1;
        }
        false
    }

    fn lookup(&self, rule_id: &str) -> (r: Option<Timestamp>)
        requires
            self.wf(),
        ensures
            r == (if self.last_triggered().contains_key(rule_id@) {
                Some(self.last_triggered()[rule_id@])
            } else {
                None
            }),
    {
        let key = String::from_str(rule_id);
        match position(&self.last_triggered, &key) {
            Some(i) => Some(self.last_triggered[i].1),
            None => {
                proof {
                    if self.triggered@.contains_key(key@) {
                        let k = choose|k: int|
                            0 <= k < self.last_triggered@.len()
                                && #[trigger] self.last_triggered@[k].0@ == key@;
                        assert(self.last_triggered@[k].0@ != key@);
                    }
                }
                None
            },
        }
    }

    /// Whether the rule may fire at `now`: it never fired, or its cooldown has passed.
    pub fn can_trigger_at(&self, rule_id: &str, cooldown_seconds: u64, now: Timestamp) -> (b: bool)
        requires
            self.wf(),
            now.wf(),
        ensures
            b == cooldown_over(
                if self.last_triggered().contains_key(rule_id@) {
                    Some(self.last_triggered()[rule_id@])
                } else {
                    None
                },
                cooldown_seconds,
                now,
            ),
    {
        match self.lookup(rule_id) {
            None => true,
            Some(last) => {
                let e = elapsed(now, last);
                let as_u: u64 = if e >= 0 {
                    e as u64
                } else {
                    ((e + i64::MAX + 1) as u64) + 0x8000_0000_0000_0000u64
                };
                as_u >= cooldown_seconds
            },
        }
    }

    /// Whether the rule may fire now, by the system clock. A rule that never fired,
    /// or has no cooldown, always may.
    pub fn can_trigger(&self, rule_id: &str, cooldown_seconds: u64) -> (b: bool)
        requires
            self.wf(),
        ensures
            !self.last_triggered().contains_key(rule_id@) ==> b,
            cooldown_seconds == 0 ==> b,
            exists|now: Timestamp|
                now.wf() && b == cooldown_over(
                    if self.last_triggered().contains_key(rule_id@) {
                        Some(self.last_triggered()[rule_id@])
                    } else {
                        None
                    },
                    cooldown_seconds,
                    now,
                ),
    {
        let now = current_time();
        self.can_trigger_at(rule_id, cooldown_seconds, now)
    }

    /// Records a fired alert: its rule's last firing time becomes the alert's time,
    /// and the alert joins the history, the oldest entry leaving beyond the bound.
    pub fn trigger_alert(&mut self, alert: Alert)
        requires
            old(self).wf(),
            alert.timestamp.wf(),
        ensures
            final(self).wf(),
            final(self).rules() == old(self).rules(),
            final(self).last_triggered() == old(self).last_triggered().insert(
                alert.rule_id@,
                alert.timestamp,
            ),
            final(self).history() == history_after(
                old(self).history(),
                alert,
                old(self).max_history(),
            ),
            final(self).max_history() == old(self).max_history(),
    {
        let key = alert.rule_id.clone();
        let ts = alert.timestamp;
        let ghost old_pairs = self.last_triggered@;
        let ghost new_map = self.triggered@.insert(key@, ts);
        let pos = position(&self.last_triggered, &key);
        let ghost idx: int = match pos {
            Some(i) => i as int,
            None => old_pairs.len() as int,
        };
        match pos {
            Some(i) => {
                self.last_triggered[i] = (key, ts);
            },
            None => {
                self.last_triggered.push((key, ts));
            },
        }
        assert(self.last_triggered@[idx].0@ == alert.rule_id@);
        self.triggered = Ghost(new_map);
        proof {
            let pairs = self.last_triggered@;
            assert(pairs.len() == old_pairs.len() || pairs.len() == old_pairs.len() + 1);
            assert forall|j: int| 0 <= j < pairs.len() && j != idx implies #[trigger] pairs[j]
                == old_pairs[j] && old_pairs[j].0@ != alert.rule_id@ by {
                if pos is Some {
                    assert(old_pairs[idx].0@ == alert.rule_id@);
                }
            }
            assert forall|j: int| 0 <= j < pairs.len() implies {
                &&& self.triggered@.contains_key(#[trigger] pairs[j].0@)
                &&& self.triggered@[pairs[j].0@] == pairs[j].1
            } by {
                if j != idx {
                    assert(pairs[j] == old_pairs[j]);
                }
            }
            assert forall|a: int, b: int| 0 <= a < b < pairs.len() implies #[trigger] pairs[a].0@
                != #[trigger] pairs[b].0@ by {
                if a != idx && b != idx {
                    assert(pairs[a] == old_pairs[a] && pairs[b] == old_pairs[b]);
                } else if a == idx {
                    assert(pairs[b] == old_pairs[b]);
                } else {
                    assert(pairs[a] == old_pairs[a]);
                }
            }
        }
        self.alert_history.push(alert);
        if self.alert_history.len() > self.max_history {
            self.alert_history.remove(0);
        }
        proof {
            assert forall|k: Seq<char>| #[trigger] self.triggered@.contains_key(k) implies exists|
                j: int,
            | 0 <= j < self.last_triggered@.len() && #[trigger] self.last_triggered@[j].0@ == k by {
                if k == alert.rule_id@ {
                    assert(self.last_triggered@[idx].0@ == k);
                } else {
                    let j = choose|j: int|
                        0 <= j < old_pairs.len() && #[trigger] old_pairs[j].0@ == k;
                    assert(self.last_triggered@[j].0@ == k);
                }
            }
        }
    }

    /// The last `count` alerts of the history, oldest first.
    pub fn get_recent_alerts(&self, count: usize) -> (r: &[Alert])
        ensures
            r@ == recent(self.history(), count as nat),
    {
        let n = self.alert_history.len();
        let start = n.saturating_sub(count);
        let r = vstd::slice::slice_subrange(self.alert_history.as_slice(), start, n);
        assert(count >= n ==> r@ =~= self.alert_history@);
        r
    }
}

impl Default for AlertManager {
    /// An empty manager, as `new` makes it.
    fn default() -> (m: Self)
        ensures
            m.wf(),
            m.rules() == Seq::<AlertRule>::empty(),
            m.last_triggered() == Map::<Seq<char>, Timestamp>::empty(),
            m.history() == Seq::<Alert>::empty(),
            m.max_history() == 100,
    {
        AlertManager::new()
    }
}

/// A rule that fired at `t` may fire again at a later `now` exactly when the whole
/// seconds elapsed reach its cooldown.
pub proof fn law_cooldown(t: Timestamp, cooldown: u64, now: Timestamp)
    requires
        elapsed_seconds(now, t) >= 0,
    ensures
        cooldown_over(Some(t), cooldown, now) <==> elapsed_seconds(now, t) >= cooldown,
        cooldown_over(None, cooldown, now),
{
}

/// The history holds at most 100 alerts, and the alert just recorded is the most
/// recent one.
pub proof fn law_history_bounded(h: Seq<Alert>, a: Alert)
    requires
        h.len() <= 100,
    ensures
        history_after(h, a, 100).len() <= 100,
        history_after(h, a, 100).len() == (if h.len() == 100 {
            100
        } else {
            h.len() + 1
        }),
        history_after(h, a, 100) == (if h.len() == 100 {
            h.push(a).drop_first()
        } else {
            h.push(a)
        }),
        recent(history_after(h, a, 100), 1) == seq![a],
        history_after(h, a, 100).last() == a,
{
    let g = history_after(h, a, 100);
    assert(recent(g, 1) =~= seq![a]);
}

} // verus!
