//! The monitor's state and how actions and scans change it. Scanning, reading process
//! details, stopping processes and sending notifications are left to the caller, which
//! performs the `Effect` an action asks for and hands back what came of it.

use vstd::prelude::*;
use std::collections::HashMap;
use crate::alerts::manager::AlertManager;
use crate::alerts::models::{Alert, AlertRule, Percent};
use crate::alerts::runner::{cycle_ran, run_alert_cycle};
use crate::alerts::notifier::Notifier;
use crate::backends::common::{clone_opt, opt_view};
use crate::events::{backspace_text, Action};
use crate::models::{matches_filter_spec, PortRecord, ProcessDetails};
use crate::text::{chars_of, decimal, decimal_string, pop_char};
use crate::ui::alert_rules::AlertRulesPanel;

verus! {

/// The records shown under a filter, in scan order.
pub open spec fn shown(ports: Seq<PortRecord>, filter: Seq<char>) -> Seq<PortRecord>
    decreases ports.len(),
{
    if ports.len() == 0 {
        seq![]
    } else {
        let prev = shown(ports.drop_last(), filter);
        if matches_filter_spec(ports.last(), filter) {
            prev.push(ports.last())
        } else {
            prev
        }
    }
}

/// Every enabled rule's condition can be evaluated without overflow (disabled rules
/// are never evaluated).
pub open spec fn rules_evaluable(rules: Seq<AlertRule>) -> bool {
    forall|i: int|
        0 <= i < rules.len() && (#[trigger] rules[i]).enabled ==> rules[i].condition.evaluable()
}

/// Whether every enabled rule's condition can be evaluated without overflow.
pub fn all_rules_evaluable(rules: &Vec<AlertRule>) -> (b: bool)
    ensures
        b == rules_evaluable(rules@),
{
    let mut i: usize = 0;
    while i < rules.len()
        invariant
            i <= rules@.len(),
            forall|j: int|
                0 <= j < i && (#[trigger] rules@[j]).enabled ==> rules@[j].condition.evaluable(),
        decreases rules.len() - i,
    {
        if rules[i].enabled && !rules[i].condition.is_evaluable() {
            return false;
        }
        i = i + 1;
    }
    true
}

/// The state of the monitor as plain values.
#[verifier::ext_equal]
pub struct AppView {
    pub ports: Seq<PortRecord>,
    pub previous_ports: Seq<PortRecord>,
    pub selected_index: usize,
    pub scroll_offset: usize,
    pub filter: Seq<char>,
    pub status_message: Option<Seq<char>>,
    pub process_details: Option<ProcessDetails>,
    pub show_help: bool,
    pub show_alerts: bool,
    pub alert_manager: AlertManager,
    pub notifier: Notifier,
    pub alert_rules: AlertRulesPanel,
}

/// The port list, the selection and filter, the alert state and what is on screen.
pub struct AppState {
    pub ports: Vec<PortRecord>,
    pub selected_index: usize,
    pub scroll_offset: usize,
    pub filter: String,
    pub status_message: Option<String>,
    pub process_details: Option<ProcessDetails>,
    pub show_help: bool,
    pub alert_manager: AlertManager,
    pub notifier: Notifier,
    pub show_alerts: bool,
    /// The rule editor overlay.
    pub alert_rules: AlertRulesPanel,
    /// The scan before the current one, which port alerts compare against.
    pub previous_ports: Vec<PortRecord>,
}

impl View for AppState {
    type V = AppView;

    open spec fn view(&self) -> AppView {
        AppView {
            ports: self.ports@,
            previous_ports: self.previous_ports@,
            selected_index: self.selected_index,
            scroll_offset: self.scroll_offset,
            filter: self.filter@,
            status_message: opt_view(self.status_message),
            process_details: self.process_details,
            show_help: self.show_help,
            show_alerts: self.show_alerts,
            alert_manager: self.alert_manager,
            notifier: self.notifier,
            alert_rules: self.alert_rules,
        }
    }
}

/// The state is usable: the alert manager is consistent and every rule can be
/// evaluated.
pub open spec fn app_wf(v: AppView) -> bool {
    v.alert_manager.wf() && rules_evaluable(v.alert_manager.rules())
}

/// The record under the cursor, if the cursor is on a shown record.
pub open spec fn selected_record(v: AppView) -> Option<PortRecord> {
    let s = shown(v.ports, v.filter);
    if v.selected_index < s.len() {
        Some(s[v.selected_index as int])
    } else {
        None
    }
}

/// The process of the record under the cursor, if there is one.
pub open spec fn selected_pid(v: AppView) -> Option<u32> {
    match selected_record(v) {
        Some(r) => r.pid,
        None => None,
    }
}

/// What the caller is asked to do after an action.
#[derive(Debug)]
pub enum Effect {
    /// Nothing is left to do.
    Nothing,
    /// Leave the monitor.
    Quit,
    /// Scan the ports and hand the result to `refresh`.
    Refresh,
    /// Read the details of this process and hand them to `details_loaded`.
    LoadDetails(u32),
    /// Stop this process (gracefully or not) and report to `process_stopped` or
    /// `stop_failed`.
    StopProcess { pid: u32, graceful: bool, name: Option<String> },
}

/// An effect as plain values.
pub enum EffectView {
    Nothing,
    Quit,
    Refresh,
    LoadDetails(u32),
    StopProcess(u32, bool, Option<Seq<char>>),
}

impl View for Effect {
    type V = EffectView;

    open spec fn view(&self) -> EffectView {
        match *self {
            Effect::Nothing => EffectView::Nothing,
            Effect::Quit => EffectView::Quit,
            Effect::Refresh => EffectView::Refresh,
            Effect::LoadDetails(pid) => EffectView::LoadDetails(pid),
            Effect::StopProcess { pid, graceful, name } => EffectView::StopProcess(
                pid,
                graceful,
                opt_view(name),
            ),
        }
    }
}

/// Loading the details of the selected record's process, if it has one.
pub open spec fn details_effect(v: AppView) -> EffectView {
    match selected_pid(v) {
        Some(pid) => EffectView::LoadDetails(pid),
        None => EffectView::Nothing,
    }
}

/// The filter after an edit: Backspace removes the last character, any other text
/// is appended.
pub open spec fn edited_filter(f: Seq<char>, s: Seq<char>) -> Seq<char> {
    if s == backspace_text() {
        if f.len() > 0 {
            f.drop_last()
        } else {
            f
        }
    } else {
        f + s
    }
}

/// The status shown when a stop is asked for without a process.
pub open spec fn no_process_text() -> Seq<char> {
    "No process associated with this port"@
}

/// The state after an action, and what is left for the caller to do.
pub open spec fn after_action(v: AppView, a: Action) -> (AppView, EffectView) {
    match a {
        Action::Quit => (v, EffectView::Quit),
        Action::Refresh => (v, EffectView::Refresh),
        Action::NavigateUp => if v.selected_index > 0 {
            let w = AppView { selected_index: (v.selected_index - 1) as usize, ..v };
            (w, details_effect(w))
        } else {
            (v, EffectView::Nothing)
        },
        Action::NavigateDown => {
            let n = shown(v.ports, v.filter).len();
            if n > 0 && v.selected_index < n - 1 {
                let w = AppView { selected_index: (v.selected_index + 1) as usize, ..v };
                (w, details_effect(w))
            } else {
                (v, EffectView::Nothing)
            }
        },
        Action::SelectItem => (v, details_effect(v)),
        Action::KillProcess(graceful) => {
            let r = selected_record(v);
            if r is Some && r.unwrap().pid is Some {
                (
                    v,
                    EffectView::StopProcess(
                        r.unwrap().pid.unwrap(),
                        graceful,
                        opt_view(r.unwrap().process_name),
                    ),
                )
            } else {
                (AppView { status_message: Some(no_process_text()), ..v }, EffectView::Nothing)
            }
        },
        Action::StartFilter => (AppView { filter: seq![], ..v }, EffectView::Nothing),
        Action::UpdateFilter(s) => (
            AppView {
                filter: edited_filter(v.filter, s@),
                selected_index: 0,
                scroll_offset: 0,
                ..v
            },
            EffectView::Nothing,
        ),
        Action::ClearFilter => (
            AppView { filter: seq![], selected_index: 0, scroll_offset: 0, ..v },
            EffectView::Nothing,
        ),
        Action::ToggleHelp => (AppView { show_help: !v.show_help, ..v }, EffectView::Nothing),
        Action::ToggleAlerts => (
            AppView { show_alerts: !v.show_alerts, ..v },
            EffectView::Nothing,
        ),
        Action::Nothing => (v, EffectView::Nothing),
    }
}

/// The status after a scan that found `n` records.
pub open spec fn refreshed_text(n: nat) -> Seq<char> {
    "Refreshed: "@ + decimal(n) + " connections found"@
}

/// The cursor after the shown list changed to `n` records: past the end of a
/// non-empty list it moves to the last record.
pub open spec fn clamped_selection(sel: usize, n: nat) -> usize {
    if sel >= n && n > 0 {
        (n - 1) as usize
    } else {
        sel
    }
}

/// The status after a process was stopped.
pub open spec fn stopped_text(pid: u32, graceful: bool, name: Option<Seq<char>>) -> Seq<char> {
    "Process "@ + (match name {
        Some(n) => n,
        None => "unknown"@,
    }) + " "@ + (if graceful {
        "terminated"@
    } else {
        "killed"@
    }) + " (PID: "@ + decimal(pid as nat) + ")"@
}

impl AppState {
    /// A monitor with no ports yet, an empty filter, notifications on and the given
    /// alert rules.
    pub fn new(rules: Vec<AlertRule>) -> (s: Self)
        requires
            rules_evaluable(rules@),
        ensures
            app_wf(s@),
            s@.ports == Seq::<PortRecord>::empty(),
            s@.previous_ports == Seq::<PortRecord>::empty(),
            s@.selected_index == 0,
            s@.scroll_offset == 0,
            s@.filter == Seq::<char>::empty(),
            s@.status_message is None,
            s@.process_details is None,
            !s@.show_help,
            !s@.show_alerts,
            s@.notifier.enabled(),
            !s@.alert_rules.open && s@.alert_rules.form is None,
            s@.alert_manager.rules() == rules@,
            s@.alert_manager.history() == Seq::<crate::alerts::models::Alert>::empty(),
            s@.alert_manager.last_triggered().is_empty(),
    {
        let mut alert_manager = AlertManager::new();
        alert_manager.set_rules(rules);
        AppState {
            ports: Vec::new(),
            selected_index: 0,
            scroll_offset: 0,
            filter: String::new(),
            status_message: None,
            process_details: None,
            show_help: false,
            alert_manager,
            notifier: Notifier::new(true),
            show_alerts: false,
            alert_rules: AlertRulesPanel::default(),
            previous_ports: Vec::new(),
        }
    }

    /// The records that match the filter, in scan order.
    pub fn filtered_ports(&self) -> (r: Vec<&PortRecord>)
        ensures
            r@.map_values(|p: &PortRecord| *p) == shown(self.ports@, self.filter@),
    {
        let mut out: Vec<&PortRecord> = Vec::new();
        let mut i: usize = 0;
        while i < self.ports.len()
            invariant
                i <= self.ports@.len(),
                out@.map_values(|p: &PortRecord| *p) == shown(
                    self.ports@.take(i as int),
                    self.filter@,
                ),
            decreases self.ports.len() - i,
        {
            let ghost before = out@.map_values(|p: &PortRecord| *p);
            assert(self.ports@.take(i + 1).drop_last() =~= self.ports@.take(i as int));
            let p = &self.ports[i];
            if p.matches_filter(self.filter.as_str()) {
                out.push(p);
                assert(out@.map_values(|p: &PortRecord| *p) =~= before.push(*p));
            }
            i = i + 1;
        }
        assert(self.ports@.take(self.ports.len() as int) =~= self.ports@);
        out
    }

    /// The record under the cursor among the filtered ones.
    pub fn get_selected_port(&self) -> (r: Option<&PortRecord>)
        ensures
            match r {
                Some(p) => selected_record(self@) == Some(*p),
                None => selected_record(self@) is None,
            },
    {
        let filtered = self.filtered_ports();
        assert(filtered@.len() == shown(self.ports@, self.filter@).len());
        if self.selected_index < filtered.len() {
            assert(*filtered@[self.selected_index as int] == shown(self.ports@, self.filter@)[self.selected_index as int]);
            Some(filtered[self.selected_index])
        } else {
            None
        }
    }
    fn details_for_selection(&self) -> (e: Effect)
        ensures
            e@ == details_effect(self@),
    {
        match self.get_selected_port() {
            Some(p) => match p.pid {
                Some(pid) => Effect::LoadDetails(pid),
                None => Effect::Nothing,
            },
            None => Effect::Nothing,
        }
    }

    /// Applies an action to the state and returns what is left for the caller to do:
    /// moving the cursor or selecting asks for the details of the selected process,
    /// a stop asks for the selected process to be stopped, a refresh for a scan.
    pub fn apply_action(&mut self, action: Action) -> (e: Effect)
        ensures
            final(self)@ == after_action(old(self)@, action).0,
            e@ == after_action(old(self)@, action).1,
    {
        match action {
            Action::Quit => Effect::Quit,
            Action::Refresh => Effect::Refresh,
            Action::NavigateUp => {
                if self.selected_index > 0 {
                    self.selected_index = self.selected_index - 1;
                    self.details_for_selection()
                } else {
                    Effect::Nothing
                }
            },
            Action::NavigateDown => {
                let filtered_len = self.filtered_ports().len();
                if filtered_len > 0 && self.selected_index < filtered_len - 1 {
                    self.selected_index = self.selected_index + 1;
                    self.details_for_selection()
                } else {
                    Effect::Nothing
                }
            },
            Action::SelectItem => self.details_for_selection(),
            Action::KillProcess(graceful) => {
                let target: Option<(u32, Option<String>)> = match self.get_selected_port() {
                    Some(p) => match p.pid {
                        Some(pid) => Some((pid, clone_opt(&p.process_name))),
                        None => None,
                    },
                    None => None,
                };
                match target {
                    Some((pid, name)) => Effect::StopProcess { pid, graceful, name },
                    None => {
                        self.status_message = Some(
                            String::from_str("No process associated with this port"),
                        );
                        Effect::Nothing
                    },
                }
            },
            Action::StartFilter => {
                self.filter = String::new();
                Effect::Nothing
            },
            Action::UpdateFilter(s) => {
                let sc = chars_of(s.as_str());
                if sc.len() == 1 && sc[0] == '\u{8}' {
                    assert(s@ =~= backspace_text());
                    pop_char(&mut self.filter);
                } else {
                    assert(s@ != backspace_text());
                    self.filter.append(s.as_str());
                }
                self.selected_index = 0;
                self.scroll_offset = 0;
                Effect::Nothing
            },
            Action::ClearFilter => {
                self.filter = String::new();
                self.selected_index = 0;
                self.scroll_offset = 0;
                Effect::Nothing
            },
            Action::ToggleHelp => {
                self.show_help = !self.show_help;
                Effect::Nothing
            },
            Action::ToggleAlerts => {
                self.show_alerts = !self.show_alerts;
                Effect::Nothing
            },
            Action::Nothing => Effect::Nothing,
        }
    }
    /// Takes a new scan: every rule is evaluated against the scan on screen (the
    /// previous scan) and this one, firing alerts as `run_alert_cycle` does; the scan
    /// on screen becomes the previous one, the status reports the number of records, the cursor
    /// is kept on the shown list, and the process of the selected record (if any) is
    /// returned for its details to be loaded. The fired alerts are returned for their
    /// notifications to be sent.
    pub fn refresh(
        &mut self,
        ports: Vec<PortRecord>,
        cpu_usage: &HashMap<u32, Percent>,
        memory_usage: &HashMap<u32, u64>,
    ) -> (r: (Vec<Alert>, Option<u32>))
        requires
            app_wf(old(self)@),
        ensures
            app_wf(final(self)@),
            cycle_ran(
                old(self).alert_manager,
                final(self).alert_manager,
                r.0@,
                old(self).ports@,
                ports@,
                cpu_usage@,
                memory_usage@,
            ),
            final(self)@ == (AppView {
                ports: ports@,
                previous_ports: old(self).ports@,
                selected_index: clamped_selection(
                    old(self).selected_index,
                    shown(ports@, old(self).filter@).len(),
                ),
                status_message: Some(refreshed_text(ports@.len())),
                alert_manager: final(self).alert_manager,
                ..old(self)@
            }),
            r.1 == selected_pid(final(self)@),
    {
        let fired = run_alert_cycle(
            &mut self.alert_manager,
            self.ports.as_slice(),
            ports.as_slice(),
            cpu_usage,
            memory_usage,
        );
        let mut ports = ports;
        std::mem::swap(&mut self.ports, &mut ports);
        self.previous_ports = ports;
        let mut status = String::from_str("Refreshed: ");
        status.append(decimal_string(self.ports.len() as u64).as_str());
        status.append(" connections found");
        self.status_message = Some(status);
        let filtered_len = self.filtered_ports().len();
        if self.selected_index >= filtered_len && filtered_len > 0 {
            self.selected_index = filtered_len - 1;
        }
        let pid = match self.get_selected_port() {
            Some(p) => p.pid,
            None => None,
        };
        (fired, pid)
    }

    /// A scan failed: the status shows the error.
    pub fn refresh_failed(&mut self, error: &str)
        ensures
            final(self)@ == (AppView {
                status_message: Some("Error: "@ + error@),
                ..old(self)@
            }),
    {
        let mut status = String::from_str("Error: ");
        status.append(error);
        self.status_message = Some(status);
    }

    /// The process of a stop effect was stopped: the status says so, and the ports
    /// are to be scanned again.
    pub fn process_stopped(&mut self, pid: u32, graceful: bool, name: &Option<String>) -> (e: Effect)
        ensures
            final(self)@ == (AppView {
                status_message: Some(stopped_text(pid, graceful, opt_view(*name))),
                ..old(self)@
            }),
            e@ == EffectView::Refresh,
    {
        let mut status = String::from_str("Process ");
        match name {
            Some(n) => status.append(n.as_str()),
            None => status.append("unknown"),
        }
        status.append(" ");
        if graceful {
            status.append("terminated");
        } else {
            status.append("killed");
        }
        status.append(" (PID: ");
        status.append(decimal_string(pid as u64).as_str());
        status.append(")");
        self.status_message = Some(status);
        Effect::Refresh
    }

    /// Stopping the process of a stop effect failed: the status shows the error.
    pub fn stop_failed(&mut self, error: &str)
        ensures
            final(self)@ == (AppView {
                status_message: Some("Failed to kill process: "@ + error@),
                ..old(self)@
            }),
    {
        let mut status = String::from_str("Failed to kill process: ");
        status.append(error);
        self.status_message = Some(status);
    }

    /// The outcome of reading a process's details: the details, or `None` when they
    /// could not be read.
    pub fn details_loaded(&mut self, details: Option<ProcessDetails>)
        ensures
            final(self)@ == (AppView { process_details: details, ..old(self)@ }),
    {
        self.process_details = details;
    }
}

/// The cursor is on a shown record, or at the top of the list.
pub open spec fn cursor_on_list(v: AppView) -> bool {
    v.selected_index == 0 || v.selected_index < shown(v.ports, v.filter).len()
}

proof fn lemma_shown_len(ports: Seq<PortRecord>, filter: Seq<char>)
    ensures
        shown(ports, filter).len() <= ports.len(),
    decreases ports.len(),
{
    if ports.len() > 0 {
        lemma_shown_len(ports.drop_last(), filter);
    }
}

/// With an empty filter every record is shown, in scan order.
pub proof fn law_empty_filter_shows_all(ports: Seq<PortRecord>)
    ensures
        shown(ports, Seq::<char>::empty()) == ports,
    decreases ports.len(),
{
    if ports.len() > 0 {
        law_empty_filter_shows_all(ports.drop_last());
        assert(matches_filter_spec(ports.last(), Seq::<char>::empty()));
        assert(ports.drop_last().push(ports.last()) =~= ports);
    }
}

/// The shown records are exactly the records that match the filter, in scan order:
/// each shown record matches, and a record is shown as often as it occurs among the
/// matching records of the scan.
pub proof fn law_shown_records_match(ports: Seq<PortRecord>, filter: Seq<char>)
    ensures
        forall|i: int|
            0 <= i < shown(ports, filter).len() ==> matches_filter_spec(
                #[trigger] shown(ports, filter)[i],
                filter,
            ),
        shown(ports, filter) == ports.filter(|r: PortRecord| matches_filter_spec(r, filter)),
    decreases ports.len(),
{
    reveal(Seq::filter);
    if ports.len() > 0 {
        law_shown_records_match(ports.drop_last(), filter);
        let s = shown(ports.drop_last(), filter);
        if matches_filter_spec(ports.last(), filter) {
            assert forall|i: int|
                0 <= i < shown(ports, filter).len() implies matches_filter_spec(
                #[trigger] shown(ports, filter)[i],
                filter,
            ) by {
                if i < s.len() {
                    assert(shown(ports, filter)[i] == s[i]);
                }
            }
        }
    }
}

/// No action takes the cursor off the shown list.
pub proof fn law_actions_keep_cursor(v: AppView, a: Action)
    requires
        cursor_on_list(v),
    ensures
        cursor_on_list(after_action(v, a).0),
{
    if a is StartFilter {
        lemma_shown_len(v.ports, v.filter);
        law_empty_filter_shows_all(v.ports);
    }
}

/// After a scan the cursor is on the shown list whenever the list is not empty.
pub proof fn law_refresh_keeps_cursor(sel: usize, n: nat)
    ensures
        n > 0 ==> clamped_selection(sel, n) < n,
        sel < n ==> clamped_selection(sel, n) == sel,
{
}

/// Toggling the help screen or the alerts panel twice changes nothing.
pub proof fn law_toggles_undo(v: AppView)
    ensures
        after_action(after_action(v, Action::ToggleHelp).0, Action::ToggleHelp).0 == v,
        after_action(after_action(v, Action::ToggleAlerts).0, Action::ToggleAlerts).0 == v,
{
}

/// Typing a character into the filter and then Backspace gives the filter back.
pub proof fn law_backspace_undoes_typing(v: AppView, typed: Action, erase: Action, c: char)
    requires
        typed matches Action::UpdateFilter(s) && s@ == seq![c],
        c != '\u{8}',
        erase matches Action::UpdateFilter(b) && b@ == backspace_text(),
    ensures
        after_action(after_action(v, typed).0, erase).0.filter == v.filter,
{
    assert(seq![c] != backspace_text()) by {
        assert(seq![c][0] != backspace_text()[0]);
    }
    assert((v.filter + seq![c]).drop_last() =~= v.filter);
}

} // verus!
