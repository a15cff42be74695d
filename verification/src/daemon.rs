//! The state of the background alerting loop. Each tick the caller scans the ports,
//! samples processes when a rule needs it, hands the scan to `tick`, and sends a
//! notification for each alert that fired.

use vstd::prelude::*;
use std::collections::HashMap;
use crate::alerts::manager::{samples_processes, AlertManager};
use crate::alerts::models::{Alert, AlertRule, Percent};
use crate::alerts::runner::{cycle_ran, run_alert_cycle};
use crate::app::rules_evaluable;
use crate::models::PortRecord;

verus! {

/// The alert rules and their firing state, and the previous scan.
pub struct DaemonState {
    pub alert_manager: AlertManager,
    previous_ports: Vec<PortRecord>,
    reload_config_each_tick: bool,
}

impl DaemonState {
    /// The alert manager.
    pub closed spec fn manager(self) -> AlertManager {
        self.alert_manager
    }

    /// The scan of the previous tick.
    pub closed spec fn previous(self) -> Seq<PortRecord> {
        self.previous_ports@
    }

    /// Whether the rules are read again before each tick.
    pub closed spec fn reloads(self) -> bool {
        self.reload_config_each_tick
    }

    /// The manager is consistent and every rule can be evaluated.
    pub open spec fn wf(self) -> bool {
        self.manager().wf() && rules_evaluable(self.manager().rules())
    }

    /// A daemon with the given rules, nothing fired and no previous scan.
    pub fn new(rules: Vec<AlertRule>, reload_config_each_tick: bool) -> (d: Self)
        requires
            rules_evaluable(rules@),
        ensures
            d.wf(),
            d.manager().rules() == rules@,
            d.manager().last_triggered().is_empty(),
            d.manager().history() == Seq::<Alert>::empty(),
            d.previous() == Seq::<PortRecord>::empty(),
            d.reloads() == reload_config_each_tick,
    {
        let mut alert_manager = AlertManager::new();
        alert_manager.set_rules(rules);
        DaemonState { alert_manager, previous_ports: Vec::new(), reload_config_each_tick }
    }

    /// Whether the rules are read again before each tick.
    pub fn reloads_config_each_tick(&self) -> (b: bool)
        ensures
            b == self.reloads(),
    {
        self.reload_config_each_tick
    }

    /// Replaces the rules with a set read again; what fired stays.
    pub fn reload_rules(&mut self, rules: Vec<AlertRule>)
        requires
            old(self).wf(),
            rules_evaluable(rules@),
        ensures
            final(self).wf(),
            final(self).manager().rules() == rules@,
            final(self).manager().last_triggered() == old(self).manager().last_triggered(),
            final(self).manager().history() == old(self).manager().history(),
            final(self).previous() == old(self).previous(),
            final(self).reloads() == old(self).reloads(),
    {
        self.alert_manager.set_rules(rules);
    }

    /// Whether an enabled rule needs CPU or memory samples.
    pub fn needs_process_metrics(&self) -> (b: bool)
        ensures
            b == exists|i: int|
                0 <= i < self.manager().rules().len() && (#[trigger] self.manager().rules()[i]).enabled
                    && samples_processes(self.manager().rules()[i].condition),
    {
        self.alert_manager.needs_process_metrics()
    }

    /// One tick: the rules are evaluated against the previous scan and this one, and
    /// this scan becomes the previous one. Returns the alerts that fired.
    pub fn tick(
        &mut self,
        ports: Vec<PortRecord>,
        cpu_usage: &HashMap<u32, Percent>,
        memory_usage: &HashMap<u32, u64>,
    ) -> (fired: Vec<Alert>)
        requires
            old(self).wf(),
        ensures
            final(self).wf(),
            cycle_ran(
                old(self).manager(),
                final(self).manager(),
                fired@,
                old(self).previous(),
                ports@,
                cpu_usage@,
                memory_usage@,
            ),
            final(self).previous() == ports@,
            final(self).reloads() == old(self).reloads(),
    {
        let fired = run_alert_cycle(
            &mut self.alert_manager,
            self.previous_ports.as_slice(),
            ports.as_slice(),
            cpu_usage,
            memory_usage,
        );
        self.previous_ports = ports;
        fired
    }
}

} // verus!
