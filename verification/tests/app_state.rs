use std::collections::HashMap;

use portwatch::alerts::models::{AlertCondition, AlertRule, AlertSeverity, Percent};
use portwatch::app::{all_rules_evaluable, AppState, Effect};
use portwatch::daemon::DaemonState;
use portwatch::events::{Action, EventHandler, KeyCode, KeyEvent};
use portwatch::models::{ConnectionState, PortRecord, Protocol};

fn rec(port: u16, pid: Option<u32>, name: Option<&str>, state: ConnectionState) -> PortRecord {
    PortRecord {
        protocol: Protocol::Tcp,
        local_addr: "0.0.0.0".to_string(),
        local_port: port,
        remote_addr: None,
        remote_port: None,
        state,
        pid,
        process_name: name.map(|s| s.to_string()),
        exe: None,
        cmdline: Vec::new(),
        user: None,
    }
}

fn scan() -> Vec<PortRecord> {
    vec![
        rec(22, Some(1), Some("sshd"), ConnectionState::Listen),
        rec(3000, Some(7), Some("node"), ConnectionState::Listen),
        rec(5432, None, None, ConnectionState::Established),
    ]
}

fn refresh(app: &mut AppState, ports: Vec<PortRecord>) -> (usize, Option<u32>) {
    let cpu: HashMap<u32, Percent> = HashMap::new();
    let mem: HashMap<u32, u64> = HashMap::new();
    let (fired, pid) = app.refresh(ports, &cpu, &mem);
    (fired.len(), pid)
}

fn key(c: char) -> KeyEvent {
    KeyEvent { code: KeyCode::Char(c), control: false }
}

#[test]
fn new_state_is_empty() {
    let app = AppState::new(Vec::new());
    assert!(app.ports.is_empty());
    assert_eq!(app.selected_index, 0);
    assert_eq!(app.filter, "");
    assert!(app.status_message.is_none());
    assert!(!app.show_help);
    assert!(!app.show_alerts);
    assert!(app.notifier.is_enabled());
    assert!(!app.alert_rules.open);
    assert!(app.filtered_ports().is_empty());
    assert!(app.get_selected_port().is_none());
}

#[test]
fn refresh_reports_count_and_selected_process() {
    let mut app = AppState::new(Vec::new());
    let (fired, pid) = refresh(&mut app, scan());
    assert_eq!(fired, 0);
    assert_eq!(pid, Some(1));
    assert_eq!(app.status_message.as_deref(), Some("Refreshed: 3 connections found"));
    assert_eq!(app.ports.len(), 3);
    assert!(app.previous_ports.is_empty());
    refresh(&mut app, scan());
    assert_eq!(app.previous_ports.len(), 3);
}

#[test]
fn navigation_moves_within_the_list_and_loads_details() {
    let mut app = AppState::new(Vec::new());
    refresh(&mut app, scan());
    assert!(matches!(app.apply_action(Action::NavigateUp), Effect::Nothing));
    assert!(matches!(app.apply_action(Action::NavigateDown), Effect::LoadDetails(7)));
    assert_eq!(app.selected_index, 1);
    assert!(matches!(app.apply_action(Action::NavigateDown), Effect::Nothing));
    assert_eq!(app.selected_index, 2);
    assert!(matches!(app.apply_action(Action::NavigateDown), Effect::Nothing));
    assert_eq!(app.selected_index, 2);
    assert!(matches!(app.apply_action(Action::NavigateUp), Effect::LoadDetails(7)));
    assert!(matches!(app.apply_action(Action::SelectItem), Effect::LoadDetails(7)));
}

#[test]
fn refresh_clamps_cursor_to_shorter_list() {
    let mut app = AppState::new(Vec::new());
    refresh(&mut app, scan());
    app.apply_action(Action::NavigateDown);
    app.apply_action(Action::NavigateDown);
    assert_eq!(app.selected_index, 2);
    let (_, pid) = refresh(&mut app, vec![rec(22, Some(1), Some("sshd"), ConnectionState::Listen)]);
    assert_eq!(app.selected_index, 0);
    assert_eq!(pid, Some(1));
}

#[test]
fn filter_typing_and_backspace() {
    let mut app = AppState::new(Vec::new());
    refresh(&mut app, scan());
    app.apply_action(Action::NavigateDown);
    app.apply_action(Action::StartFilter);
    assert_eq!(app.filter, "");
    app.apply_action(Action::UpdateFilter("no".to_string()));
    assert_eq!(app.filter, "no");
    assert_eq!(app.selected_index, 0);
    assert_eq!(app.filtered_ports().len(), 1);
    assert_eq!(app.get_selected_port().unwrap().local_port, 3000);
    app.apply_action(Action::UpdateFilter("\u{8}".to_string()));
    assert_eq!(app.filter, "n");
    app.apply_action(Action::UpdateFilter("\u{8}".to_string()));
    app.apply_action(Action::UpdateFilter("\u{8}".to_string()));
    assert_eq!(app.filter, "");
    app.apply_action(Action::UpdateFilter("listen".to_string()));
    assert_eq!(app.filtered_ports().len(), 2);
    app.apply_action(Action::ClearFilter);
    assert_eq!(app.filter, "");
    assert_eq!(app.filtered_ports().len(), 3);
}

#[test]
fn kill_asks_for_the_selected_process() {
    let mut app = AppState::new(Vec::new());
    refresh(&mut app, scan());
    match app.apply_action(Action::KillProcess(true)) {
        Effect::StopProcess { pid, graceful, name } => {
            assert_eq!(pid, 1);
            assert!(graceful);
            assert_eq!(name.as_deref(), Some("sshd"));
            assert!(matches!(app.process_stopped(pid, graceful, &name), Effect::Refresh));
            assert_eq!(app.status_message.as_deref(), Some("Process sshd terminated (PID: 1)"));
        }
        other => panic!("unexpected effect {:?}", other),
    }
    app.process_stopped(9, false, &None);
    assert_eq!(app.status_message.as_deref(), Some("Process unknown killed (PID: 9)"));
    app.stop_failed("permission denied");
    assert_eq!(app.status_message.as_deref(), Some("Failed to kill process: permission denied"));
}

#[test]
fn kill_without_process_sets_status() {
    let mut app = AppState::new(Vec::new());
    refresh(&mut app, scan());
    app.apply_action(Action::NavigateDown);
    app.apply_action(Action::NavigateDown);
    assert!(matches!(app.apply_action(Action::KillProcess(false)), Effect::Nothing));
    assert_eq!(app.status_message.as_deref(), Some("No process associated with this port"));
}

#[test]
fn toggles_quit_and_refresh() {
    let mut app = AppState::new(Vec::new());
    app.apply_action(Action::ToggleHelp);
    assert!(app.show_help);
    app.apply_action(Action::ToggleHelp);
    assert!(!app.show_help);
    app.apply_action(Action::ToggleAlerts);
    assert!(app.show_alerts);
    assert!(matches!(app.apply_action(Action::Quit), Effect::Quit));
    assert!(matches!(app.apply_action(Action::Refresh), Effect::Refresh));
    assert!(matches!(app.apply_action(Action::Nothing), Effect::Nothing));
    app.refresh_failed("no /proc");
    assert_eq!(app.status_message.as_deref(), Some("Error: no /proc"));
    app.details_loaded(None);
    assert!(app.process_details.is_none());
}

#[test]
fn refresh_fires_alerts_against_the_scan_before_last() {
    let rules = vec![AlertRule {
        id: "web".to_string(),
        name: "web".to_string(),
        condition: AlertCondition::PortOpened { port: 3000 },
        enabled: true,
        severity: AlertSeverity::Info,
        cooldown_seconds: 60,
    }];
    assert!(all_rules_evaluable(&rules));
    let mut app = AppState::new(rules);
    let (fired, _) = refresh(&mut app, scan());
    assert_eq!(fired, 1);
    assert_eq!(app.alert_manager.get_recent_alerts(5)[0].message, "Port 3000 opened by node");
    assert_eq!(app.status_message.as_deref(), Some("Refreshed: 3 connections found"));
}

#[test]
fn refresh_compares_with_the_scan_on_screen() {
    let rules = vec![
        AlertRule {
            id: "open".to_string(),
            name: "open".to_string(),
            condition: AlertCondition::PortOpened { port: 3000 },
            enabled: true,
            severity: AlertSeverity::Info,
            cooldown_seconds: 0,
        },
        AlertRule {
            id: "closed".to_string(),
            name: "closed".to_string(),
            condition: AlertCondition::PortClosed { port: 22 },
            enabled: true,
            severity: AlertSeverity::Info,
            cooldown_seconds: 0,
        },
    ];
    let mut app = AppState::new(rules);
    let without = vec![rec(22, Some(1), Some("sshd"), ConnectionState::Listen)];
    let (fired, _) = refresh(&mut app, without);
    assert_eq!(fired, 0);
    let (fired, _) = refresh(&mut app, scan());
    assert_eq!(fired, 1);
    assert_eq!(app.alert_manager.get_recent_alerts(1)[0].message, "Port 3000 opened by node");
    // Port 3000 was on screen already: no new alert.
    let (fired, _) = refresh(&mut app, scan());
    assert_eq!(fired, 0);
    let (fired, _) = refresh(&mut app, vec![rec(3000, Some(7), Some("node"), ConnectionState::Listen)]);
    assert_eq!(fired, 1);
    assert_eq!(app.alert_manager.get_recent_alerts(1)[0].message, "Port 22 closed");
}

#[test]
fn rules_evaluable_check() {
    let huge = vec![AlertRule {
        id: "m".to_string(),
        name: "m".to_string(),
        condition: AlertCondition::ProcessMemoryThreshold {
            process_pattern: ".*".to_string(),
            threshold_mb: u64::MAX,
        },
        enabled: true,
        severity: AlertSeverity::Info,
        cooldown_seconds: 60,
    }];
    assert!(!all_rules_evaluable(&huge));
    let mut disabled = huge.clone();
    disabled[0].enabled = false;
    assert!(all_rules_evaluable(&disabled));
    let app = AppState::new(disabled);
    assert_eq!(app.alert_manager.get_rules().len(), 1);
}

#[test]
fn daemon_ticks_compare_consecutive_scans() {
    let rules = vec![AlertRule {
        id: "closed".to_string(),
        name: "closed".to_string(),
        condition: AlertCondition::PortClosed { port: 22 },
        enabled: true,
        severity: AlertSeverity::Critical,
        cooldown_seconds: 1,
    }];
    let mut d = DaemonState::new(rules, true);
    assert!(d.reloads_config_each_tick());
    assert!(!d.needs_process_metrics());
    let cpu: HashMap<u32, Percent> = HashMap::new();
    let mem: HashMap<u32, u64> = HashMap::new();
    let first = d.tick(scan(), &cpu, &mem);
    assert!(first.is_empty());
    let second = d.tick(Vec::new(), &cpu, &mem);
    assert_eq!(second.len(), 1);
    assert_eq!(second[0].message, "Port 22 closed");
    d.reload_rules(Vec::new());
    assert_eq!(d.alert_manager.get_rules().len(), 0);
}

#[test]
fn keys_map_to_actions() {
    let mut h = EventHandler::new();
    assert!(matches!(h.handle_key(key('q')), Action::Quit));
    assert!(matches!(
        h.handle_key(KeyEvent { code: KeyCode::Char('c'), control: true }),
        Action::Quit
    ));
    assert!(matches!(h.handle_key(key('c')), Action::Nothing));
    assert!(matches!(h.handle_key(key('r')), Action::Refresh));
    assert!(matches!(h.handle_key(key('k')), Action::KillProcess(true)));
    assert!(matches!(h.handle_key(key('K')), Action::KillProcess(false)));
    assert!(matches!(h.handle_key(key('?')), Action::ToggleHelp));
    assert!(matches!(h.handle_key(KeyEvent { code: KeyCode::Up, control: false }), Action::NavigateUp));
    assert!(matches!(h.handle_key(KeyEvent { code: KeyCode::Enter, control: false }), Action::SelectItem));
    assert!(!h.is_filter_mode());
    assert!(matches!(h.handle_key(key('/')), Action::StartFilter));
    assert!(h.is_filter_mode());
    match h.handle_key(key('q')) {
        Action::UpdateFilter(s) => assert_eq!(s, "q"),
        _ => panic!("expected a filter edit"),
    }
    match h.handle_key(KeyEvent { code: KeyCode::Backspace, control: false }) {
        Action::UpdateFilter(s) => assert_eq!(s, "\u{8}"),
        _ => panic!("expected a filter edit"),
    }
    assert!(matches!(h.handle_key(KeyEvent { code: KeyCode::Enter, control: false }), Action::Nothing));
    assert!(!h.is_filter_mode());
    h.handle_key(key('/'));
    assert!(matches!(h.handle_key(KeyEvent { code: KeyCode::Esc, control: false }), Action::ClearFilter));
    assert!(!h.is_filter_mode());
}

#[test]
fn typed_filter_then_backspace_restores_filter() {
    let mut app = AppState::new(Vec::new());
    app.apply_action(Action::UpdateFilter("ab".to_string()));
    let mut h = EventHandler::default();
    h.handle_key(key('/'));
    let typed = h.handle_key(key('x'));
    let erase = h.handle_key(KeyEvent { code: KeyCode::Backspace, control: false });
    app.apply_action(typed);
    assert_eq!(app.filter, "abx");
    app.apply_action(erase);
    assert_eq!(app.filter, "ab");
}
