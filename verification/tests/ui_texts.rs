use portwatch::alerts::models::{AlertCondition, AlertRule, AlertSeverity, Percent, Timestamp};
use portwatch::models::{ConnectionState, PortRecord, ProcessDetails, Protocol};
use portwatch::ui::alert_rules::{
    condition_short, list_help, rule_line, AlertRuleDraft, AlertRulesPanel, ConditionKind,
    FormLineStyle,
};
use portwatch::ui::alerts::{clock_text, panel_title, severity_label, wrap_message};
use portwatch::ui::details::details_lines;
use portwatch::ui::ports_table::{header_row, port_row, ports_title, state_tone, StateTone};

fn pct(x: f32) -> Percent {
    Percent {
        bits: x.to_bits(),
        text: x.to_string(),
        one_decimal: format!("{:.1}", x),
        json: serde_json::to_string(&x).unwrap(),
    }
}

fn rule(name: &str, condition: AlertCondition) -> AlertRule {
    AlertRule {
        id: "id".to_string(),
        name: name.to_string(),
        condition,
        enabled: true,
        severity: AlertSeverity::Warning,
        cooldown_seconds: 300,
    }
}

fn port(addr: &str, pid: Option<u32>, name: Option<&str>) -> PortRecord {
    PortRecord {
        protocol: Protocol::Udp,
        local_addr: addr.to_string(),
        local_port: 53,
        remote_addr: Some("9.9.9.9".to_string()),
        remote_port: Some(853),
        state: ConnectionState::Listen,
        pid,
        process_name: name.map(|s| s.to_string()),
        exe: Some("/usr/sbin/dnsd".to_string()),
        cmdline: vec!["dnsd".to_string(), "-f".to_string()],
        user: Some("0".to_string()),
    }
}

#[test]
fn condition_kinds_by_number_key() {
    let all = ConditionKind::all();
    assert_eq!(all.len(), 7);
    assert_eq!(all[0], ConditionKind::PortOpened);
    assert_eq!(all[6], ConditionKind::UnknownProcessListening);
    assert_eq!(ConditionKind::from_u8(4), ConditionKind::ProcessCpuThreshold);
    assert_eq!(ConditionKind::from_u8(9), ConditionKind::PortOpened);
}

#[test]
fn draft_defaults_and_editing() {
    let mut d = AlertRuleDraft::default();
    assert_eq!(d.cooldown_seconds, "60");
    assert_eq!(d.max_focus(), 5);
    d.append_to_field(0, 'w');
    d.append_to_field(0, 'e');
    d.append_to_field(0, 'b');
    d.append_to_field(3, 'x');
    d.append_to_field(3, '0');
    assert_eq!(d.name, "web");
    assert_eq!(d.cooldown_seconds, "600");
    d.append_to_field(5, '8');
    d.append_to_field(5, 'a');
    d.append_to_field(5, '0');
    assert_eq!(d.port, "80");
    d.backspace_field(5);
    assert_eq!(d.port, "8");
    d.backspace_field(5);
    d.backspace_field(5);
    assert_eq!(d.port, "");
    d.toggle_bool_field(1);
    assert!(!d.enabled);
    d.toggle_bool_field(1);
    assert!(d.enabled);
    d.cycle_severity();
    assert_eq!(d.severity, AlertSeverity::Warning);
    d.cycle_severity();
    d.cycle_severity();
    assert_eq!(d.severity, AlertSeverity::Info);
    d.set_condition_kind(3);
    assert_eq!(d.condition_kind, ConditionKind::ExternalConnection);
    assert_eq!(d.max_focus(), 6);
    d.toggle_bool_field(6);
    assert!(!d.exclude_private);
    d.set_condition_kind(4);
    d.append_to_field(6, '.');
    d.append_to_field(6, '5');
    d.append_to_field(6, 'x');
    assert_eq!(d.threshold_percent, "50.5");
}

#[test]
fn draft_errors_in_form_order() {
    let mut d = AlertRuleDraft::default();
    assert_eq!(d.to_rule(None).unwrap_err(), "name is required");
    d.cooldown_seconds = "0".to_string();
    assert_eq!(d.to_rule(None).unwrap_err(), "cooldown must be > 0");
    d.cooldown_seconds = "abc".to_string();
    assert_eq!(d.to_rule(None).unwrap_err(), "cooldown must be a positive integer");
    d.cooldown_seconds = " 30 ".to_string();
    d.name = "  web ".to_string();
    assert_eq!(d.to_rule(None).unwrap_err(), "port must be a valid u16");
    d.port = "70000".to_string();
    assert_eq!(d.to_rule(None).unwrap_err(), "port must be a valid u16");
    d.port = "8080".to_string();
    let r = d.to_rule(None).unwrap();
    assert_eq!(r.name, "web");
    assert_eq!(r.cooldown_seconds, 30);
    assert!(matches!(r.condition, AlertCondition::PortOpened { port: 8080 }));
    assert_eq!(r.id, portwatch::alerts::rule_id::derive_rule_id("web", &r.condition));
    d.set_condition_kind(2);
    d.start_port = "2000".to_string();
    d.end_port = "1000".to_string();
    assert_eq!(d.to_rule(None).unwrap_err(), "start_port must be <= end_port");
    d.set_condition_kind(3);
    d.ip_pattern = "  ".to_string();
    assert_eq!(d.to_rule(None).unwrap_err(), "ip_pattern is required");
    d.ip_pattern = "(".to_string();
    assert!(d.to_rule(None).is_err());
    d.set_condition_kind(4);
    d.process_pattern = "node".to_string();
    assert_eq!(d.to_rule(None).unwrap_err(), "threshold_percent must be a number");
    assert!(d.to_rule(Some(pct(50.0))).is_ok());
    d.set_condition_kind(5);
    d.threshold_mb = "x".to_string();
    assert_eq!(d.to_rule(None).unwrap_err(), "threshold_mb must be a positive integer");
}

#[test]
fn editing_a_rule_and_saving_gives_it_back() {
    let rules = vec![
        rule("ssh", AlertCondition::PortClosed { port: 22 }),
        rule("range", AlertCondition::PortRangeActivity { start_port: 8000, end_port: 8100 }),
        rule("ext", AlertCondition::ExternalConnection { ip_pattern: "^1\\.".to_string(), exclude_private: false }),
        rule("cpu", AlertCondition::ProcessCpuThreshold { process_pattern: "node".to_string(), threshold_percent: pct(87.5) }),
        rule("mem", AlertCondition::ProcessMemoryThreshold { process_pattern: "java".to_string(), threshold_mb: 2048 }),
        rule("unk", AlertCondition::UnknownProcessListening),
    ];
    for (i, r) in rules.iter().enumerate() {
        let d = AlertRuleDraft::from_rule(r, i);
        assert_eq!(d.editing_index, Some(i));
        let parsed = d.threshold_percent.trim().parse::<f32>().ok().map(pct);
        let saved = d.to_rule(parsed).unwrap();
        assert_eq!(saved.name, r.name);
        assert_eq!(saved.cooldown_seconds, r.cooldown_seconds);
        assert_eq!(saved.severity, r.severity);
        assert_eq!(saved.enabled, r.enabled);
        assert_eq!(
            portwatch::alerts::rule_id::condition_to_json(&saved.condition),
            portwatch::alerts::rule_id::condition_to_json(&r.condition)
        );
    }
}

#[test]
fn rule_list_texts() {
    let mut r = rule("ssh", AlertCondition::PortClosed { port: 22 });
    assert_eq!(rule_line(&r), "[\u{2713}] ssh \u{2014} port close 22");
    r.enabled = false;
    assert_eq!(rule_line(&r), "[ ] ssh \u{2014} port close 22");
    assert_eq!(
        condition_short(&AlertCondition::PortRangeActivity { start_port: 1, end_port: 1024 }),
        "range 1-1024"
    );
    assert_eq!(condition_short(&AlertCondition::UnknownProcessListening), "unknown listener");
    assert_eq!(list_help(&[], 0)[2], "No rules. Press n to add.");
    assert_eq!(list_help(&[r.clone()], 0)[2], "Selected: id");
    assert_eq!(list_help(&[r], 3)[2], "");
    let panel = AlertRulesPanel::default();
    assert!(!panel.open && panel.form.is_none());
}

#[test]
fn form_lines_follow_focus_order() {
    let mut d = AlertRuleDraft::default();
    d.name = "web".to_string();
    let lines = d.form_lines(Some("name is required"));
    assert_eq!(lines.len(), d.max_focus() + 5);
    assert_eq!(lines[0], "name is required");
    assert_eq!(lines[2], "Name: web");
    assert_eq!(lines[3], "Enabled: true (Space toggles)");
    assert_eq!(lines[4], "Severity: Info (v cycle)");
    assert_eq!(lines[5], "Cooldown sec: 60");
    assert_eq!(lines[6], "Condition type: PortOpened (keys 0-6)");
    assert_eq!(lines[7], "Port: ");
    d.set_condition_kind(3);
    let lines = d.form_lines(None);
    assert_eq!(lines[0], "");
    assert_eq!(lines[8], "Exclude private: true (Space)");
    assert_eq!(lines.len(), 11);
    let styles = d.form_line_styles(0);
    assert_eq!(styles.len(), 11);
    assert_eq!(styles[2], FormLineStyle::Focused);
    assert_eq!(styles[10], FormLineStyle::Keys);
    assert_eq!(styles.iter().filter(|s| **s == FormLineStyle::Focused).count(), 1);
    assert_eq!(styles.iter().filter(|s| **s == FormLineStyle::Plain).count(), 9);
    assert_eq!(d.form_line_styles(6)[8], FormLineStyle::Focused);
    assert!(!d.form_line_styles(7).contains(&FormLineStyle::Focused));
    d.set_condition_kind(6);
    let styles = d.form_line_styles(5);
    assert_eq!(styles.len(), 9);
    assert!(!styles.contains(&FormLineStyle::Focused));
    assert_eq!(styles[8], FormLineStyle::Keys);
}

#[test]
fn port_table_texts() {
    assert_eq!(header_row(), vec!["ADDRESS", "PORT", "PROTO", "STATE", "PROCESS", "PID"]);
    assert_eq!(port_row(&port("0.0.0.0", Some(12), Some("dnsd"))), vec!["*", "53", "UDP", "LISTEN", "dnsd", "12"]);
    assert_eq!(port_row(&port("::", None, None)), vec!["*", "53", "UDP", "LISTEN", "-", "-"]);
    assert_eq!(port_row(&port("10.0.0.1", None, None))[0], "10.0.0.1");
    assert_eq!(ports_title("", 4), "Ports & Connections (4 total)");
    assert_eq!(ports_title("node", 1), "Ports & Connections (filter: 'node', 1 matches)");
    assert_eq!(state_tone(ConnectionState::Listen), StateTone::Listen);
    assert_eq!(state_tone(ConnectionState::TimeWait), StateTone::Other);
}

#[test]
fn alert_panel_texts() {
    assert_eq!(severity_label(AlertSeverity::Critical), "CRIT");
    assert_eq!(panel_title(3), " Alerts (3) ");
    assert_eq!(clock_text(Timestamp { secs: 3661, nanos: 5 }), "01:01:01");
    assert_eq!(clock_text(Timestamp { secs: 86399, nanos: 0 }), "23:59:59");
    assert_eq!(clock_text(Timestamp { secs: -1, nanos: 0 }), "23:59:59");
    assert_eq!(clock_text(Timestamp { secs: 1_700_000_000, nanos: 0 }), "22:13:20");
}

#[test]
fn alert_messages_wrap_to_panel_width() {
    let lines = wrap_message("Port 8080 opened by node", 14);
    assert_eq!(lines, vec!["  Port 8080", "  opened by", "  node"]);
    assert_eq!(wrap_message("", 40), Vec::<String>::new());
    assert_eq!(wrap_message("averyveryverylongword x", 8), vec!["  averyveryverylongword", "  x"]);
    assert_eq!(wrap_message("a b", 2), vec!["  a", "  b"]);
}

#[test]
fn details_panel_lines() {
    let p = port("0.0.0.0", Some(12), Some("dnsd"));
    assert_eq!(details_lines(None, &None, "", 0), vec!["Select a port to view details"]);
    let loading = details_lines(Some(&p), &None, "", 0);
    assert_eq!(loading, vec!["Local: 0.0.0.0:53", "Remote: 9.9.9.9:853", "", "Loading process details..."]);
    let mut q = port("1.2.3.4", None, None);
    q.remote_addr = None;
    assert_eq!(details_lines(Some(&q), &None, "", 0), vec!["Local: 1.2.3.4:53", "", "No process associated with this port"]);
    let d = ProcessDetails {
        pid: 12,
        parent_pid: Some(1),
        name: "dnsd".to_string(),
        exe: None,
        cwd: Some("/".to_string()),
        memory_bytes: 2048,
        cpu_percent: pct(1.25),
        start_time: Some(100),
        cmdline: Vec::new(),
        env_preview: vec![("K".to_string(), "v".repeat(41)), ("A".to_string(), "b".to_string())],
        user: None,
    };
    let lines = details_lines(Some(&p), &Some(d), "2.0 KB", 160);
    let want: Vec<String> = vec![
        "Local: 0.0.0.0:53".to_string(),
        "Remote: 9.9.9.9:853".to_string(),
        "".to_string(),
        "PID: 12".to_string(),
        "Name: dnsd".to_string(),
        "Executable: /usr/sbin/dnsd".to_string(),
        "Working Dir: /".to_string(),
        "Parent PID: 1".to_string(),
        "User: 0".to_string(),
        "Memory: 2.0 KB".to_string(),
        format!("CPU: {:.1}%", 1.25f32),
        "Uptime: 1m 0s".to_string(),
        "".to_string(),
        "Command:".to_string(),
        "  dnsd -f".to_string(),
        "".to_string(),
        "Environment (preview):".to_string(),
        format!("  K={}...", "v".repeat(37)),
        "  A=b".to_string(),
    ];
    assert_eq!(lines, want);
}
