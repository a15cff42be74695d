use serde_json::{Number, Value};
use std::collections::hash_map::DefaultHasher;
use std::collections::HashMap;
use std::hash::{Hash, Hasher};

use portwatch::alerts::config::{config_location, ConfigLocation};
use portwatch::alerts::evaluator::{is_private_ip, AlertEvaluator, IpAddress};
use portwatch::alerts::manager::AlertManager;
use portwatch::alerts::models::{
    Alert, AlertCondition, AlertRule, AlertSeverity, Percent, Timestamp,
};
use portwatch::alerts::notifier::{
    after_fallback, after_osascript, applescript_string_literal, osascript_error_text,
    osascript_program, truncate_for_notification, Notifier, Urgency,
};
use portwatch::alerts::rule_id::{condition_to_json, derive_rule_id};
use portwatch::alerts::runner::run_alert_cycle;
use portwatch::models::{ConnectionState, PortRecord, Protocol};

fn pct(x: f32) -> Percent {
    Percent {
        bits: x.to_bits(),
        text: x.to_string(),
        one_decimal: format!("{:.1}", x),
        json: serde_json::to_string(&x).unwrap(),
    }
}

fn rec(port: u16, pid: Option<u32>, name: Option<&str>, remote: Option<&str>) -> PortRecord {
    PortRecord {
        protocol: Protocol::Tcp,
        local_addr: "0.0.0.0".to_string(),
        local_port: port,
        remote_addr: remote.map(|s| s.to_string()),
        remote_port: remote.map(|_| 443),
        state: ConnectionState::Listen,
        pid,
        process_name: name.map(|s| s.to_string()),
        exe: None,
        cmdline: Vec::new(),
        user: None,
    }
}

fn rule(id: &str, condition: AlertCondition, enabled: bool, cooldown: u64) -> AlertRule {
    AlertRule {
        id: id.to_string(),
        name: id.to_string(),
        condition,
        enabled,
        severity: AlertSeverity::Warning,
        cooldown_seconds: cooldown,
    }
}

fn alert_at(id: &str, secs: i64) -> Alert {
    Alert {
        rule_id: id.to_string(),
        message: format!("m{}", secs),
        severity: AlertSeverity::Info,
        timestamp: Timestamp { secs, nanos: 0 },
    }
}

#[test]
fn port_opened_fires_with_process_name() {
    let r = rule("o", AlertCondition::PortOpened { port: 8080 }, true, 60);
    let prev = vec![rec(22, Some(1), Some("sshd"), None)];
    let cur = vec![rec(22, Some(1), Some("sshd"), None), rec(8080, Some(7), Some("node"), None)];
    let a = AlertEvaluator::evaluate_port_changes(&r, &prev, &cur).unwrap();
    assert_eq!(a.message, "Port 8080 opened by node");
    assert_eq!(a.rule_id, "o");
    assert_eq!(a.severity, AlertSeverity::Warning);
    let unnamed = vec![rec(8080, None, None, None)];
    let b = AlertEvaluator::evaluate_port_changes(&r, &prev, &unnamed).unwrap();
    assert_eq!(b.message, "Port 8080 opened by unknown");
}

#[test]
fn port_closed_fires_when_port_goes_away() {
    let r = rule("c", AlertCondition::PortClosed { port: 22 }, true, 60);
    let prev = vec![rec(22, Some(1), Some("sshd"), None)];
    let cur: Vec<PortRecord> = Vec::new();
    let a = AlertEvaluator::evaluate_port_changes(&r, &prev, &cur).unwrap();
    assert_eq!(a.message, "Port 22 closed");
    assert!(AlertEvaluator::evaluate_port_changes(&r, &cur, &prev).is_none());
}

#[test]
fn open_and_close_are_dual() {
    let opened = rule("o", AlertCondition::PortOpened { port: 9000 }, true, 1);
    let closed = rule("c", AlertCondition::PortClosed { port: 9000 }, true, 1);
    let a = vec![rec(80, None, None, None)];
    let b = vec![rec(80, None, None, None), rec(9000, None, None, None)];
    assert!(AlertEvaluator::evaluate_port_changes(&opened, &a, &b).is_some());
    assert!(AlertEvaluator::evaluate_port_changes(&closed, &b, &a).is_some());
    assert!(AlertEvaluator::evaluate_port_changes(&opened, &b, &a).is_none());
    assert!(AlertEvaluator::evaluate_port_changes(&closed, &a, &b).is_none());
}

#[test]
fn identical_scans_fire_no_port_rule() {
    let s = vec![rec(80, None, None, None), rec(3000, None, None, None)];
    for c in [
        AlertCondition::PortOpened { port: 80 },
        AlertCondition::PortClosed { port: 80 },
        AlertCondition::PortRangeActivity { start_port: 1, end_port: 65535 },
    ] {
        let r = rule("q", c, true, 1);
        assert!(AlertEvaluator::evaluate_port_changes(&r, &s, &s).is_none());
    }
}

#[test]
fn range_activity_reports_first_new_port_in_range() {
    let r = rule(
        "r",
        AlertCondition::PortRangeActivity { start_port: 3000, end_port: 3100 },
        true,
        1,
    );
    let prev = vec![rec(3000, None, None, None)];
    let cur = vec![
        rec(3000, None, None, None),
        rec(4000, None, None, None),
        rec(3050, None, None, None),
        rec(3060, None, None, None),
    ];
    let a = AlertEvaluator::evaluate_port_changes(&r, &prev, &cur).unwrap();
    assert_eq!(a.message, "Activity detected on port 3050 (range 3000-3100)");
}

#[test]
fn external_connection_skips_private_addresses() {
    let r = rule(
        "e",
        AlertCondition::ExternalConnection { ip_pattern: ".*".to_string(), exclude_private: true },
        true,
        1,
    );
    let ports = vec![
        rec(5000, None, None, Some("10.0.0.5")),
        rec(5001, None, None, Some("8.8.8.8")),
    ];
    let a = AlertEvaluator::evaluate_connections(&r, &ports).unwrap();
    assert_eq!(a.message, "External connection to 8.8.8.8 on port 5001");
    let keep = rule(
        "e2",
        AlertCondition::ExternalConnection { ip_pattern: "^10\\.".to_string(), exclude_private: false },
        true,
        1,
    );
    let b = AlertEvaluator::evaluate_connections(&keep, &ports).unwrap();
    assert_eq!(b.message, "External connection to 10.0.0.5 on port 5000");
    let loopbacks = vec![
        rec(1, None, None, Some("::1")),
        rec(2, None, None, Some("192.168.1.7")),
        rec(3, None, None, Some("::")),
        rec(4, None, None, Some("*")),
    ];
    let c = AlertEvaluator::evaluate_connections(&r, &loopbacks).unwrap();
    assert_eq!(c.message, "External connection to * on port 4");
}

#[test]
fn invalid_pattern_fires_nothing() {
    let r = rule(
        "bad",
        AlertCondition::ExternalConnection { ip_pattern: "(".to_string(), exclude_private: false },
        true,
        1,
    );
    let ports = vec![rec(1, None, None, Some("8.8.8.8"))];
    assert!(AlertEvaluator::evaluate_connections(&r, &ports).is_none());
    let anchored = rule(
        "anchored",
        AlertCondition::ExternalConnection { ip_pattern: "^8\\.".to_string(), exclude_private: false },
        true,
        1,
    );
    assert!(AlertEvaluator::evaluate_connections(&anchored, &ports).is_some());
    let other = vec![rec(1, None, None, Some("18.8.8.8"))];
    assert!(AlertEvaluator::evaluate_connections(&anchored, &other).is_none());
}

#[test]
fn private_address_classification() {
    assert!(is_private_ip(&Some(IpAddress::V4(127, 0, 0, 1))));
    assert!(is_private_ip(&Some(IpAddress::V4(172, 16, 0, 1))));
    assert!(is_private_ip(&Some(IpAddress::V4(172, 31, 255, 1))));
    assert!(!is_private_ip(&Some(IpAddress::V4(172, 32, 0, 1))));
    assert!(is_private_ip(&Some(IpAddress::V4(192, 168, 1, 1))));
    assert!(is_private_ip(&Some(IpAddress::V4(0, 1, 2, 3))));
    assert!(!is_private_ip(&Some(IpAddress::V4(8, 8, 4, 4))));
    assert!(is_private_ip(&Some(IpAddress::V6(1))));
    assert!(is_private_ip(&Some(IpAddress::V6(0))));
    assert!(!is_private_ip(&Some(IpAddress::V6(2))));
    assert!(!is_private_ip(&None));
}

#[test]
fn cpu_threshold_fires_above_threshold() {
    let r = rule(
        "cpu",
        AlertCondition::ProcessCpuThreshold {
            process_pattern: "^node$".to_string(),
            threshold_percent: pct(50.0),
        },
        true,
        1,
    );
    let ports = vec![rec(1, Some(7), Some("python"), None), rec(2, Some(42), Some("node"), None)];
    let mut usage = HashMap::new();
    usage.insert(7u32, pct(99.0));
    usage.insert(42u32, pct(75.5));
    let a = AlertEvaluator::evaluate_process_cpu(&r, &ports, &usage).unwrap();
    assert_eq!(a.message, "Process node (PID: 42) CPU usage: 75.5% (threshold: 50.0%)");
    usage.insert(42u32, pct(50.0));
    assert!(AlertEvaluator::evaluate_process_cpu(&r, &ports, &usage).is_none());
}

#[test]
fn memory_threshold_fires_above_threshold() {
    let r = rule(
        "mem",
        AlertCondition::ProcessMemoryThreshold { process_pattern: "node".to_string(), threshold_mb: 512 },
        true,
        1,
    );
    let ports = vec![rec(2, Some(42), Some("node"), None)];
    let mut usage = HashMap::new();
    usage.insert(42u32, 600u64 * 1024 * 1024 + 5);
    let a = AlertEvaluator::evaluate_process_memory(&r, &ports, &usage).unwrap();
    assert_eq!(a.message, "Process node (PID: 42) memory usage: 600 MB (threshold: 512 MB)");
    usage.insert(42u32, 512u64 * 1024 * 1024);
    assert!(AlertEvaluator::evaluate_process_memory(&r, &ports, &usage).is_none());
}

#[test]
fn percent_comparison_follows_float_order() {
    assert!(pct(75.5).exceeds(&pct(50.0)));
    assert!(!pct(50.0).exceeds(&pct(50.0)));
    assert!(!pct(-1.0).exceeds(&pct(0.0)));
    assert!(pct(0.0).exceeds(&pct(-1.0)));
    assert!(!pct(0.0).exceeds(&pct(-0.0)));
    assert!(!pct(f32::NAN).exceeds(&pct(1.0)));
    assert!(!pct(1.0).exceeds(&pct(f32::NAN)));
}

#[test]
fn memory_threshold_evaluable_bound() {
    let ok = AlertCondition::ProcessMemoryThreshold { process_pattern: "x".to_string(), threshold_mb: 17592186044415 };
    let too_big = AlertCondition::ProcessMemoryThreshold { process_pattern: "x".to_string(), threshold_mb: 17592186044416 };
    assert!(ok.is_evaluable());
    assert!(!too_big.is_evaluable());
    assert!(AlertCondition::PortOpened { port: 1 }.is_evaluable());
}

#[test]
fn manager_rules_and_enabled_rules() {
    let mut m = AlertManager::new();
    m.add_rule(rule("a", AlertCondition::PortOpened { port: 1 }, true, 1));
    m.add_rule(rule("b", AlertCondition::PortOpened { port: 2 }, false, 1));
    m.add_rule(rule("c", AlertCondition::PortOpened { port: 3 }, true, 1));
    let ids: Vec<String> = m.get_enabled_rules().iter().map(|r| r.id.clone()).collect();
    assert_eq!(ids, vec!["a".to_string(), "c".to_string()]);
    assert_eq!(m.get_rules().len(), 3);
    m.set_rules(vec![rule("z", AlertCondition::UnknownProcessListening, true, 1)]);
    assert_eq!(m.get_rules().len(), 1);
    assert!(!m.needs_process_metrics());
    m.add_rule(rule(
        "mem",
        AlertCondition::ProcessMemoryThreshold { process_pattern: "x".to_string(), threshold_mb: 1 },
        true,
        1,
    ));
    assert!(m.needs_process_metrics());
}

#[test]
fn cooldown_blocks_until_it_has_passed() {
    let mut m = AlertManager::default();
    let t = |s: i64| Timestamp { secs: s, nanos: 0 };
    assert!(m.can_trigger_at("r", 60, t(1000)));
    m.trigger_alert(alert_at("r", 1000));
    assert!(!m.can_trigger_at("r", 60, t(1059)));
    assert!(!m.can_trigger_at("r", 60, Timestamp { secs: 1059, nanos: 999_999_999 }));
    assert!(m.can_trigger_at("r", 60, t(1060)));
    assert!(m.can_trigger_at("r", 0, t(1000)));
    assert!(m.can_trigger_at("other", 60, t(1000)));
    // a clock that went back reads as a huge elapsed time
    assert!(m.can_trigger_at("r", 60, t(900)));
    assert!(!m.can_trigger("r", 3600 * 24 * 365 * 1000));
}

#[test]
fn history_keeps_last_hundred() {
    let mut m = AlertManager::new();
    for i in 0..105 {
        m.trigger_alert(alert_at("h", i));
    }
    let all = m.get_recent_alerts(1000);
    assert_eq!(all.len(), 100);
    assert_eq!(all[0].timestamp.secs, 5);
    assert_eq!(all[99].timestamp.secs, 104);
    let last = m.get_recent_alerts(1);
    assert_eq!(last.len(), 1);
    assert_eq!(last[0].message, "m104");
    assert_eq!(m.get_recent_alerts(0).len(), 0);
}

#[test]
fn condition_json_matches_rule_file_format() {
    assert_eq!(
        condition_to_json(&AlertCondition::PortOpened { port: 80 }),
        "{\"type\":\"PortOpened\",\"params\":{\"port\":80}}"
    );
    assert_eq!(
        condition_to_json(&AlertCondition::ExternalConnection {
            ip_pattern: "a\"b\\c\n".to_string(),
            exclude_private: true
        }),
        "{\"type\":\"ExternalConnection\",\"params\":{\"ip_pattern\":\"a\\\"b\\\\c\\n\",\"exclude_private\":true}}"
    );
    assert_eq!(
        condition_to_json(&AlertCondition::UnknownProcessListening),
        "{\"type\":\"UnknownProcessListening\"}"
    );
    assert_eq!(
        condition_to_json(&AlertCondition::ProcessCpuThreshold {
            process_pattern: "x".to_string(),
            threshold_percent: pct(50.0)
        }),
        "{\"type\":\"ProcessCpuThreshold\",\"params\":{\"process_pattern\":\"x\",\"threshold_percent\":50.0}}"
    );
    assert_eq!(
        condition_to_json(&AlertCondition::PortRangeActivity { start_port: 1, end_port: 1024 }),
        "{\"type\":\"PortRangeActivity\",\"params\":{\"start_port\":1,\"end_port\":1024}}"
    );
    assert_eq!(
        condition_to_json(&AlertCondition::ExternalConnection {
            ip_pattern: "\u{1}".to_string(),
            exclude_private: false
        }),
        "{\"type\":\"ExternalConnection\",\"params\":{\"ip_pattern\":\"\\u0001\",\"exclude_private\":false}}"
    );
}

#[test]
fn rule_id_is_hash_of_name_and_condition_json() {
    let c = AlertCondition::PortOpened { port: 8080 };
    let mut h = DefaultHasher::new();
    "web".hash(&mut h);
    "{\"type\":\"PortOpened\",\"params\":{\"port\":8080}}".hash(&mut h);
    assert_eq!(derive_rule_id("web", &c), format!("{:x}", h.finish()));
    assert_eq!(derive_rule_id("web", &c), derive_rule_id("web", &c));
    assert_ne!(derive_rule_id("web", &c), derive_rule_id("web", &AlertCondition::PortOpened { port: 8081 }));
    for name in ["", "web", "a longer rule name \u{e9}"] {
        let id = derive_rule_id(name, &AlertCondition::UnknownProcessListening);
        assert!(!id.is_empty() && id.len() <= 16);
        assert!(id.chars().all(|c| c.is_ascii_digit() || ('a'..='f').contains(&c)));
    }
}

fn json_object(ty: &str, params: Option<Vec<(&str, serde_json::Value)>>) -> serde_json::Value {
    let mut m = serde_json::Map::new();
    m.insert("type".to_string(), serde_json::Value::String(ty.to_string()));
    if let Some(ps) = params {
        let mut p = serde_json::Map::new();
        for (k, v) in ps {
            p.insert(k.to_string(), v);
        }
        m.insert("params".to_string(), serde_json::Value::Object(p));
    }
    serde_json::Value::Object(m)
}

#[test]
fn condition_json_reads_back_as_serde_json_values() {
    let cases = vec![
        (
            AlertCondition::PortClosed { port: 443 },
            json_object("PortClosed", Some(vec![("port", Value::Number(Number::from(443)))])),
        ),
        (
            AlertCondition::ProcessMemoryThreshold { process_pattern: "ja\\va\"".to_string(), threshold_mb: 2048 },
            json_object(
                "ProcessMemoryThreshold",
                Some(vec![
                    ("process_pattern", Value::String("ja\\va\"".to_string())),
                    ("threshold_mb", Value::Number(Number::from(2048u64))),
                ]),
            ),
        ),
        (
            AlertCondition::ProcessCpuThreshold { process_pattern: "x".to_string(), threshold_percent: pct(12.5) },
            json_object(
                "ProcessCpuThreshold",
                Some(vec![
                    ("process_pattern", Value::String("x".to_string())),
                    ("threshold_percent", serde_json::to_value(12.5f32).unwrap()),
                ]),
            ),
        ),
        (AlertCondition::UnknownProcessListening, json_object("UnknownProcessListening", None)),
    ];
    for (c, want) in cases {
        let text = condition_to_json(&c);
        let got: Value = serde_json::from_str(&text).unwrap();
        assert_eq!(got, want);
        assert!(text.starts_with("{\"type\":"));
    }
}

#[test]
fn rules_sharing_an_id_fire_once_per_cycle() {
    let mut m = AlertManager::new();
    m.set_rules(vec![
        rule("dup", AlertCondition::PortOpened { port: 1 }, true, 60),
        rule("dup", AlertCondition::PortOpened { port: 2 }, true, 60),
    ]);
    let prev: Vec<PortRecord> = Vec::new();
    let cur = vec![rec(1, None, None, None), rec(2, None, None, None)];
    let fired = run_alert_cycle(&mut m, &prev, &cur, &HashMap::new(), &HashMap::new());
    assert_eq!(fired.len(), 1);
    assert_eq!(fired[0].message, "Port 1 opened by unknown");
}

#[test]
fn notification_body_truncation() {
    let short = "a".repeat(800);
    assert_eq!(truncate_for_notification(&short), short);
    let long = "é".repeat(801);
    let t = truncate_for_notification(&long);
    assert_eq!(t.chars().count(), 800);
    assert!(t.ends_with('\u{2026}'));
    assert_eq!(t.chars().take(799).collect::<String>(), "é".repeat(799));
}

#[test]
fn applescript_quoting() {
    assert_eq!(applescript_string_literal("plain"), "\"plain\"");
    assert_eq!(applescript_string_literal("say \"hi\" \\o/"), "\"say \\\"hi\\\" \\\\o/\"");
    assert_eq!(
        osascript_program("T", "B\""),
        "display notification \"B\\\"\" with title \"T\""
    );
}

#[test]
fn osascript_error_cleanup() {
    assert_eq!(osascript_error_text("  osascript: osascript: boom \n"), "boom");
    assert_eq!(osascript_error_text("execution error"), "execution error");
    assert_eq!(osascript_error_text(" \n"), "");
}

#[test]
fn notification_content_by_severity() {
    let a = Alert {
        rule_id: "r".to_string(),
        message: "Port 1 closed".to_string(),
        severity: AlertSeverity::Critical,
        timestamp: Timestamp { secs: 0, nanos: 0 },
    };
    assert!(Notifier::new(false).notification_for(&a).is_none());
    let n = Notifier::default().notification_for(&a).unwrap();
    assert_eq!(n.summary, "PortWatch - Critical");
    assert_eq!(n.body, "Port 1 closed");
    assert_eq!(n.urgency, Urgency::Critical);
    assert_eq!(Notifier::summary(AlertSeverity::Info), "PortWatch - Info");
    assert_eq!(Notifier::urgency(AlertSeverity::Warning), Urgency::Normal);
    assert!(Notifier::new(true).is_enabled());
}

#[test]
fn alert_cycle_fires_enabled_rules_once_per_cooldown() {
    let mut m = AlertManager::new();
    m.set_rules(vec![
        rule("open", AlertCondition::PortOpened { port: 8080 }, true, 3600),
        rule("off", AlertCondition::PortOpened { port: 8080 }, false, 0),
        rule("reserved", AlertCondition::UnknownProcessListening, true, 0),
    ]);
    let prev: Vec<PortRecord> = Vec::new();
    let cur = vec![rec(8080, Some(1), Some("node"), None)];
    let cpu = HashMap::new();
    let mem = HashMap::new();
    let fired = run_alert_cycle(&mut m, &prev, &cur, &cpu, &mem);
    assert_eq!(fired.len(), 1);
    assert_eq!(fired[0].rule_id, "open");
    assert_eq!(fired[0].message, "Port 8080 opened by node");
    assert_eq!(m.get_recent_alerts(10).len(), 1);
    let again = run_alert_cycle(&mut m, &prev, &cur, &cpu, &mem);
    assert!(again.is_empty());
}

#[test]
fn alert_new_stamps_current_time() {
    let a = Alert::new("id".to_string(), "msg".to_string(), AlertSeverity::Info);
    assert_eq!(a.rule_id, "id");
    assert_eq!(a.message, "msg");
    assert!(a.timestamp.secs > 1_600_000_000);
    assert!(a.timestamp.nanos < 1_000_000_000);
    let d = a.duplicate();
    assert_eq!(d.timestamp, a.timestamp);
}

#[test]
fn config_file_location_choice() {
    assert_eq!(config_location(Some(true), Some(true)), Some(ConfigLocation::Canonical));
    assert_eq!(config_location(Some(false), Some(true)), Some(ConfigLocation::Legacy));
    assert_eq!(config_location(Some(false), Some(false)), Some(ConfigLocation::Canonical));
    assert_eq!(config_location(None, Some(false)), Some(ConfigLocation::Legacy));
    assert_eq!(config_location(None, Some(true)), Some(ConfigLocation::Legacy));
    assert_eq!(config_location(Some(false), None), Some(ConfigLocation::Canonical));
    assert_eq!(config_location(None, None), None);
}

#[test]
fn fired_alert_carries_the_cooldown_reading() {
    let mut m = AlertManager::new();
    m.set_rules(vec![rule("open", AlertCondition::PortOpened { port: 22 }, true, 60)]);
    let prev: Vec<PortRecord> = Vec::new();
    let cur = vec![rec(22, None, Some("sshd"), None)];
    let fired = run_alert_cycle(&mut m, &prev, &cur, &HashMap::new(), &HashMap::new());
    assert_eq!(fired.len(), 1);
    let recent = m.get_recent_alerts(10);
    assert_eq!(recent.len(), 1);
    assert_eq!(recent[0].timestamp, fired[0].timestamp);
    assert!(fired[0].timestamp.secs > 1_600_000_000);
    assert!(!m.can_trigger_at("open", 60, fired[0].timestamp));
    assert!(m.can_trigger_at(
        "open",
        60,
        Timestamp { secs: fired[0].timestamp.secs + 60, nanos: fired[0].timestamp.nanos }
    ));
}

#[test]
fn quiet_cycle_leaves_history_alone() {
    let mut m = AlertManager::new();
    m.set_rules(vec![rule("open", AlertCondition::PortOpened { port: 22 }, true, 60)]);
    let cur = vec![rec(22, None, None, None)];
    let fired = run_alert_cycle(&mut m, &cur, &cur, &HashMap::new(), &HashMap::new());
    assert!(fired.is_empty());
    assert!(m.get_recent_alerts(10).is_empty());
    assert!(m.can_trigger("open", 60));
}

#[test]
fn macos_send_falls_back_and_joins_errors() {
    assert_eq!(after_osascript(Ok(())), Some(Ok(())));
    assert_eq!(after_osascript(Err("boom".to_string())), None);
    assert_eq!(after_fallback("boom", Ok(())), Ok(()));
    assert_eq!(
        after_fallback("boom", Err("no bus".to_string())),
        Err("osascript: boom; notify-rust: no bus".to_string())
    );
}
