use portwatch::alerts::models::Percent;
use portwatch::models::{format_uptime_at, env_preview, ConnectionState, PortRecord, ProcessDetails, Protocol};
use portwatch::text::{
    chars_of, decimal_string, hex_string, lines, parse_number, split_whitespace, string_of,
    trimmed, utf8_length,
};

fn record(port: u16, name: Option<&str>, proto: Protocol, state: ConnectionState) -> PortRecord {
    PortRecord {
        protocol: proto,
        local_addr: "127.0.0.1".to_string(),
        local_port: port,
        remote_addr: None,
        remote_port: None,
        state,
        pid: Some(42),
        process_name: name.map(|s| s.to_string()),
        exe: None,
        cmdline: Vec::new(),
        user: None,
    }
}

fn texts(v: &[Vec<char>]) -> Vec<String> {
    v.iter().map(|c| c.iter().collect()).collect()
}

#[test]
fn decimal_and_hex_rendering() {
    assert_eq!(decimal_string(0), "0");
    assert_eq!(decimal_string(8080), "8080");
    assert_eq!(decimal_string(u64::MAX), "18446744073709551615");
    assert_eq!(hex_string(255), "ff");
    assert_eq!(hex_string(0), "0");
    assert_eq!(hex_string(0xdead_beef), "deadbeef");
}

#[test]
fn whitespace_splitting_matches_std() {
    let s = "  sl  local_address\trem_address \n st ";
    let got = texts(&split_whitespace(&chars_of(s)));
    let want: Vec<String> = s.split_whitespace().map(|w| w.to_string()).collect();
    assert_eq!(got, want);
    assert!(split_whitespace(&chars_of("   ")).is_empty());
}

#[test]
fn lines_split_like_std() {
    let s = "header\r\nfirst\nsecond\n";
    let got = texts(&lines(&chars_of(s)));
    let want: Vec<String> = s.lines().map(|l| l.to_string()).collect();
    assert_eq!(got, want);
}

#[test]
fn trimming_and_number_parsing() {
    assert_eq!(string_of(&trimmed(&chars_of("  42 \t"))), "42");
    assert_eq!(parse_number(&chars_of("42"), 10, 65535), Some(42));
    assert_eq!(parse_number(&chars_of("+42"), 10, 65535), Some(42));
    assert_eq!(parse_number(&chars_of("+"), 10, 65535), None);
    assert_eq!(parse_number(&chars_of(""), 10, 65535), None);
    assert_eq!(parse_number(&chars_of("65536"), 10, 65535), None);
    assert_eq!(parse_number(&chars_of("0A"), 16, 65535), Some(10));
    assert_eq!(parse_number(&chars_of("1F90"), 16, 65535), Some(8080));
    assert_eq!(parse_number(&chars_of("-1"), 10, 65535), None);
    assert_eq!(parse_number(&chars_of("12a"), 10, 65535), None);
}

#[test]
fn utf8_length_counts_bytes() {
    assert_eq!(utf8_length(&chars_of("abc")), 3);
    assert_eq!(utf8_length(&chars_of("é€😀")), "é€😀".len() as u64);
}

#[test]
fn protocol_and_state_texts() {
    assert_eq!(Protocol::Tcp.to_string(), "TCP");
    assert_eq!(Protocol::Udp.to_string(), "UDP");
    assert_eq!(ConnectionState::Listen.to_string(), "LISTEN");
    assert_eq!(ConnectionState::FinWait1.to_string(), "FIN_WAIT1");
    assert_eq!(ConnectionState::CloseWait.to_string(), "CLOSE_WAIT");
    assert_eq!(ConnectionState::Unknown.to_string(), "UNKNOWN");
}

#[test]
fn filter_matches_port_name_protocol_and_state() {
    let r = record(3000, Some("node"), Protocol::Tcp, ConnectionState::Listen);
    assert!(r.matches_filter(""));
    assert!(r.matches_filter("3000"));
    assert!(r.matches_filter("NODE"));
    assert!(r.matches_filter("no"));
    assert!(r.matches_filter("tcp"));
    assert!(r.matches_filter("listen"));
    assert!(r.matches_filter("LIST"));
    assert!(!r.matches_filter("udp"));
    assert!(!r.matches_filter("300"));
    assert!(!r.matches_filter("python"));
    assert!(!r.matches_filter("70000"));
    let upper = record(8080, Some("NGINX"), Protocol::Tcp, ConnectionState::Established);
    assert!(upper.matches_filter("nginx"));
    assert!(upper.matches_filter("Established"));
}

#[test]
fn shorter_filter_keeps_record() {
    let r = record(3000, Some("nodejs"), Protocol::Tcp, ConnectionState::Established);
    let full = "NodeJ";
    assert!(r.matches_filter(full));
    for k in 0..full.len() {
        assert!(r.matches_filter(&full[..k]));
    }
    assert!(r.matches_filter("ESTAB"));
    assert!(r.matches_filter("EST"));
}

#[test]
fn filter_on_record_without_process_name() {
    let r = record(53, None, Protocol::Udp, ConnectionState::Listen);
    assert!(r.matches_filter("53"));
    assert!(r.matches_filter("udp"));
    assert!(!r.matches_filter("unknown"));
}

#[test]
fn uptime_formats() {
    assert_eq!(format_uptime_at(None, 1000), "Unknown");
    assert_eq!(format_uptime_at(Some(1000), 1042), "42s");
    assert_eq!(format_uptime_at(Some(1000), 1000 + 125), "2m 5s");
    assert_eq!(format_uptime_at(Some(0), 3 * 3600 + 7 * 60 + 9), "3h 7m");
    assert_eq!(format_uptime_at(Some(2000), 1000), "0s");
}

#[test]
fn environment_preview_keeps_first_ten_entries_with_equals() {
    let mut entries: Vec<Option<String>> = vec![
        Some("PATH=/usr/bin".to_string()),
        None,
        Some("NOEQUALS".to_string()),
        Some("A=b=c".to_string()),
    ];
    for i in 0..10 {
        entries.push(Some(format!("K{}=v", i)));
    }
    let p = env_preview(&entries);
    let want: Vec<(String, String)> = vec![
        ("PATH".to_string(), "/usr/bin".to_string()),
        ("A".to_string(), "b=c".to_string()),
        ("K0".to_string(), "v".to_string()),
        ("K1".to_string(), "v".to_string()),
        ("K2".to_string(), "v".to_string()),
        ("K3".to_string(), "v".to_string()),
        ("K4".to_string(), "v".to_string()),
        ("K5".to_string(), "v".to_string()),
    ];
    assert_eq!(p, want);
}

#[test]
fn uptime_by_the_system_clock() {
    let mut d = ProcessDetails {
        pid: 1,
        parent_pid: None,
        name: "init".to_string(),
        exe: None,
        cwd: None,
        memory_bytes: 0,
        cpu_percent: Percent {
            bits: 0f32.to_bits(),
            text: "0".to_string(),
            one_decimal: "0.0".to_string(),
            json: "0.0".to_string(),
        },
        start_time: None,
        cmdline: Vec::new(),
        env_preview: Vec::new(),
        user: None,
    };
    assert_eq!(d.format_uptime(), "Unknown");
    d.start_time = Some(0);
    let up = d.format_uptime();
    assert!(up.ends_with('m') && up.contains("h "));
    d.start_time = Some(u64::MAX);
    assert_eq!(d.format_uptime(), "0s");
}
