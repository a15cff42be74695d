use std::collections::HashMap;

use portwatch::backends::common::{dedup_records, ProcessInfo};
use portwatch::backends::linux::{
    inode_owner_map, parse_hex_addr, parse_proc_net, parse_proc_pid, parse_socket_inode,
    parse_tcp_state, try_parse_proc_net,
};
use portwatch::backends::macos::parse_lsof_output;
use portwatch::backends::windows::{parse_address, parse_netstat_output, parse_state};
use portwatch::backends::{stop_signal, StopSignal};
use portwatch::models::{ConnectionState, PortRecord, Protocol};
use portwatch::text::chars_of;

fn info(name: &str) -> ProcessInfo {
    ProcessInfo {
        name: name.to_string(),
        exe: Some(format!("/usr/bin/{}", name)),
        cmdline: vec![name.to_string(), "--serve".to_string()],
        user: Some("1000".to_string()),
    }
}

const PROC_NET_TCP: &str = "  sl  local_address rem_address   st tx_queue rx_queue tr tm->when retrnsmt   uid  timeout inode\n   0: 0100007F:0CEA 00000000:0000 0A 00000000:00000000 00:00000000 00000000  1000        0 12345 1 0000000000000000 100 0 0 10 0\n   1: 0F02000A:C350 08080808:01BB 01 00000000:00000000 00:00000000 00000000  1000        0 999 1 0000000000000000 20 4 30 10 -1\n   2: short line\n";

#[test]
fn proc_net_tcp_lines_become_records() {
    let mut inodes = HashMap::new();
    inodes.insert(12345u64, 77u32);
    let mut procs = HashMap::new();
    procs.insert(77u32, info("mysqld"));
    let recs = parse_proc_net(PROC_NET_TCP, Protocol::Tcp, &inodes, &procs);
    assert_eq!(recs.len(), 2);
    let a = &recs[0];
    assert_eq!(a.local_addr, "127.0.0.1");
    assert_eq!(a.local_port, 3306);
    assert_eq!(a.remote_addr.as_deref(), Some("0.0.0.0"));
    assert_eq!(a.remote_port, Some(0));
    assert_eq!(a.state, ConnectionState::Listen);
    assert_eq!(a.pid, Some(77));
    assert_eq!(a.process_name.as_deref(), Some("mysqld"));
    assert_eq!(a.exe.as_deref(), Some("/usr/bin/mysqld"));
    assert_eq!(a.cmdline, vec!["mysqld".to_string(), "--serve".to_string()]);
    assert_eq!(a.user.as_deref(), Some("1000"));
    let b = &recs[1];
    assert_eq!(b.local_addr, "10.0.2.15");
    assert_eq!(b.local_port, 50000);
    assert_eq!(b.remote_addr.as_deref(), Some("8.8.8.8"));
    assert_eq!(b.remote_port, Some(443));
    assert_eq!(b.state, ConnectionState::Established);
    assert_eq!(b.pid, None);
    assert_eq!(b.process_name, None);
}

#[test]
fn proc_net_udp_records_listen() {
    let inodes = HashMap::new();
    let procs = HashMap::new();
    let recs = parse_proc_net(PROC_NET_TCP, Protocol::Udp, &inodes, &procs);
    assert_eq!(recs.len(), 2);
    assert_eq!(recs[1].state, ConnectionState::Listen);
    assert_eq!(recs[1].protocol, Protocol::Udp);
}

#[test]
fn proc_net_safety_check() {
    let inodes = HashMap::new();
    let procs = HashMap::new();
    // The pair at bytes 2..4 would start inside `é`.
    let bad = "header\n 0: 0\u{e9}00000:0CEA 00000000:0000 0A a b c d e 1\n";
    assert!(try_parse_proc_net(bad, Protocol::Tcp, &inodes, &procs).is_none());
    // `é` fills the last pair, which is no hexadecimal byte: the address reads as unknown.
    let odd = "header\n 0: 010000\u{e9}:0CEA 00000000:0000 0A a b c d e 1\n";
    let recs = try_parse_proc_net(odd, Protocol::Tcp, &inodes, &procs).unwrap();
    assert_eq!(recs.len(), 1);
    assert_eq!(recs[0].local_addr, "0.0.0.0");
    assert_eq!(recs[0].local_port, 0);
    assert!(try_parse_proc_net(PROC_NET_TCP, Protocol::Tcp, &inodes, &procs).is_some());
}

#[test]
fn hex_addresses_and_states() {
    assert_eq!(parse_hex_addr(&chars_of("0100007F:1F90")), Some(("127.0.0.1".to_string(), 8080)));
    assert_eq!(
        parse_hex_addr(&chars_of("00000000000000000000000000000000:0016")),
        Some(("::".to_string(), 22))
    );
    assert_eq!(parse_hex_addr(&chars_of("0100007F")), None);
    assert_eq!(parse_hex_addr(&chars_of("0100007F:ZZ")), None);
    assert_eq!(parse_hex_addr(&chars_of("0100007G:0016")), None);
    assert_eq!(parse_hex_addr(&chars_of("a:b:c")), None);
    assert_eq!(parse_hex_addr(&chars_of("+100007F:0016")), Some(("127.0.0.1".to_string(), 22)));
    assert_eq!(parse_hex_addr(&chars_of("abc:0016")), Some(("::".to_string(), 22)));
    assert_eq!(parse_tcp_state(&chars_of("01")), ConnectionState::Established);
    assert_eq!(parse_tcp_state(&chars_of("06")), ConnectionState::TimeWait);
    assert_eq!(parse_tcp_state(&chars_of("0A")), ConnectionState::Listen);
    assert_eq!(parse_tcp_state(&chars_of("0B")), ConnectionState::Closing);
    assert_eq!(parse_tcp_state(&chars_of("0a")), ConnectionState::Unknown);
}

#[test]
fn socket_links_map_inodes_to_owners() {
    assert_eq!(parse_socket_inode("socket:[123]"), Some(123));
    assert_eq!(parse_socket_inode("socket:[+7]"), Some(7));
    assert_eq!(parse_socket_inode("socket:[]"), None);
    assert_eq!(parse_socket_inode("socket:["), None);
    assert_eq!(parse_socket_inode("pipe:[5]"), None);
    assert_eq!(parse_socket_inode("socket:[12a]"), None);
    let links = vec![
        (10u32, "socket:[123]".to_string()),
        (11, "pipe:[5]".to_string()),
        (12, "socket:[123]".to_string()),
        (13, "socket:[7]".to_string()),
        (14, "socket:[]".to_string()),
    ];
    let m = inode_owner_map(&links);
    assert_eq!(m.len(), 2);
    assert_eq!(m.get(&123), Some(&12));
    assert_eq!(m.get(&7), Some(&13));
}

#[test]
fn proc_entries_that_are_pids() {
    assert_eq!(parse_proc_pid("1234"), Some(1234));
    assert_eq!(parse_proc_pid("self"), None);
    assert_eq!(parse_proc_pid("4294967296"), None);
    assert_eq!(parse_proc_pid("4294967295"), Some(4294967295));
}

const LSOF: &str = "COMMAND   PID USER   FD   TYPE DEVICE SIZE/OFF NODE NAME\nnode    12345 me   23u  IPv4 0x1234      0t0  TCP *:3000 (LISTEN)\nChrome    678 me   30u  IPv4 0xabc       0t0  TCP 192.168.1.2:50000->142.250.0.1:443 (ESTABLISHED)\nmDNSResp  199 me    8u  IPv6 0xdef       0t0  UDP [::1]:5353\nodd       1 me 1u IPv4 0x1 0t0 ICMP *:0\n";

#[test]
fn lsof_output_becomes_records() {
    let mut procs = HashMap::new();
    procs.insert(12345u32, info("node"));
    let recs = parse_lsof_output(LSOF, &procs);
    assert_eq!(recs.len(), 3);
    assert_eq!(recs[0].process_name.as_deref(), Some("node"));
    assert_eq!(recs[0].pid, Some(12345));
    assert_eq!(recs[0].local_addr, "0.0.0.0");
    assert_eq!(recs[0].local_port, 3000);
    assert_eq!(recs[0].state, ConnectionState::Listen);
    assert_eq!(recs[0].exe.as_deref(), Some("/usr/bin/node"));
    assert_eq!(recs[1].local_addr, "192.168.1.2");
    assert_eq!(recs[1].local_port, 50000);
    assert_eq!(recs[1].remote_addr.as_deref(), Some("142.250.0.1"));
    assert_eq!(recs[1].remote_port, Some(443));
    assert_eq!(recs[1].state, ConnectionState::Established);
    assert_eq!(recs[1].exe, None);
    assert_eq!(recs[2].protocol, Protocol::Udp);
    assert_eq!(recs[2].local_addr, "::1");
    assert_eq!(recs[2].local_port, 5353);
    assert_eq!(recs[2].state, ConnectionState::Listen);
}

const NETSTAT: &str = "\r\nActive Connections\r\n\r\n  Proto  Local Address          Foreign Address        State           PID\r\n  TCP    0.0.0.0:135            0.0.0.0:0              LISTENING       1000\r\n  TCP    [::]:445               [::]:0                 LISTENING       4\r\n  UDP    0.0.0.0:5353           *:*                                    2000\r\n  TCP    10.0.0.2:50000         1.2.3.4:443            ESTABLISHED\r\n  XYZ    a b c\r\n";

#[test]
fn netstat_output_becomes_records() {
    let mut procs = HashMap::new();
    procs.insert(1000u32, info("svchost"));
    let recs = parse_netstat_output(NETSTAT, &procs);
    assert_eq!(recs.len(), 4);
    assert_eq!(recs[0].local_port, 135);
    assert_eq!(recs[0].pid, Some(1000));
    assert_eq!(recs[0].process_name.as_deref(), Some("svchost"));
    assert_eq!(recs[0].state, ConnectionState::Listen);
    assert_eq!(recs[1].local_addr, "::");
    assert_eq!(recs[1].remote_addr.as_deref(), Some("::"));
    assert_eq!(recs[1].pid, Some(4));
    assert_eq!(recs[1].process_name, None);
    assert_eq!(recs[2].protocol, Protocol::Udp);
    assert_eq!(recs[2].pid, Some(2000));
    assert_eq!(recs[2].remote_addr, None);
    assert_eq!(recs[2].state, ConnectionState::Listen);
    assert_eq!(recs[3].state, ConnectionState::Established);
    assert_eq!(recs[3].pid, None);
}

#[test]
fn netstat_fields() {
    assert_eq!(parse_address(&chars_of("[::1]:80")), ("::1".to_string(), 80));
    assert_eq!(parse_address(&chars_of("1.2.3.4:x")), ("1.2.3.4".to_string(), 0));
    assert_eq!(parse_address(&chars_of("nocolon")), ("0.0.0.0".to_string(), 0));
    assert_eq!(parse_state(&chars_of("TIME_WAIT")), ConnectionState::TimeWait);
    assert_eq!(parse_state(&chars_of("SYN_RECEIVED")), ConnectionState::SynRecv);
    assert_eq!(parse_state(&chars_of("listening")), ConnectionState::Unknown);
}

fn simple(port: u16, pid: Option<u32>) -> PortRecord {
    PortRecord {
        protocol: Protocol::Tcp,
        local_addr: "0.0.0.0".to_string(),
        local_port: port,
        remote_addr: Some("1.1.1.1".to_string()),
        remote_port: Some(1),
        state: ConnectionState::Listen,
        pid,
        process_name: None,
        exe: None,
        cmdline: Vec::new(),
        user: None,
    }
}

#[test]
fn dedup_removes_exact_duplicates_only() {
    let mut second = simple(80, Some(1));
    second.remote_addr = Some("2.2.2.2".to_string());
    let recs = vec![simple(80, Some(1)), second, simple(80, Some(2)), simple(81, Some(1))];
    let out = dedup_records(recs);
    assert_eq!(out.len(), 3);
    assert_eq!(out[0].remote_addr.as_deref(), Some("1.1.1.1"));
    assert_eq!(out[1].pid, Some(2));
    assert_eq!(out[2].local_port, 81);
    let again = dedup_records(out);
    assert_eq!(again.len(), 3);
}

#[test]
fn stop_signals() {
    assert_eq!(stop_signal(true), StopSignal::Terminate);
    assert_eq!(stop_signal(false), StopSignal::Kill);
}
