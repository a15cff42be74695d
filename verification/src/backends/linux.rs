//! The Linux connection tables under `/proc/net` (`tcp`, `tcp6`, `udp`, `udp6`).

use vstd::prelude::*;
use std::collections::HashMap;
use vstd::utf8::{encode_utf8, is_char_boundary};
use crate::models::{state_text, ConnectionState, PortRecord, Protocol};
use crate::text::{
    chars_are, chars_of, decimal, decimal_string, lines, parse_number, parse_unsigned,
    split_at_char, split_fields, split_whitespace, sub_chars, text_lines, views, ws_tokens,
};
use super::common::{
    clone_opt, clone_strings, info_views, record_views, text_of, PortRecordView, ProcessInfo,
    ProcessInfoView,
};

verus! {

broadcast use vstd::std_specs::hash::group_hash_axioms;

/// The state that a `/proc/net/tcp` state code stands for.
pub open spec fn tcp_state(s: Seq<char>) -> ConnectionState {
    if s == "01"@ {
        ConnectionState::Established
    } else if s == "02"@ {
        ConnectionState::SynSent
    } else if s == "03"@ {
        ConnectionState::SynRecv
    } else if s == "04"@ {
        ConnectionState::FinWait1
    } else if s == "05"@ {
        ConnectionState::FinWait2
    } else if s == "06"@ {
        ConnectionState::TimeWait
    } else if s == "07"@ {
        ConnectionState::Close
    } else if s == "08"@ {
        ConnectionState::CloseWait
    } else if s == "09"@ {
        ConnectionState::LastAck
    } else if s == "0A"@ {
        ConnectionState::Listen
    } else if s == "0B"@ {
        ConnectionState::Closing
    } else {
        ConnectionState::Unknown
    }
}

/// Reads a `/proc/net/tcp` state code.
pub fn parse_tcp_state(state: &Vec<char>) -> (s: ConnectionState)
    ensures
        s == tcp_state(state@),
{
    if chars_are(state, "01") {
        ConnectionState::Established
    } else if chars_are(state, "02") {
        ConnectionState::SynSent
    } else if chars_are(state, "03") {
        ConnectionState::SynRecv
    } else if chars_are(state, "04") {
        ConnectionState::FinWait1
    } else if chars_are(state, "05") {
        ConnectionState::FinWait2
    } else if chars_are(state, "06") {
        ConnectionState::TimeWait
    } else if chars_are(state, "07") {
        ConnectionState::Close
    } else if chars_are(state, "08") {
        ConnectionState::CloseWait
    } else if chars_are(state, "09") {
        ConnectionState::LastAck
    } else if chars_are(state, "0A") {
        ConnectionState::Listen
    } else if chars_are(state, "0B") {
        ConnectionState::Closing
    } else {
        ConnectionState::Unknown
    }
}

/// The bytes `b[from..from+2]` of an address read as a hexadecimal byte
/// (`u8::from_str_radix`): both bytes are ASCII and spell such a number.
pub open spec fn hex_byte_at(b: Seq<u8>, from: int) -> Option<nat> {
    if b[from] < 128 && b[from + 1] < 128 {
        parse_unsigned(seq![b[from] as char, b[from + 1] as char], 16, 255)
    } else {
        None
    }
}

/// An address `AAAAAAAA:PPPP` of the table: the port in hexadecimal, and an IPv4
/// address as eight bytes of hexadecimal digits in little-endian byte order, written
/// in dotted decimal; an address of another length is shown as `::`.
pub open spec fn hex_addr(tok: Seq<char>) -> Option<(Seq<char>, u16)> {
    let parts = split_fields(tok, ':');
    if parts.len() != 2 {
        None
    } else {
        match parse_unsigned(parts[1], 16, 65535) {
            None => None,
            Some(port) => {
                let b = encode_utf8(parts[0]);
                if b.len() == 8 {
                    match (hex_byte_at(b, 6), hex_byte_at(b, 4), hex_byte_at(b, 2), hex_byte_at(b, 0)) {
                        (Some(b0), Some(b1), Some(b2), Some(b3)) => Some(
                            (
                                decimal(b0) + seq!['.'] + decimal(b1) + seq!['.'] + decimal(b2)
                                    + seq!['.'] + decimal(b3),
                                port as u16,
                            ),
                        ),
                        _ => None,
                    }
                } else {
                    Some(("::"@, port as u16))
                }
            },
        }
    }
}

/// Reading an address slices its eight bytes in pairs from the end, stopping at the
/// first pair that is no hexadecimal byte: every slice it takes starts between two
/// characters.
pub open spec fn hex_addr_safe(tok: Seq<char>) -> bool {
    let parts = split_fields(tok, ':');
    let b = encode_utf8(parts[0]);
    parts.len() == 2 && parse_unsigned(parts[1], 16, 65535) is Some && b.len() == 8 ==> {
        &&& is_char_boundary(b, 6)
        &&& (hex_byte_at(b, 6) is Some ==> is_char_boundary(b, 4))
        &&& (hex_byte_at(b, 6) is Some && hex_byte_at(b, 4) is Some ==> is_char_boundary(b, 2))
    }
}

fn hex_pair(b: &[u8], from: usize) -> (r: Option<u64>)
    requires
        from + 2 <= b@.len(),
    ensures
        match r {
            Some(v) => hex_byte_at(b@, from as int) == Some(v as nat),
            None => hex_byte_at(b@, from as int) is None,
        },
{
    let hi = b[from];
    let lo = b[from + 1];
    if hi < 128 && lo < 128 {
        let mut pair: Vec<char> = Vec::new();
        pair.push(hi as char);
        pair.push(lo as char);
        assert(pair@ =~= seq![b@[from as int] as char, b@[from + 1] as char]);
        parse_number(&pair, 16, 255)
    } else {
        None
    }
}

/// Reads an address of the table.
pub fn parse_hex_addr(hex: &Vec<char>) -> (r: Option<(String, u16)>)
    requires
        hex_addr_safe(hex@),
    ensures
        match r {
            Some((a, p)) => hex_addr(hex@) == Some((a@, p)),
            None => hex_addr(hex@) is None,
        },
{
    let parts = split_at_char(hex, ':');
    if parts.len() != 2 {
        return None;
    }
    assert(parts@[1]@ == split_fields(hex@, ':')[1]);
    assert(parts@[0]@ == split_fields(hex@, ':')[0]);
    let port = match parse_number(&parts[1], 16, 65535) {
        Some(p) => p as u16,
        None => return None,
    };
    let addr_text = text_of(&parts[0]);
    let bytes = addr_text.as_str().as_bytes();
    if bytes.len() == 8 {
        let a = hex_pair(bytes, 6);
        let b = hex_pair(bytes, 4);
        let c = hex_pair(bytes, 2);
        let d = hex_pair(bytes, 0);
        match (a, b, c, d) {
            (Some(a), Some(b), Some(c), Some(d)) => {
                let mut s = decimal_string(a);
                s.append(".");
                s.append(decimal_string(b).as_str());
                s.append(".");
                s.append(decimal_string(c).as_str());
                s.append(".");
                s.append(decimal_string(d).as_str());
                proof {
                    reveal_strlit(".");
                }
                assert(s@ =~= decimal(a as nat) + seq!['.'] + decimal(b as nat) + seq!['.'] + decimal(
                    c as nat,
                ) + seq!['.'] + decimal(d as nat));
                Some((s, port))
            },
            _ => None,
        }
    } else {
        Some((String::from_str("::"), port))
    }
}

/// The process of a pid, when the process table knows it.
pub open spec fn lookup_process(pid: Option<u32>, procs: Map<u32, ProcessInfoView>) -> Option<ProcessInfoView> {
    match pid {
        Some(p) => if procs.contains_key(p) {
            Some(procs[p])
        } else {
            None
        },
        None => None,
    }
}

/// An address of the table, or `0.0.0.0` port 0 when it cannot be read.
pub open spec fn addr_or_default(tok: Seq<char>) -> (Seq<char>, u16) {
    match hex_addr(tok) {
        Some(x) => x,
        None => ("0.0.0.0"@, 0),
    }
}

/// The record of one line of the table, given its whitespace-separated fields:
/// local and remote address, state code, and the socket's inode in the tenth field,
/// which leads to the owning pid and from there to the process.
pub open spec fn proc_net_record(
    toks: Seq<Seq<char>>,
    protocol: Protocol,
    inodes: Map<u64, u32>,
    procs: Map<u32, ProcessInfoView>,
) -> PortRecordView {
    let local = addr_or_default(toks[1]);
    let remote = addr_or_default(toks[2]);
    let inode = parse_unsigned(toks[9], 10, u64::MAX as nat);
    let pid = match inode {
        Some(i) => if inodes.contains_key(i as u64) {
            Some(inodes[i as u64])
        } else {
            None
        },
        None => None,
    };
    let info = lookup_process(pid, procs);
    PortRecordView {
        protocol,
        local_addr: local.0,
        local_port: local.1,
        remote_addr: Some(remote.0),
        remote_port: Some(remote.1),
        state: if protocol == Protocol::Tcp {
            tcp_state(toks[3])
        } else {
            ConnectionState::Listen
        },
        pid,
        process_name: match info {
            Some(p) => Some(p.name),
            None => None,
        },
        exe: match info {
            Some(p) => p.exe,
            None => None,
        },
        cmdline: match info {
            Some(p) => p.cmdline,
            None => seq![],
        },
        user: match info {
            Some(p) => p.user,
            None => None,
        },
    }
}

/// The records of the lines of a table: the header line is skipped, and so is every
/// line of fewer than ten fields.
pub open spec fn proc_net_records(
    ls: Seq<Seq<char>>,
    protocol: Protocol,
    inodes: Map<u64, u32>,
    procs: Map<u32, ProcessInfoView>,
) -> Seq<PortRecordView>
    decreases ls.len(),
{
    if ls.len() <= 1 {
        seq![]
    } else {
        let prev = proc_net_records(ls.drop_last(), protocol, inodes, procs);
        let t = ws_tokens(ls.last());
        if t.len() < 10 {
            prev
        } else {
            prev.push(proc_net_record(t, protocol, inodes, procs))
        }
    }
}

/// Every record line has addresses that can be read without slicing inside a character.
pub open spec fn proc_net_safe(content: Seq<char>) -> bool {
    let ls = text_lines(content);
    forall|i: int|
        1 <= i < ls.len() ==> {
            let t = #[trigger] ws_tokens(ls[i]);
            t.len() >= 10 ==> hex_addr_safe(t[1]) && hex_addr_safe(t[2])
        }
}

fn addr_or_default_exec(tok: &Vec<char>) -> (r: (String, u16))
    requires
        hex_addr_safe(tok@),
    ensures
        (r.0@, r.1) == addr_or_default(tok@),
{
    match parse_hex_addr(tok) {
        Some(x) => x,
        None => (String::from_str("0.0.0.0"), 0),
    }
}

fn record_from_tokens(
    toks: &Vec<Vec<char>>,
    protocol: Protocol,
    inode_map: &HashMap<u64, u32>,
    processes: &HashMap<u32, ProcessInfo>,
) -> (r: PortRecord)
    requires
        toks@.len() >= 10,
        hex_addr_safe(toks@[1]@),
        hex_addr_safe(toks@[2]@),
    ensures
        r@ == proc_net_record(views(toks@), protocol, inode_map@, info_views(processes@)),
{
    let ghost tv = views(toks@);
    let (local_addr, local_port) = addr_or_default_exec(&toks[1]);
    let (remote_addr, remote_port) = addr_or_default_exec(&toks[2]);
    let state = match protocol {
        Protocol::Tcp => parse_tcp_state(&toks[3]),
        Protocol::Udp => ConnectionState::Listen,
    };
    let pid = match parse_number(&toks[9], 10, u64::MAX) {
        Some(inode) => match inode_map.get(&inode) {
            Some(p) => Some(*p),
            None => None,
        },
        None => None,
    };
    let info = match pid {
        Some(p) => processes.get(&p),
        None => None,
    };
    let (process_name, exe, cmdline, user) = match info {
        Some(p) => (Some(p.name.clone()), clone_opt(&p.exe), clone_strings(&p.cmdline), clone_opt(&p.user)),
        None => (None, None, Vec::new(), None),
    };
    let r = PortRecord {
        protocol,
        local_addr,
        local_port,
        remote_addr: Some(remote_addr),
        remote_port: Some(remote_port),
        state,
        pid,
        process_name,
        exe,
        cmdline,
        user,
    };
    assert(tv[1] == toks@[1]@ && tv[2] == toks@[2]@ && tv[3] == toks@[3]@ && tv[9] == toks@[9]@);
    proof {
        if info is None {
            assert(r.cmdline@.map_values(|s: String| s@) =~= Seq::<Seq<char>>::empty());
        }
    }
    r
}

/// The records of a `/proc/net` table, given the owner pid of each socket inode and
/// the process table.
pub fn parse_proc_net(
    content: &str,
    protocol: Protocol,
    inode_map: &HashMap<u64, u32>,
    processes: &HashMap<u32, ProcessInfo>,
) -> (records: Vec<PortRecord>)
    requires
        proc_net_safe(content@),
    ensures
        record_views(records@) == proc_net_records(
            text_lines(content@),
            protocol,
            inode_map@,
            info_views(processes@),
        ),
{
    let all = lines(&chars_of(content));
    let ghost ls = views(all@);
    let mut records: Vec<PortRecord> = Vec::new();
    if all.len() == 0 {
        return records;
    }
    let mut i: usize = 1;
    while i < all.len()
        invariant
            1 <= i <= all@.len(),
            ls == views(all@),
            ls == text_lines(content@),
            proc_net_safe(content@),
            record_views(records@) == proc_net_records(
                ls.take(i as int),
                protocol,
                inode_map@,
                info_views(processes@),
            ),
        decreases all.len() - i,
    {
        let toks = split_whitespace(&all[i]);
        let ghost pre = ls.take(i as int);
        let ghost next = ls.take(i + 1);
        assert(next.drop_last() =~= pre);
        assert(next.last() == all@[i as int]@);
        let ghost t = ws_tokens(ls[i as int]);
        assert(views(toks@) == t);
        if toks.len() >= 10 {
            assert(t[1] == toks@[1]@ && t[2] == toks@[2]@);
            let r = record_from_tokens(&toks, protocol, inode_map, processes);
            let ghost before = record_views(records@);
            records.push(r);
            assert(record_views(records@) =~= before.push(r@));
        }
        i = i + 1;
    }
    assert(ls.take(all.len() as int) =~= ls);
    records
}

fn addr_is_safe(tok: &Vec<char>) -> (b: bool)
    ensures
        b == hex_addr_safe(tok@),
{
    let parts = split_at_char(tok, ':');
    if parts.len() != 2 {
        return true;
    }
    assert(parts@[1]@ == split_fields(tok@, ':')[1]);
    assert(parts@[0]@ == split_fields(tok@, ':')[0]);
    if parse_number(&parts[1], 16, 65535).is_none() {
        return true;
    }
    let text = text_of(&parts[0]);
    let s = text.as_str();
    let bytes = s.as_bytes();
    if bytes.len() != 8 {
        return true;
    }
    if !s.is_char_boundary(6) {
        return false;
    }
    if hex_pair(bytes, 6).is_none() {
        return true;
    }
    if !s.is_char_boundary(4) {
        return false;
    }
    if hex_pair(bytes, 4).is_none() {
        return true;
    }
    s.is_char_boundary(2)
}

/// Whether the addresses of every record line of a table can be read.
pub fn is_proc_net_safe(content: &str) -> (b: bool)
    ensures
        b == proc_net_safe(content@),
{
    let all = lines(&chars_of(content));
    let ghost ls = views(all@);
    let mut i: usize = 1;
    while i < all.len()
        invariant
            1 <= i,
            ls == views(all@),
            ls == text_lines(content@),
            forall|j: int|
                1 <= j < i && j < ls.len() ==> {
                    let t = #[trigger] ws_tokens(ls[j]);
                    t.len() >= 10 ==> hex_addr_safe(t[1]) && hex_addr_safe(t[2])
                },
        decreases all.len() - i,
    {
        let toks = split_whitespace(&all[i]);
        assert(views(toks@) == ws_tokens(ls[i as int]));
        if toks.len() >= 10 {
            assert(ws_tokens(ls[i as int])[1] == toks@[1]@);
            assert(ws_tokens(ls[i as int])[2] == toks@[2]@);
            if !addr_is_safe(&toks[1]) || !addr_is_safe(&toks[2]) {
                return false;
            }
        }
        i = i + 1;
    }
    true
}

/// The records of a `/proc/net` table, or `None` when an address of eight bytes is
/// not ASCII (reading it would slice inside a character).
pub fn try_parse_proc_net(
    content: &str,
    protocol: Protocol,
    inode_map: &HashMap<u64, u32>,
    processes: &HashMap<u32, ProcessInfo>,
) -> (r: Option<Vec<PortRecord>>)
    ensures
        match r {
            Some(records) => proc_net_safe(content@) && record_views(records@) == proc_net_records(
                text_lines(content@),
                protocol,
                inode_map@,
                info_views(processes@),
            ),
            None => !proc_net_safe(content@),
        },
{
    if is_proc_net_safe(content) {
        Some(parse_proc_net(content, protocol, inode_map, processes))
    } else {
        None
    }
}

/// The pid a `/proc` entry stands for: its name is a decimal `u32`.
pub open spec fn proc_pid(name: Seq<char>) -> Option<nat> {
    parse_unsigned(name, 10, u32::MAX as nat)
}

/// The pid of a `/proc` entry, if its name is one.
pub fn parse_proc_pid(name: &str) -> (r: Option<u32>)
    ensures
        match r {
            Some(p) => proc_pid(name@) == Some(p as nat),
            None => proc_pid(name@) is None,
        },
{
    match parse_number(&chars_of(name), 10, 4294967295) {
        Some(p) => Some(p as u32),
        None => None,
    }
}

/// The inode of the socket that a `/proc/<pid>/fd` link names: the link reads
/// `socket:[N]` with `N` a decimal `u64`.
pub open spec fn socket_inode(link: Seq<char>) -> Option<nat> {
    let pre = "socket:["@;
    if link.len() > pre.len() && link.take(pre.len() as int) == pre && link.last() == ']' {
        parse_unsigned(link.subrange(pre.len() as int, link.len() - 1), 10, u64::MAX as nat)
    } else {
        None
    }
}

/// The inode of the socket that a descriptor link names, if it names one.
pub fn parse_socket_inode(link: &str) -> (r: Option<u64>)
    ensures
        match r {
            Some(i) => socket_inode(link@) == Some(i as nat),
            None => socket_inode(link@) is None,
        },
{
    let chars = chars_of(link);
    let pre = chars_of("socket:[");
    proof {
        reveal_strlit("socket:[");
    }
    let n = chars.len();
    if n <= 8 || chars[n - 1] != ']' {
        return None;
    }
    let head = sub_chars(&chars, 0, 8);
    assert(head@ =~= link@.take(8));
    if !crate::text::same_chars(&head, &pre) {
        return None;
    }
    let digits = sub_chars(&chars, 8, n - 1);
    parse_number(&digits, 10, 18446744073709551615)
}

/// The owner of each socket inode, from `(pid, link)` pairs in the order the
/// descriptor links were read; a later link to the same inode wins.
pub open spec fn inode_owners(links: Seq<(u32, Seq<char>)>) -> Map<u64, u32>
    decreases links.len(),
{
    if links.len() == 0 {
        Map::empty()
    } else {
        let m = inode_owners(links.drop_last());
        match socket_inode(links.last().1) {
            Some(i) => m.insert(i as u64, links.last().0),
            None => m,
        }
    }
}

/// The texts of `(pid, link)` pairs.
pub open spec fn link_views(links: Seq<(u32, String)>) -> Seq<(u32, Seq<char>)> {
    links.map_values(|l: (u32, String)| (l.0, l.1@))
}

/// Maps socket inodes to the process that holds them, from the descriptor links of
/// processes.
pub fn inode_owner_map(links: &Vec<(u32, String)>) -> (m: HashMap<u64, u32>)
    ensures
        m@ == inode_owners(link_views(links@)),
{
    let mut m: HashMap<u64, u32> = HashMap::new();
    let mut i: usize = 0;
    while i < links.len()
        invariant
            i <= links@.len(),
            m@ == inode_owners(link_views(links@).take(i as int)),
        decreases links.len() - i,
    {
        let ghost lv = link_views(links@);
        assert(lv.take(i + 1).drop_last() =~= lv.take(i as int));
        assert(lv.take(i + 1).last() == (links@[i as int].0, links@[i as int].1@));
        match parse_socket_inode(links[i].1.as_str()) {
            Some(inode) => {
                m.insert(inode, links[i].0);
            },
            None => {},
        }
        i = i + 1;
    }
    assert(link_views(links@).take(links.len() as int) =~= link_views(links@));
    m
}

/// The kernel's name of TCP state number `n` (1 to 11), in its numbering.
pub open spec fn kernel_tcp_state_name(n: int) -> Seq<char> {
    seq![
        "ESTABLISHED"@,
        "SYN_SENT"@,
        "SYN_RECV"@,
        "FIN_WAIT1"@,
        "FIN_WAIT2"@,
        "TIME_WAIT"@,
        "CLOSE"@,
        "CLOSE_WAIT"@,
        "LAST_ACK"@,
        "LISTEN"@,
        "CLOSING"@,
    ][n - 1]
}

/// The upper-case hexadecimal digit of a number below 16.
pub open spec fn upper_hex_digit(n: int) -> char {
    if n < 10 {
        ('0' as int + n) as char
    } else {
        ('A' as int + n - 10) as char
    }
}

/// The two-digit code under which `/proc/net/tcp` shows state number `n`.
pub open spec fn kernel_tcp_state_code(n: int) -> Seq<char> {
    seq![upper_hex_digit(n / 16), upper_hex_digit(n % 16)]
}

/// Each state code of `/proc/net/tcp` reads as the state the kernel numbers with it:
/// the state read from the code of number `n` displays as the kernel's name of state
/// `n`, and distinct numbers give distinct states.
pub proof fn law_tcp_state_codes_follow_kernel_numbering(n: int, m: int)
    requires
        1 <= n <= 11,
        1 <= m <= 11,
    ensures
        state_text(tcp_state(kernel_tcp_state_code(n))) == kernel_tcp_state_name(n),
        n != m ==> tcp_state(kernel_tcp_state_code(n)) != tcp_state(kernel_tcp_state_code(m)),
{
    reveal_strlit("01");
    reveal_strlit("02");
    reveal_strlit("03");
    reveal_strlit("04");
    reveal_strlit("05");
    reveal_strlit("06");
    reveal_strlit("07");
    reveal_strlit("08");
    reveal_strlit("09");
    reveal_strlit("0A");
    reveal_strlit("0B");
    assert(kernel_tcp_state_code(1) =~= "01"@);
    assert(kernel_tcp_state_code(2) =~= "02"@);
    assert(kernel_tcp_state_code(3) =~= "03"@);
    assert(kernel_tcp_state_code(4) =~= "04"@);
    assert(kernel_tcp_state_code(5) =~= "05"@);
    assert(kernel_tcp_state_code(6) =~= "06"@);
    assert(kernel_tcp_state_code(7) =~= "07"@);
    assert(kernel_tcp_state_code(8) =~= "08"@);
    assert(kernel_tcp_state_code(9) =~= "09"@);
    assert(kernel_tcp_state_code(10) =~= "0A"@);
    assert(kernel_tcp_state_code(11) =~= "0B"@);
}

} // verus!
