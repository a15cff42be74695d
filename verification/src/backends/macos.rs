//! The macOS connection table, as `lsof -i -n -P` prints it.

use vstd::prelude::*;
use std::collections::HashMap;
use crate::models::{state_text, ConnectionState, PortRecord, Protocol};
use crate::text::{
    chars_of, contains_chars, contains_seq, lines, parse_number, parse_unsigned, split_whitespace,
    text_lines, views,
};
use super::common::{
    arrow_sides, clone_opt, clone_strings, collect_lines, host_port, info_views, parse_host_port,
    record_views, split_arrow, text_of, PortRecordView, ProcessInfo, ProcessInfoView,
};

verus! {

broadcast use vstd::std_specs::hash::group_hash_axioms;

/// The local address and port, and the remote ones when the field names a
/// connection (`local->remote`).
pub open spec fn address_field(f: Seq<char>) -> (Seq<char>, u16, Option<Seq<char>>, Option<u16>) {
    match arrow_sides(f) {
        Some((l, r)) => {
            let (la, lp) = host_port(l, true);
            let (ra, rp) = host_port(r, true);
            (la, lp, Some(ra), Some(rp))
        },
        None => {
            let (a, p) = host_port(f, true);
            (a, p, None, None)
        },
    }
}

/// Reads the NAME field of `lsof`.
pub fn parse_address_field(field: &Vec<char>) -> (r: (String, u16, Option<String>, Option<u16>))
    ensures
        (r.0@, r.1, match r.2 {
            Some(s) => Some(s@),
            None => None,
        }, r.3) == address_field(field@),
{
    match split_arrow(field) {
        Some((l, r)) => {
            let (la, lp) = parse_host_port(&l, true);
            let (ra, rp) = parse_host_port(&r, true);
            (la, lp, Some(ra), Some(rp))
        },
        None => {
            let (a, p) = parse_host_port(field, true);
            (a, p, None, None)
        },
    }
}

/// The state that the last field of an `lsof` line names in parentheses; UDP
/// sockets without one count as listening.
pub open spec fn lsof_state(last: Seq<char>, protocol: Protocol) -> ConnectionState {
    if contains_seq(last, "(LISTEN)"@) {
        ConnectionState::Listen
    } else if contains_seq(last, "(ESTABLISHED)"@) {
        ConnectionState::Established
    } else if contains_seq(last, "(CLOSE_WAIT)"@) {
        ConnectionState::CloseWait
    } else if contains_seq(last, "(TIME_WAIT)"@) {
        ConnectionState::TimeWait
    } else if contains_seq(last, "(SYN_SENT)"@) {
        ConnectionState::SynSent
    } else if contains_seq(last, "(SYN_RCVD)"@) {
        ConnectionState::SynRecv
    } else if contains_seq(last, "(FIN_WAIT_1)"@) {
        ConnectionState::FinWait1
    } else if contains_seq(last, "(FIN_WAIT_2)"@) {
        ConnectionState::FinWait2
    } else if contains_seq(last, "(CLOSING)"@) {
        ConnectionState::Closing
    } else if contains_seq(last, "(LAST_ACK)"@) {
        ConnectionState::LastAck
    } else if contains_seq(last, "(CLOSED)"@) {
        ConnectionState::Close
    } else if protocol == Protocol::Udp {
        ConnectionState::Listen
    } else {
        ConnectionState::Unknown
    }
}

fn has(t: &Vec<char>, pat: &str) -> (b: bool)
    ensures
        b == contains_seq(t@, pat@),
{
    contains_chars(t, &chars_of(pat))
}

fn parse_lsof_state(last: &Vec<char>, protocol: Protocol) -> (s: ConnectionState)
    ensures
        s == lsof_state(last@, protocol),
{
    if has(last, "(LISTEN)") {
        ConnectionState::Listen
    } else if has(last, "(ESTABLISHED)") {
        ConnectionState::Established
    } else if has(last, "(CLOSE_WAIT)") {
        ConnectionState::CloseWait
    } else if has(last, "(TIME_WAIT)") {
        ConnectionState::TimeWait
    } else if has(last, "(SYN_SENT)") {
        ConnectionState::SynSent
    } else if has(last, "(SYN_RCVD)") {
        ConnectionState::SynRecv
    } else if has(last, "(FIN_WAIT_1)") {
        ConnectionState::FinWait1
    } else if has(last, "(FIN_WAIT_2)") {
        ConnectionState::FinWait2
    } else if has(last, "(CLOSING)") {
        ConnectionState::Closing
    } else if has(last, "(LAST_ACK)") {
        ConnectionState::LastAck
    } else if has(last, "(CLOSED)") {
        ConnectionState::Close
    } else if protocol == Protocol::Udp {
        ConnectionState::Listen
    } else {
        ConnectionState::Unknown
    }
}

/// The record of an `lsof` line of at least nine fields whose NODE field names TCP
/// or UDP: the command, the pid, the NAME address, the state, and what the process
/// table adds for the pid.
pub open spec fn lsof_record(t: Seq<Seq<char>>, procs: Map<u32, ProcessInfoView>) -> Option<PortRecordView> {
    if t.len() < 9 {
        None
    } else {
        let protocol = if contains_seq(t[7], "TCP"@) {
            Some(Protocol::Tcp)
        } else if contains_seq(t[7], "UDP"@) {
            Some(Protocol::Udp)
        } else {
            None
        };
        match protocol {
            None => None,
            Some(protocol) => {
                let pid = match parse_unsigned(t[1], 10, u32::MAX as nat) {
                    Some(p) => Some(p as u32),
                    None => None,
                };
                let info = match pid {
                    Some(p) => if procs.contains_key(p) {
                        Some(procs[p])
                    } else {
                        None
                    },
                    None => None,
                };
                let (la, lp, ra, rp) = address_field(t[8]);
                Some(
                    PortRecordView {
                        protocol,
                        local_addr: la,
                        local_port: lp,
                        remote_addr: ra,
                        remote_port: rp,
                        state: lsof_state(t.last(), protocol),
                        pid,
                        process_name: Some(t[0]),
                        exe: match info {
                            Some(p) => p.exe,
                            None => None,
                        },
                        cmdline: match info {
                            Some(p) => p.cmdline,
                            None => seq![],
                        },
                        user: match info {
                            Some(p) => p.user,
                            None => None,
                        },
                    },
                )
            },
        }
    }
}

fn lsof_line(t: &Vec<Vec<char>>, processes: &HashMap<u32, ProcessInfo>) -> (r: Option<PortRecord>)
    ensures
        match r {
            Some(rec) => lsof_record(views(t@), info_views(processes@)) == Some(rec@),
            None => lsof_record(views(t@), info_views(processes@)) is None,
        },
{
    let ghost tv = views(t@);
    if t.len() < 9 {
        return None;
    }
    assert(tv[7] == t@[7]@ && tv[8] == t@[8]@ && tv[0] == t@[0]@ && tv[1] == t@[1]@);
    let protocol = if has(&t[7], "TCP") {
        Protocol::Tcp
    } else if has(&t[7], "UDP") {
        Protocol::Udp
    } else {
        return None;
    };
    let pid: Option<u32> = match parse_number(&t[1], 10, 0xffff_ffff) {
        Some(p) => Some(p as u32),
        None => None,
    };
    let n = t.len();
    assert(tv.last() == t@[n - 1]@);
    let state = parse_lsof_state(&t[n - 1], protocol);
    let (local_addr, local_port, remote_addr, remote_port) = parse_address_field(&t[8]);
    let info = match pid {
        Some(p) => processes.get(&p),
        None => None,
    };
    let (exe, cmdline, user) = match info {
        Some(p) => (clone_opt(&p.exe), clone_strings(&p.cmdline), clone_opt(&p.user)),
        None => (None, Vec::new(), None),
    };
    let rec = PortRecord {
        protocol,
        local_addr,
        local_port,
        remote_addr,
        remote_port,
        state,
        pid,
        process_name: Some(text_of(&t[0])),
        exe,
        cmdline,
        user,
    };
    proof {
        if info is None {
            assert(rec.cmdline@.map_values(|s: String| s@) =~= Seq::<Seq<char>>::empty());
        }
    }
    Some(rec)
}

/// The records of `lsof -i -n -P` output, given the process table: the header line
/// is skipped, and so is every line that names no TCP or UDP socket.
pub fn parse_lsof_output(output: &str, processes: &HashMap<u32, ProcessInfo>) -> (records: Vec<PortRecord>)
    ensures
        record_views(records@) == collect_lines(
            text_lines(output@),
            1,
            |t: Seq<Seq<char>>| lsof_record(t, info_views(processes@)),
        ),
{
    let all = lines(&chars_of(output));
    let ghost ls = views(all@);
    let ghost f = |t: Seq<Seq<char>>| lsof_record(t, info_views(processes@));
    let mut records: Vec<PortRecord> = Vec::new();
    if all.len() == 0 {
        return records;
    }
    let mut i: usize = 1;
    while i < all.len()
        invariant
            1 <= i <= all@.len(),
            ls == views(all@),
            f == (|t: Seq<Seq<char>>| lsof_record(t, info_views(processes@))),
            record_views(records@) == collect_lines(ls.take(i as int), 1, f),
        decreases all.len() - i,
    {
        let toks = split_whitespace(&all[i]);
        let ghost next = ls.take(i + 1);
        assert(next.drop_last() =~= ls.take(i as int));
        assert(next.last() == all@[i as int]@);
        match lsof_line(&toks, processes) {
            Some(r) => {
                let ghost before = record_views(records@);
                records.push(r);
                assert(record_views(records@) =~= before.push(r@));
            },
            None => {},
        }
        i = i + 1;
    }
    assert(ls.take(all.len() as int) =~= ls);
    records
}

/// The TCP state words that `lsof` prints in parentheses.
pub open spec fn lsof_state_words() -> Seq<Seq<char>> {
    seq![
        "LISTEN"@,
        "ESTABLISHED"@,
        "CLOSE_WAIT"@,
        "TIME_WAIT"@,
        "SYN_SENT"@,
        "SYN_RCVD"@,
        "FIN_WAIT_1"@,
        "FIN_WAIT_2"@,
        "CLOSING"@,
        "LAST_ACK"@,
        "CLOSED"@,
    ]
}

/// A word in parentheses, as `lsof` marks a connection's state.
pub open spec fn parenthesised(w: Seq<char>) -> Seq<char> {
    seq!['('] + w + seq![')']
}

/// An `lsof` state word in the spelling that states are displayed with: lsof spells a
/// few of them its own way, the others alike.
pub open spec fn lsof_spelling(w: Seq<char>) -> Seq<char> {
    if w == "SYN_RCVD"@ {
        "SYN_RECV"@
    } else if w == "FIN_WAIT_1"@ {
        "FIN_WAIT1"@
    } else if w == "FIN_WAIT_2"@ {
        "FIN_WAIT2"@
    } else if w == "CLOSED"@ {
        "CLOSE"@
    } else {
        w
    }
}

spec fn lsof_state_marks() -> Seq<Seq<char>> {
    seq![
        "(LISTEN)"@,
        "(ESTABLISHED)"@,
        "(CLOSE_WAIT)"@,
        "(TIME_WAIT)"@,
        "(SYN_SENT)"@,
        "(SYN_RCVD)"@,
        "(FIN_WAIT_1)"@,
        "(FIN_WAIT_2)"@,
        "(CLOSING)"@,
        "(LAST_ACK)"@,
        "(CLOSED)"@,
    ]
}

proof fn lemma_lsof_marks()
    ensures
        forall|k: int|
            0 <= k < 11 ==> #[trigger] parenthesised(lsof_state_words()[k]) == lsof_state_marks()[k],
{
    reveal_strlit("LISTEN");
    reveal_strlit("(LISTEN)");
    reveal_strlit("ESTABLISHED");
    reveal_strlit("(ESTABLISHED)");
    reveal_strlit("CLOSE_WAIT");
    reveal_strlit("(CLOSE_WAIT)");
    reveal_strlit("TIME_WAIT");
    reveal_strlit("(TIME_WAIT)");
    reveal_strlit("SYN_SENT");
    reveal_strlit("(SYN_SENT)");
    reveal_strlit("SYN_RCVD");
    reveal_strlit("(SYN_RCVD)");
    reveal_strlit("FIN_WAIT_1");
    reveal_strlit("(FIN_WAIT_1)");
    reveal_strlit("FIN_WAIT_2");
    reveal_strlit("(FIN_WAIT_2)");
    reveal_strlit("CLOSING");
    reveal_strlit("(CLOSING)");
    reveal_strlit("LAST_ACK");
    reveal_strlit("(LAST_ACK)");
    reveal_strlit("CLOSED");
    reveal_strlit("(CLOSED)");
    assert(parenthesised(lsof_state_words()[0]) =~= lsof_state_marks()[0]);
    assert(parenthesised(lsof_state_words()[1]) =~= lsof_state_marks()[1]);
    assert(parenthesised(lsof_state_words()[2]) =~= lsof_state_marks()[2]);
    assert(parenthesised(lsof_state_words()[3]) =~= lsof_state_marks()[3]);
    assert(parenthesised(lsof_state_words()[4]) =~= lsof_state_marks()[4]);
    assert(parenthesised(lsof_state_words()[5]) =~= lsof_state_marks()[5]);
    assert(parenthesised(lsof_state_words()[6]) =~= lsof_state_marks()[6]);
    assert(parenthesised(lsof_state_words()[7]) =~= lsof_state_marks()[7]);
    assert(parenthesised(lsof_state_words()[8]) =~= lsof_state_marks()[8]);
    assert(parenthesised(lsof_state_words()[9]) =~= lsof_state_marks()[9]);
    assert(parenthesised(lsof_state_words()[10]) =~= lsof_state_marks()[10]);
    assert forall|k: int| 0 <= k < 11 implies #[trigger] parenthesised(lsof_state_words()[k])
        == lsof_state_marks()[k] by {
        assert(0 <= k < 11);
    }
}

/// When the last field of an `lsof` line holds exactly one of the parenthesised state
/// words, the state read from it is the one displayed with that word (in the
/// displayed spelling), whatever the protocol.
pub proof fn law_lsof_mark_reads_as_its_state(last: Seq<char>, protocol: Protocol, i: int)
    requires
        0 <= i < lsof_state_words().len(),
        contains_seq(last, parenthesised(lsof_state_words()[i])),
        forall|j: int|
            0 <= j < lsof_state_words().len() && j != i ==> !contains_seq(
                last,
                #[trigger] parenthesised(lsof_state_words()[j]),
            ),
    ensures
        state_text(lsof_state(last, protocol)) == lsof_spelling(lsof_state_words()[i]),
{
    lemma_lsof_marks();
    reveal_strlit("SYN_RCVD");
    reveal_strlit("FIN_WAIT_1");
    reveal_strlit("FIN_WAIT_2");
    reveal_strlit("CLOSED");
    assert forall|j: int| 0 <= j < 11 && j != i implies !contains_seq(last, lsof_state_marks()[j]) by {
        assert(parenthesised(lsof_state_words()[j]) == lsof_state_marks()[j]);
    }
    assert(parenthesised(lsof_state_words()[i]) == lsof_state_marks()[i]);
    if i == 0 {
        assert(contains_seq(last, lsof_state_marks()[0]));
    } else if i == 1 {
        assert(!contains_seq(last, lsof_state_marks()[0]));
        assert(contains_seq(last, lsof_state_marks()[1]));
    } else if i == 2 {
        assert(!contains_seq(last, lsof_state_marks()[0]));
        assert(!contains_seq(last, lsof_state_marks()[1]));
        assert(contains_seq(last, lsof_state_marks()[2]));
    } else if i == 3 {
        assert(!contains_seq(last, lsof_state_marks()[0]));
        assert(!contains_seq(last, lsof_state_marks()[1]));
        assert(!contains_seq(last, lsof_state_marks()[2]));
        assert(contains_seq(last, lsof_state_marks()[3]));
    } else if i == 4 {
        assert(!contains_seq(last, lsof_state_marks()[0]));
        assert(!contains_seq(last, lsof_state_marks()[1]));
        assert(!contains_seq(last, lsof_state_marks()[2]));
        assert(!contains_seq(last, lsof_state_marks()[3]));
        assert(contains_seq(last, lsof_state_marks()[4]));
    } else if i == 5 {
        assert(!contains_seq(last, lsof_state_marks()[0]));
        assert(!contains_seq(last, lsof_state_marks()[1]));
        assert(!contains_seq(last, lsof_state_marks()[2]));
        assert(!contains_seq(last, lsof_state_marks()[3]));
        assert(!contains_seq(last, lsof_state_marks()[4]));
        assert(contains_seq(last, lsof_state_marks()[5]));
    } else if i == 6 {
        assert(!contains_seq(last, lsof_state_marks()[0]));
        assert(!contains_seq(last, lsof_state_marks()[1]));
        assert(!contains_seq(last, lsof_state_marks()[2]));
        assert(!contains_seq(last, lsof_state_marks()[3]));
        assert(!contains_seq(last, lsof_state_marks()[4]));
        assert(!contains_seq(last, lsof_state_marks()[5]));
        assert(contains_seq(last, lsof_state_marks()[6]));
    } else if i == 7 {
        assert(!contains_seq(last, lsof_state_marks()[0]));
        assert(!contains_seq(last, lsof_state_marks()[1]));
        assert(!contains_seq(last, lsof_state_marks()[2]));
        assert(!contains_seq(last, lsof_state_marks()[3]));
        assert(!contains_seq(last, lsof_state_marks()[4]));
        assert(!contains_seq(last, lsof_state_marks()[5]));
        assert(!contains_seq(last, lsof_state_marks()[6]));
        assert(contains_seq(last, lsof_state_marks()[7]));
    } else if i == 8 {
        assert(!contains_seq(last, lsof_state_marks()[0]));
        assert(!contains_seq(last, lsof_state_marks()[1]));
        assert(!contains_seq(last, lsof_state_marks()[2]));
        assert(!contains_seq(last, lsof_state_marks()[3]));
        assert(!contains_seq(last, lsof_state_marks()[4]));
        assert(!contains_seq(last, lsof_state_marks()[5]));
        assert(!contains_seq(last, lsof_state_marks()[6]));
        assert(!contains_seq(last, lsof_state_marks()[7]));
        assert(contains_seq(last, lsof_state_marks()[8]));
    } else if i == 9 {
        assert(!contains_seq(last, lsof_state_marks()[0]));
        assert(!contains_seq(last, lsof_state_marks()[1]));
        assert(!contains_seq(last, lsof_state_marks()[2]));
        assert(!contains_seq(last, lsof_state_marks()[3]));
        assert(!contains_seq(last, lsof_state_marks()[4]));
        assert(!contains_seq(last, lsof_state_marks()[5]));
        assert(!contains_seq(last, lsof_state_marks()[6]));
        assert(!contains_seq(last, lsof_state_marks()[7]));
        assert(!contains_seq(last, lsof_state_marks()[8]));
        assert(contains_seq(last, lsof_state_marks()[9]));
    } else {
        assert(!contains_seq(last, lsof_state_marks()[0]));
        assert(!contains_seq(last, lsof_state_marks()[1]));
        assert(!contains_seq(last, lsof_state_marks()[2]));
        assert(!contains_seq(last, lsof_state_marks()[3]));
        assert(!contains_seq(last, lsof_state_marks()[4]));
        assert(!contains_seq(last, lsof_state_marks()[5]));
        assert(!contains_seq(last, lsof_state_marks()[6]));
        assert(!contains_seq(last, lsof_state_marks()[7]));
        assert(!contains_seq(last, lsof_state_marks()[8]));
        assert(!contains_seq(last, lsof_state_marks()[9]));
        assert(contains_seq(last, lsof_state_marks()[10]));
    }
}

} // verus!
