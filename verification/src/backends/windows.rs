//! The Windows connection table, as `netstat -ano` prints it.

use vstd::prelude::*;
use std::collections::HashMap;
use crate::models::{state_text, ConnectionState, PortRecord, Protocol};
use crate::text::{chars_are, chars_of, lines, parse_number, parse_unsigned, split_whitespace, text_lines, views};
use super::common::{
    clone_opt, clone_strings, collect_lines, host_port, info_views, parse_host_port, record_views,
    PortRecordView, ProcessInfo, ProcessInfoView,
};

verus! {

broadcast use vstd::std_specs::hash::group_hash_axioms;

/// The state that a `netstat` state word names.
pub open spec fn netstat_state(s: Seq<char>) -> ConnectionState {
    if s == "LISTENING"@ {
        ConnectionState::Listen
    } else if s == "ESTABLISHED"@ {
        ConnectionState::Established
    } else if s == "SYN_SENT"@ {
        ConnectionState::SynSent
    } else if s == "SYN_RECEIVED"@ {
        ConnectionState::SynRecv
    } else if s == "FIN_WAIT_1"@ {
        ConnectionState::FinWait1
    } else if s == "FIN_WAIT_2"@ {
        ConnectionState::FinWait2
    } else if s == "TIME_WAIT"@ {
        ConnectionState::TimeWait
    } else if s == "CLOSE_WAIT"@ {
        ConnectionState::CloseWait
    } else if s == "LAST_ACK"@ {
        ConnectionState::LastAck
    } else if s == "CLOSING"@ {
        ConnectionState::Closing
    } else if s == "CLOSED"@ {
        ConnectionState::Close
    } else {
        ConnectionState::Unknown
    }
}

/// Reads a `netstat` state word.
pub fn parse_state(state: &Vec<char>) -> (s: ConnectionState)
    ensures
        s == netstat_state(state@),
{
    if chars_are(state, "LISTENING") {
        ConnectionState::Listen
    } else if chars_are(state, "ESTABLISHED") {
        ConnectionState::Established
    } else if chars_are(state, "SYN_SENT") {
        ConnectionState::SynSent
    } else if chars_are(state, "SYN_RECEIVED") {
        ConnectionState::SynRecv
    } else if chars_are(state, "FIN_WAIT_1") {
        ConnectionState::FinWait1
    } else if chars_are(state, "FIN_WAIT_2") {
        ConnectionState::FinWait2
    } else if chars_are(state, "TIME_WAIT") {
        ConnectionState::TimeWait
    } else if chars_are(state, "CLOSE_WAIT") {
        ConnectionState::CloseWait
    } else if chars_are(state, "LAST_ACK") {
        ConnectionState::LastAck
    } else if chars_are(state, "CLOSING") {
        ConnectionState::Closing
    } else if chars_are(state, "CLOSED") {
        ConnectionState::Close
    } else {
        ConnectionState::Unknown
    }
}

/// Reads a `netstat` address.
pub fn parse_address(addr: &Vec<char>) -> (r: (String, u16))
    ensures
        (r.0@, r.1) == host_port(addr@, false),
{
    parse_host_port(addr, false)
}

/// The record of a `netstat` line of at least four fields whose first field is
/// `TCP` or `UDP`. A TCP line carries the remote address, the state and then the
/// pid; a UDP line only the pid, and counts as listening.
pub open spec fn netstat_record(t: Seq<Seq<char>>, procs: Map<u32, ProcessInfoView>) -> Option<PortRecordView> {
    if t.len() < 4 {
        None
    } else {
        let protocol = if t[0] == "TCP"@ {
            Some(Protocol::Tcp)
        } else if t[0] == "UDP"@ {
            Some(Protocol::Udp)
        } else {
            None
        };
        match protocol {
            None => None,
            Some(protocol) => {
                let (la, lp) = host_port(t[1], false);
                let tcp = protocol == Protocol::Tcp;
                let pid_idx: int = if tcp { 4 } else { 3 };
                let pid = if t.len() > pid_idx {
                    match parse_unsigned(t[pid_idx], 10, u32::MAX as nat) {
                        Some(p) => Some(p as u32),
                        None => None,
                    }
                } else {
                    None
                };
                let info = match pid {
                    Some(p) => if procs.contains_key(p) {
                        Some(procs[p])
                    } else {
                        None
                    },
                    None => None,
                };
                Some(
                    PortRecordView {
                        protocol,
                        local_addr: la,
                        local_port: lp,
                        remote_addr: if tcp {
                            Some(host_port(t[2], false).0)
                        } else {
                            None
                        },
                        remote_port: if tcp {
                            Some(host_port(t[2], false).1)
                        } else {
                            None
                        },
                        state: if tcp {
                            netstat_state(t[3])
                        } else {
                            ConnectionState::Listen
                        },
                        pid,
                        process_name: match info {
                            Some(p) => Some(p.name),
                            None => None,
                        },
                        exe: match info {
                            Some(p) => p.exe,
                            None => None,
                        },
                        cmdline: match info {
                            Some(p) => p.cmdline,
                            None => seq![],
                        },
                        user: match info {
                            Some(p) => p.user,
                            None => None,
                        },
                    },
                )
            },
        }
    }
}

fn netstat_line(t: &Vec<Vec<char>>, processes: &HashMap<u32, ProcessInfo>) -> (r: Option<PortRecord>)
    ensures
        match r {
            Some(rec) => netstat_record(views(t@), info_views(processes@)) == Some(rec@),
            None => netstat_record(views(t@), info_views(processes@)) is None,
        },
{
    let ghost tv = views(t@);
    if t.len() < 4 {
        return None;
    }
    assert(tv[0] == t@[0]@ && tv[1] == t@[1]@ && tv[2] == t@[2]@ && tv[3] == t@[3]@);
    let protocol = if chars_are(&t[0], "TCP") {
        Protocol::Tcp
    } else if chars_are(&t[0], "UDP") {
        Protocol::Udp
    } else {
        return None;
    };
    let (local_addr, local_port) = parse_address(&t[1]);
    let (remote_addr, remote_port, state, pid_idx) = match protocol {
        Protocol::Tcp => {
            let (ra, rp) = parse_address(&t[2]);
            (Some(ra), Some(rp), parse_state(&t[3]), 4usize)
        },
        Protocol::Udp => (None, None, ConnectionState::Listen, 3usize),
    };
    let pid: Option<u32> = if t.len() > pid_idx {
        assert(tv[pid_idx as int] == t@[pid_idx as int]@);
        match parse_number(&t[pid_idx], 10, 0xffff_ffff) {
            Some(p) => Some(p as u32),
            None => None,
        }
    } else {
        None
    };
    let info = match pid {
        Some(p) => processes.get(&p),
        None => None,
    };
    let (process_name, exe, cmdline, user) = match info {
        Some(p) => (Some(p.name.clone()), clone_opt(&p.exe), clone_strings(&p.cmdline), clone_opt(&p.user)),
        None => (None, None, Vec::new(), None),
    };
    let rec = PortRecord {
        protocol,
        local_addr,
        local_port,
        remote_addr,
        remote_port,
        state,
        pid,
        process_name,
        exe,
        cmdline,
        user,
    };
    proof {
        if info is None {
            assert(rec.cmdline@.map_values(|s: String| s@) =~= Seq::<Seq<char>>::empty());
        }
    }
    Some(rec)
}

/// The records of `netstat -ano` output, given the process table: the four header
/// lines are skipped, and so is every line that is not a TCP or UDP socket.
pub fn parse_netstat_output(output: &str, processes: &HashMap<u32, ProcessInfo>) -> (records: Vec<PortRecord>)
    ensures
        record_views(records@) == collect_lines(
            text_lines(output@),
            4,
            |t: Seq<Seq<char>>| netstat_record(t, info_views(processes@)),
        ),
{
    let all = lines(&chars_of(output));
    let ghost ls = views(all@);
    let ghost f = |t: Seq<Seq<char>>| netstat_record(t, info_views(processes@));
    let mut records: Vec<PortRecord> = Vec::new();
    if all.len() <= 4 {
        return records;
    }
    let mut i: usize = 4;
    while i < all.len()
        invariant
            4 <= i <= all@.len(),
            ls == views(all@),
            f == (|t: Seq<Seq<char>>| netstat_record(t, info_views(processes@))),
            record_views(records@) == collect_lines(ls.take(i as int), 4, f),
        decreases all.len() - i,
    {
        let toks = split_whitespace(&all[i]);
        let ghost next = ls.take(i + 1);
        assert(next.drop_last() =~= ls.take(i as int));
        assert(next.last() == all@[i as int]@);
        match netstat_line(&toks, processes) {
            Some(r) => {
                let ghost before = record_views(records@);
                records.push(r);
                assert(record_views(records@) =~= before.push(r@));
            },
            None => {},
        }
        i = i + 1;
    }
    assert(ls.take(all.len() as int) =~= ls);
    records
}

/// The TCP state words that `netstat` prints.
pub open spec fn netstat_state_words() -> Seq<Seq<char>> {
    seq![
        "LISTENING"@,
        "ESTABLISHED"@,
        "SYN_SENT"@,
        "SYN_RECEIVED"@,
        "FIN_WAIT_1"@,
        "FIN_WAIT_2"@,
        "TIME_WAIT"@,
        "CLOSE_WAIT"@,
        "LAST_ACK"@,
        "CLOSING"@,
        "CLOSED"@,
    ]
}

/// A `netstat` state word in the spelling that states are displayed with: netstat
/// spells a few of them its own way, the others alike.
pub open spec fn netstat_spelling(w: Seq<char>) -> Seq<char> {
    if w == "LISTENING"@ {
        "LISTEN"@
    } else if w == "SYN_RECEIVED"@ {
        "SYN_RECV"@
    } else if w == "FIN_WAIT_1"@ {
        "FIN_WAIT1"@
    } else if w == "FIN_WAIT_2"@ {
        "FIN_WAIT2"@
    } else if w == "CLOSED"@ {
        "CLOSE"@
    } else {
        w
    }
}

/// The states that the words of `netstat_state_words` stand for, in that order.
pub open spec fn netstat_word_states() -> Seq<ConnectionState> {
    seq![
        ConnectionState::Listen,
        ConnectionState::Established,
        ConnectionState::SynSent,
        ConnectionState::SynRecv,
        ConnectionState::FinWait1,
        ConnectionState::FinWait2,
        ConnectionState::TimeWait,
        ConnectionState::CloseWait,
        ConnectionState::LastAck,
        ConnectionState::Closing,
        ConnectionState::Close,
    ]
}

proof fn lemma_netstat_word_state(k: int)
    requires
        0 <= k < 11,
    ensures
        netstat_state(netstat_state_words()[k]) == netstat_word_states()[k],
{
    reveal_strlit("LISTENING");
    reveal_strlit("ESTABLISHED");
    reveal_strlit("SYN_SENT");
    reveal_strlit("SYN_RECEIVED");
    reveal_strlit("FIN_WAIT_1");
    reveal_strlit("FIN_WAIT_2");
    reveal_strlit("TIME_WAIT");
    reveal_strlit("CLOSE_WAIT");
    reveal_strlit("LAST_ACK");
    reveal_strlit("CLOSING");
    reveal_strlit("CLOSED");
    assert("LISTENING"@ != "ESTABLISHED"@) by {
        assert("LISTENING"@.len() != "ESTABLISHED"@.len());
    }
    assert("LISTENING"@ != "SYN_SENT"@) by {
        assert("LISTENING"@.len() != "SYN_SENT"@.len());
    }
    assert("LISTENING"@ != "SYN_RECEIVED"@) by {
        assert("LISTENING"@.len() != "SYN_RECEIVED"@.len());
    }
    assert("LISTENING"@ != "FIN_WAIT_1"@) by {
        assert("LISTENING"@.len() != "FIN_WAIT_1"@.len());
    }
    assert("LISTENING"@ != "FIN_WAIT_2"@) by {
        assert("LISTENING"@.len() != "FIN_WAIT_2"@.len());
    }
    assert("LISTENING"@ != "TIME_WAIT"@) by {
        assert("LISTENING"@[0] != "TIME_WAIT"@[0]);
    }
    assert("LISTENING"@ != "CLOSE_WAIT"@) by {
        assert("LISTENING"@.len() != "CLOSE_WAIT"@.len());
    }
    assert("LISTENING"@ != "LAST_ACK"@) by {
        assert("LISTENING"@.len() != "LAST_ACK"@.len());
    }
    assert("LISTENING"@ != "CLOSING"@) by {
        assert("LISTENING"@.len() != "CLOSING"@.len());
    }
    assert("LISTENING"@ != "CLOSED"@) by {
        assert("LISTENING"@.len() != "CLOSED"@.len());
    }
    assert("ESTABLISHED"@ != "SYN_SENT"@) by {
        assert("ESTABLISHED"@.len() != "SYN_SENT"@.len());
    }
    assert("ESTABLISHED"@ != "SYN_RECEIVED"@) by {
        assert("ESTABLISHED"@.len() != "SYN_RECEIVED"@.len());
    }
    assert("ESTABLISHED"@ != "FIN_WAIT_1"@) by {
        assert("ESTABLISHED"@.len() != "FIN_WAIT_1"@.len());
    }
    assert("ESTABLISHED"@ != "FIN_WAIT_2"@) by {
        assert("ESTABLISHED"@.len() != "FIN_WAIT_2"@.len());
    }
    assert("ESTABLISHED"@ != "TIME_WAIT"@) by {
        assert("ESTABLISHED"@.len() != "TIME_WAIT"@.len());
    }
    assert("ESTABLISHED"@ != "CLOSE_WAIT"@) by {
        assert("ESTABLISHED"@.len() != "CLOSE_WAIT"@.len());
    }
    assert("ESTABLISHED"@ != "LAST_ACK"@) by {
        assert("ESTABLISHED"@.len() != "LAST_ACK"@.len());
    }
    assert("ESTABLISHED"@ != "CLOSING"@) by {
        assert("ESTABLISHED"@.len() != "CLOSING"@.len());
    }
    assert("ESTABLISHED"@ != "CLOSED"@) by {
        assert("ESTABLISHED"@.len() != "CLOSED"@.len());
    }
    assert("SYN_SENT"@ != "SYN_RECEIVED"@) by {
        assert("SYN_SENT"@.len() != "SYN_RECEIVED"@.len());
    }
    assert("SYN_SENT"@ != "FIN_WAIT_1"@) by {
        assert("SYN_SENT"@.len() != "FIN_WAIT_1"@.len());
    }
    assert("SYN_SENT"@ != "FIN_WAIT_2"@) by {
        assert("SYN_SENT"@.len() != "FIN_WAIT_2"@.len());
    }
    assert("SYN_SENT"@ != "TIME_WAIT"@) by {
        assert("SYN_SENT"@.len() != "TIME_WAIT"@.len());
    }
    assert("SYN_SENT"@ != "CLOSE_WAIT"@) by {
        assert("SYN_SENT"@.len() != "CLOSE_WAIT"@.len());
    }
    assert("SYN_SENT"@ != "LAST_ACK"@) by {
        assert("SYN_SENT"@[0] != "LAST_ACK"@[0]);
    }
    assert("SYN_SENT"@ != "CLOSING"@) by {
        assert("SYN_SENT"@.len() != "CLOSING"@.len());
    }
    assert("SYN_SENT"@ != "CLOSED"@) by {
        assert("SYN_SENT"@.len() != "CLOSED"@.len());
    }
    assert("SYN_RECEIVED"@ != "FIN_WAIT_1"@) by {
        assert("SYN_RECEIVED"@.len() != "FIN_WAIT_1"@.len());
    }
    assert("SYN_RECEIVED"@ != "FIN_WAIT_2"@) by {
        assert("SYN_RECEIVED"@.len() != "FIN_WAIT_2"@.len());
    }
    assert("SYN_RECEIVED"@ != "TIME_WAIT"@) by {
        assert("SYN_RECEIVED"@.len() != "TIME_WAIT"@.len());
    }
    assert("SYN_RECEIVED"@ != "CLOSE_WAIT"@) by {
        assert("SYN_RECEIVED"@.len() != "CLOSE_WAIT"@.len());
    }
    assert("SYN_RECEIVED"@ != "LAST_ACK"@) by {
        assert("SYN_RECEIVED"@.len() != "LAST_ACK"@.len());
    }
    assert("SYN_RECEIVED"@ != "CLOSING"@) by {
        assert("SYN_RECEIVED"@.len() != "CLOSING"@.len());
    }
    assert("SYN_RECEIVED"@ != "CLOSED"@) by {
        assert("SYN_RECEIVED"@.len() != "CLOSED"@.len());
    }
    assert("FIN_WAIT_1"@ != "FIN_WAIT_2"@) by {
        assert("FIN_WAIT_1"@[9] != "FIN_WAIT_2"@[9]);
    }
    assert("FIN_WAIT_1"@ != "TIME_WAIT"@) by {
        assert("FIN_WAIT_1"@.len() != "TIME_WAIT"@.len());
    }
    assert("FIN_WAIT_1"@ != "CLOSE_WAIT"@) by {
        assert("FIN_WAIT_1"@[0] != "CLOSE_WAIT"@[0]);
    }
    assert("FIN_WAIT_1"@ != "LAST_ACK"@) by {
        assert("FIN_WAIT_1"@.len() != "LAST_ACK"@.len());
    }
    assert("FIN_WAIT_1"@ != "CLOSING"@) by {
        assert("FIN_WAIT_1"@.len() != "CLOSING"@.len());
    }
    assert("FIN_WAIT_1"@ != "CLOSED"@) by {
        assert("FIN_WAIT_1"@.len() != "CLOSED"@.len());
    }
    assert("FIN_WAIT_2"@ != "TIME_WAIT"@) by {
        assert("FIN_WAIT_2"@.len() != "TIME_WAIT"@.len());
    }
    assert("FIN_WAIT_2"@ != "CLOSE_WAIT"@) by {
        assert("FIN_WAIT_2"@[0] != "CLOSE_WAIT"@[0]);
    }
    assert("FIN_WAIT_2"@ != "LAST_ACK"@) by {
        assert("FIN_WAIT_2"@.len() != "LAST_ACK"@.len());
    }
    assert("FIN_WAIT_2"@ != "CLOSING"@) by {
        assert("FIN_WAIT_2"@.len() != "CLOSING"@.len());
    }
    assert("FIN_WAIT_2"@ != "CLOSED"@) by {
        assert("FIN_WAIT_2"@.len() != "CLOSED"@.len());
    }
    assert("TIME_WAIT"@ != "CLOSE_WAIT"@) by {
        assert("TIME_WAIT"@.len() != "CLOSE_WAIT"@.len());
    }
    assert("TIME_WAIT"@ != "LAST_ACK"@) by {
        assert("TIME_WAIT"@.len() != "LAST_ACK"@.len());
    }
    assert("TIME_WAIT"@ != "CLOSING"@) by {
        assert("TIME_WAIT"@.len() != "CLOSING"@.len());
    }
    assert("TIME_WAIT"@ != "CLOSED"@) by {
        assert("TIME_WAIT"@.len() != "CLOSED"@.len());
    }
    assert("CLOSE_WAIT"@ != "LAST_ACK"@) by {
        assert("CLOSE_WAIT"@.len() != "LAST_ACK"@.len());
    }
    assert("CLOSE_WAIT"@ != "CLOSING"@) by {
        assert("CLOSE_WAIT"@.len() != "CLOSING"@.len());
    }
    assert("CLOSE_WAIT"@ != "CLOSED"@) by {
        assert("CLOSE_WAIT"@.len() != "CLOSED"@.len());
    }
    assert("LAST_ACK"@ != "CLOSING"@) by {
        assert("LAST_ACK"@.len() != "CLOSING"@.len());
    }
    assert("LAST_ACK"@ != "CLOSED"@) by {
        assert("LAST_ACK"@.len() != "CLOSED"@.len());
    }
    assert("CLOSING"@ != "CLOSED"@) by {
        assert("CLOSING"@.len() != "CLOSED"@.len());
    }
    let w = netstat_state_words();
    if k == 0 {
        assert(w[k] == "LISTENING"@);
    } else if k == 1 {
        assert(w[k] == "ESTABLISHED"@);
    } else if k == 2 {
        assert(w[k] == "SYN_SENT"@);
    } else if k == 3 {
        assert(w[k] == "SYN_RECEIVED"@);
    } else if k == 4 {
        assert(w[k] == "FIN_WAIT_1"@);
    } else if k == 5 {
        assert(w[k] == "FIN_WAIT_2"@);
    } else if k == 6 {
        assert(w[k] == "TIME_WAIT"@);
    } else if k == 7 {
        assert(w[k] == "CLOSE_WAIT"@);
    } else if k == 8 {
        assert(w[k] == "LAST_ACK"@);
    } else if k == 9 {
        assert(w[k] == "CLOSING"@);
    } else {
        assert(w[k] == "CLOSED"@);
    }
}

/// Every state word of `netstat` reads as the state displayed with that word (in
/// the displayed spelling), and distinct words read as distinct states.
pub proof fn law_netstat_words_read_as_their_states(i: int, j: int)
    requires
        0 <= i < netstat_state_words().len(),
        0 <= j < netstat_state_words().len(),
    ensures
        state_text(netstat_state(netstat_state_words()[i])) == netstat_spelling(
            netstat_state_words()[i],
        ),
        i != j ==> netstat_state(netstat_state_words()[i]) != netstat_state(
            netstat_state_words()[j],
        ),
{
    reveal_strlit("LISTENING");
    reveal_strlit("ESTABLISHED");
    reveal_strlit("SYN_SENT");
    reveal_strlit("SYN_RECEIVED");
    reveal_strlit("FIN_WAIT_1");
    reveal_strlit("FIN_WAIT_2");
    reveal_strlit("TIME_WAIT");
    reveal_strlit("CLOSE_WAIT");
    reveal_strlit("LAST_ACK");
    reveal_strlit("CLOSING");
    reveal_strlit("CLOSED");
    lemma_netstat_word_state(i);
    lemma_netstat_word_state(j);
}

} // verus!
