//! The records that a scan of the connection table yields.

use vstd::prelude::*;
use crate::alerts::models::{read_system_clock, Percent};
use crate::text::{
    ascii_lowered, chars_of, contains_chars, contains_seq, decimal, decimal_string, lowercased,
    parse_number, parse_unsigned, sub_chars, to_lowercase,
};

verus! {

/// Transport protocol of a connection.
#[derive(Debug, Clone, Copy, PartialEq, Eq, Structural)]
pub enum Protocol {
    Tcp,
    Udp,
}

/// TCP connection states (UDP sockets are reported as `Listen`).
#[derive(Debug, Clone, Copy, PartialEq, Eq, Structural)]
pub enum ConnectionState {
    Listen,
    Established,
    SynSent,
    SynRecv,
    FinWait1,
    FinWait2,
    TimeWait,
    Close,
    CloseWait,
    LastAck,
    Closing,
    Unknown,
}

/// How a protocol is displayed.
pub open spec fn protocol_text(p: Protocol) -> Seq<char> {
    match p {
        Protocol::Tcp => "TCP"@,
        Protocol::Udp => "UDP"@,
    }
}

/// How a connection state is displayed.
pub open spec fn state_text(s: ConnectionState) -> Seq<char> {
    match s {
        ConnectionState::Listen => "LISTEN"@,
        ConnectionState::Established => "ESTABLISHED"@,
        ConnectionState::SynSent => "SYN_SENT"@,
        ConnectionState::SynRecv => "SYN_RECV"@,
        ConnectionState::FinWait1 => "FIN_WAIT1"@,
        ConnectionState::FinWait2 => "FIN_WAIT2"@,
        ConnectionState::TimeWait => "TIME_WAIT"@,
        ConnectionState::Close => "CLOSE"@,
        ConnectionState::CloseWait => "CLOSE_WAIT"@,
        ConnectionState::LastAck => "LAST_ACK"@,
        ConnectionState::Closing => "CLOSING"@,
        ConnectionState::Unknown => "UNKNOWN"@,
    }
}

impl Protocol {
    /// The display text of the protocol.
    pub fn to_string(&self) -> (s: String)
        ensures
            s@ == protocol_text(*self),
    {
        match self {
            Protocol::Tcp => String::from_str("TCP"),
            Protocol::Udp => String::from_str("UDP"),
        }
    }
}

impl ConnectionState {
    /// The display text of the state.
    pub fn to_string(&self) -> (s: String)
        ensures
            s@ == state_text(*self),
    {
        match self {
            ConnectionState::Listen => String::from_str("LISTEN"),
            ConnectionState::Established => String::from_str("ESTABLISHED"),
            ConnectionState::SynSent => String::from_str("SYN_SENT"),
            ConnectionState::SynRecv => String::from_str("SYN_RECV"),
            ConnectionState::FinWait1 => String::from_str("FIN_WAIT1"),
            ConnectionState::FinWait2 => String::from_str("FIN_WAIT2"),
            ConnectionState::TimeWait => String::from_str("TIME_WAIT"),
            ConnectionState::Close => String::from_str("CLOSE"),
            ConnectionState::CloseWait => String::from_str("CLOSE_WAIT"),
            ConnectionState::LastAck => String::from_str("LAST_ACK"),
            ConnectionState::Closing => String::from_str("CLOSING"),
            ConnectionState::Unknown => String::from_str("UNKNOWN"),
        }
    }
}

/// One socket of the connection table, with the process that owns it when known.
#[derive(Debug)]
pub struct PortRecord {
    pub protocol: Protocol,
    pub local_addr: String,
    pub local_port: u16,
    pub remote_addr: Option<String>,
    pub remote_port: Option<u16>,
    pub state: ConnectionState,
    pub pid: Option<u32>,
    pub process_name: Option<String>,
    /// Path of the executable, as text.
    pub exe: Option<String>,
    pub cmdline: Vec<String>,
    pub user: Option<String>,
}

/// A record is shown under a filter when the filter is empty, names its local port,
/// or occurs (ignoring case) in its protocol, process name or state.
pub open spec fn matches_filter_spec(r: PortRecord, f: Seq<char>) -> bool {
    let lf = lowercased(f);
    ||| f.len() == 0
    ||| parse_unsigned(f, 10, 65535) == Some(r.local_port as nat)
    ||| contains_seq(lowercased(protocol_text(r.protocol)), lf)
    ||| (r.process_name is Some && contains_seq(lowercased(r.process_name.unwrap()@), lf))
    ||| contains_seq(lowercased(state_text(r.state)), lf)
}

proof fn lemma_contains_prefix(h: Seq<char>, x: Seq<char>, y: Seq<char>)
    requires
        contains_seq(h, x + y),
    ensures
        contains_seq(h, x),
{
    let i = choose|i: int|
        0 <= i && i + (x + y).len() <= h.len() && #[trigger] h.subrange(i, i + (x + y).len()) == x
            + y;
    assert(h.subrange(i, i + x.len()) =~= (x + y).subrange(0, x.len() as int));
    assert((x + y).subrange(0, x.len() as int) =~= x);
}

/// Shortening an ASCII filter never hides a record that the longer filter showed by
/// its protocol, process name or state (rather than by naming its port). The texts'
/// lower-casing is the ASCII one, which `str::to_lowercase` gives ASCII text (and
/// states at each call).
pub proof fn law_shorter_filter_keeps_record(r: PortRecord, f: Seq<char>, g: Seq<char>)
    requires
        vstd::utf8::is_ascii_chars(f),
        vstd::utf8::is_ascii_chars(g),
        lowercased(f + g) == ascii_lowered(f + g),
        lowercased(f) == ascii_lowered(f),
        matches_filter_spec(r, f + g),
        parse_unsigned(f + g, 10, 65535) != Some(r.local_port as nat),
    ensures
        matches_filter_spec(r, f),
{
    if f.len() > 0 {
        assert(ascii_lowered(f + g) =~= ascii_lowered(f) + ascii_lowered(g));
        let lf = ascii_lowered(f);
        let lg = ascii_lowered(g);
        if contains_seq(lowercased(protocol_text(r.protocol)), lf + lg) {
            lemma_contains_prefix(lowercased(protocol_text(r.protocol)), lf, lg);
        } else if r.process_name is Some && contains_seq(lowercased(r.process_name.unwrap()@), lf + lg) {
            lemma_contains_prefix(lowercased(r.process_name.unwrap()@), lf, lg);
        } else {
            assert((f + g).len() > 0);
            lemma_contains_prefix(lowercased(state_text(r.state)), lf, lg);
        }
    }
}

fn lower_contains(text: &String, needle: &Vec<char>) -> (b: bool)
    ensures
        b == contains_seq(lowercased(text@), needle@),
{
    let low = to_lowercase(text.as_str());
    contains_chars(&chars_of(low.as_str()), needle)
}

impl PortRecord {
    /// Whether the record is shown under the given filter text.
    pub fn matches_filter(&self, filter: &str) -> (b: bool)
        ensures
            b == matches_filter_spec(*self, filter@),
    {
        if filter.is_empty() {
            return true;
        }
        let filter_lower = chars_of(to_lowercase(filter).as_str());
        let fchars = chars_of(filter);
        match parse_number(&fchars, 10, 65535) {
            Some(port) => {
                if self.local_port as u64 == port {
                    return true;
                }
            },
            None => {},
        }
        if lower_contains(&self.protocol.to_string(), &filter_lower) {
            return true;
        }
        match &self.process_name {
            Some(name) => {
                if lower_contains(name, &filter_lower) {
                    return true;
                }
            },
            None => {},
        }
        if lower_contains(&self.state.to_string(), &filter_lower) {
            return true;
        }
        false
    }
}

/// What the process table says of one process.
#[derive(Debug)]
pub struct ProcessDetails {
    pub pid: u32,
    pub parent_pid: Option<u32>,
    pub name: String,
    /// Path of the executable, as text.
    pub exe: Option<String>,
    /// Working directory, as text.
    pub cwd: Option<String>,
    pub memory_bytes: u64,
    pub cpu_percent: Percent,
    /// Start time, in seconds since 1970-01-01 UTC.
    pub start_time: Option<u64>,
    pub cmdline: Vec<String>,
    pub env_preview: Vec<(String, String)>,
    pub user: Option<String>,
}

/// How long a process has run, from its start time and the current time (both in
/// seconds since 1970): hours and minutes, or minutes and seconds, or seconds.
pub open spec fn uptime_text(start: Option<u64>, now: u64) -> Seq<char> {
    match start {
        None => "Unknown"@,
        Some(st) => {
            let up: nat = if now >= st { (now - st) as nat } else { 0 };
            let h = up / 3600;
            let m = (up % 3600) / 60;
            let sec = up % 60;
            if h > 0 {
                decimal(h) + "h "@ + decimal(m) + "m"@
            } else if m > 0 {
                decimal(m) + "m "@ + decimal(sec) + "s"@
            } else {
                decimal(sec) + "s"@
            }
        },
    }
}

/// Renders the uptime of a process started at `start` (if known) at time `now`.
pub fn format_uptime_at(start: Option<u64>, now: u64) -> (s: String)
    ensures
        s@ == uptime_text(start, now),
{
    match start {
        None => String::from_str("Unknown"),
        Some(st) => {
            let up = now.saturating_sub(st);
            let h = up / 3600;
            let m = (up % 3600) / 60;
            let sec = up % 60;
            if h > 0 {
                let mut s = decimal_string(h);
                s.append("h ");
                s.append(decimal_string(m).as_str());
                s.append("m");
                s
            } else if m > 0 {
                let mut s = decimal_string(m);
                s.append("m ");
                s.append(decimal_string(sec).as_str());
                s.append("s");
                s
            } else {
                let mut s = decimal_string(sec);
                s.append("s");
                s
            }
        },
    }
}

/// The whole seconds since 1970-01-01 UTC by the system clock; 0 when the clock
/// reads before 1970.
pub(crate) fn unix_now_secs() -> u64 {
    let (before, s, _) = read_system_clock();
    if before {
        0
    } else {
        s
    }
}

impl ProcessDetails {
    /// How long the process has run, by the system clock ("Unknown" without a start
    /// time, and then the clock is not read).
    pub fn format_uptime(&self) -> (s: String)
        ensures
            self.start_time is None ==> s@ == "Unknown"@,
            exists|now: u64| s@ == uptime_text(self.start_time, now),
    {
        match self.start_time {
            None => {
                let s = String::from_str("Unknown");
                assert(s@ == uptime_text(self.start_time, 0));
                s
            },
            Some(_) => {
                let now = unix_now_secs();
                format_uptime_at(self.start_time, now)
            },
        }
    }
}

/// An environment entry `KEY=VALUE` split at its first `=`.
pub open spec fn env_entry(e: Seq<char>) -> Option<(Seq<char>, Seq<char>)> {
    if exists|i: int| 0 <= i < e.len() && e[i] == '=' {
        let k = choose|i: int|
            0 <= i < e.len() && e[i] == '=' && forall|j: int| 0 <= j < i ==> e[j] != '=';
        Some((e.take(k), e.skip(k + 1)))
    } else {
        None
    }
}

/// The environment preview: of the first ten entries, those that are text and
/// hold an `=`, split at it.
pub open spec fn env_preview_of(entries: Seq<Option<Seq<char>>>) -> Seq<(Seq<char>, Seq<char>)>
    decreases entries.len(),
{
    if entries.len() == 0 {
        seq![]
    } else {
        let prev = env_preview_of(entries.drop_last());
        if entries.len() > 10 {
            prev
        } else {
            match entries.last() {
                Some(e) => match env_entry(e) {
                    Some(kv) => prev.push(kv),
                    None => prev,
                },
                None => prev,
            }
        }
    }
}

fn split_env_entry(e: &String) -> (r: Option<(String, String)>)
    ensures
        match r {
            Some((k, v)) => env_entry(e@) == Some((k@, v@)),
            None => env_entry(e@) is None,
        },
{
    let chars = chars_of(e.as_str());
    let mut i: usize = 0;
    while i < chars.len()
        invariant
            chars@ == e@,
            i <= chars@.len(),
            forall|j: int| 0 <= j < i ==> chars@[j] != '=',
        decreases chars.len() - i,
    {
        if chars[i] == '=' {
            let ghost k = choose|k: int|
                0 <= k < chars@.len() && chars@[k] == '=' && forall|j: int| 0 <= j < k ==> chars@[j] != '=';
            assert(k == i) by {
                if k < i {
                    assert(chars@[k] != '=');
                }
                if i < k {
                    assert(chars@[i as int] != '=');
                }
            }
            let n = chars.len();
            let key = sub_chars(&chars, 0, i);
            let value = sub_chars(&chars, i + 1, n);
            assert(key@ =~= e@.take(i as int));
            assert(value@ =~= e@.skip(i + 1));
            return Some((crate::text::string_of(&key), crate::text::string_of(&value)));
        }
        i = i + 1;
    }
    None
}

/// The first ten environment entries that are text and hold an `=`, as pairs.
/// `entries` holds `None` for an entry that is not valid text.
pub fn env_preview(entries: &Vec<Option<String>>) -> (r: Vec<(String, String)>)
    ensures
        r@.map_values(|p: (String, String)| (p.0@, p.1@)) == env_preview_of(
            entries@.map_values(|o: Option<String>| match o {
                Some(s) => Some(s@),
                None => None,
            }),
        ),
{
    let ghost ev = entries@.map_values(|o: Option<String>| match o {
        Some(s) => Some(s@),
        None => None,
    });
    let mut r: Vec<(String, String)> = Vec::new();
    let mut i: usize = 0;
    while i < entries.len()
        invariant
            i <= entries@.len(),
            ev == entries@.map_values(|o: Option<String>| match o {
                Some(s) => Some(s@),
                None => None,
            }),
            r@.map_values(|p: (String, String)| (p.0@, p.1@)) == env_preview_of(ev.take(i as int)),
        decreases entries.len() - i,
    {
        let ghost before = r@.map_values(|p: (String, String)| (p.0@, p.1@));
        let ghost next = ev.take(i + 1);
        assert(next.drop_last() =~= ev.take(i as int));
        if i < 10 {
            match &entries[i] {
                Some(e) => {
                    match split_env_entry(e) {
                        Some(kv) => {
                            r.push(kv);
                            assert(r@.map_values(|p: (String, String)| (p.0@, p.1@)) =~= before.push(
                                env_entry(e@).unwrap(),
                            ));
                        },
                        None => {},
                    }
                },
                None => {},
            }
        }
        i = i + 1;
    }
    assert(ev.take(entries.len() as int) =~= ev);
    r
}

} // verus!
