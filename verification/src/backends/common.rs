//! What the parsers share: record views, process information, deduplication.

use vstd::prelude::*;
use crate::models::{ConnectionState, PortRecord, Protocol};
use crate::text::{contains_seq, parse_unsigned, rfind_char, find_seq, sub_chars, views, ws_tokens};

verus! {

/// The text of an optional string.
pub open spec fn opt_view(o: Option<String>) -> Option<Seq<char>> {
    match o {
        Some(s) => Some(s@),
        None => None,
    }
}

/// A port record with its texts as character sequences.
pub struct PortRecordView {
    pub protocol: Protocol,
    pub local_addr: Seq<char>,
    pub local_port: u16,
    pub remote_addr: Option<Seq<char>>,
    pub remote_port: Option<u16>,
    pub state: ConnectionState,
    pub pid: Option<u32>,
    pub process_name: Option<Seq<char>>,
    pub exe: Option<Seq<char>>,
    pub cmdline: Seq<Seq<char>>,
    pub user: Option<Seq<char>>,
}

impl View for PortRecord {
    type V = PortRecordView;

    open spec fn view(&self) -> PortRecordView {
        PortRecordView {
            protocol: self.protocol,
            local_addr: self.local_addr@,
            local_port: self.local_port,
            remote_addr: opt_view(self.remote_addr),
            remote_port: self.remote_port,
            state: self.state,
            pid: self.pid,
            process_name: opt_view(self.process_name),
            exe: opt_view(self.exe),
            cmdline: self.cmdline@.map_values(|s: String| s@),
            user: opt_view(self.user),
        }
    }
}

/// The views of a sequence of records.
pub open spec fn record_views(s: Seq<PortRecord>) -> Seq<PortRecordView> {
    s.map_values(|r: PortRecord| r@)
}

/// What the process table says of a running process.
#[derive(Debug)]
pub struct ProcessInfo {
    pub name: String,
    /// Path of the executable, as text.
    pub exe: Option<String>,
    pub cmdline: Vec<String>,
    pub user: Option<String>,
}

/// Process information with its texts as character sequences.
pub struct ProcessInfoView {
    pub name: Seq<char>,
    pub exe: Option<Seq<char>>,
    pub cmdline: Seq<Seq<char>>,
    pub user: Option<Seq<char>>,
}

impl View for ProcessInfo {
    type V = ProcessInfoView;

    open spec fn view(&self) -> ProcessInfoView {
        ProcessInfoView {
            name: self.name@,
            exe: opt_view(self.exe),
            cmdline: self.cmdline@.map_values(|s: String| s@),
            user: opt_view(self.user),
        }
    }
}

/// The process information of every process, by pid.
pub open spec fn info_views(m: Map<u32, ProcessInfo>) -> Map<u32, ProcessInfoView> {
    m.map_values(|p: ProcessInfo| p@)
}

/// A copy of optional text.
pub fn clone_opt(o: &Option<String>) -> (r: Option<String>)
    ensures
        opt_view(r) == opt_view(*o),
{
    match o {
        Some(s) => Some(s.clone()),
        None => None,
    }
}

/// A copy of a list of texts.
pub fn clone_strings(v: &Vec<String>) -> (r: Vec<String>)
    ensures
        r@.map_values(|s: String| s@) == v@.map_values(|s: String| s@),
{
    let mut r: Vec<String> = Vec::new();
    let mut i: usize = 0;
    while i < v.len()
        invariant
            i <= v@.len(),
            r@.map_values(|s: String| s@) == v@.take(i as int).map_values(|s: String| s@),
        decreases v.len() - i,
    {
        let ghost before = r@.map_values(|s: String| s@);
        r.push(v[i].clone());
        assert(r@.map_values(|s: String| s@) =~= v@.take(i + 1).map_values(|s: String| s@)) by {
            assert(v@.take(i + 1).map_values(|s: String| s@) =~= before.push(v@[i as int]@));
        }
        i = i + 1;
    }
    assert(v@.take(v.len() as int) =~= v@);
    r
}

/// Builds a `String` from characters; the field texts of the parsers.
pub fn text_of(v: &Vec<char>) -> (s: String)
    ensures
        s@ == v@,
{
    crate::text::string_of(v)
}

/// Two records are duplicates when protocol, local address and port, pid and
/// state agree.
pub open spec fn same_key(a: PortRecordView, b: PortRecordView) -> bool {
    &&& a.protocol == b.protocol
    &&& a.local_addr == b.local_addr
    &&& a.local_port == b.local_port
    &&& a.pid == b.pid
    &&& a.state == b.state
}

/// Some record of `s` is a duplicate of `r`.
pub open spec fn key_seen(s: Seq<PortRecordView>, r: PortRecordView) -> bool {
    exists|j: int| 0 <= j < s.len() && same_key(#[trigger] s[j], r)
}

/// The records without duplicates, each kept at its first occurrence.
pub open spec fn deduplicated(s: Seq<PortRecordView>) -> Seq<PortRecordView>
    decreases s.len(),
{
    if s.len() == 0 {
        seq![]
    } else if key_seen(s.drop_last(), s.last()) {
        deduplicated(s.drop_last())
    } else {
        deduplicated(s.drop_last()).push(s.last())
    }
}

proof fn lemma_key_seen_push(s: Seq<PortRecordView>, x: PortRecordView, r: PortRecordView)
    ensures
        key_seen(s.push(x), r) == (key_seen(s, r) || same_key(x, r)),
{
    let t = s.push(x);
    if key_seen(t, r) {
        let j = choose|j: int| 0 <= j < t.len() && same_key(#[trigger] t[j], r);
        if j < s.len() {
            assert(t[j] == s[j]);
            assert(same_key(s[j], r));
        }
    }
    if key_seen(s, r) {
        let j = choose|j: int| 0 <= j < s.len() && same_key(#[trigger] s[j], r);
        assert(t[j] == s[j]);
        assert(same_key(t[j], r));
    }
    if same_key(x, r) {
        assert(t[s.len() as int] == x);
    }
}

/// A duplicate is found among the kept records exactly when it is found among all
/// records before it.
pub proof fn lemma_dedup_same_keys(s: Seq<PortRecordView>, r: PortRecordView)
    ensures
        key_seen(deduplicated(s), r) == key_seen(s, r),
    decreases s.len(),
{
    if s.len() > 0 {
        let t = s.drop_last();
        let x = s.last();
        assert(t.push(x) =~= s);
        lemma_dedup_same_keys(t, r);
        lemma_key_seen_push(t, x, r);
        let d = deduplicated(t);
        if key_seen(t, x) {
            if same_key(x, r) {
                let k = choose|k: int| 0 <= k < t.len() && same_key(#[trigger] t[k], x);
                assert(same_key(t[k], r));
            }
        } else {
            lemma_key_seen_push(d, x, r);
        }
    }
}

fn same_key_exec(a: &PortRecord, b: &PortRecord) -> (r: bool)
    ensures
        r == same_key(a@, b@),
{
    let pid_eq = match (a.pid, b.pid) {
        (Some(x), Some(y)) => x == y,
        (None, None) => true,
        _ => false,
    };
    a.protocol == b.protocol && a.local_addr == b.local_addr && a.local_port == b.local_port
        && pid_eq && a.state == b.state
}

/// Removes exact duplicates (same protocol, address, port, pid and state), keeping
/// the first of each; different pids on one port are kept apart.
pub fn dedup_records(records: Vec<PortRecord>) -> (out: Vec<PortRecord>)
    ensures
        record_views(out@) == deduplicated(record_views(records@)),
{
    let mut records = records;
    let ghost all = record_views(records@);
    let mut rest: Vec<PortRecord> = Vec::new();
    // Take the records out in reverse, so that they can be moved one by one.
    while records.len() > 0
        invariant
            record_views(records@) + record_views(rest@).reverse() == all,
        decreases records.len(),
    {
        let ghost before_rec = record_views(records@);
        let ghost before_rest = record_views(rest@);
        let r = records.pop().unwrap();
        rest.push(r);
        assert(record_views(records@) =~= before_rec.drop_last());
        assert(record_views(rest@) =~= before_rest.push(before_rec.last()));
        assert(record_views(records@) + record_views(rest@).reverse() =~= all);
    }
    assert(record_views(rest@).reverse() =~= all);
    let total = rest.len();
    assert(all.len() == total);
    let mut out: Vec<PortRecord> = Vec::new();
    let mut n: usize = 0;
    while rest.len() > 0
        invariant
            n <= all.len(),
            record_views(rest@).reverse() =~= all.subrange(n as int, all.len() as int),
            rest@.len() + n == all.len(),
            all.len() <= usize::MAX,
            record_views(out@) == deduplicated(all.take(n as int)),
        decreases rest.len(),
    {
        let ghost before_rest = record_views(rest@);
        let r = rest.pop().unwrap();
        assert(record_views(rest@) =~= before_rest.drop_last());
        assert(r@ == all[n as int]) by {
            assert(before_rest.last() == r@);
            assert(before_rest.reverse()[0] == before_rest[before_rest.len() - 1]);
            assert(all.subrange(n as int, all.len() as int)[0] == all[n as int]);
        }
        let mut seen = false;
        let mut j: usize = 0;
        while j < out.len()
            invariant
                j <= out@.len(),
                !seen ==> forall|m: int| 0 <= m < j ==> !same_key(#[trigger] record_views(out@)[m], r@),
                seen ==> key_seen(record_views(out@), r@),
            decreases out.len() - j,
        {
            if !seen && same_key_exec(&out[j], &r) {
                seen = true;
                assert(same_key(record_views(out@)[j as int], r@));
            }
            j = j + 1;
        }
        let ghost prefix = all.take(n as int);
        let ghost next = all.take(n + 1);
        assert(next.drop_last() =~= prefix);
        assert(next.last() == r@);
        proof {
            lemma_dedup_same_keys(prefix, r@);
        }
        if !seen {
            let ghost ov = record_views(out@);
            out.push(r);
            assert(record_views(out@) =~= ov.push(r@));
        }
        n = n + 1;
        assert(record_views(rest@).reverse() =~= all.subrange(n as int, all.len() as int)) by {
            let rv = record_views(rest@);
            assert(rv =~= before_rest.drop_last());
            assert forall|k: int| 0 <= k < rv.len() implies #[trigger] rv.reverse()[k] == all[n + k] by {
                assert(rv.reverse()[k] == rv[rv.len() - 1 - k]);
                assert(before_rest.reverse()[k + 1] == before_rest[before_rest.len() - 1 - (k + 1)]);
                assert(all.subrange(n - 1, all.len() as int)[k + 1] == all[n + k]);
            }
        }
    }
    assert(all.take(n as int) =~= all);
    out
}

/// The records that the lines of a tool's output yield: the first `skip` lines are
/// headers, and a line yields the record that `f` makes of its fields, if any.
pub open spec fn collect_lines(
    ls: Seq<Seq<char>>,
    skip: nat,
    f: spec_fn(Seq<Seq<char>>) -> Option<PortRecordView>,
) -> Seq<PortRecordView>
    decreases ls.len(),
{
    if ls.len() <= skip {
        seq![]
    } else {
        let prev = collect_lines(ls.drop_last(), skip, f);
        match f(ws_tokens(ls.last())) {
            Some(r) => prev.push(r),
            None => prev,
        }
    }
}

/// `i` is the last position of `c` in `s`.
pub open spec fn is_last_index(s: Seq<char>, c: char, i: int) -> bool {
    &&& 0 <= i < s.len()
    &&& s[i] == c
    &&& forall|j: int| i < j < s.len() ==> s[j] != c
}

/// The last position of `c` in `s` (when it occurs).
pub open spec fn last_index(s: Seq<char>, c: char) -> int {
    choose|i: int| is_last_index(s, c, i)
}

pub proof fn lemma_last_index(s: Seq<char>, c: char, i: int)
    requires
        is_last_index(s, c, i),
    ensures
        last_index(s, c) == i,
{
    let k = last_index(s, c);
    assert(is_last_index(s, c, k));
}

/// A `host:port` address as the tools print it: split at the last colon, the port
/// read as decimal (0 when it cannot be), brackets around an IPv6 host removed and,
/// when `star` is set, a `*` host read as `0.0.0.0`. Without a colon the address is
/// `0.0.0.0` port 0.
pub open spec fn host_port(a: Seq<char>, star: bool) -> (Seq<char>, u16) {
    if exists|j: int| 0 <= j < a.len() && a[j] == ':' {
        let k = last_index(a, ':');
        let ip = a.take(k);
        let port = match parse_unsigned(a.skip(k + 1), 10, 65535) {
            Some(p) => p as u16,
            None => 0,
        };
        let host = if ip.len() > 0 && ip[0] == '[' && ip.last() == ']' {
            ip.subrange(1, ip.len() - 1)
        } else if star && ip == seq!['*'] {
            "0.0.0.0"@
        } else {
            ip
        };
        (host, port)
    } else {
        ("0.0.0.0"@, 0)
    }
}

/// Splits a `host:port` address.
pub fn parse_host_port(a: &Vec<char>, star: bool) -> (r: (String, u16))
    ensures
        (r.0@, r.1) == host_port(a@, star),
{
    match rfind_char(a, ':') {
        None => (String::from_str("0.0.0.0"), 0),
        Some(k) => {
            proof {
                lemma_last_index(a@, ':', k as int);
            }
            let ip = sub_chars(a, 0, k);
            assert(ip@ =~= a@.take(k as int));
            let alen = a.len();
            let port_text = sub_chars(a, k + 1, alen);
            assert(port_text@ =~= a@.skip(k + 1));
            let port: u16 = match crate::text::parse_number(&port_text, 10, 65535) {
                Some(p) => p as u16,
                None => 0,
            };
            let n = ip.len();
            let host = if n > 0 && ip[0] == '[' && ip[n - 1] == ']' {
                text_of(&sub_chars(&ip, 1, n - 1))
            } else if star && n == 1 && ip[0] == '*' {
                assert(ip@ =~= seq!['*']);
                String::from_str("0.0.0.0")
            } else {
                proof {
                    if star && ip@ == seq!['*'] {
                        assert(ip@[0] == '*');
                    }
                }
                text_of(&ip)
            };
            (host, port)
        },
    }
}

/// `i` is the first position where `n` occurs in `h`.
pub open spec fn is_first_occurrence(h: Seq<char>, n: Seq<char>, i: int) -> bool {
    &&& 0 <= i && i + n.len() <= h.len()
    &&& h.subrange(i, i + n.len()) == n
    &&& forall|j: int| 0 <= j < i ==> #[trigger] h.subrange(j, j + n.len()) != n
}

/// The first position where `n` occurs in `h` (when it occurs).
pub open spec fn first_occurrence(h: Seq<char>, n: Seq<char>) -> int {
    choose|i: int| is_first_occurrence(h, n, i)
}

pub proof fn lemma_first_occurrence(h: Seq<char>, n: Seq<char>, i: int)
    requires
        is_first_occurrence(h, n, i),
    ensures
        first_occurrence(h, n) == i,
{
    let k = first_occurrence(h, n);
    assert(is_first_occurrence(h, n, k));
    if k < i {
        assert(h.subrange(k, k + n.len()) != n);
    }
    if i < k {
        assert(h.subrange(i, i + n.len()) != n);
    }
}

/// The two sides of the only `->` in a text, if it has exactly one.
pub open spec fn arrow_sides(s: Seq<char>) -> Option<(Seq<char>, Seq<char>)> {
    let arrow = seq!['-', '>'];
    if contains_seq(s, arrow) {
        let i = first_occurrence(s, arrow);
        if contains_seq(s.skip(i + 2), arrow) {
            None
        } else {
            Some((s.take(i), s.skip(i + 2)))
        }
    } else {
        None
    }
}

/// Splits a text at its only `->`, if it has exactly one.
pub fn split_arrow(s: &Vec<char>) -> (r: Option<(Vec<char>, Vec<char>)>)
    ensures
        match r {
            Some((a, b)) => arrow_sides(s@) == Some((a@, b@)),
            None => arrow_sides(s@) is None,
        },
{
    let mut arrow: Vec<char> = Vec::new();
    arrow.push('-');
    arrow.push('>');
    assert(arrow@ =~= seq!['-', '>']);
    match find_seq(s, &arrow) {
        None => None,
        Some(i) => {
            proof {
                lemma_first_occurrence(s@, arrow@, i as int);
            }
            let slen = s.len();
            let rest = sub_chars(s, i + 2, slen);
            assert(rest@ =~= s@.skip(i + 2));
            match find_seq(&rest, &arrow) {
                Some(_) => None,
                None => {
                    let a = sub_chars(s, 0, i);
                    assert(a@ =~= s@.take(i as int));
                    Some((a, rest))
                },
            }
        },
    }
}

/// After deduplication no two records are duplicates of each other.
pub proof fn law_dedup_no_duplicates(s: Seq<PortRecordView>)
    ensures
        forall|i: int, j: int|
            0 <= i < j < deduplicated(s).len() ==> !same_key(
                #[trigger] deduplicated(s)[i],
                #[trigger] deduplicated(s)[j],
            ),
    decreases s.len(),
{
    if s.len() > 0 {
        let t = s.drop_last();
        law_dedup_no_duplicates(t);
        let d = deduplicated(t);
        if key_seen(t, s.last()) {
            assert(deduplicated(s) == d);
        } else {
            assert(deduplicated(s) == d.push(s.last()));
            lemma_dedup_same_keys(t, s.last());
            assert forall|i: int, j: int|
                0 <= i < j < deduplicated(s).len() implies !same_key(
                #[trigger] deduplicated(s)[i],
                #[trigger] deduplicated(s)[j],
            ) by {
                if j == d.len() {
                    if same_key(d[i], s.last()) {
                        assert(key_seen(d, s.last()));
                    }
                } else {
                    assert(deduplicated(s)[i] == d[i] && deduplicated(s)[j] == d[j]);
                }
            }
        }
    }
}

/// Deduplicating twice gives what deduplicating once gives.
pub proof fn law_dedup_idempotent(s: Seq<PortRecordView>)
    ensures
        deduplicated(deduplicated(s)) == deduplicated(s),
    decreases s.len(),
{
    if s.len() > 0 {
        let t = s.drop_last();
        law_dedup_idempotent(t);
        let d = deduplicated(t);
        if !key_seen(t, s.last()) {
            lemma_dedup_same_keys(t, s.last());
            let e = d.push(s.last());
            assert(e.drop_last() =~= d);
            assert(e.last() == s.last());
        }
    }
}

} // verus!
