//! The text of the process details panel for the selected record.

use vstd::prelude::*;
use crate::models::{uptime_text, format_uptime_at, PortRecord, ProcessDetails};
use crate::text::{chars_of, decimal, decimal_string, string_of, utf8_len, utf8_length};

verus! {

/// A text can be cut after its first `n` bytes: some prefix of it is `n` bytes long.
pub open spec fn is_boundary(s: Seq<char>, n: nat) -> bool {
    exists|k: int| 0 <= k <= s.len() && #[trigger] utf8_len(s.take(k)) == n
}

/// The prefix of a text that is `n` bytes long (`&s[..n]`), when there is one.
pub open spec fn byte_prefix(s: Seq<char>, n: nat) -> Seq<char> {
    s.take(choose|k: int| 0 <= k <= s.len() && #[trigger] utf8_len(s.take(k)) == n)
}

/// A text longer than `limit` bytes cut to its first `keep` bytes and `...`.
pub open spec fn shortened(s: Seq<char>, limit: nat, keep: nat) -> Seq<char> {
    if utf8_len(s) > limit {
        byte_prefix(s, keep) + "..."@
    } else {
        s
    }
}

/// Cutting a text longer than `limit` bytes after `keep` bytes falls between two
/// characters.
pub open spec fn can_shorten(s: Seq<char>, limit: nat, keep: nat) -> bool {
    utf8_len(s) > limit ==> is_boundary(s, keep)
}

proof fn lemma_prefix_len_grows(s: Seq<char>, a: int, b: int)
    requires
        0 <= a < b <= s.len(),
    ensures
        utf8_len(s.take(a)) < utf8_len(s.take(b)),
    decreases b - a,
{
    assert(s.take(b).drop_last() =~= s.take(b - 1));
    if a < b - 1 {
        lemma_prefix_len_grows(s, a, b - 1);
    }
}

fn shorten(s: &Vec<char>, limit: u64, keep: u64) -> (r: Vec<char>)
    requires
        can_shorten(s@, limit as nat, keep as nat),
        keep < limit,
        limit < 1000,
    ensures
        r@ == shortened(s@, limit as nat, keep as nat),
{
    if utf8_length(s) <= limit {
        return s.clone();
    }
    let ghost k = choose|k: int| 0 <= k <= s@.len() && #[trigger] utf8_len(s@.take(k)) == keep;
    let mut acc: u64 = 0;
    let mut i: usize = 0;
    let n = s.len();
    assert(s@.take(0) =~= Seq::<char>::empty());
    while acc < keep
        invariant
            n == s@.len(),
            0 <= k <= s@.len(),
            utf8_len(s@.take(k)) == keep,
            i <= k,
            acc == utf8_len(s@.take(i as int)),
            keep < 1000,
        decreases k - i,
    {
        assert(i < k) by {
            if i == k {
                assert(acc == keep);
            }
        }
        assert(s@.take(i + 1).drop_last() =~= s@.take(i as int));
        let c = s[i];
        let w: u64 = if (c as u32) < 0x80 {
            1
        } else if (c as u32) < 0x800 {
            2
        } else if (c as u32) < 0x10000 {
            3
        } else {
            4
        };
        acc = acc + w;
        i = i + 1;
        proof {
            if i < k {
                lemma_prefix_len_grows(s@, i as int, k);
            }
        }
    }
    proof {
        if i < k {
            lemma_prefix_len_grows(s@, i as int, k);
        }
        let c = choose|c: int| 0 <= c <= s@.len() && #[trigger] utf8_len(s@.take(c)) == keep;
        if c < i {
            lemma_prefix_len_grows(s@, c, i as int);
        }
        if i < c {
            lemma_prefix_len_grows(s@, i as int, c);
        }
    }
    let mut r: Vec<char> = Vec::new();
    let mut j: usize = 0;
    while j < i
        invariant
            j <= i <= s@.len(),
            r@ == s@.take(j as int),
        decreases i - j,
    {
        r.push(s[j]);
        assert(r@ =~= s@.take(j + 1));
        j = j + 1;
    }
    r.push('.');
    r.push('.');
    r.push('.');
    proof {
        reveal_strlit("...");
    }
    assert(r@ =~= s@.take(i as int) + "..."@);
    r
}

/// Texts joined with single spaces between them.
pub open spec fn joined(parts: Seq<Seq<char>>) -> Seq<char>
    decreases parts.len(),
{
    if parts.len() == 0 {
        seq![]
    } else if parts.len() == 1 {
        parts[0]
    } else {
        joined(parts.drop_last()) + seq![' '] + parts.last()
    }
}

fn join_words(parts: &Vec<String>) -> (r: Vec<char>)
    ensures
        r@ == joined(parts@.map_values(|s: String| s@)),
{
    let ghost pv = parts@.map_values(|s: String| s@);
    let mut r: Vec<char> = Vec::new();
    let mut i: usize = 0;
    while i < parts.len()
        invariant
            i <= parts@.len(),
            pv == parts@.map_values(|s: String| s@),
            r@ == joined(pv.take(i as int)),
        decreases parts.len() - i,
    {
        assert(pv.take(i + 1).drop_last() =~= pv.take(i as int));
        let w = chars_of(parts[i].as_str());
        if i > 0 {
            r.push(' ');
        }
        let mut j: usize = 0;
        let ghost base = r@;
        while j < w.len()
            invariant
                j <= w@.len(),
                r@ == base + w@.take(j as int),
            decreases w.len() - j,
        {
            r.push(w[j]);
            assert(r@ =~= base + w@.take(j + 1));
            j = j + 1;
        }
        assert(w@.take(w.len() as int) =~= w@);
        if i == 0 {
            assert(pv.take(1) =~= seq![pv[0]]);
            assert(r@ =~= pv[0]);
        }
        assert(r@ =~= joined(pv.take(i + 1)));
        i = i + 1;
    }
    assert(pv.take(parts.len() as int) =~= pv);
    r
}

/// The command line as shown: arguments joined by spaces, cut after 77 bytes when
/// longer than 80.
pub open spec fn command_text(args: Seq<String>) -> Seq<char> {
    shortened(joined(args.map_values(|s: String| s@)), 80, 77)
}

/// An environment value as shown: cut after 37 bytes when longer than 40.
pub open spec fn env_value_text(v: Seq<char>) -> Seq<char> {
    shortened(v, 40, 37)
}

/// The panel can be drawn for a record and its details: the command line that is
/// shown and the first five environment values can be cut where they must be.
pub open spec fn details_drawable(port: PortRecord, details: Option<ProcessDetails>) -> bool {
    match details {
        Some(d) => {
            &&& if d.cmdline@.len() > 0 {
                can_shorten(joined(d.cmdline@.map_values(|s: String| s@)), 80, 77)
            } else {
                can_shorten(joined(port.cmdline@.map_values(|s: String| s@)), 80, 77)
            }
            &&& forall|i: int|
                0 <= i < d.env_preview@.len() && i < 5 ==> can_shorten(
                    (#[trigger] d.env_preview@[i]).1@,
                    40,
                    37,
                )
        },
        None => true,
    }
}

/// The lines about a process's command and environment.
pub open spec fn process_tail(port: PortRecord, d: ProcessDetails) -> Seq<Seq<char>> {
    let cmd: Seq<Seq<char>> = if d.cmdline@.len() > 0 {
        seq!["Command:"@, "  "@ + command_text(d.cmdline@), Seq::<char>::empty()]
    } else if port.cmdline@.len() > 0 {
        seq!["Command:"@, "  "@ + command_text(port.cmdline@), Seq::<char>::empty()]
    } else {
        seq![]
    };
    let n = if d.env_preview@.len() < 5 {
        d.env_preview@.len()
    } else {
        5
    };
    let env: Seq<Seq<char>> = if d.env_preview@.len() > 0 {
        seq!["Environment (preview):"@] + Seq::new(
            n,
            |i: int| "  "@ + d.env_preview@[i].0@ + "="@ + env_value_text(d.env_preview@[i].1@),
        )
    } else {
        seq![]
    };
    cmd + env
}

/// The lines about a process, given how its memory is written and the current time.
pub open spec fn process_lines(
    port: PortRecord,
    d: ProcessDetails,
    memory: Seq<char>,
    now: u64,
) -> Seq<Seq<char>> {
    seq!["PID: "@ + decimal(d.pid as nat), "Name: "@ + d.name@] + (match (d.exe, port.exe) {
        (Some(e), _) => seq!["Executable: "@ + e@],
        (None, Some(e)) => seq!["Executable: "@ + e@],
        _ => seq![],
    }) + (match d.cwd {
        Some(c) => seq!["Working Dir: "@ + c@],
        None => seq![],
    }) + (match d.parent_pid {
        Some(p) => seq!["Parent PID: "@ + decimal(p as nat)],
        None => seq![],
    }) + (match (d.user, port.user) {
        (Some(u), _) => seq!["User: "@ + u@],
        (None, Some(u)) => seq!["User: "@ + u@],
        _ => seq![],
    }) + seq![
        "Memory: "@ + memory,
        "CPU: "@ + d.cpu_percent.one_decimal@ + "%"@,
        "Uptime: "@ + uptime_text(d.start_time, now),
        Seq::<char>::empty(),
    ] + process_tail(port, d)
}

/// The lines of the details panel for the selected record, if any.
pub open spec fn details_lines_of(
    port: Option<PortRecord>,
    details: Option<ProcessDetails>,
    memory: Seq<char>,
    now: u64,
) -> Seq<Seq<char>> {
    match port {
        None => seq!["Select a port to view details"@],
        Some(p) => {
            let head = seq!["Local: "@ + p.local_addr@ + ":"@ + decimal(p.local_port as nat)] + (
            match (p.remote_addr, p.remote_port) {
                (Some(a), Some(rp)) => seq!["Remote: "@ + a@ + ":"@ + decimal(rp as nat)],
                _ => seq![],
            }) + seq![Seq::<char>::empty()];
            head + match details {
                Some(d) => process_lines(p, d, memory, now),
                None => if p.pid is Some {
                    seq!["Loading process details..."@]
                } else {
                    seq!["No process associated with this port"@]
                },
            }
        },
    }
}

/// The texts held by a vector of strings.
pub open spec fn texts(v: Seq<String>) -> Seq<Seq<char>> {
    v.map_values(|s: String| s@)
}

fn push_line(lines: &mut Vec<String>, s: String)
    ensures
        texts(final(lines)@) == texts(old(lines)@).push(s@),
{
    lines.push(s);
    assert(texts(lines@) =~= texts(old(lines)@).push(s@));
}

fn text2(a: &str, b: &str) -> (s: String)
    ensures
        s@ == a@ + b@,
{
    let mut s = String::from_str(a);
    s.append(b);
    s
}

fn push_process_tail(lines: &mut Vec<String>, port: &PortRecord, d: &ProcessDetails)
    requires
        details_drawable(*port, Some(*d)),
    ensures
        texts(final(lines)@) == texts(old(lines)@) + process_tail(*port, *d),
{
    let ghost start = texts(lines@);
    if d.cmdline.len() > 0 || port.cmdline.len() > 0 {
        let args = if d.cmdline.len() > 0 {
            &d.cmdline
        } else {
            &port.cmdline
        };
        let cmd = shorten(&join_words(args), 80, 77);
        push_line(lines, String::from_str("Command:"));
        push_line(lines, text2("  ", string_of(&cmd).as_str()));
        push_line(lines, String::new());
    }
    let ghost mid = texts(lines@);
    assert(mid == start + (if d.cmdline@.len() > 0 {
        seq!["Command:"@, "  "@ + command_text(d.cmdline@), Seq::<char>::empty()]
    } else if port.cmdline@.len() > 0 {
        seq!["Command:"@, "  "@ + command_text(port.cmdline@), Seq::<char>::empty()]
    } else {
        Seq::<Seq<char>>::empty()
    }));
    if d.env_preview.len() > 0 {
        push_line(lines, String::from_str("Environment (preview):"));
        let n: usize = if d.env_preview.len() < 5 {
            d.env_preview.len()
        } else {
            5
        };
        let ghost env = Seq::new(
            n as nat,
            |i: int| "  "@ + d.env_preview@[i].0@ + "="@ + env_value_text(d.env_preview@[i].1@),
        );
        let mut i: usize = 0;
        while i < n
            invariant
                i <= n <= 5,
                n <= d.env_preview@.len(),
                details_drawable(*port, Some(*d)),
                env == Seq::new(
                    n as nat,
                    |i: int| "  "@ + d.env_preview@[i].0@ + "="@ + env_value_text(
                        d.env_preview@[i].1@,
                    ),
                ),
                texts(lines@) == mid.push("Environment (preview):"@) + env.take(i as int),
            decreases n - i,
        {
            let (k, v) = (&d.env_preview[i].0, &d.env_preview[i].1);
            assert(can_shorten(d.env_preview@[i as int].1@, 40, 37));
            let shown = shorten(&chars_of(v.as_str()), 40, 37);
            let mut l = text2("  ", k.as_str());
            l.append("=");
            l.append(string_of(&shown).as_str());
            push_line(lines, l);
            assert(env.take(i + 1) =~= env.take(i as int).push(env[i as int]));
            i = i + 1;
        }
        assert(env.take(n as int) =~= env);
    }
    assert(texts(lines@) =~= start + process_tail(*port, *d));
}

fn push_process_lines(
    lines: &mut Vec<String>,
    port: &PortRecord,
    d: &ProcessDetails,
    memory: &str,
    now: u64,
)
    requires
        details_drawable(*port, Some(*d)),
    ensures
        texts(final(lines)@) == texts(old(lines)@) + process_lines(*port, *d, memory@, now),
{
    let ghost start = texts(lines@);
    push_line(lines, text2("PID: ", decimal_string(d.pid as u64).as_str()));
    push_line(lines, text2("Name: ", d.name.as_str()));
    match (&d.exe, &port.exe) {
        (Some(e), _) => push_line(lines, text2("Executable: ", e.as_str())),
        (None, Some(e)) => push_line(lines, text2("Executable: ", e.as_str())),
        _ => {},
    }
    match &d.cwd {
        Some(c) => push_line(lines, text2("Working Dir: ", c.as_str())),
        None => {},
    }
    match d.parent_pid {
        Some(p) => push_line(lines, text2("Parent PID: ", decimal_string(p as u64).as_str())),
        None => {},
    }
    match (&d.user, &port.user) {
        (Some(u), _) => push_line(lines, text2("User: ", u.as_str())),
        (None, Some(u)) => push_line(lines, text2("User: ", u.as_str())),
        _ => {},
    }
    push_line(lines, text2("Memory: ", memory));
    let mut cpu = text2("CPU: ", d.cpu_percent.one_decimal.as_str());
    cpu.append("%");
    push_line(lines, cpu);
    push_line(lines, text2("Uptime: ", format_uptime_at(d.start_time, now).as_str()));
    push_line(lines, String::new());
    let ghost mid = texts(lines@);
    push_process_tail(lines, port, d);
    assert(texts(lines@) =~= start + process_lines(*port, *d, memory@, now));
}

/// The lines of the details panel for the selected record (if any) and its
/// process's details (if loaded), given how the process's memory is written and the
/// current time in seconds since 1970.
pub fn details_lines(
    port: Option<&PortRecord>,
    details: &Option<ProcessDetails>,
    memory: &str,
    now: u64,
) -> (lines: Vec<String>)
    requires
        port matches Some(p) ==> details_drawable(*p, *details),
    ensures
        texts(lines@) == details_lines_of(
            match port {
                Some(p) => Some(*p),
                None => None,
            },
            *details,
            memory@,
            now,
        ),
{
    let mut lines: Vec<String> = Vec::new();
    match port {
        None => {
            push_line(&mut lines, String::from_str("Select a port to view details"));
        },
        Some(p) => {
            let mut local = text2("Local: ", p.local_addr.as_str());
            local.append(":");
            local.append(decimal_string(p.local_port as u64).as_str());
            push_line(&mut lines, local);
            match (&p.remote_addr, p.remote_port) {
                (Some(a), Some(rp)) => {
                    let mut remote = text2("Remote: ", a.as_str());
                    remote.append(":");
                    remote.append(decimal_string(rp as u64).as_str());
                    push_line(&mut lines, remote);
                },
                _ => {},
            }
            push_line(&mut lines, String::new());
            let ghost head = texts(lines@);
            match details {
                Some(d) => push_process_lines(&mut lines, p, d, memory, now),
                None => {
                    if p.pid.is_some() {
                        push_line(&mut lines, String::from_str("Loading process details..."));
                    } else {
                        push_line(
                            &mut lines,
                            String::from_str("No process associated with this port"),
                        );
                    }
                },
            }
        },
    }
    assert(texts(lines@) =~= details_lines_of(
        match port {
            Some(p) => Some(*p),
            None => None,
        },
        *details,
        memory@,
        now,
    ));
    lines
}

} // verus!
