//! Reading an IP address from text, with the grammar of the standard library's
//! `IpAddr` parser: four decimal octets for IPv4, and eight colon-separated
//! hexadecimal groups for IPv6, where one `::` stands for one or more zero groups and
//! the last two groups may be written as an IPv4 address.

use vstd::prelude::*;
use crate::alerts::evaluator::IpAddress;
use crate::backends::common::{first_occurrence, is_first_occurrence, lemma_first_occurrence};
use crate::text::{
    all_digits, chars_of, contains_seq, digit_value, digits_value, find_seq, split_at_char,
    split_fields, lemma_split_fields_len, sub_chars, views,
};

verus! {

/// A decimal octet: one to three digits, no leading zero unless it is `0` alone,
/// at most 255.
pub open spec fn octet(p: Seq<char>) -> Option<nat> {
    if 1 <= p.len() <= 3 && all_digits(p, 10) && !(p.len() > 1 && p[0] == '0') && digits_value(
        p,
        10,
    ) <= 255 {
        Some(digits_value(p, 10))
    } else {
        None
    }
}

/// An IPv4 address: four octets separated by dots.
pub open spec fn ipv4_of(s: Seq<char>) -> Option<(u8, u8, u8, u8)> {
    let parts = split_fields(s, '.');
    if parts.len() == 4 && octet(parts[0]) is Some && octet(parts[1]) is Some && octet(parts[2])
        is Some && octet(parts[3]) is Some {
        Some(
            (
                octet(parts[0]).unwrap() as u8,
                octet(parts[1]).unwrap() as u8,
                octet(parts[2]).unwrap() as u8,
                octet(parts[3]).unwrap() as u8,
            ),
        )
    } else {
        None
    }
}

/// A hexadecimal group of an IPv6 address: one to four hexadecimal digits.
pub open spec fn hex_group(p: Seq<char>) -> Option<nat> {
    if 1 <= p.len() <= 4 && all_digits(p, 16) {
        Some(digits_value(p, 16))
    } else {
        None
    }
}

/// The groups that a run of `:`-separated parts stands for (none for empty text),
/// and whether it ends with an IPv4 address, which stands for two groups; `None`
/// when a part is neither.
pub open spec fn groups_of(s: Seq<char>) -> Option<(Seq<nat>, bool)> {
    if s.len() == 0 {
        Some((seq![], false))
    } else {
        let parts = split_fields(s, ':');
        let n = parts.len();
        if n >= 1 && forall|i: int| 0 <= i < n - 1 ==> (#[trigger] hex_group(parts[i])) is Some {
            let init = Seq::new((n - 1) as nat, |i: int| hex_group(parts[i]).unwrap());
            match hex_group(parts[n - 1]) {
                Some(g) => Some((init.push(g), false)),
                None => match ipv4_of(parts[n - 1]) {
                    Some((a, b, c, d)) => Some(
                        (init.push((a * 256 + b) as nat).push((c * 256 + d) as nat), true),
                    ),
                    None => None,
                },
            }
        } else {
            None
        }
    }
}

/// The number that groups of sixteen bits spell, first group highest.
pub open spec fn groups_value(g: Seq<nat>) -> nat
    decreases g.len(),
{
    if g.len() == 0 {
        0
    } else {
        groups_value(g.drop_last()) * 65536 + g.last()
    }
}

/// An IPv6 address as a number: eight groups, or the groups before and after the
/// first `::` (no IPv4 address before it, at most seven groups in all) with zero
/// groups between them.
pub open spec fn ipv6_of(s: Seq<char>) -> Option<nat> {
    let dc = seq![':', ':'];
    if contains_seq(s, dc) {
        let k = first_occurrence(s, dc);
        match (groups_of(s.take(k)), groups_of(s.skip(k + 2))) {
            (Some((h, hv4)), Some((t, _))) => if !hv4 && h.len() + t.len() <= 7 {
                Some(
                    groups_value(
                        h + Seq::new((8 - h.len() - t.len()) as nat, |i: int| 0nat) + t,
                    ),
                )
            } else {
                None
            },
            _ => None,
        }
    } else {
        match groups_of(s) {
            Some((g, _)) => if g.len() == 8 {
                Some(groups_value(g))
            } else {
                None
            },
            None => None,
        }
    }
}

/// The address that a text spells (`str::parse::<IpAddr>`): IPv4 first, then IPv6.
pub open spec fn ip_of(s: Seq<char>) -> Option<IpAddress> {
    match ipv4_of(s) {
        Some((a, b, c, d)) => Some(IpAddress::V4(a, b, c, d)),
        None => match ipv6_of(s) {
            Some(v) => Some(IpAddress::V6(v as u128)),
            None => None,
        },
    }
}

/// The address of optional text; none for no text.
pub open spec fn ip_of_opt(s: Option<String>) -> Option<IpAddress> {
    match s {
        Some(t) => ip_of(t@),
        None => None,
    }
}

fn parse_digits(p: &Vec<char>, radix: u64, max_len: usize) -> (r: Option<u64>)
    requires
        radix == 10 || radix == 16,
        max_len <= 4,
    ensures
        match r {
            Some(v) => 1 <= p@.len() <= max_len && all_digits(p@, radix as nat) && v == digits_value(
                p@,
                radix as nat,
            ),
            None => !(1 <= p@.len() <= max_len && all_digits(p@, radix as nat)),
        },
{
    if p.len() == 0 || p.len() > max_len {
        return None;
    }
    let mut v: u64 = 0;
    let mut i: usize = 0;
    while i < p.len()
        invariant
            radix == 10 || radix == 16,
            p@.len() <= max_len <= 4,
            i <= p@.len(),
            all_digits(p@.take(i as int), radix as nat),
            v == digits_value(p@.take(i as int), radix as nat),
            v < 65536,
            i == 0 ==> v == 0,
            i == 1 ==> v < 16,
            i == 2 ==> v < 256,
            i == 3 ==> v < 4096,
        decreases p.len() - i,
    {
        let c = p[i];
        let d: u64 = if '0' <= c && c <= '9' {
            (c as u32 - '0' as u32) as u64
        } else if radix == 16 && 'a' <= c && c <= 'f' {
            (c as u32 - 'a' as u32 + 10) as u64
        } else if radix == 16 && 'A' <= c && c <= 'F' {
            (c as u32 - 'A' as u32 + 10) as u64
        } else {
            proof {
                assert(digit_value(p@[i as int], radix as nat) is None);
            }
            return None;
        };
        assert(p@.take(i + 1).drop_last() =~= p@.take(i as int));
        assert(p@.take(i + 1).last() == c);
        assert(all_digits(p@.take(i + 1), radix as nat)) by {
            assert forall|j: int| 0 <= j < i + 1 implies (#[trigger] digit_value(
                p@.take(i + 1)[j],
                radix as nat,
            )) is Some by {
                if j < i {
                    assert(p@.take(i + 1)[j] == p@.take(i as int)[j]);
                }
            }
        }
        v = v * radix + d;
        i = i + 1;
    }
    assert(p@.take(p.len() as int) =~= p@);
    Some(v)
}

fn parse_octet(p: &Vec<char>) -> (r: Option<u8>)
    ensures
        match r {
            Some(v) => octet(p@) == Some(v as nat),
            None => octet(p@) is None,
        },
{
    match parse_digits(p, 10, 3) {
        Some(v) => {
            if p.len() > 1 && p[0] == '0' {
                None
            } else if v > 255 {
                None
            } else {
                Some(v as u8)
            }
        },
        None => None,
    }
}

fn parse_hex_group(p: &Vec<char>) -> (r: Option<u64>)
    ensures
        match r {
            Some(v) => hex_group(p@) == Some(v as nat) && v < 65536,
            None => hex_group(p@) is None,
        },
{
    let r = parse_digits(p, 16, 4);
    proof {
        if r is Some {
            lemma_hex_group_bound(p@);
        }
    }
    r
}

proof fn lemma_hex_group_bound(p: Seq<char>)
    requires
        p.len() <= 4,
        all_digits(p, 16),
    ensures
        digits_value(p, 16) < pow65536_quarter(p.len()),
    decreases p.len(),
{
    if p.len() > 0 {
        let q = p.drop_last();
        assert(all_digits(q, 16)) by {
            assert forall|j: int| 0 <= j < q.len() implies (#[trigger] digit_value(q[j], 16)) is Some by {
                assert(q[j] == p[j]);
            }
        }
        lemma_hex_group_bound(q);
        assert(digit_value(p.last(), 16) is Some);
    }
}

/// Sixteen to the power `k`, for `k` up to four.
spec fn pow65536_quarter(k: nat) -> nat {
    if k == 0 {
        1
    } else if k == 1 {
        16
    } else if k == 2 {
        256
    } else if k == 3 {
        4096
    } else {
        65536
    }
}

/// Reads an IPv4 address.
pub fn parse_ipv4(s: &Vec<char>) -> (r: Option<(u8, u8, u8, u8)>)
    ensures
        r == ipv4_of(s@),
{
    let parts = split_at_char(s, '.');
    if parts.len() != 4 {
        return None;
    }
    let ghost pv = views(parts@);
    assert(pv[0] == parts@[0]@ && pv[1] == parts@[1]@ && pv[2] == parts@[2]@ && pv[3] == parts@[3]@);
    match (parse_octet(&parts[0]), parse_octet(&parts[1]), parse_octet(&parts[2]), parse_octet(&parts[3])) {
        (Some(a), Some(b), Some(c), Some(d)) => Some((a, b, c, d)),
        _ => None,
    }
}

fn parse_groups(s: &Vec<char>) -> (r: Option<(Vec<u64>, bool)>)
    ensures
        match r {
            Some((g, v4)) => groups_of(s@) == Some((g@.map_values(|x: u64| x as nat), v4))
                && forall|i: int| 0 <= i < g@.len() ==> #[trigger] g@[i] < 65536,
            None => groups_of(s@) is None,
        },
{
    if s.len() == 0 {
        let g: Vec<u64> = Vec::new();
        assert(g@.map_values(|x: u64| x as nat) =~= Seq::<nat>::empty());
        return Some((g, false));
    }
    let parts = split_at_char(s, ':');
    let ghost pv = views(parts@);
    proof {
        lemma_split_fields_len(s@, ':');
    }
    let n = parts.len();
    let mut g: Vec<u64> = Vec::new();
    let mut i: usize = 0;
    while i < n - 1
        invariant
            n == parts@.len() == pv.len(),
            n >= 1,
            pv == views(parts@),
            pv == split_fields(s@, ':'),
            i <= n - 1,
            g@.len() == i,
            forall|j: int| 0 <= j < i ==> (#[trigger] hex_group(pv[j])) is Some,
            g@.map_values(|x: u64| x as nat) == Seq::new(i as nat, |j: int| hex_group(pv[j]).unwrap()),
            forall|j: int| 0 <= j < g@.len() ==> #[trigger] g@[j] < 65536,
        decreases n - 1 - i,
    {
        assert(pv[i as int] == parts@[i as int]@);
        match parse_hex_group(&parts[i]) {
            Some(v) => {
                let ghost before = g@.map_values(|x: u64| x as nat);
                g.push(v);
                assert(hex_group(pv[i as int]) == Some(v as nat));
                assert(g@.map_values(|x: u64| x as nat) =~= before.push(v as nat));
                assert(before.push(v as nat) =~= Seq::new(
                    (i + 1) as nat,
                    |j: int| hex_group(pv[j]).unwrap(),
                ));
            },
            None => {
                return None;
            },
        }
        i = i + 1;
    }
    let ghost init = Seq::new((n - 1) as nat, |j: int| hex_group(pv[j]).unwrap());
    assert(pv[n - 1] == parts@[n - 1]@);
    match parse_hex_group(&parts[n - 1]) {
        Some(v) => {
            g.push(v);
            assert(g@.map_values(|x: u64| x as nat) =~= init.push(v as nat));
            Some((g, false))
        },
        None => match parse_ipv4(&parts[n - 1]) {
            Some((a, b, c, d)) => {
                let hi = (a as u64) * 256 + (b as u64);
                let lo = (c as u64) * 256 + (d as u64);
                g.push(hi);
                g.push(lo);
                assert(g@.map_values(|x: u64| x as nat) =~= init.push((a * 256 + b) as nat).push(
                    (c * 256 + d) as nat,
                ));
                Some((g, true))
            },
            None => None,
        },
    }
}

/// 65536 to the power `k`.
spec fn group_power(k: nat) -> nat
    decreases k,
{
    if k == 0 {
        1
    } else {
        65536 * group_power((k - 1) as nat)
    }
}

proof fn lemma_group_power_grows(i: nat, j: nat)
    requires
        i <= j,
    ensures
        group_power(i) <= group_power(j),
    decreases j,
{
    if i < j {
        lemma_group_power_grows(i, (j - 1) as nat);
    }
}

fn groups_number(g: &Vec<u64>) -> (v: u128)
    requires
        g@.len() <= 8,
        forall|i: int| 0 <= i < g@.len() ==> #[trigger] g@[i] < 65536,
    ensures
        v == groups_value(g@.map_values(|x: u64| x as nat)),
{
    let ghost gv = g@.map_values(|x: u64| x as nat);
    assert(group_power(8) == 0x1_0000_0000_0000_0000_0000_0000_0000_0000) by {
        reveal_with_fuel(group_power, 9);
    }
    let mut acc: u128 = 0;
    let mut i: usize = 0;
    assert(gv.take(0) =~= Seq::<nat>::empty());
    while i < g.len()
        invariant
            g@.len() <= 8,
            forall|j: int| 0 <= j < g@.len() ==> #[trigger] g@[j] < 65536,
            gv == g@.map_values(|x: u64| x as nat),
            group_power(8) == 0x1_0000_0000_0000_0000_0000_0000_0000_0000,
            i <= g@.len(),
            acc == groups_value(gv.take(i as int)),
            acc < group_power(i as nat),
        decreases g.len() - i,
    {
        assert(gv.take(i + 1).drop_last() =~= gv.take(i as int));
        let x = g[i];
        proof {
            lemma_group_power_grows((i + 1) as nat, 8);
            let p = group_power(i as nat);
            assert(acc * 65536 + x < p * 65536) by (nonlinear_arith)
                requires
                    acc < p,
                    x < 65536,
            ;
        }
        acc = acc * 65536 + (x as u128);
        i = i + 1;
    }
    assert(gv.take(g.len() as int) =~= gv);
    acc
}

fn push_all_groups(dst: &mut Vec<u64>, src: &Vec<u64>)
    ensures
        final(dst)@ == old(dst)@ + src@,
{
    let mut i: usize = 0;
    while i < src.len()
        invariant
            i <= src@.len(),
            dst@ == old(dst)@ + src@.take(i as int),
        decreases src.len() - i,
    {
        dst.push(src[i]);
        assert(dst@ =~= old(dst)@ + src@.take(i + 1));
        i = i + 1;
    }
    assert(src@.take(src.len() as int) =~= src@);
}

/// Reads an IPv6 address as a number.
pub fn parse_ipv6(s: &Vec<char>) -> (r: Option<u128>)
    ensures
        match r {
            Some(v) => ipv6_of(s@) == Some(v as nat),
            None => ipv6_of(s@) is None,
        },
{
    let mut dc: Vec<char> = Vec::new();
    dc.push(':');
    dc.push(':');
    assert(dc@ =~= seq![':', ':']);
    match find_seq(s, &dc) {
        Some(k) => {
            proof {
                lemma_first_occurrence(s@, dc@, k as int);
            }
            let n = s.len();
            assert(k + 2 <= n);
            let head = sub_chars(s, 0, k);
            let tail = sub_chars(s, k + 2, n);
            assert(head@ =~= s@.take(k as int));
            assert(tail@ =~= s@.skip(k + 2));
            match (parse_groups(&head), parse_groups(&tail)) {
                (Some((h, hv4)), Some((t, _))) => {
                    if hv4 || h.len() > 7 || t.len() > 7 - h.len() {
                        return None;
                    }
                    let zeros_len = 8 - h.len() - t.len();
                    let mut all: Vec<u64> = Vec::new();
                    push_all_groups(&mut all, &h);
                    let mut z: usize = 0;
                    let ghost base = all@;
                    while z < zeros_len
                        invariant
                            z <= zeros_len,
                            all@ == base + Seq::new(z as nat, |j: int| 0u64),
                        decreases zeros_len - z,
                    {
                        all.push(0);
                        assert(all@ =~= base + Seq::new((z + 1) as nat, |j: int| 0u64));
                        z = z + 1;
                    }
                    push_all_groups(&mut all, &t);
                    let ghost hv = h@.map_values(|x: u64| x as nat);
                    let ghost tv = t@.map_values(|x: u64| x as nat);
                    assert(all@.map_values(|x: u64| x as nat) =~= hv + Seq::new(
                        zeros_len as nat,
                        |i: int| 0nat,
                    ) + tv);
                    assert forall|i: int| 0 <= i < all@.len() implies #[trigger] all@[i] < 65536 by {
                        if i < h@.len() {
                            assert(all@[i] == h@[i]);
                        } else if i < h@.len() + zeros_len {
                            assert(all@[i] == 0);
                        } else {
                            assert(all@[i] == t@[i - h@.len() - zeros_len]);
                        }
                    }
                    Some(groups_number(&all))
                },
                _ => None,
            }
        },
        None => match parse_groups(s) {
            Some((g, _)) => {
                if g.len() == 8 {
                    Some(groups_number(&g))
                } else {
                    None
                }
            },
            None => None,
        },
    }
}

/// Reads an IP address (`str::parse::<IpAddr>`).
pub fn parse_ip(text: &str) -> (r: Option<IpAddress>)
    ensures
        r == ip_of(text@),
{
    let s = chars_of(text);
    match parse_ipv4(&s) {
        Some((a, b, c, d)) => Some(IpAddress::V4(a, b, c, d)),
        None => match parse_ipv6(&s) {
            Some(v) => Some(IpAddress::V6(v)),
            None => None,
        },
    }
}

} // verus!
