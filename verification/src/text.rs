//! Character-level text handling shared by the parsers and the message builders.

use vstd::prelude::*;
use vstd::std_specs::iter::IteratorSpec;

verus! {

/// The character that stands for the digit `d` (lower-case letters above nine).
pub open spec fn digit_char(d: nat) -> char {
    if d == 0 { '0' } else if d == 1 { '1' } else if d == 2 { '2' } else if d == 3 { '3' }
    else if d == 4 { '4' } else if d == 5 { '5' } else if d == 6 { '6' } else if d == 7 { '7' }
    else if d == 8 { '8' } else if d == 9 { '9' } else if d == 10 { 'a' } else if d == 11 { 'b' }
    else if d == 12 { 'c' } else if d == 13 { 'd' } else if d == 14 { 'e' } else { 'f' }
}

/// `n` written in base `radix` without leading zeros ("0" for zero).
pub open spec fn radix_digits(n: nat, radix: nat) -> Seq<char>
    recommends 2 <= radix <= 16,
    decreases n,
{
    if n < radix || radix < 2 {
        seq![digit_char(n)]
    } else {
        proof {
            assert(n / radix < n) by (nonlinear_arith)
                requires
                    radix >= 2,
                    n >= radix,
            ;
        }
        radix_digits(n / radix, radix).push(digit_char(n % radix))
    }
}

/// Decimal rendering of a natural number, as `Display` writes it.
pub open spec fn decimal(n: nat) -> Seq<char> {
    radix_digits(n, 10)
}

/// Lower-case hexadecimal rendering, as the `{:x}` format writes it.
pub open spec fn hexadecimal(n: nat) -> Seq<char> {
    radix_digits(n, 16)
}

fn digit_to_char(d: u64) -> (c: char)
    requires
        d < 16,
    ensures
        c == digit_char(d as nat),
{
    if d == 0 { '0' } else if d == 1 { '1' } else if d == 2 { '2' } else if d == 3 { '3' }
    else if d == 4 { '4' } else if d == 5 { '5' } else if d == 6 { '6' } else if d == 7 { '7' }
    else if d == 8 { '8' } else if d == 9 { '9' } else if d == 10 { 'a' } else if d == 11 { 'b' }
    else if d == 12 { 'c' } else if d == 13 { 'd' } else if d == 14 { 'e' } else { 'f' }
}

fn push_radix_digits(n: u64, radix: u64, out: &mut Vec<char>)
    requires
        2 <= radix <= 16,
    ensures
        final(out)@ == old(out)@ + radix_digits(n as nat, radix as nat),
    decreases n,
{
    if n < radix {
        out.push(digit_to_char(n));
        assert(old(out)@ + radix_digits(n as nat, radix as nat) =~= old(out)@.push(
            digit_char(n as nat),
        ));
    } else {
        assert(n / radix < n) by (nonlinear_arith)
            requires
                radix >= 2,
                n >= radix,
        ;
        push_radix_digits(n / radix, radix, out);
        let ghost mid = out@;
        out.push(digit_to_char(n % radix));
        assert(final(out)@ =~= old(out)@ + radix_digits(n as nat, radix as nat)) by {
            assert(radix_digits(n as nat, radix as nat) == radix_digits(
                (n / radix) as nat,
                radix as nat,
            ).push(digit_char((n % radix) as nat)));
        }
    }
}

/// Appends the std `String::push` of one character.
#[verifier::external_body]
pub(crate) fn push_char(s: &mut String, c: char)
    ensures
        final(s)@ == old(s)@.push(c),
{
    s.push(c);
}

/// Builds a `String` holding exactly the given characters.
pub fn string_of(chars: &Vec<char>) -> (s: String)
    ensures
        s@ == chars@,
{
    let mut s = String::new();
    let mut i: usize = 0;
    while i < chars.len()
        invariant
            i <= chars.len(),
            s@ == chars@.take(i as int),
        decreases chars.len() - i,
    {
        push_char(&mut s, chars[i]);
        assert(chars@.take(i + 1) =~= chars@.take(i as int).push(chars@[i as int]));
        i = i + 1;
    }
    assert(chars@.take(chars.len() as int) =~= chars@);
    s
}

/// Decimal rendering of an unsigned integer.
pub fn decimal_string(n: u64) -> (s: String)
    ensures
        s@ == decimal(n as nat),
{
    let mut v: Vec<char> = Vec::new();
    push_radix_digits(n, 10, &mut v);
    assert(v@ =~= decimal(n as nat));
    string_of(&v)
}

/// Lower-case hexadecimal rendering of an unsigned integer.
pub fn hex_string(n: u64) -> (s: String)
    ensures
        s@ == hexadecimal(n as nat),
{
    let mut v: Vec<char> = Vec::new();
    push_radix_digits(n, 16, &mut v);
    assert(v@ =~= hexadecimal(n as nat));
    string_of(&v)
}

/// The characters of a string slice, in order.
pub fn chars_of(s: &str) -> (v: Vec<char>)
    ensures
        v@ == s@,
{
    broadcast use vstd::string::group_string_axioms;

    let mut v: Vec<char> = Vec::new();
    for c in iter: s.chars()
        invariant
            iter.seq() == s@,
            v@ == iter.seq().take(iter.index() as int),
    {
        v.push(c);
    }
    assert(v@ =~= s@);
    v
}

/// `char::is_whitespace`: the Unicode `White_Space` property.
pub open spec fn is_whitespace(c: char) -> bool {
    ||| ('\u{9}' <= c && c <= '\u{d}')
    ||| c == ' '
    ||| c == '\u{85}'
    ||| c == '\u{a0}'
    ||| c == '\u{1680}'
    ||| ('\u{2000}' <= c && c <= '\u{200a}')
    ||| c == '\u{2028}'
    ||| c == '\u{2029}'
    ||| c == '\u{202f}'
    ||| c == '\u{205f}'
    ||| c == '\u{3000}'
}

/// Decides `is_whitespace`.
pub fn whitespace(c: char) -> (b: bool)
    ensures
        b == is_whitespace(c),
{
    ('\u{9}' <= c && c <= '\u{d}') || c == ' ' || c == '\u{85}' || c == '\u{a0}' || c
        == '\u{1680}' || ('\u{2000}' <= c && c <= '\u{200a}') || c == '\u{2028}' || c
        == '\u{2029}' || c == '\u{202f}' || c == '\u{205f}' || c == '\u{3000}'
}

/// The maximal runs of non-whitespace characters, left to right
/// (`str::split_whitespace`).
pub open spec fn ws_tokens(s: Seq<char>) -> Seq<Seq<char>>
    decreases s.len(),
{
    if s.len() == 0 {
        seq![]
    } else {
        let rest = s.drop_last();
        let c = s.last();
        let t = ws_tokens(rest);
        if is_whitespace(c) {
            t
        } else if rest.len() > 0 && !is_whitespace(rest.last()) && t.len() > 0 {
            t.update(t.len() - 1, t.last().push(c))
        } else {
            t.push(seq![c])
        }
    }
}

/// The character sequences held by a vector of character vectors.
pub open spec fn views(v: Seq<Vec<char>>) -> Seq<Seq<char>> {
    v.map_values(|x: Vec<char>| x@)
}

/// Splits a line into its whitespace-separated fields.
pub fn split_whitespace(s: &Vec<char>) -> (fields: Vec<Vec<char>>)
    ensures
        views(fields@) == ws_tokens(s@),
{
    let mut done: Vec<Vec<char>> = Vec::new();
    let mut cur: Vec<char> = Vec::new();
    let mut i: usize = 0;
    while i < s.len()
        invariant
            i <= s.len(),
            cur.len() > 0 <==> (i > 0 && !is_whitespace(s@[i - 1])),
            ws_tokens(s@.take(i as int)) == (if cur.len() > 0 {
                views(done@).push(cur@)
            } else {
                views(done@)
            }),
        decreases s.len() - i,
    {
        let c = s[i];
        let ghost p = s@.take(i as int);
        let ghost p2 = s@.take(i + 1);
        assert(p2.drop_last() =~= p);
        assert(p2.last() == c);
        let ghost dv = views(done@);
        if whitespace(c) {
            if cur.len() > 0 {
                let ghost cv = cur@;
                done.push(cur);
                cur = Vec::new();
                assert(views(done@) =~= dv.push(cv));
            }
        } else {
            let ghost cv = cur@;
            let had = cur.len() > 0;
            cur.push(c);
            if had {
                assert(ws_tokens(p2) =~= dv.push(cv).update(dv.len() as int, cv.push(c)));
                assert(dv.push(cv).update(dv.len() as int, cv.push(c)) =~= dv.push(cur@));
            } else {
                assert(ws_tokens(p2) =~= dv.push(seq![c]));
                assert(cur@ =~= seq![c]);
            }
        }
        i = i + 1;
    }
    let ghost dv = views(done@);
    if cur.len() > 0 {
        let ghost cv = cur@;
        done.push(cur);
        assert(views(done@) =~= dv.push(cv));
    }
    assert(s@.take(s.len() as int) =~= s@);
    done
}

/// The fields of `s` between occurrences of `sep`, empty ones included
/// (`str::split` with a character): always at least one field.
pub open spec fn split_fields(s: Seq<char>, sep: char) -> Seq<Seq<char>>
    decreases s.len(),
{
    if s.len() == 0 {
        seq![seq![]]
    } else {
        let t = split_fields(s.drop_last(), sep);
        if s.last() == sep {
            t.push(seq![])
        } else {
            t.update(t.len() - 1, t.last().push(s.last()))
        }
    }
}

pub proof fn lemma_split_fields_len(s: Seq<char>, sep: char)
    ensures
        split_fields(s, sep).len() >= 1,
    decreases s.len(),
{
    if s.len() > 0 {
        lemma_split_fields_len(s.drop_last(), sep);
    }
}

/// Drops one trailing carriage return.
pub open spec fn strip_cr(l: Seq<char>) -> Seq<char> {
    if l.len() > 0 && l.last() == '\r' {
        l.drop_last()
    } else {
        l
    }
}

/// The lines of a text (`str::lines`): split at `\n`, a `\r` before a `\n`
/// dropped, and no final empty line after a trailing line ending.
pub open spec fn text_lines(s: Seq<char>) -> Seq<Seq<char>> {
    let p = split_fields(s, '\n');
    let n = p.len();
    let k = if p[n - 1].len() == 0 { n - 1 } else { n as int };
    Seq::new(k as nat, |i: int| if i < n - 1 { strip_cr(p[i]) } else { p[i] })
}

/// Splits a text into fields at every `sep`.
pub fn split_at_char(s: &Vec<char>, sep: char) -> (fields: Vec<Vec<char>>)
    ensures
        views(fields@) == split_fields(s@, sep),
{
    let mut done: Vec<Vec<char>> = Vec::new();
    let mut cur: Vec<char> = Vec::new();
    let mut i: usize = 0;
    while i < s.len()
        invariant
            i <= s.len(),
            split_fields(s@.take(i as int), sep) == views(done@).push(cur@),
        decreases s.len() - i,
    {
        let c = s[i];
        let ghost p2 = s@.take(i + 1);
        assert(p2.drop_last() =~= s@.take(i as int));
        let ghost dv = views(done@);
        let ghost cv = cur@;
        if c == sep {
            done.push(cur);
            cur = Vec::new();
            assert(views(done@) =~= dv.push(cv));
            assert(split_fields(p2, sep) =~= views(done@).push(cur@));
        } else {
            cur.push(c);
            assert(split_fields(p2, sep) =~= views(done@).push(cur@));
        }
        i = i + 1;
    }
    let ghost dv = views(done@);
    let ghost cv = cur@;
    done.push(cur);
    assert(views(done@) =~= dv.push(cv));
    assert(s@.take(s.len() as int) =~= s@);
    done
}

/// The lines of a text.
pub fn lines(s: &Vec<char>) -> (out: Vec<Vec<char>>)
    ensures
        views(out@) == text_lines(s@),
{
    let parts = split_at_char(s, '\n');
    proof {
        lemma_split_fields_len(s@, '\n');
    }
    let n = parts.len();
    let k = if parts[n - 1].len() == 0 {
        n - 1
    } else {
        n
    };
    let mut out: Vec<Vec<char>> = Vec::new();
    let mut i: usize = 0;
    while i < k
        invariant
            k <= n == parts.len(),
            n >= 1,
            k == text_lines(s@).len(),
            views(parts@) == split_fields(s@, '\n'),
            i <= k,
            views(out@) =~= text_lines(s@).take(i as int),
        decreases k - i,
    {
        let part = &parts[i];
        let mut line: Vec<char> = part.clone();
        if i < n - 1 && line.len() > 0 && line[line.len() - 1] == '\r' {
            line.pop();
        }
        let ghost ov = views(out@);
        out.push(line);
        assert(views(out@) =~= ov.push(line@));
        assert(part@ == split_fields(s@, '\n')[i as int]);
        i = i + 1;
    }
    out
}

/// `str::trim_start` for whitespace.
pub open spec fn trim_start(s: Seq<char>) -> Seq<char>
    decreases s.len(),
{
    if s.len() > 0 && is_whitespace(s[0]) {
        trim_start(s.drop_first())
    } else {
        s
    }
}

/// `str::trim_end` for whitespace.
pub open spec fn trim_end(s: Seq<char>) -> Seq<char>
    decreases s.len(),
{
    if s.len() > 0 && is_whitespace(s.last()) {
        trim_end(s.drop_last())
    } else {
        s
    }
}

/// `str::trim`: leading and trailing whitespace removed.
pub open spec fn trim(s: Seq<char>) -> Seq<char> {
    trim_end(trim_start(s))
}

/// The characters of `s` with surrounding whitespace removed.
pub fn trimmed(s: &Vec<char>) -> (t: Vec<char>)
    ensures
        t@ == trim(s@),
{
    let n = s.len();
    let mut a: usize = 0;
    assert(s@.subrange(0, n as int) =~= s@);
    while a < n && whitespace(s[a])
        invariant
            a <= n == s.len(),
            trim_start(s@) == trim_start(s@.subrange(a as int, n as int)),
        decreases n - a,
    {
        assert(s@.subrange(a as int, n as int).drop_first() =~= s@.subrange(a + 1, n as int));
        a = a + 1;
    }
    assert(trim_start(s@) == s@.subrange(a as int, n as int));
    let mut b: usize = n;
    while b > a && whitespace(s[b - 1])
        invariant
            a <= b <= n == s.len(),
            trim(s@) == trim_end(s@.subrange(a as int, b as int)),
        decreases b,
    {
        assert(s@.subrange(a as int, b as int).drop_last() =~= s@.subrange(a as int, b - 1));
        b = b - 1;
    }
    let mut t: Vec<char> = Vec::new();
    let mut i: usize = a;
    while i < b
        invariant
            a <= i <= b <= n == s.len(),
            t@ == s@.subrange(a as int, i as int),
        decreases b - i,
    {
        t.push(s[i]);
        assert(t@ =~= s@.subrange(a as int, i + 1));
        i = i + 1;
    }
    t
}

/// The value of digit `c` in base `radix` (`char::to_digit`, for bases ten and sixteen).
pub open spec fn digit_value(c: char, radix: nat) -> Option<nat> {
    if '0' <= c && c <= '9' {
        Some((c as int - '0' as int) as nat)
    } else if radix == 16 && 'a' <= c && c <= 'f' {
        Some((c as int - 'a' as int + 10) as nat)
    } else if radix == 16 && 'A' <= c && c <= 'F' {
        Some((c as int - 'A' as int + 10) as nat)
    } else {
        None
    }
}

/// Every character is a digit of the base.
pub open spec fn all_digits(d: Seq<char>, radix: nat) -> bool {
    forall|i: int| 0 <= i < d.len() ==> (#[trigger] digit_value(d[i], radix)) is Some
}

/// The number that a string of digits denotes.
pub open spec fn digits_value(d: Seq<char>, radix: nat) -> nat
    decreases d.len(),
{
    if d.len() == 0 {
        0
    } else {
        digits_value(d.drop_last(), radix) * radix + digit_value(d.last(), radix).unwrap()
    }
}

/// The digits of an unsigned number: an optional leading `+`, then at least one character.
pub open spec fn unsigned_digits(s: Seq<char>) -> Option<Seq<char>> {
    if s.len() == 0 {
        None
    } else if s[0] == '+' {
        if s.len() == 1 {
            None
        } else {
            Some(s.drop_first())
        }
    } else {
        Some(s)
    }
}

/// What `from_str_radix` gives for an unsigned type whose largest value is `max`.
pub open spec fn parse_unsigned(s: Seq<char>, radix: nat, max: nat) -> Option<nat> {
    match unsigned_digits(s) {
        None => None,
        Some(d) => if all_digits(d, radix) && digits_value(d, radix) <= max {
            Some(digits_value(d, radix))
        } else {
            None
        },
    }
}

/// A lower-case hexadecimal digit.
pub open spec fn is_lower_hex_digit(c: char) -> bool {
    ('0' <= c <= '9') || ('a' <= c <= 'f')
}

/// Sixteen to the power `k`.
pub open spec fn pow16(k: nat) -> nat
    decreases k,
{
    if k == 0 {
        1
    } else {
        16 * pow16((k - 1) as nat)
    }
}

proof fn lemma_hex_digits(n: nat, k: nat)
    requires
        k >= 1,
        n < pow16(k),
    ensures
        1 <= hexadecimal(n).len() <= k,
        forall|i: int| 0 <= i < hexadecimal(n).len() ==> is_lower_hex_digit(#[trigger] hexadecimal(n)[i]),
    decreases n,
{
    let s = hexadecimal(n);
    if n < 16 {
        assert(s == seq![digit_char(n)]);
    } else {
        assert(k >= 2) by {
            if k == 1 {
                assert(pow16(1) == 16 * pow16(0));
            }
        }
        assert(n / 16 < pow16((k - 1) as nat)) by (nonlinear_arith)
            requires
                n < pow16(k),
                pow16(k) == 16 * pow16((k - 1) as nat),
        ;
        lemma_hex_digits(n / 16, (k - 1) as nat);
        let t = hexadecimal(n / 16);
        assert(s == t.push(digit_char(n % 16)));
        assert forall|i: int| 0 <= i < s.len() implies is_lower_hex_digit(#[trigger] s[i]) by {
            if i < t.len() {
                assert(s[i] == t[i]);
            }
        }
    }
}

/// A 64-bit number in hexadecimal has one to sixteen lower-case hexadecimal digits.
pub proof fn law_hex_u64_digits(n: u64)
    ensures
        1 <= hexadecimal(n as nat).len() <= 16,
        forall|i: int|
            0 <= i < hexadecimal(n as nat).len() ==> is_lower_hex_digit(
                #[trigger] hexadecimal(n as nat)[i],
            ),
{
    assert(pow16(16) == 18446744073709551616) by {
        reveal_with_fuel(pow16, 17);
    }
    lemma_hex_digits(n as nat, 16);
}

proof fn lemma_digit_char(d: nat)
    requires
        d < 10,
    ensures
        digit_value(digit_char(d), 10) == Some(d),
        '0' <= digit_char(d) <= '9',
{
}

proof fn lemma_decimal_digits(n: nat)
    ensures
        decimal(n).len() > 0,
        all_digits(decimal(n), 10),
        digits_value(decimal(n), 10) == n,
    decreases n,
{
    let s = decimal(n);
    if n < 10 {
        lemma_digit_char(n);
        assert(s == seq![digit_char(n)]);
        assert(s.drop_last() =~= Seq::<char>::empty());
        assert(s.last() == digit_char(n));
        assert(digits_value(s.drop_last(), 10) == 0);
        assert(digits_value(s, 10) == n);
    } else {
        lemma_decimal_digits(n / 10);
        lemma_digit_char(n % 10);
        let t = decimal(n / 10);
        assert(s == t.push(digit_char(n % 10)));
        assert(s.drop_last() =~= t);
        assert forall|i: int| 0 <= i < s.len() implies (#[trigger] digit_value(s[i], 10)) is Some by {
            if i < t.len() {
                assert(s[i] == t[i]);
                assert(digit_value(t[i], 10) is Some);
            }
        }
        assert(s.last() == digit_char(n % 10));
        assert(digits_value(s, 10) == digits_value(t, 10) * 10 + (n % 10));
        assert(n == (n / 10) * 10 + n % 10) by (nonlinear_arith);
    }
}

/// A number written in decimal reads back as itself: the text has no surrounding
/// whitespace, and parsing it gives the number whenever it is within the bound.
pub proof fn law_decimal_parses(n: nat, max: nat)
    requires
        n <= max,
    ensures
        trim(decimal(n)) == decimal(n),
        parse_unsigned(decimal(n), 10, max) == Some(n),
{
    lemma_decimal_digits(n);
    let s = decimal(n);
    assert(digit_value(s[0], 10) is Some);
    assert(digit_value(s.last(), 10) is Some);
    assert(trim_start(s) == s);
    assert(trim_end(s) == s);
    assert(unsigned_digits(s) == Some(s));
}

proof fn lemma_digits_value_prefix(d: Seq<char>, radix: nat, k: int)
    requires
        radix >= 1,
        all_digits(d, radix),
        0 <= k <= d.len(),
    ensures
        digits_value(d.take(k), radix) <= digits_value(d, radix),
    decreases d.len(),
{
    if k < d.len() {
        let r = d.drop_last();
        assert(all_digits(r, radix)) by {
            assert forall|i: int| 0 <= i < r.len() implies (#[trigger] digit_value(r[i], radix)) is Some by {
                assert(r[i] == d[i]);
            }
        }
        assert(d.take(k) =~= r.take(k));
        lemma_digits_value_prefix(r, radix, k);
        let a = digits_value(r, radix);
        assert(a <= a * radix) by (nonlinear_arith)
            requires
                radix >= 1,
        ;
    } else {
        assert(d.take(k) =~= d);
    }
}

fn digit_of(c: char, radix: u64) -> (r: Option<u64>)
    requires
        radix == 10 || radix == 16,
    ensures
        match r {
            Some(v) => digit_value(c, radix as nat) == Some(v as nat) && v < radix,
            None => digit_value(c, radix as nat) is None,
        },
{
    if '0' <= c && c <= '9' {
        Some((c as u32 - '0' as u32) as u64)
    } else if radix == 16 && 'a' <= c && c <= 'f' {
        Some((c as u32 - 'a' as u32 + 10) as u64)
    } else if radix == 16 && 'A' <= c && c <= 'F' {
        Some((c as u32 - 'A' as u32 + 10) as u64)
    } else {
        None
    }
}

/// Parses an unsigned number in base ten or sixteen that must not exceed `max`.
pub fn parse_number(s: &Vec<char>, radix: u64, max: u64) -> (r: Option<u64>)
    requires
        radix == 10 || radix == 16,
    ensures
        match r {
            Some(v) => parse_unsigned(s@, radix as nat, max as nat) == Some(v as nat),
            None => parse_unsigned(s@, radix as nat, max as nat) is None,
        },
{
    if s.len() == 0 {
        return None;
    }
    let start: usize = if s[0] == '+' {
        1
    } else {
        0
    };
    if start == 1 && s.len() == 1 {
        return None;
    }
    let ghost d = unsigned_digits(s@).unwrap();
    assert(d =~= s@.subrange(start as int, s.len() as int));
    let mut acc: u64 = 0;
    let mut i: usize = start;
    while i < s.len()
        invariant
            start <= i <= s.len(),
            radix == 10 || radix == 16,
            d == s@.subrange(start as int, s.len() as int),
            unsigned_digits(s@) == Some(d),
            all_digits(d.take(i - start), radix as nat),
            acc as nat == digits_value(d.take(i - start), radix as nat),
            acc <= max,
        decreases s.len() - i,
    {
        let ghost p = d.take(i - start);
        let ghost p2 = d.take(i + 1 - start);
        assert(p2.drop_last() =~= p);
        assert(p2.last() == s@[i as int]);
        match digit_of(s[i], radix) {
            None => {
                assert(!all_digits(d, radix as nat)) by {
                    assert(d[i - start] == s@[i as int]);
                }
                return None;
            },
            Some(v) => {
                assert((acc as u128) * (radix as u128) <= 0xffff_ffff_ffff_ffffu128 * 16)
                    by (nonlinear_arith)
                    requires
                        acc <= 0xffff_ffff_ffff_ffffu64,
                        radix <= 16,
                ;
                let next: u128 = (acc as u128) * (radix as u128) + (v as u128);
                assert(next as nat == digits_value(p2, radix as nat));
                assert(all_digits(p2, radix as nat)) by {
                    assert forall|j: int| 0 <= j < p2.len() implies (#[trigger] digit_value(
                        p2[j],
                        radix as nat,
                    )) is Some by {
                        if j < p.len() {
                            assert(p2[j] == p[j]);
                        }
                    }
                }
                if next > max as u128 {
                    proof {
                        if all_digits(d, radix as nat) {
                            lemma_digits_value_prefix(d, radix as nat, i + 1 - start);
                        }
                    }
                    return None;
                }
                acc = next as u64;
            },
        }
        i = i + 1;
    }
    assert(d.take(s.len() - start) =~= d);
    Some(acc)
}

/// `n` occurs in `h` as a contiguous run.
pub open spec fn contains_seq(h: Seq<char>, n: Seq<char>) -> bool {
    exists|i: int| 0 <= i && i + n.len() <= h.len() && #[trigger] h.subrange(i, i + n.len()) == n
}

fn matches_at(h: &Vec<char>, n: &Vec<char>, i: usize) -> (b: bool)
    requires
        i + n.len() <= h.len(),
    ensures
        b == (h@.subrange(i as int, i + n.len()) == n@),
{
    let mut j: usize = 0;
    while j < n.len()
        invariant
            i + n.len() <= h.len(),
            j <= n.len(),
            forall|k: int| 0 <= k < j ==> h@[i + k] == n@[k],
        decreases n.len() - j,
    {
        if h[i + j] != n[j] {
            assert(h@.subrange(i as int, i + n.len())[j as int] != n@[j as int]);
            return false;
        }
        j = j + 1;
    }
    assert(h@.subrange(i as int, i + n.len()) =~= n@);
    true
}

/// The first position at which `n` occurs in `h`.
pub fn find_seq(h: &Vec<char>, n: &Vec<char>) -> (r: Option<usize>)
    ensures
        match r {
            Some(i) => i + n@.len() <= h@.len() && h@.subrange(i as int, i + n@.len()) == n@
                && forall|j: int|
                0 <= j < i ==> #[trigger] h@.subrange(j, j + n@.len()) != n@,
            None => !contains_seq(h@, n@),
        },
{
    if n.len() > h.len() {
        return None;
    }
    let last = h.len() - n.len();
    let mut i: usize = 0;
    loop
        invariant
            last + n.len() == h.len(),
            i <= last,
            forall|j: int| 0 <= j < i ==> #[trigger] h@.subrange(j, j + n@.len()) != n@,
        decreases last - i,
    {
        if matches_at(h, n, i) {
            return Some(i);
        }
        if i == last {
            return None;
        }
        i = i + 1;
    }
}

/// Whether `n` occurs in `h` (`str::contains` with a string pattern).
pub fn contains_chars(h: &Vec<char>, n: &Vec<char>) -> (b: bool)
    ensures
        b == contains_seq(h@, n@),
{
    match find_seq(h, n) {
        Some(_) => true,
        None => false,
    }
}

/// The last position of `c` in `s` (`str::rfind` with a character).
pub fn rfind_char(s: &Vec<char>, c: char) -> (r: Option<usize>)
    ensures
        match r {
            Some(i) => i < s@.len() && s@[i as int] == c && forall|j: int|
                i < j < s@.len() ==> s@[j] != c,
            None => forall|j: int| 0 <= j < s@.len() ==> s@[j] != c,
        },
{
    let mut i: usize = s.len();
    while i > 0
        invariant
            i <= s.len(),
            forall|j: int| i <= j < s@.len() ==> s@[j] != c,
        decreases i,
    {
        if s[i - 1] == c {
            return Some(i - 1);
        }
        i = i - 1;
    }
    None
}

/// `str::to_lowercase`: the Unicode lower-case mapping of a text.
pub uninterp spec fn lowercased(s: Seq<char>) -> Seq<char>;

/// ASCII lower-casing of a character: `A` to `Z` become `a` to `z`, others stay.
pub open spec fn ascii_lower_char(c: char) -> char {
    if 'A' <= c <= 'Z' {
        ((c as u32) + 32) as char
    } else {
        c
    }
}

/// ASCII lower-casing of a text, character by character.
pub open spec fn ascii_lowered(s: Seq<char>) -> Seq<char> {
    s.map_values(|c: char| ascii_lower_char(c))
}

/// Calls `str::to_lowercase`, whose result depends on the text alone. Its
/// documentation defines lower case by Unicode's case mapping, which for ASCII text
/// maps `A` to `Z` to `a` to `z` and keeps every other character.
#[verifier::external_body]
pub(crate) fn to_lowercase(s: &str) -> (r: String)
    ensures
        r@ == lowercased(s@),
        vstd::utf8::is_ascii_chars(s@) ==> r@ == ascii_lowered(s@),
{
    s.to_lowercase()
}

/// Calls `String::pop`: removes and returns the last character, if any.
#[verifier::external_body]
pub(crate) fn pop_char(s: &mut String) -> (r: Option<char>)
    ensures
        old(s)@.len() == 0 ==> r is None && final(s)@ == old(s)@,
        old(s)@.len() > 0 ==> r == Some(old(s)@.last()) && final(s)@ == old(s)@.drop_last(),
{
    s.pop()
}

/// Whether two character sequences are equal.
pub fn same_chars(a: &Vec<char>, b: &Vec<char>) -> (r: bool)
    ensures
        r == (a@ == b@),
{
    if a.len() != b.len() {
        return false;
    }
    let mut i: usize = 0;
    while i < a.len()
        invariant
            a@.len() == b@.len(),
            i <= a@.len(),
            forall|j: int| 0 <= j < i ==> a@[j] == b@[j],
        decreases a.len() - i,
    {
        if a[i] != b[i] {
            return false;
        }
        i = i + 1;
    }
    assert(a@ =~= b@);
    true
}

/// Whether the characters spell the given text.
pub fn chars_are(a: &Vec<char>, text: &str) -> (r: bool)
    ensures
        r == (a@ == text@),
{
    same_chars(a, &chars_of(text))
}

/// The characters `a[from..to]`.
pub fn sub_chars(a: &Vec<char>, from: usize, to: usize) -> (r: Vec<char>)
    requires
        from <= to <= a@.len(),
    ensures
        r@ == a@.subrange(from as int, to as int),
{
    let mut r: Vec<char> = Vec::new();
    let mut i: usize = from;
    while i < to
        invariant
            from <= i <= to <= a@.len(),
            r@ == a@.subrange(from as int, i as int),
        decreases to - i,
    {
        r.push(a[i]);
        assert(r@ =~= a@.subrange(from as int, i + 1));
        i = i + 1;
    }
    r
}

/// The number of bytes of a character in UTF-8.
pub open spec fn utf8_width(c: char) -> nat {
    if (c as u32) < 0x80 {
        1
    } else if (c as u32) < 0x800 {
        2
    } else if (c as u32) < 0x10000 {
        3
    } else {
        4
    }
}

/// The number of bytes of a text in UTF-8 (`str::len`).
pub open spec fn utf8_len(s: Seq<char>) -> nat
    decreases s.len(),
{
    if s.len() == 0 {
        0
    } else {
        utf8_len(s.drop_last()) + utf8_width(s.last())
    }
}

/// A count, saturated at the largest `u64`.
pub open spec fn saturated(n: nat) -> u64 {
    if n > u64::MAX {
        u64::MAX
    } else {
        n as u64
    }
}

/// The UTF-8 length of a text, saturated at the largest `u64`.
pub fn utf8_length(s: &Vec<char>) -> (n: u64)
    ensures
        n == saturated(utf8_len(s@)),
{
    let mut n: u64 = 0;
    let mut i: usize = 0;
    while i < s.len()
        invariant
            i <= s@.len(),
            n == saturated(utf8_len(s@.take(i as int))),
        decreases s.len() - i,
    {
        assert(s@.take(i + 1).drop_last() =~= s@.take(i as int));
        let c = s[i];
        let w: u64 = if (c as u32) < 0x80 {
            1
        } else if (c as u32) < 0x800 {
            2
        } else if (c as u32) < 0x10000 {
            3
        } else {
            4
        };
        n = n.saturating_add(w);
        i = i + 1;
    }
    assert(s@.take(s.len() as int) =~= s@);
    n
}

} // verus!
