//! Decimal text for fixed-point micro-unit values: rendering a value as
//! `-?digits.dddddd` with exactly six fraction digits, and parsing decimal
//! numbers with up to six fraction digits back into micro-units.

use vstd::prelude::*;
use crate::fixed::SCALE;

verus! {

pub open spec fn digit_char(d: int) -> char {
    if d == 0 {
        '0'
    } else if d == 1 {
        '1'
    } else if d == 2 {
        '2'
    } else if d == 3 {
        '3'
    } else if d == 4 {
        '4'
    } else if d == 5 {
        '5'
    } else if d == 6 {
        '6'
    } else if d == 7 {
        '7'
    } else if d == 8 {
        '8'
    } else {
        '9'
    }
}

pub open spec fn is_digit_char(c: char) -> bool {
    48 <= c as u32 <= 57
}

pub open spec fn digit_val(c: char) -> int {
    c as u32 - 48
}

/// Decimal digits of `n`, most significant first, no leading zeros except
/// for `n == 0` itself.
pub open spec fn digits_of(n: nat) -> Seq<char>
    decreases n,
{
    if n < 10 {
        seq![digit_char(n as int)]
    } else {
        digits_of(n / 10).push(digit_char((n % 10) as int))
    }
}

/// Value of a digit sequence read as a decimal number.
pub open spec fn digits_value(s: Seq<char>) -> int
    decreases s.len(),
{
    if s.len() == 0 {
        0
    } else {
        digits_value(s.drop_last()) * 10 + digit_val(s.last())
    }
}

pub open spec fn pow10(k: nat) -> int
    decreases k,
{
    if k == 0 {
        1
    } else {
        10 * pow10((k - 1) as nat)
    }
}

pub open spec fn all_digits(s: Seq<char>) -> bool {
    forall|i: int| 0 <= i < s.len() ==> is_digit_char(#[trigger] s[i])
}

pub open spec fn zeros(k: nat) -> Seq<char> {
    Seq::new(k, |i: int| '0')
}

/// The text of the micro-unit value `v`: optional minus sign, the whole
/// units in decimal, a point, and exactly six fraction digits.
pub open spec fn render_fixed(v: int) -> Seq<char> {
    let m = if v < 0 { -v } else { v };
    let ip = (m / (SCALE as int)) as nat;
    let fr = (m % (SCALE as int)) as nat;
    let sign: Seq<char> = if v < 0 { seq!['-'] } else { Seq::empty() };
    sign + digits_of(ip) + seq!['.'] + zeros((6 - digits_of(fr).len()) as nat) + digits_of(fr)
}

/// First position at or after `i` that does not hold a digit.
pub open spec fn digit_run_end(s: Seq<char>, i: int) -> int
    decreases s.len() - i,
{
    if i < 0 || i >= s.len() {
        i
    } else if is_digit_char(s[i]) {
        digit_run_end(s, i + 1)
    } else {
        i
    }
}

/// Parse a run of one to nineteen digits starting at `i`; yields the value
/// and the position after the run. Longer runs are rejected: they cannot
/// name a representable value.
pub open spec fn parse_digits(s: Seq<char>, i: int) -> Option<(int, int)> {
    let e = digit_run_end(s, i);
    if e == i || e - i > 19 {
        None
    } else {
        Some((digits_value(s.subrange(i, e)), e))
    }
}

/// Parse a decimal number at `i` into micro-units: optional minus sign,
/// whole part, and optionally a point with at least one fraction digit.
/// Fraction digits beyond the sixth are consumed but truncated away: they
/// lie below the micro-unit resolution.
pub open spec fn parse_fixed_at(s: Seq<char>, i: int) -> Option<(int, int)> {
    let neg = i < s.len() && s[i] == '-';
    let j = if neg { i + 1 } else { i };
    match parse_digits(s, j) {
        None => None,
        Some((ip, k)) => {
            if k < s.len() && s[k] == '.' {
                let e = digit_run_end(s, k + 1);
                let cnt = e - (k + 1);
                if cnt >= 1 {
                    let m6 = if cnt <= 6 { cnt } else { 6int };
                    let m = ip * (SCALE as int) + digits_value(s.subrange(k + 1, k + 1 + m6))
                        * pow10((6 - m6) as nat);
                    Some((if neg { -m } else { m }, e))
                } else {
                    None
                }
            } else {
                let m = ip * (SCALE as int);
                Some((if neg { -m } else { m }, k))
            }
        },
    }
}

/// `parse_fixed_at`, narrowed to values an `i64` can hold.
pub open spec fn parse_fixed_i64_at(s: Seq<char>, i: int) -> Option<(int, int)> {
    match parse_fixed_at(s, i) {
        None => None,
        Some((v, e)) => if i64::MIN <= v <= i64::MAX {
            Some((v, e))
        } else {
            None
        },
    }
}

pub proof fn lemma_digits_of_are_digits(n: nat)
    ensures
        all_digits(digits_of(n)),
        1 <= digits_of(n).len(),
    decreases n,
{
    if n < 10 {
    } else {
        lemma_digits_of_are_digits(n / 10);
    }
}

pub proof fn lemma_digits_of_len(n: nat, k: nat)
    requires
        n < pow10(k),
        k >= 1,
    ensures
        digits_of(n).len() <= k,
    decreases n,
{
    if n < 10 {
    } else {
        assert(pow10(k) == 10 * pow10((k - 1) as nat));
        assert(n / 10 < pow10((k - 1) as nat)) by {
            if n / 10 >= pow10((k - 1) as nat) {
                assert(n >= 10 * (n / 10)) by (nonlinear_arith);
                assert(10 * (n / 10) >= 10 * pow10((k - 1) as nat)) by (nonlinear_arith)
                    requires
                        n / 10 >= pow10((k - 1) as nat),
                ;
            }
        }
        assert(k - 1 >= 1) by {
            if k == 1 {
                assert(pow10(1int as nat) == 10);
            }
        }
        lemma_digits_of_len(n / 10, (k - 1) as nat);
    }
}

pub proof fn lemma_digits_value_of_digits_of(n: nat)
    ensures
        digits_value(digits_of(n)) == n,
    decreases n,
{
    if n < 10 {
        assert(digits_value(digits_of(n)) == digits_value(Seq::<char>::empty()) * 10 + digit_val(
            digit_char(n as int),
        )) by {
            assert(digits_of(n).drop_last() =~= Seq::<char>::empty());
        }
    } else {
        lemma_digits_value_of_digits_of(n / 10);
        let s = digits_of(n);
        assert(s.drop_last() == digits_of(n / 10));
        assert(digit_val(digit_char((n % 10) as int)) == n % 10);
        assert(n / 10 * 10 + n % 10 == n) by (nonlinear_arith);
    }
}

pub proof fn lemma_digits_value_bound(s: Seq<char>)
    requires
        all_digits(s),
    ensures
        0 <= digits_value(s) < pow10(s.len()),
    decreases s.len(),
{
    if s.len() == 0 {
    } else {
        assert(all_digits(s.drop_last()));
        lemma_digits_value_bound(s.drop_last());
        assert(0 <= digit_val(s.last()) <= 9);
        assert(pow10(s.len()) == 10 * pow10((s.len() - 1) as nat));
        assert(digits_value(s.drop_last()) * 10 + 9 < 10 * pow10((s.len() - 1) as nat))
            by (nonlinear_arith)
            requires
                digits_value(s.drop_last()) < pow10((s.len() - 1) as nat),
        ;
    }
}

/// Leading zeros do not change the value of a digit run.
pub proof fn lemma_leading_zeros_value(z: nat, t: Seq<char>)
    ensures
        digits_value(zeros(z) + t) == digits_value(t),
    decreases t.len(),
{
    if t.len() == 0 {
        assert(zeros(z) + t =~= zeros(z));
        lemma_zeros_value(z);
    } else {
        assert((zeros(z) + t).drop_last() =~= zeros(z) + t.drop_last());
        assert((zeros(z) + t).last() == t.last());
        lemma_leading_zeros_value(z, t.drop_last());
    }
}

proof fn lemma_zeros_value(z: nat)
    ensures
        digits_value(zeros(z)) == 0,
    decreases z,
{
    if z == 0 {
    } else {
        assert(zeros(z).drop_last() =~= zeros((z - 1) as nat));
        assert(zeros(z).last() == '0');
        lemma_zeros_value((z - 1) as nat);
    }
}

pub proof fn lemma_pow10_values()
    ensures
        pow10(0) == 1,
        pow10(1) == 10,
        pow10(2) == 100,
        pow10(3) == 1000,
        pow10(4) == 10000,
        pow10(5) == 100000,
        pow10(6) == 1_000_000,
        pow10(13) == 10_000_000_000_000,
        pow10(19) == 10_000_000_000_000_000_000,
        pow10(20) == 100_000_000_000_000_000_000,
{
    assert(pow10(0) == 1);
    assert(pow10(1) == 10);
    assert(pow10(2) == 100);
    assert(pow10(3) == 1000);
    assert(pow10(4) == 10000);
    assert(pow10(5) == 100000);
    assert(pow10(6) == 1_000_000);
    assert(pow10(7) == 10_000_000);
    assert(pow10(8) == 100_000_000);
    assert(pow10(9) == 1_000_000_000);
    assert(pow10(10) == 10_000_000_000);
    assert(pow10(11) == 100_000_000_000);
    assert(pow10(12) == 1_000_000_000_000);
    assert(pow10(13) == 10_000_000_000_000);
    assert(pow10(14) == 100_000_000_000_000);
    assert(pow10(15) == 1_000_000_000_000_000);
    assert(pow10(16) == 10_000_000_000_000_000);
    assert(pow10(17) == 100_000_000_000_000_000);
    assert(pow10(18) == 1_000_000_000_000_000_000);
    assert(pow10(19) == 10_000_000_000_000_000_000);
    assert(pow10(20) == 100_000_000_000_000_000_000);
}

fn digit_to_char(d: u64) -> (c: char)
    requires
        d < 10,
    ensures
        c == digit_char(d as int),
{
    if d == 0 {
        '0'
    } else if d == 1 {
        '1'
    } else if d == 2 {
        '2'
    } else if d == 3 {
        '3'
    } else if d == 4 {
        '4'
    } else if d == 5 {
        '5'
    } else if d == 6 {
        '6'
    } else if d == 7 {
        '7'
    } else if d == 8 {
        '8'
    } else {
        '9'
    }
}

/// Append the decimal digits of `n` to `out`.
fn push_digits(out: &mut Vec<char>, n: u64)
    ensures
        final(out)@ == old(out)@ + digits_of(n as nat),
{
    let mut rev: Vec<char> = Vec::new();
    let mut cur: u64 = n;
    while cur >= 10
        invariant
            digits_of(n as nat) =~= digits_of(cur as nat) + rev@.reverse(),
        decreases cur,
    {
        let d = cur % 10;
        let ghost prev = rev@;
        rev.push(digit_to_char(d));
        cur = cur / 10;
        proof {
            assert(rev@.reverse() =~= seq![digit_char(d as int)] + prev.reverse());
            assert(digits_of(n as nat) =~= digits_of(cur as nat) + rev@.reverse());
        }
    }
    let ghost prev = rev@;
    rev.push(digit_to_char(cur));
    proof {
        assert(rev@.reverse() =~= seq![digit_char(cur as int)] + prev.reverse());
        assert(digits_of(cur as nat) =~= seq![digit_char(cur as int)]);
        assert(rev@.reverse() =~= digits_of(n as nat));
    }
    let mut k: usize = rev.len();
    while k > 0
        invariant
            k <= rev@.len(),
            out@ =~= old(out)@ + rev@.reverse().take(rev@.len() - k),
        decreases k,
    {
        let c = rev[k - 1];
        proof {
            assert(rev@.reverse()[rev@.len() - k] == rev@[k - 1]);
        }
        out.push(c);
        k = k - 1;
        proof {
            assert(out@ =~= old(out)@ + rev@.reverse().take(rev@.len() - k));
        }
    }
    proof {
        assert(rev@.reverse().take(rev@.len() as int) =~= rev@.reverse());
    }
}

/// Render a micro-unit value as text: `render_fixed` made executable.
pub fn format_fixed(v: i64) -> (r: Vec<char>)
    ensures
        r@ == render_fixed(v as int),
{
    let mut out: Vec<char> = Vec::new();
    let m: u64 = if v < 0 {
        out.push('-');
        (-(v as i128)) as u64
    } else {
        v as u64
    };
    let ip: u64 = m / (SCALE as u64);
    let fr: u64 = m % (SCALE as u64);
    push_digits(&mut out, ip);
    out.push('.');
    proof {
        lemma_pow10_values();
        lemma_digits_of_len(fr as nat, 6);
    }
    let fr_digits_len = digits_len(fr);
    let mut z: u64 = 6 - fr_digits_len;
    let ghost zcount = z as nat;
    let ghost before = out@;
    while z > 0
        invariant
            out@ =~= before + zeros((zcount - z) as nat),
            z <= zcount,
        decreases z,
    {
        out.push('0');
        z = z - 1;
        proof {
            assert(out@ =~= before + zeros((zcount - z) as nat));
        }
    }
    push_digits(&mut out, fr);
    proof {
        assert(out@ =~= render_fixed(v as int));
    }
    out
}

/// The decimal digits of `n` as characters.
pub fn format_nat(n: u64) -> (r: Vec<char>)
    ensures
        r@ == digits_of(n as nat),
{
    let mut out: Vec<char> = Vec::new();
    push_digits(&mut out, n);
    out
}

/// Number of decimal digits of `n`.
fn digits_len(n: u64) -> (r: u64)
    ensures
        r == digits_of(n as nat).len(),
        1 <= r <= 20,
{
    let mut cur: u64 = n;
    let mut r: u64 = 1;
    while cur >= 10
        invariant
            r >= 1,
            digits_of(n as nat).len() == digits_of(cur as nat).len() + r - 1,
            r <= 20,
        decreases cur,
    {
        proof {
            lemma_pow10_values();
            lemma_digits_of_len(n as nat, 20);
        }
        cur = cur / 10;
        r = r + 1;
    }
    r
}

pub proof fn lemma_pow10_mono(a: nat, b: nat)
    requires
        a <= b,
    ensures
        pow10(a) <= pow10(b),
        pow10(a) >= 1,
    decreases b,
{
    if b == 0 {
    } else if a == b {
        lemma_pow10_mono((a - 1) as nat, (b - 1) as nat);
    } else {
        lemma_pow10_mono(a, (b - 1) as nat);
    }
}

/// Bounds of a digit run: it starts where asked, stays inside the text,
/// and covers digits only.
pub proof fn lemma_digit_run_end_bounds(s: Seq<char>, i: int)
    requires
        0 <= i <= s.len(),
    ensures
        i <= digit_run_end(s, i) <= s.len(),
        forall|k: int| i <= k < digit_run_end(s, i) ==> is_digit_char(#[trigger] s[k]),
    decreases s.len() - i,
{
    if i < s.len() && is_digit_char(s[i]) {
        lemma_digit_run_end_bounds(s, i + 1);
    }
}

pub fn is_digit(c: char) -> (b: bool)
    ensures
        b == is_digit_char(c),
{
    let u = c as u32;
    48 <= u && u <= 57
}

/// Position after the digit run beginning at `i`.
fn scan_digit_run(s: &Vec<char>, i: usize) -> (e: usize)
    requires
        i <= s@.len(),
    ensures
        e == digit_run_end(s@, i as int),
        i <= e <= s@.len(),
{
    let mut cur: usize = i;
    while cur < s.len() && is_digit(s[cur])
        invariant
            i <= cur <= s@.len(),
            digit_run_end(s@, i as int) == digit_run_end(s@, cur as int),
        decreases s@.len() - cur,
    {
        cur = cur + 1;
    }
    cur
}

fn pow10_exec(k: u64) -> (r: u64)
    requires
        k <= 19,
    ensures
        r == pow10(k as nat),
{
    proof {
        lemma_pow10_values();
    }
    let mut r: u64 = 1;
    let mut j: u64 = 0;
    while j < k
        invariant
            j <= k <= 19,
            r == pow10(j as nat),
        decreases k - j,
    {
        proof {
            lemma_pow10_mono(j as nat, 18);
            lemma_pow10_values();
        }
        r = r * 10;
        j = j + 1;
    }
    r
}

/// Parse a digit run: `parse_digits` made executable. The nineteen-digit
/// cap keeps every parsed run inside `u64`.
pub(crate) fn parse_digits_run(s: &Vec<char>, i: usize) -> (r: Option<(u64, usize)>)
    requires
        i <= s@.len(),
    ensures
        r matches Some(p) ==> parse_digits(s@, i as int) == Some((p.0 as int, p.1 as int)) && p.1
            <= s@.len(),
        r is None ==> parse_digits(s@, i as int) is None,
{
    let e = scan_digit_run(s, i);
    if e == i || e - i > 19 {
        return None;
    }
    proof {
        lemma_digit_run_end_bounds(s@, i as int);
    }
    let mut k: usize = i;
    let mut acc: u64 = 0;
    while k < e
        invariant
            i <= k <= e <= s@.len(),
            e - i <= 19,
            e == digit_run_end(s@, i as int),
            forall|t: int| i <= t < e ==> is_digit_char(#[trigger] s@[t]),
            acc == digits_value(s@.subrange(i as int, k as int)),
        decreases e - k,
    {
        proof {
            assert(all_digits(s@.subrange(i as int, k as int)));
            lemma_digits_value_bound(s@.subrange(i as int, k as int));
            lemma_pow10_mono((k - i) as nat, 18);
            lemma_pow10_values();
        }
        let c = s[k];
        let d: u64 = (c as u32 - 48) as u64;
        acc = acc * 10 + d;
        k = k + 1;
        proof {
            assert(s@.subrange(i as int, k as int).drop_last() =~= s@.subrange(
                i as int,
                k - 1 as int,
            ));
        }
    }
    Some((acc, e))
}

/// Parse a decimal number into micro-units: `parse_fixed_i64_at` made
/// executable.
pub fn parse_fixed(s: &Vec<char>, i: usize) -> (r: Option<(i64, usize)>)
    requires
        i <= s@.len(),
    ensures
        r matches Some(p) ==> parse_fixed_i64_at(s@, i as int) == Some((p.0 as int, p.1 as int))
            && i < p.1 <= s@.len(),
        r is None ==> parse_fixed_i64_at(s@, i as int) is None,
{
    let neg = i < s.len() && s[i] == '-';
    let j = if neg {
        i + 1
    } else {
        i
    };
    match parse_digits_run(s, j) {
        None => None,
        Some((ip, k)) => {
            proof {
                lemma_digit_run_end_bounds(s@, j as int);
            }
            let m: i128 = if k < s.len() && s[k] == '.' {
                let e = scan_digit_run(s, k + 1);
                let cnt = e - (k + 1);
                if cnt >= 1 {
                    let m6: usize = if cnt <= 6 {
                        cnt
                    } else {
                        6
                    };
                    proof {
                        lemma_digit_run_end_bounds(s@, k + 1 as int);
                    }
                    let mut fv: u64 = 0;
                    let mut t: usize = 0;
                    while t < m6
                        invariant
                            t <= m6 <= 6,
                            k + 1 + m6 <= e <= s@.len(),
                            forall|u: int| k + 1 <= u < e ==> is_digit_char(#[trigger] s@[u]),
                            fv == digits_value(s@.subrange(k + 1 as int, k + 1 + t as int)),
                        decreases m6 - t,
                    {
                        proof {
                            assert(all_digits(s@.subrange(k + 1 as int, k + 1 + t as int)));
                            lemma_digits_value_bound(
                                s@.subrange(k + 1 as int, k + 1 + t as int),
                            );
                            lemma_pow10_mono(t as nat, 5);
                            lemma_pow10_values();
                        }
                        let c = s[k + 1 + t];
                        let d: u64 = (c as u32 - 48) as u64;
                        fv = fv * 10 + d;
                        t = t + 1;
                        proof {
                            assert(s@.subrange(k + 1 as int, k + 1 + t as int).drop_last()
                                =~= s@.subrange(k + 1 as int, k + t as int));
                        }
                    }
                    proof {
                        lemma_pow10_mono((6 - m6) as nat, 6);
                        lemma_pow10_mono(m6 as nat, 6);
                        lemma_pow10_values();
                        assert(all_digits(s@.subrange(k + 1 as int, k + 1 + m6 as int)));
                        lemma_digits_value_bound(s@.subrange(k + 1 as int, k + 1 + m6 as int));
                        assert(fv * pow10((6 - m6) as nat) < pow10(m6 as nat) * pow10(
                            (6 - m6) as nat,
                        )) by (nonlinear_arith)
                            requires
                                fv < pow10(m6 as nat),
                                pow10((6 - m6) as nat) >= 1,
                        ;
                        assert(pow10(m6 as nat) * pow10((6 - m6) as nat) <= pow10(6) * pow10(6))
                            by (nonlinear_arith)
                            requires
                                1 <= pow10(m6 as nat) <= pow10(6),
                                1 <= pow10((6 - m6) as nat) <= pow10(6),
                        ;
                    }
                    ip as i128 * (SCALE as i128) + (fv * pow10_exec((6 - m6) as u64)) as i128
                } else {
                    return None;
                }
            } else {
                ip as i128 * (SCALE as i128)
            };
            let v: i128 = if neg {
                -m
            } else {
                m
            };
            if v < i64::MIN as i128 || v > i64::MAX as i128 {
                None
            } else {
                let e_final: usize = if k < s.len() && s[k] == '.' {
                    scan_digit_run(s, k + 1)
                } else {
                    k
                };
                Some((v as i64, e_final))
            }
        },
    }
}

/// A digit run that stops exactly where the digits stop.
pub proof fn lemma_digit_run_end(s: Seq<char>, i: int, e: int)
    requires
        0 <= i <= e <= s.len(),
        forall|k: int| i <= k < e ==> is_digit_char(#[trigger] s[k]),
        e == s.len() || !is_digit_char(s[e]),
    ensures
        digit_run_end(s, i) == e,
    decreases e - i,
{
    if i == e {
    } else {
        lemma_digit_run_end(s, i + 1, e);
    }
}

} // verus!
