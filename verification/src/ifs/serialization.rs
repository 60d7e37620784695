//! The persisted form of an IFS map set: a JSON object whose single key
//! maps to an array of seven-element numeric arrays `[a, b, d, e, c, f,
//! p]`. Rendering is compact; parsing also accepts whitespace between
//! tokens and the older lowercase key.

use vstd::prelude::*;
use crate::decimal::{
    format_fixed, is_digit_char, parse_fixed, parse_fixed_i64_at, render_fixed,
};
use crate::ifs::state::IfsState;
use crate::ifs::validation::{
    all_weights_in_range, valid_map_set, weight_in_range, weight_sum, ValidationError, EPSILON,
};
use crate::text::{chars_to_string, str_to_chars};

verus! {

/// The document could not be read as a map set.
#[derive(Clone, Copy, Debug, PartialEq, Eq, Structural)]
pub enum JsonError {
    MalformedDocument,
}

/// A parsed map set, ready to be loaded into a state.
pub struct IfsDto {
    pub systems: Vec<[i64; 7]>,
}

pub open spec fn is_json_space(c: char) -> bool {
    c == ' ' || c == '\n' || c == '\t' || c == '\r'
}

/// First non-whitespace position at or after `i`.
pub open spec fn ws_end(s: Seq<char>, i: int) -> int
    decreases s.len() - i,
{
    if i < 0 || i >= s.len() {
        i
    } else if is_json_space(s[i]) {
        ws_end(s, i + 1)
    } else {
        i
    }
}

/// The row as the sequence of its seven values.
pub open spec fn row_seq(row: [i64; 7]) -> Seq<i64> {
    Seq::new(7, |i: int| row[i])
}

/// Numbers joined by commas.
pub open spec fn render_nums(vals: Seq<i64>) -> Seq<char>
    decreases vals.len(),
{
    if vals.len() == 0 {
        Seq::empty()
    } else if vals.len() == 1 {
        render_fixed(vals[0] as int)
    } else {
        render_fixed(vals[0] as int) + seq![','] + render_nums(vals.skip(1))
    }
}

/// One row: its seven values between brackets.
pub open spec fn render_row(row: [i64; 7]) -> Seq<char> {
    seq!['['] + render_nums(row_seq(row)) + seq![']']
}

/// Rows joined by commas.
pub open spec fn render_rows(rows: Seq<[i64; 7]>) -> Seq<char>
    decreases rows.len(),
{
    if rows.len() == 0 {
        Seq::empty()
    } else if rows.len() == 1 {
        render_row(rows[0])
    } else {
        render_row(rows[0]) + seq![','] + render_rows(rows.skip(1))
    }
}

/// The standard key, quotes included.
pub open spec fn key_upper() -> Seq<char> {
    seq!['"', 'S', 'y', 's', 't', 'e', 'm', 's', '"']
}

/// The older lowercase key.
pub open spec fn key_lower() -> Seq<char> {
    seq!['"', 's', 'y', 's', 't', 'e', 'm', 's', '"']
}

/// The whole document, compact.
pub open spec fn render_systems(rows: Seq<[i64; 7]>) -> Seq<char> {
    seq!['{'] + key_upper() + seq![':', '['] + render_rows(rows) + seq![']', '}']
}

pub open spec fn matches_key(s: Seq<char>, i: int) -> bool {
    i + 9 <= s.len() && (s.subrange(i, i + 9) == key_upper() || s.subrange(i, i + 9)
        == key_lower())
}

/// Parse `count` comma-separated numbers starting at `i`.
pub open spec fn parse_nums_at(s: Seq<char>, i: int, count: int) -> Option<(Seq<i64>, int)>
    decreases count,
{
    if count <= 0 {
        None
    } else {
        let j = ws_end(s, i);
        match parse_fixed_i64_at(s, j) {
            None => None,
            Some((v, e)) => {
                if count == 1 {
                    Some((seq![v as i64], e))
                } else {
                    let k = ws_end(s, e);
                    if k < s.len() && s[k] == ',' {
                        match parse_nums_at(s, k + 1, count - 1) {
                            None => None,
                            Some((vs, e2)) => Some((seq![v as i64] + vs, e2)),
                        }
                    } else {
                        None
                    }
                }
            },
        }
    }
}

/// Parse one row at `i`: a bracketed list of exactly seven numbers.
pub open spec fn parse_row_at(s: Seq<char>, i: int) -> Option<(Seq<i64>, int)> {
    if i < s.len() && s[i] == '[' {
        match parse_nums_at(s, i + 1, 7) {
            None => None,
            Some((vs, e)) => {
                let j = ws_end(s, e);
                if j < s.len() && s[j] == ']' {
                    Some((vs, j + 1))
                } else {
                    None
                }
            },
        }
    } else {
        None
    }
}

/// Parse rows separated by commas up to and including the closing
/// bracket of the array.
pub open spec fn parse_rows_at(s: Seq<char>, i: int) -> Option<(Seq<Seq<i64>>, int)>
    decreases s.len() - i,
{
    match parse_row_at(s, i) {
        None => None,
        Some((row, e)) => {
            if e <= i {
                None
            } else {
                let j = ws_end(s, e);
                if j < s.len() && s[j] == ',' {
                    let k = ws_end(s, j + 1);
                    if k <= i || k > s.len() {
                        None
                    } else {
                        match parse_rows_at(s, k) {
                            None => None,
                            Some((rows, e2)) => Some((seq![row] + rows, e2)),
                        }
                    }
                } else if j < s.len() && s[j] == ']' {
                    Some((seq![row], j + 1))
                } else {
                    None
                }
            }
        },
    }
}

/// Parse the array at `i`, up to and including its closing bracket.
pub open spec fn parse_array_at(s: Seq<char>, i: int) -> Option<(Seq<Seq<i64>>, int)> {
    if i < s.len() && s[i] == '[' {
        let j = ws_end(s, i + 1);
        if j < s.len() && s[j] == ']' {
            Some((Seq::empty(), j + 1))
        } else {
            parse_rows_at(s, j)
        }
    } else {
        None
    }
}

/// Parse a whole document: the object, its key, the array of rows, and
/// nothing but whitespace after.
pub open spec fn parse_document(s: Seq<char>) -> Option<Seq<Seq<i64>>> {
    let i0 = ws_end(s, 0);
    if i0 < s.len() && s[i0] == '{' {
        let i1 = ws_end(s, i0 + 1);
        if matches_key(s, i1) {
            let i2 = ws_end(s, i1 + 9);
            if i2 < s.len() && s[i2] == ':' {
                match parse_array_at(s, ws_end(s, i2 + 1)) {
                    None => None,
                    Some((rows, e)) => {
                        let i3 = ws_end(s, e);
                        if i3 < s.len() && s[i3] == '}' && ws_end(s, i3 + 1) == s.len() {
                            Some(rows)
                        } else {
                            None
                        }
                    },
                }
            } else {
                None
            }
        } else {
            None
        }
    } else {
        None
    }
}

pub(crate) proof fn lemma_embedded_index(s: Seq<char>, i: int, r: Seq<char>, t: int)
    requires
        0 <= i,
        i + r.len() <= s.len(),
        s.subrange(i, i + r.len()) == r,
        0 <= t < r.len(),
    ensures
        s[i + t] == r[t],
{
    assert(s.subrange(i, i + r.len())[t] == s[i + t]);
}

pub(crate) proof fn lemma_embedded_sub(s: Seq<char>, i: int, r: Seq<char>, a: int, b: int)
    requires
        0 <= i,
        i + r.len() <= s.len(),
        s.subrange(i, i + r.len()) == r,
        0 <= a <= b <= r.len(),
    ensures
        s.subrange(i + a, i + b) == r.subrange(a, b),
{
    assert(s.subrange(i + a, i + b) =~= r.subrange(a, b)) by {
        assert forall|t: int| 0 <= t < b - a implies s.subrange(i + a, i + b)[t] == r.subrange(
            a,
            b,
        )[t] by {
            assert(s.subrange(i + a, i + b)[t] == s[i + a + t]);
            lemma_embedded_index(s, i, r, a + t);
            assert(s[i + (a + t)] == r[a + t]);
            assert(r.subrange(a, b)[t] == r[a + t]);
        }
    }
}

pub(crate) proof fn lemma_ws_end_here(s: Seq<char>, i: int)
    requires
        0 <= i <= s.len(),
        i == s.len() || !is_json_space(s[i]),
    ensures
        ws_end(s, i) == i,
{
}

/// A rendered number is at least eight characters and starts with a minus
/// sign or a digit.
pub(crate) proof fn lemma_render_fixed_shape(v: i64)
    ensures
        render_fixed(v as int).len() >= 8,
        render_fixed(v as int)[0] == '-' || is_digit_char(render_fixed(v as int)[0]),
        !is_json_space(render_fixed(v as int)[0]),
{
    let m = if v < 0 {
        -(v as int)
    } else {
        v as int
    };
    let ip = (m / 1_000_000) as nat;
    let fr = (m % 1_000_000) as nat;
    crate::decimal::lemma_digits_of_are_digits(ip);
    crate::decimal::lemma_digits_of_are_digits(fr);
    crate::decimal::lemma_pow10_values();
    crate::decimal::lemma_digits_of_len(fr, 6);
    let r = render_fixed(v as int);
    if v < 0 {
        assert(r[0] == '-');
    } else {
        assert(r[0] == crate::decimal::digits_of(ip)[0]);
        assert(is_digit_char(r[0]));
    }
}

/// Parsing a rendered number embedded in a larger text yields the value
/// and stops right after it, provided no digit or point follows.
pub(crate) proof fn lemma_parse_fixed_embedded(s: Seq<char>, i: int, v: i64)
    requires
        0 <= i,
        i + render_fixed(v as int).len() <= s.len(),
        s.subrange(i, i + render_fixed(v as int).len()) == render_fixed(v as int),
        i + render_fixed(v as int).len() == s.len() || (!is_digit_char(
            s[i + render_fixed(v as int).len()],
        ) && s[i + render_fixed(v as int).len()] != '.'),
    ensures
        parse_fixed_i64_at(s, i) == Some((v as int, i + render_fixed(v as int).len())),
{
    crate::decimal::lemma_pow10_values();
    let m = if v < 0 {
        -(v as int)
    } else {
        v as int
    };
    let ip = (m / 1_000_000) as nat;
    let fr = (m % 1_000_000) as nat;
    let sign: Seq<char> = if v < 0 {
        seq!['-']
    } else {
        Seq::empty()
    };
    let ipd = crate::decimal::digits_of(ip);
    let frd = crate::decimal::digits_of(fr);
    let z = (6 - frd.len()) as nat;
    let r = render_fixed(v as int);
    let n = r.len() as int;
    assert(r == sign + ipd + seq!['.'] + crate::decimal::zeros(z) + frd);
    crate::decimal::lemma_digits_of_are_digits(ip);
    crate::decimal::lemma_digits_of_are_digits(fr);
    crate::decimal::lemma_digits_of_len(fr, 6);
    assert(ip < crate::decimal::pow10(13));
    crate::decimal::lemma_digits_of_len(ip, 13);
    crate::decimal::lemma_digits_value_of_digits_of(ip);
    crate::decimal::lemma_digits_value_of_digits_of(fr);
    let j: int = i + sign.len();
    let e: int = j + ipd.len();
    assert forall|t: int| j <= t < e implies is_digit_char(#[trigger] s[t]) by {
        lemma_embedded_index(s, i, r, t - i);
        assert(r[t - i] == ipd[t - j]);
    }
    lemma_embedded_index(s, i, r, sign.len() + ipd.len() as int);
    assert(s[e] == '.');
    assert(!is_digit_char('.'));
    crate::decimal::lemma_digit_run_end(s, j, e);
    lemma_embedded_sub(s, i, r, sign.len() as int, sign.len() + ipd.len() as int);
    assert(r.subrange(sign.len() as int, sign.len() + ipd.len() as int) =~= ipd);
    assert(s.subrange(j, e) == ipd);
    if v < 0 {
        lemma_embedded_index(s, i, r, 0);
        assert(s[i] == '-');
    } else {
        lemma_embedded_index(s, i, r, 0);
        assert(s[i] == ipd[0]);
        assert(is_digit_char(s[i]));
        assert(s[i] != '-');
    }
    assert(crate::decimal::parse_digits(s, j) == Some((ip as int, e)));
    let f0: int = e + 1;
    assert(i + n - f0 == z + frd.len() == 6);
    assert forall|t: int| f0 <= t < i + n implies is_digit_char(#[trigger] s[t]) by {
        lemma_embedded_index(s, i, r, t - i);
        if t < f0 + z {
            assert(r[t - i] == '0');
            assert(is_digit_char('0'));
        } else {
            assert(r[t - i] == frd[t - f0 - z]);
        }
    }
    crate::decimal::lemma_digit_run_end(s, f0, i + n);
    lemma_embedded_sub(s, i, r, f0 - i, n);
    assert(r.subrange(f0 - i, n) =~= crate::decimal::zeros(z) + frd);
    assert(s.subrange(f0, i + n) == crate::decimal::zeros(z) + frd);
    crate::decimal::lemma_leading_zeros_value(z, frd);
    assert(crate::decimal::digits_value(s.subrange(f0, i + n)) == fr);
    assert(ip * 1_000_000 + fr * crate::decimal::pow10(0) == m) by {
        vstd::arithmetic::div_mod::lemma_fundamental_div_mod(m, 1_000_000);
    }
    assert(crate::decimal::parse_fixed_at(s, i) == Some((v as int, i + n)));
}

/// Parsing rendered comma-joined numbers embedded in a larger text.
proof fn lemma_parse_nums_embedded(s: Seq<char>, i: int, vals: Seq<i64>)
    requires
        vals.len() >= 1,
        0 <= i,
        i + render_nums(vals).len() <= s.len(),
        s.subrange(i, i + render_nums(vals).len()) == render_nums(vals),
        i + render_nums(vals).len() == s.len() || (!is_digit_char(
            s[i + render_nums(vals).len()],
        ) && s[i + render_nums(vals).len()] != '.'),
    ensures
        parse_nums_at(s, i, vals.len() as int) == Some((vals, i + render_nums(vals).len())),
    decreases vals.len(),
{
    let r = render_nums(vals);
    let n = r.len() as int;
    let r0 = render_fixed(vals[0] as int);
    let n0 = r0.len() as int;
    lemma_render_fixed_shape(vals[0]);
    lemma_embedded_index(s, i, r, 0);
    assert(s[i] == r0[0]);
    lemma_ws_end_here(s, i);
    if vals.len() == 1 {
        assert(r == r0);
        lemma_parse_fixed_embedded(s, i, vals[0]);
        assert(seq![vals[0]] =~= vals);
    } else {
        let tail = render_nums(vals.skip(1));
        assert(r == r0 + seq![','] + tail);
        lemma_embedded_index(s, i, r, n0);
        assert(r[n0] == ',');
        assert(s[i + n0] == ',');
        lemma_embedded_sub(s, i, r, 0, n0);
        assert(r.subrange(0, n0) =~= r0);
        assert(!is_digit_char(',') && ',' != '.');
        lemma_parse_fixed_embedded(s, i, vals[0]);
        let e0: int = i + n0;
        assert(!is_json_space(','));
        lemma_ws_end_here(s, e0);
        let k: int = e0 + 1;
        lemma_embedded_sub(s, i, r, n0 + 1, n);
        assert(r.subrange(n0 + 1, n) =~= tail);
        assert(s.subrange(k, k + tail.len()) == tail);
        assert(vals.skip(1).len() >= 1);
        assert(k + tail.len() == i + n);
        lemma_parse_nums_embedded(s, k, vals.skip(1));
        assert(seq![vals[0]] + vals.skip(1) =~= vals);
    }
}

/// Parsing a rendered row embedded in a larger text.
proof fn lemma_parse_row_embedded(s: Seq<char>, i: int, row: [i64; 7])
    requires
        0 <= i,
        i + render_row(row).len() <= s.len(),
        s.subrange(i, i + render_row(row).len()) == render_row(row),
    ensures
        parse_row_at(s, i) == Some((row_seq(row), i + render_row(row).len())),
{
    let r = render_row(row);
    let n = r.len() as int;
    let body = render_nums(row_seq(row));
    assert(row_seq(row).len() == 7);
    lemma_embedded_index(s, i, r, 0);
    assert(r[0] == '[');
    assert(s[i] == '[');
    lemma_embedded_index(s, i, r, 1 + body.len() as int);
    assert(r[1 + body.len() as int] == ']');
    assert(s[i + (1 + body.len() as int)] == ']');
    lemma_embedded_sub(s, i, r, 1, 1 + body.len() as int);
    assert(r.subrange(1, 1 + body.len() as int) =~= body);
    assert(s.subrange(i + 1, i + 1 + body.len() as int) == body);
    let e: int = i + 1 + body.len() as int;
    assert(!is_digit_char(']') && ']' != '.');
    lemma_parse_nums_embedded(s, i + 1, row_seq(row));
    assert(!is_json_space(']'));
    lemma_ws_end_here(s, e);
    assert(parse_nums_at(s, i + 1, 7) == Some((row_seq(row), e)));
    assert(e + 1 == i + n);
}

/// Parsing rendered rows embedded in a larger text, with the array's
/// closing bracket right after them.
proof fn lemma_parse_rows_embedded(s: Seq<char>, i: int, rows: Seq<[i64; 7]>)
    requires
        rows.len() >= 1,
        0 <= i,
        i + render_rows(rows).len() < s.len(),
        s.subrange(i, i + render_rows(rows).len()) == render_rows(rows),
        s[i + render_rows(rows).len()] == ']',
    ensures
        parse_rows_at(s, i) == Some(
            (rows.map_values(|row: [i64; 7]| row_seq(row)), i + render_rows(rows).len() + 1),
        ),
    decreases rows.len(),
{
    let r = render_rows(rows);
    let n = r.len() as int;
    let r0 = render_row(rows[0]);
    let n0 = r0.len() as int;
    if rows.len() == 1 {
        assert(r == r0);
        lemma_parse_row_embedded(s, i, rows[0]);
        let e: int = i + n0;
        assert(e > i);
        assert(!is_json_space(']'));
        lemma_ws_end_here(s, e);
        assert(s[e] == ']');
        assert(seq![row_seq(rows[0])] =~= rows.map_values(|row: [i64; 7]| row_seq(row)));
    } else {
        let tail = render_rows(rows.skip(1));
        assert(r == r0 + seq![','] + tail);
        lemma_embedded_sub(s, i, r, 0, n0);
        assert(r.subrange(0, n0) =~= r0);
        assert(s.subrange(i, i + n0) == r0);
        lemma_parse_row_embedded(s, i, rows[0]);
        let e: int = i + n0;
        assert(e > i);
        lemma_embedded_index(s, i, r, n0);
        assert(r[n0] == ',');
        assert(s[e] == ',');
        assert(!is_json_space(','));
        lemma_ws_end_here(s, e);
        let k: int = e + 1;
        lemma_embedded_index(s, i, r, n0 + 1);
        assert(r[n0 + 1] == tail[0]);
        assert(tail[0] == render_row(rows.skip(1)[0])[0]);
        assert(render_row(rows.skip(1)[0])[0] == '[');
        assert(s[k] == '[');
        assert(!is_json_space('['));
        lemma_ws_end_here(s, k);
        lemma_embedded_sub(s, i, r, n0 + 1, n);
        assert(r.subrange(n0 + 1, n) =~= tail);
        assert(s.subrange(k, k + tail.len()) == tail);
        assert(k + tail.len() == i + n);
        lemma_parse_rows_embedded(s, k, rows.skip(1));
        assert(seq![row_seq(rows[0])] + rows.skip(1).map_values(|row: [i64; 7]| row_seq(row))
            =~= rows.map_values(|row: [i64; 7]| row_seq(row)));
    }
}

/// Joining one more number appends a comma and its text.
proof fn lemma_render_nums_push(vals: Seq<i64>, v: i64)
    requires
        vals.len() >= 1,
    ensures
        render_nums(vals.push(v)) == render_nums(vals) + seq![','] + render_fixed(v as int),
    decreases vals.len(),
{
    if vals.len() == 1 {
        assert(vals.push(v).skip(1) =~= seq![v]);
        assert(render_nums(seq![v]) == render_fixed(v as int));
        assert(render_nums(vals.push(v)) =~= render_nums(vals) + seq![','] + render_fixed(
            v as int,
        ));
    } else {
        assert(vals.push(v).skip(1) =~= vals.skip(1).push(v));
        lemma_render_nums_push(vals.skip(1), v);
        assert(render_nums(vals.push(v)) =~= render_nums(vals) + seq![','] + render_fixed(
            v as int,
        ));
    }
}

/// Joining one more row appends a comma and its text.
proof fn lemma_render_rows_push(rows: Seq<[i64; 7]>, row: [i64; 7])
    requires
        rows.len() >= 1,
    ensures
        render_rows(rows.push(row)) == render_rows(rows) + seq![','] + render_row(row),
    decreases rows.len(),
{
    if rows.len() == 1 {
        assert(rows.push(row).skip(1) =~= seq![row]);
        assert(render_rows(seq![row]) == render_row(row));
        assert(render_rows(rows.push(row)) =~= render_rows(rows) + seq![','] + render_row(row));
    } else {
        assert(rows.push(row).skip(1) =~= rows.skip(1).push(row));
        lemma_render_rows_push(rows.skip(1), row);
        assert(render_rows(rows.push(row)) =~= render_rows(rows) + seq![','] + render_row(row));
    }
}

/// Round trip: parsing the rendered document gives back exactly the rows
/// that were rendered, as their seven-value sequences.
pub proof fn lemma_render_parse_round_trip(rows: Seq<[i64; 7]>)
    ensures
        parse_document(render_systems(rows)) == Some(
            rows.map_values(|row: [i64; 7]| row_seq(row)),
        ),
{
    let s = render_systems(rows);
    let body = render_rows(rows);
    let n = body.len() as int;
    assert(s =~= seq!['{'] + key_upper() + seq![':', '['] + body + seq![']', '}']);
    assert(s.len() == 14 + n);
    assert(s[0] == '{');
    assert(!is_json_space('{'));
    lemma_ws_end_here(s, 0);
    assert(s[1] == '"');
    assert(!is_json_space('"'));
    lemma_ws_end_here(s, 1);
    assert(s.subrange(1, 10) =~= key_upper());
    assert(matches_key(s, 1));
    assert(s[10] == ':');
    assert(!is_json_space(':'));
    lemma_ws_end_here(s, 10);
    assert(s[11] == '[');
    assert(!is_json_space('['));
    lemma_ws_end_here(s, 11);
    assert(s[12 + n] == ']');
    assert(s[13 + n] == '}');
    if rows.len() == 0 {
        assert(n == 0);
        assert(s[12] == ']');
        assert(!is_json_space(']'));
        lemma_ws_end_here(s, 12);
        assert(parse_array_at(s, 11) == Some((Seq::<Seq<i64>>::empty(), 13int)));
        assert(!is_json_space('}'));
        lemma_ws_end_here(s, 13);
        lemma_ws_end_here(s, 14);
        assert(rows.map_values(|row: [i64; 7]| row_seq(row)) =~= Seq::<Seq<i64>>::empty());
    } else {
        assert(s[12] == body[0]);
        assert(body[0] == render_row(rows[0])[0]);
        assert(render_row(rows[0])[0] == '[');
        assert(!is_json_space('['));
        lemma_ws_end_here(s, 12);
        assert(s.subrange(12, 12 + n) =~= body);
        lemma_parse_rows_embedded(s, 12, rows);
        assert(parse_array_at(s, 11) == Some(
            (rows.map_values(|row: [i64; 7]| row_seq(row)), 13 + n),
        ));
        assert(!is_json_space('}'));
        lemma_ws_end_here(s, 13 + n);
        lemma_ws_end_here(s, 14 + n);
    }
}

fn is_json_space_char(c: char) -> (r: bool)
    ensures
        r == is_json_space(c),
{
    c == ' ' || c == '\n' || c == '\t' || c == '\r'
}

/// Position of the first non-whitespace character at or after `i`.
pub(crate) fn skip_ws(s: &Vec<char>, i: usize) -> (r: usize)
    requires
        i <= s@.len(),
    ensures
        r == ws_end(s@, i as int),
        i <= r <= s@.len(),
{
    let mut cur: usize = i;
    while cur < s.len() && is_json_space_char(s[cur])
        invariant
            i <= cur <= s@.len(),
            ws_end(s@, i as int) == ws_end(s@, cur as int),
        decreases s@.len() - cur,
    {
        cur = cur + 1;
    }
    cur
}

/// Append the text of one row.
fn render_row_exec(out: &mut Vec<char>, row: &[i64; 7])
    ensures
        final(out)@ == old(out)@ + render_row(*row),
{
    let ghost base = out@;
    out.push('[');
    let mut idx: usize = 0;
    while idx < 7
        invariant
            idx <= 7,
            idx == 0 ==> out@ == base + seq!['['],
            idx >= 1 ==> out@ == base + seq!['['] + render_nums(row_seq(*row).take(idx as int)),
        decreases 7 - idx,
    {
        if idx > 0 {
            out.push(',');
        }
        let mut digits = format_fixed(row[idx]);
        out.append(&mut digits);
        idx = idx + 1;
        proof {
            if idx == 1 {
                assert(row_seq(*row).take(1) =~= seq![row[0]]);
                assert(render_nums(seq![row[0]]) == render_fixed(row[0] as int));
                assert(out@ =~= base + seq!['['] + render_nums(row_seq(*row).take(1)));
            } else {
                assert(row_seq(*row).take(idx as int) =~= row_seq(*row).take(idx - 1).push(
                    row[idx - 1],
                ));
                lemma_render_nums_push(row_seq(*row).take(idx - 1), row[idx - 1]);
                assert(out@ =~= base + seq!['['] + render_nums(row_seq(*row).take(idx as int)));
            }
        }
    }
    out.push(']');
    proof {
        assert(row_seq(*row).take(7) =~= row_seq(*row));
        assert(out@ =~= base + render_row(*row));
    }
}

/// Render the map set of a state as its persisted document.
pub fn serialize(state: &IfsState) -> (r: String)
    ensures
        r@ == render_systems(state.systems@),
{
    let mut out: Vec<char> = Vec::new();
    out.push('{');
    out.push('"');
    out.push('S');
    out.push('y');
    out.push('s');
    out.push('t');
    out.push('e');
    out.push('m');
    out.push('s');
    out.push('"');
    out.push(':');
    out.push('[');
    let ghost head = seq!['{'] + key_upper() + seq![':', '['];
    proof {
        assert(out@ =~= head);
    }
    let mut i: usize = 0;
    while i < state.systems.len()
        invariant
            i <= state.systems@.len(),
            i == 0 ==> out@ == head,
            i >= 1 ==> out@ == head + render_rows(state.systems@.take(i as int)),
        decreases state.systems@.len() - i,
    {
        if i > 0 {
            out.push(',');
        }
        let row = state.systems[i];
        render_row_exec(&mut out, &row);
        i = i + 1;
        proof {
            if i == 1 {
                assert(state.systems@.take(1) =~= seq![state.systems@[0]]);
                assert(render_rows(seq![state.systems@[0]]) == render_row(state.systems@[0]));
                assert(out@ =~= head + render_rows(state.systems@.take(1)));
            } else {
                assert(state.systems@.take(i as int) =~= state.systems@.take(i - 1).push(
                    state.systems@[i - 1],
                ));
                lemma_render_rows_push(state.systems@.take(i - 1), state.systems@[i - 1]);
                assert(out@ =~= head + render_rows(state.systems@.take(i as int)));
            }
        }
    }
    out.push(']');
    out.push('}');
    proof {
        assert(state.systems@.take(state.systems@.len() as int) =~= state.systems@);
        if state.systems@.len() == 0 {
            assert(render_rows(state.systems@) =~= Seq::<char>::empty());
        }
        assert(out@ =~= render_systems(state.systems@));
    }
    chars_to_string(&out)
}

/// Parse `count` comma-separated numbers.
fn parse_nums_exec(s: &Vec<char>, i: usize, count: usize) -> (r: Option<(Vec<i64>, usize)>)
    requires
        i <= s@.len(),
    ensures
        r matches Some(p) ==> parse_nums_at(s@, i as int, count as int) == Some(
            (p.0@, p.1 as int),
        ) && i < p.1 <= s@.len() && p.0@.len() == count,
        r is None ==> parse_nums_at(s@, i as int, count as int) is None,
    decreases count,
{
    if count == 0 {
        return None;
    }
    let j = skip_ws(s, i);
    match parse_fixed(s, j) {
        None => None,
        Some((v, e)) => {
            if count == 1 {
                let mut vs: Vec<i64> = Vec::new();
                vs.push(v);
                proof {
                    assert(vs@ =~= seq![v]);
                }
                Some((vs, e))
            } else {
                let k = skip_ws(s, e);
                if k < s.len() && s[k] == ',' {
                    match parse_nums_exec(s, k + 1, count - 1) {
                        None => None,
                        Some((vs, e2)) => {
                            let ghost tail = vs@;
                            let mut vs2 = vs;
                            vs2.insert(0, v);
                            proof {
                                assert(vs2@ =~= seq![v] + tail);
                            }
                            Some((vs2, e2))
                        },
                    }
                } else {
                    None
                }
            }
        },
    }
}

/// Parse one bracketed row of seven numbers.
fn parse_row_exec(s: &Vec<char>, i: usize) -> (r: Option<([i64; 7], usize)>)
    requires
        i <= s@.len(),
    ensures
        r matches Some(p) ==> parse_row_at(s@, i as int) == Some((row_seq(p.0), p.1 as int)) && i
            < p.1 <= s@.len(),
        r is None ==> parse_row_at(s@, i as int) is None,
{
    if i < s.len() && s[i] == '[' {
        match parse_nums_exec(s, i + 1, 7) {
            None => None,
            Some((vs, e)) => {
                let j = skip_ws(s, e);
                if j < s.len() && s[j] == ']' {
                    let row: [i64; 7] = [vs[0], vs[1], vs[2], vs[3], vs[4], vs[5], vs[6]];
                    proof {
                        assert(row@ =~= vs@);
                        assert(row_seq(row) =~= vs@) by {
                            assert(forall|k: int|
                                0 <= k < 7 ==> #[trigger] row_seq(row)[k] == row@[k]);
                        }
                    }
                    Some((row, j + 1))
                } else {
                    None
                }
            },
        }
    } else {
        None
    }
}

/// Parse comma-separated rows up to and including the closing bracket.
fn parse_rows_exec(s: &Vec<char>, i: usize) -> (r: Option<(Vec<[i64; 7]>, usize)>)
    requires
        i <= s@.len(),
    ensures
        r matches Some(p) ==> parse_rows_at(s@, i as int) == Some(
            (p.0@.map_values(|row: [i64; 7]| row_seq(row)), p.1 as int),
        ) && p.1 <= s@.len(),
        r is None ==> parse_rows_at(s@, i as int) is None,
    decreases s@.len() - i,
{
    match parse_row_exec(s, i) {
        None => None,
        Some((row, e)) => {
            let j = skip_ws(s, e);
            if j < s.len() && s[j] == ',' {
                let k = skip_ws(s, j + 1);
                match parse_rows_exec(s, k) {
                    None => None,
                    Some((rows, e2)) => {
                        let ghost tail = rows@;
                        let mut rows2 = rows;
                        rows2.insert(0, row);
                        proof {
                            assert(rows2@ =~= seq![row] + tail);
                            assert(rows2@.map_values(|r2: [i64; 7]| row_seq(r2)) =~= seq![
                                row_seq(row),
                            ] + tail.map_values(|r2: [i64; 7]| row_seq(r2)));
                        }
                        Some((rows2, e2))
                    },
                }
            } else if j < s.len() && s[j] == ']' {
                let mut rows: Vec<[i64; 7]> = Vec::new();
                rows.push(row);
                proof {
                    assert(rows@.map_values(|r2: [i64; 7]| row_seq(r2)) =~= seq![row_seq(row)]);
                }
                Some((rows, j + 1))
            } else {
                None
            }
        },
    }
}

fn matches_key_exec(s: &Vec<char>, i: usize) -> (r: bool)
    requires
        i <= s@.len(),
    ensures
        r == matches_key(s@, i as int),
{
    if s.len() < 9 || i > s.len() - 9 {
        proof {
            assert(!matches_key(s@, i as int));
        }
        return false;
    }
    let upper = s[i] == '"' && s[i + 1] == 'S' && s[i + 2] == 'y' && s[i + 3] == 's' && s[i + 4]
        == 't' && s[i + 5] == 'e' && s[i + 6] == 'm' && s[i + 7] == 's' && s[i + 8] == '"';
    let lower = s[i] == '"' && s[i + 1] == 's' && s[i + 2] == 'y' && s[i + 3] == 's' && s[i + 4]
        == 't' && s[i + 5] == 'e' && s[i + 6] == 'm' && s[i + 7] == 's' && s[i + 8] == '"';
    proof {
        if upper {
            assert(s@.subrange(i as int, i + 9) =~= key_upper());
        }
        if lower {
            assert(s@.subrange(i as int, i + 9) =~= key_lower());
        }
        if !upper && !lower {
            assert(s@.subrange(i as int, i + 9)[0] == s@[i as int]);
            assert(s@.subrange(i as int, i + 9)[1] == s@[i + 1]);
            assert(s@.subrange(i as int, i + 9)[2] == s@[i + 2]);
            assert(s@.subrange(i as int, i + 9)[3] == s@[i + 3]);
            assert(s@.subrange(i as int, i + 9)[4] == s@[i + 4]);
            assert(s@.subrange(i as int, i + 9)[5] == s@[i + 5]);
            assert(s@.subrange(i as int, i + 9)[6] == s@[i + 6]);
            assert(s@.subrange(i as int, i + 9)[7] == s@[i + 7]);
            assert(s@.subrange(i as int, i + 9)[8] == s@[i + 8]);
            assert(!matches_key(s@, i as int));
        }
    }
    upper || lower
}

/// Read a persisted document back into a map set. Accepts whitespace
/// between tokens and either spelling of the key.
pub fn deserialize(json: String) -> (r: Result<IfsDto, JsonError>)
    ensures
        r matches Ok(dto) ==> parse_document(json@) == Some(
            dto.systems@.map_values(|row: [i64; 7]| row_seq(row)),
        ),
        r is Err <==> parse_document(json@) is None,
{
    let s = str_to_chars(json.as_str());
    let i0 = skip_ws(&s, 0);
    if !(i0 < s.len() && s[i0] == '{') {
        return Err(JsonError::MalformedDocument);
    }
    let i1 = skip_ws(&s, i0 + 1);
    if !matches_key_exec(&s, i1) {
        return Err(JsonError::MalformedDocument);
    }
    let i2 = skip_ws(&s, i1 + 9);
    if !(i2 < s.len() && s[i2] == ':') {
        return Err(JsonError::MalformedDocument);
    }
    let ia = skip_ws(&s, i2 + 1);
    if !(ia < s.len() && s[ia] == '[') {
        return Err(JsonError::MalformedDocument);
    }
    let j = skip_ws(&s, ia + 1);
    let parsed: (Vec<[i64; 7]>, usize) = if j < s.len() && s[j] == ']' {
        (Vec::new(), j + 1)
    } else {
        match parse_rows_exec(&s, j) {
            None => {
                return Err(JsonError::MalformedDocument);
            },
            Some(p) => p,
        }
    };
    let (rows, e) = parsed;
    let i3 = skip_ws(&s, e);
    if !(i3 < s.len() && s[i3] == '}') {
        return Err(JsonError::MalformedDocument);
    }
    if skip_ws(&s, i3 + 1) != s.len() {
        return Err(JsonError::MalformedDocument);
    }
    proof {
        if rows@.len() == 0 {
            assert(rows@.map_values(|row: [i64; 7]| row_seq(row)) =~= Seq::<Seq<i64>>::empty());
        }
    }
    Ok(IfsDto { systems: rows })
}

/// `deserialize` under its older name.
pub fn parse(json: String) -> (r: Result<IfsDto, JsonError>)
    ensures
        r matches Ok(dto) ==> parse_document(json@) == Some(
            dto.systems@.map_values(|row: [i64; 7]| row_seq(row)),
        ),
        r is Err <==> parse_document(json@) is None,
{
    deserialize(json)
}

impl IfsDto {
    /// Replace the state's whole map set with the loaded one and validate
    /// it, every new row colored by the standard policy. On failure the
    /// state is reset to its defaults, so no partially loaded set stays
    /// live.
    pub fn load(self, state: &mut IfsState) -> (r: Result<(), ValidationError>)
        ensures
            r is Ok <==> valid_map_set(self.systems@),
            r is Ok ==> {
                &&& final(state).systems@ == self.systems@
                &&& final(state).is_initialized
                &&& final(state).color_schemas@.len() == self.systems@.len()
                &&& forall|i: int|
                    0 <= i < final(state).color_schemas@.len()
                        ==> (#[trigger] final(state).color_schemas@[i]) is Standard
            },
            self.systems@.len() == 0 ==> r == Err::<(), ValidationError>(
                ValidationError::NoSystems,
            ),
            self.systems@.len() > 0 && !all_weights_in_range(self.systems@) ==> (r matches Err(e)
                && exists|i: int|
                {
                    &&& 0 <= i < self.systems@.len()
                    &&& !weight_in_range(#[trigger] self.systems@[i][6])
                    &&& e == ValidationError::BadProbability(self.systems@[i][6])
                    &&& forall|j: int| 0 <= j < i ==> weight_in_range(#[trigger] self.systems@[j][6])
                }),
            self.systems@.len() > 0 && all_weights_in_range(self.systems@) && weight_sum(
                self.systems@,
            ) > crate::fixed::SCALE + EPSILON ==> r == Err::<(), ValidationError>(
                ValidationError::BadProbabilitySum(weight_sum(self.systems@) as i128),
            ),
            r is Err ==> {
                &&& !final(state).is_initialized
                &&& !final(state).is_drawing_requested
                &&& final(state).dots@.len() == 0
                &&& final(state).systems@.len() == 1
                &&& crate::ifs::state::is_default_system(final(state).systems@[0])
                &&& !final(state).is_coloring_enabled
                &&& final(state).color_schemas@ =~= seq![
                    crate::colors::ColorScheme::Standard,
                ]
                &&& final(state).iterations == crate::ifs::model::DEFAULT_ITERATIONS
                &&& final(state).radius_cm == crate::ifs::model::DEFAULT_RADIUS
            },
    {
        *state = IfsState::default();
        state.empty_systems();
        let mut i: usize = 0;
        while i < self.systems.len()
            invariant
                i <= self.systems@.len(),
                state.systems@ == self.systems@.subrange(0, i as int),
                state.color_schemas@.len() == i,
                forall|j: int|
                    0 <= j < i ==> (#[trigger] state.color_schemas@[j]) is Standard,
                !state.is_initialized,
            decreases self.systems@.len() - i,
        {
            let row = self.systems[i];
            state.push_system(row);
            i = i + 1;
            proof {
                assert(state.systems@ =~= self.systems@.subrange(0, i as int));
            }
        }
        proof {
            assert(self.systems@.subrange(0, self.systems@.len() as int) =~= self.systems@);
        }
        match state.initialize() {
            Ok(()) => Ok(()),
            Err(e) => {
                *state = IfsState::default();
                Err(e)
            },
        }
    }
}

} // verus!
