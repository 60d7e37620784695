//! The persisted form of an L-System: a JSON object holding the initiator
//! string, the two angles as decimal degrees, the iteration count, and the
//! raw rule lines. Rendering is compact; parsing also accepts whitespace
//! between tokens.

use vstd::prelude::*;
use crate::decimal::{
    digits_of, format_fixed, format_nat, parse_digits, parse_fixed, parse_fixed_i64_at,
    render_fixed,
};
use crate::ifs::serialization::JsonError;
use crate::lsystem::state::{rule_texts, LSystemState};
use crate::lsystem::validation::{validate_spec, ValidationError};
use crate::text::{chars_to_string, str_to_chars};

verus! {

/// A parsed L-System, ready to be loaded into a state.
pub struct LSystemDto {
    pub initiator: String,
    pub angle: i64,
    pub initial_angle: i64,
    pub iterations: usize,
    pub rules: Vec<String>,
}

/// The initiator's key, as persisted.
pub open spec fn key_initiator() -> Seq<char> {
    seq!['"', 'A', 'x', 'i', 'o', 'm', '"']
}

pub open spec fn key_angle() -> Seq<char> {
    seq!['"', 'A', 'n', 'g', 'l', 'e', '"']
}

pub open spec fn key_initial_angle() -> Seq<char> {
    seq!['"', 'I', 'n', 'i', 't', 'i', 'a', 'l', ' ', 'A', 'n', 'g', 'l', 'e', '"']
}

pub open spec fn key_iterations() -> Seq<char> {
    seq!['"', 'I', 't', 'e', 'r', 'a', 't', 'i', 'o', 'n', 's', '"']
}

pub open spec fn key_rules() -> Seq<char> {
    seq!['"', 'R', 'u', 'l', 'e', 's', '"']
}

/// One character of a string value: quotes and backslashes gain an
/// escaping backslash.
pub open spec fn escape_char(c: char) -> Seq<char> {
    if c == '"' || c == '\\' {
        seq!['\\', c]
    } else {
        seq![c]
    }
}

/// The characters of a string value, escaped.
pub open spec fn escape_string(s: Seq<char>) -> Seq<char>
    decreases s.len(),
{
    if s.len() == 0 {
        Seq::empty()
    } else {
        escape_char(s[0]) + escape_string(s.skip(1))
    }
}

/// A string value: its characters between quotes, escaped.
pub open spec fn render_string(s: Seq<char>) -> Seq<char> {
    seq!['"'] + escape_string(s) + seq!['"']
}

/// String values joined by commas.
pub open spec fn render_strings(vals: Seq<Seq<char>>) -> Seq<char>
    decreases vals.len(),
{
    if vals.len() == 0 {
        Seq::empty()
    } else if vals.len() == 1 {
        render_string(vals[0])
    } else {
        render_string(vals[0]) + seq![','] + render_strings(vals.skip(1))
    }
}

/// A `"key":` prefix before the rest of the document.
pub open spec fn key_value(key: Seq<char>, rest: Seq<char>) -> Seq<char> {
    key + seq![':'] + rest
}

/// A comma before the rest of the document.
pub open spec fn comma_then(rest: Seq<char>) -> Seq<char> {
    seq![','] + rest
}

/// The document from the rules array on.
pub open spec fn doc_from_rules(rules: Seq<Seq<char>>) -> Seq<char> {
    seq!['['] + render_strings(rules) + seq![']'] + seq!['}']
}

/// The document from the iteration count on.
pub open spec fn doc_from_iterations(iterations: nat, rules: Seq<Seq<char>>) -> Seq<char> {
    digits_of(iterations) + comma_then(key_value(key_rules(), doc_from_rules(rules)))
}

/// The document from the initial angle on.
pub open spec fn doc_from_initial_angle(
    initial_angle: i64,
    iterations: nat,
    rules: Seq<Seq<char>>,
) -> Seq<char> {
    render_fixed(initial_angle as int) + comma_then(
        key_value(key_iterations(), doc_from_iterations(iterations, rules)),
    )
}

/// The document from the turn angle on.
pub open spec fn doc_from_angle(
    angle: i64,
    initial_angle: i64,
    iterations: nat,
    rules: Seq<Seq<char>>,
) -> Seq<char> {
    render_fixed(angle as int) + comma_then(
        key_value(key_initial_angle(), doc_from_initial_angle(initial_angle, iterations, rules)),
    )
}

/// The document from the initiator string on.
pub open spec fn doc_from_initiator(
    initiator: Seq<char>,
    angle: i64,
    initial_angle: i64,
    iterations: nat,
    rules: Seq<Seq<char>>,
) -> Seq<char> {
    render_string(initiator) + comma_then(
        key_value(key_angle(), doc_from_angle(angle, initial_angle, iterations, rules)),
    )
}

/// The whole document, compact.
pub open spec fn render_lsystem(
    initiator: Seq<char>,
    angle: i64,
    initial_angle: i64,
    iterations: nat,
    rules: Seq<Seq<char>>,
) -> Seq<char> {
    seq!['{'] + key_initiator() + seq![':'] + render_string(initiator) + seq![','] + key_angle()
        + seq![':'] + render_fixed(angle as int) + seq![','] + key_initial_angle() + seq![':']
        + render_fixed(initial_angle as int) + seq![','] + key_iterations() + seq![':']
        + digits_of(iterations) + seq![','] + key_rules() + seq![':', '['] + render_strings(rules)
        + seq![']', '}']
}

pub open spec fn ws_end(s: Seq<char>, i: int) -> int {
    crate::ifs::serialization::ws_end(s, i)
}

pub open spec fn matches_chars(s: Seq<char>, i: int, key: Seq<char>) -> bool {
    i + key.len() <= s.len() && s.subrange(i, i + key.len()) == key
}

/// Parse the body of a string value: unescape until the closing quote,
/// which is consumed. An unterminated value or a trailing lone backslash
/// is malformed.
pub open spec fn parse_string_body(s: Seq<char>, i: int) -> Option<(Seq<char>, int)>
    decreases s.len() - i,
{
    if i < 0 || i >= s.len() {
        None
    } else if s[i] == '"' {
        Some((Seq::empty(), i + 1))
    } else if s[i] == '\\' {
        if i + 1 < s.len() {
            match parse_string_body(s, i + 2) {
                None => None,
                Some((c, e)) => Some((seq![s[i + 1]] + c, e)),
            }
        } else {
            None
        }
    } else {
        match parse_string_body(s, i + 1) {
            None => None,
            Some((c, e)) => Some((seq![s[i]] + c, e)),
        }
    }
}

/// Parse a quoted string at `i`: its unescaped content and the position
/// after the closing quote.
pub open spec fn parse_string_at(s: Seq<char>, i: int) -> Option<(Seq<char>, int)> {
    if i < s.len() && s[i] == '"' {
        parse_string_body(s, i + 1)
    } else {
        None
    }
}

/// Parse comma-separated quoted strings up to and including the closing
/// bracket of the array.
pub open spec fn parse_strings_at(s: Seq<char>, i: int) -> Option<(Seq<Seq<char>>, int)>
    decreases s.len() - i,
{
    match parse_string_at(s, i) {
        None => None,
        Some((v, e)) => {
            if e <= i {
                None
            } else {
                let j = ws_end(s, e);
                if j < s.len() && s[j] == ',' {
                    let k = ws_end(s, j + 1);
                    if k <= i || k > s.len() {
                        None
                    } else {
                        match parse_strings_at(s, k) {
                            None => None,
                            Some((vs, e2)) => Some((seq![v] + vs, e2)),
                        }
                    }
                } else if j < s.len() && s[j] == ']' {
                    Some((seq![v], j + 1))
                } else {
                    None
                }
            }
        },
    }
}

/// Parse the rules array at `i`, up to and including its closing bracket.
pub open spec fn parse_strings_array_at(s: Seq<char>, i: int) -> Option<(Seq<Seq<char>>, int)> {
    if i < s.len() && s[i] == '[' {
        let j = ws_end(s, i + 1);
        if j < s.len() && s[j] == ']' {
            Some((Seq::empty(), j + 1))
        } else {
            parse_strings_at(s, j)
        }
    } else {
        None
    }
}

/// One `"key": value` step: the key at `i`, then a colon; yields the
/// position of the value.
pub open spec fn after_key(s: Seq<char>, i: int, key: Seq<char>) -> Option<int> {
    if matches_chars(s, i, key) {
        let j = ws_end(s, i + key.len());
        if j < s.len() && s[j] == ':' {
            Some(ws_end(s, j + 1))
        } else {
            None
        }
    } else {
        None
    }
}

/// Expect a comma at `i`; yields the position after it.
pub open spec fn after_comma(s: Seq<char>, i: int) -> Option<int> {
    let j = ws_end(s, i);
    if j < s.len() && s[j] == ',' {
        Some(ws_end(s, j + 1))
    } else {
        None
    }
}

/// Parse a whole document: every key in order, then nothing but
/// whitespace after the object.
pub open spec fn parse_lsystem_document(s: Seq<char>) -> Option<
    (Seq<char>, int, int, int, Seq<Seq<char>>),
> {
    let i0 = ws_end(s, 0);
    if i0 < s.len() && s[i0] == '{' {
        match after_key(s, ws_end(s, i0 + 1), key_initiator()) {
            None => None,
            Some(p1) => match parse_string_at(s, p1) {
                None => None,
                Some((initiator, e1)) => match after_comma(s, e1) {
                    None => None,
                    Some(p2) => match after_key(s, p2, key_angle()) {
                        None => None,
                        Some(p3) => match parse_fixed_i64_at(s, p3) {
                            None => None,
                            Some((angle, e2)) => match after_comma(s, e2) {
                                None => None,
                                Some(p4) => match after_key(s, p4, key_initial_angle()) {
                                    None => None,
                                    Some(p5) => match parse_fixed_i64_at(s, p5) {
                                        None => None,
                                        Some((initial_angle, e3)) => match after_comma(s, e3) {
                                            None => None,
                                            Some(p6) => match after_key(s, p6, key_iterations()) {
                                                None => None,
                                                Some(p7) => match parse_digits(s, p7) {
                                                    None => None,
                                                    Some((iterations, e4)) => if iterations
                                                        <= usize::MAX {
                                                        match after_comma(s, e4) {
                                                            None => None,
                                                            Some(p8) => match after_key(
                                                                s,
                                                                p8,
                                                                key_rules(),
                                                            ) {
                                                                None => None,
                                                                Some(p9) => match parse_strings_array_at(
                                                                    s,
                                                                    p9,
                                                                ) {
                                                                    None => None,
                                                                    Some((rules, e5)) => {
                                                                        let i3 = ws_end(s, e5);
                                                                        if i3 < s.len() && s[i3]
                                                                            == '}' && ws_end(
                                                                            s,
                                                                            i3 + 1,
                                                                        ) == s.len() {
                                                                            Some(
                                                                                (
                                                                                    initiator,
                                                                                    angle,
                                                                                    initial_angle,
                                                                                    iterations,
                                                                                    rules,
                                                                                ),
                                                                            )
                                                                        } else {
                                                                            None
                                                                        }
                                                                    },
                                                                },
                                                            },
                                                        }
                                                    } else {
                                                        None
                                                    },
                                                },
                                            },
                                        },
                                    },
                                },
                            },
                        },
                    },
                },
            },
        }
    } else {
        None
    }
}

/// Joining one more string value appends a comma and its text.
proof fn lemma_render_strings_push(vals: Seq<Seq<char>>, v: Seq<char>)
    requires
        vals.len() >= 1,
    ensures
        render_strings(vals.push(v)) == render_strings(vals) + seq![','] + render_string(v),
    decreases vals.len(),
{
    if vals.len() == 1 {
        assert(vals.push(v).skip(1) =~= seq![v]);
        assert(render_strings(seq![v]) == render_string(v));
        assert(render_strings(vals.push(v)) =~= render_strings(vals) + seq![','] + render_string(
            v,
        ));
    } else {
        assert(vals.push(v).skip(1) =~= vals.skip(1).push(v));
        lemma_render_strings_push(vals.skip(1), v);
        assert(render_strings(vals.push(v)) =~= render_strings(vals) + seq![','] + render_string(
            v,
        ));
    }
}

/// Append `"key":` to the output.
fn push_key(out: &mut Vec<char>, key: &Vec<char>)
    ensures
        final(out)@ == old(out)@ + key@ + seq![':'],
{
    let mut k = crate::util::copy_vec(key);
    out.append(&mut k);
    out.push(':');
}

/// Append a quoted string value to the output.
/// Escaping one more character appends its escaped form.
proof fn lemma_escape_push(s: Seq<char>, c: char)
    ensures
        escape_string(s.push(c)) == escape_string(s) + escape_char(c),
    decreases s.len(),
{
    if s.len() == 0 {
        assert(s.push(c)[0] == c);
        assert(s.push(c).skip(1) =~= Seq::<char>::empty());
        assert(escape_string(s.push(c)) == escape_char(c) + escape_string(Seq::<char>::empty()));
        assert(escape_char(c) + Seq::<char>::empty() =~= escape_char(c));
        assert(escape_string(s) + escape_char(c) =~= escape_char(c));
    } else {
        assert(s.push(c)[0] == s[0]);
        assert(s.push(c).skip(1) =~= s.skip(1).push(c));
        lemma_escape_push(s.skip(1), c);
        assert(escape_string(s.push(c)) =~= escape_string(s) + escape_char(c));
    }
}

/// Append a quoted string value, escaping quotes and backslashes.
fn push_string(out: &mut Vec<char>, v: &Vec<char>)
    ensures
        final(out)@ == old(out)@ + render_string(v@),
{
    let ghost base = out@;
    out.push('"');
    let mut k: usize = 0;
    while k < v.len()
        invariant
            k <= v@.len(),
            out@ == base + seq!['"'] + escape_string(v@.take(k as int)),
        decreases v@.len() - k,
    {
        let c = v[k];
        if c == '"' || c == '\\' {
            out.push('\\');
        }
        out.push(c);
        k = k + 1;
        proof {
            assert(v@.take(k as int) =~= v@.take(k - 1).push(v@[k - 1]));
            lemma_escape_push(v@.take(k - 1), v@[k - 1]);
            assert(out@ =~= base + seq!['"'] + escape_string(v@.take(k as int)));
        }
    }
    out.push('"');
    proof {
        assert(v@.take(v@.len() as int) =~= v@);
        assert(out@ =~= base + render_string(v@));
    }
}

/// Render the parameters of a state as its persisted document. Quotes and
/// backslashes in string values are escaped, as JSON demands.
pub fn serialize(state: &LSystemState) -> (r: String)
    ensures
        r@ == render_lsystem(
            state.initiator@,
            state.angle,
            state.initial_angle,
            state.iterations as nat,
            rule_texts(state.rules@),
        ),
{
    let mut out: Vec<char> = Vec::new();
    out.push('{');
    let k1: Vec<char> = vec!['"', 'A', 'x', 'i', 'o', 'm', '"'];
    let k2: Vec<char> = vec!['"', 'A', 'n', 'g', 'l', 'e', '"'];
    let k3: Vec<char> = vec![
        '"',
        'I',
        'n',
        'i',
        't',
        'i',
        'a',
        'l',
        ' ',
        'A',
        'n',
        'g',
        'l',
        'e',
        '"',
    ];
    let k4: Vec<char> = vec!['"', 'I', 't', 'e', 'r', 'a', 't', 'i', 'o', 'n', 's', '"'];
    let k5: Vec<char> = vec!['"', 'R', 'u', 'l', 'e', 's', '"'];
    proof {
        assert(k1@ =~= key_initiator());
        assert(k2@ =~= key_angle());
        assert(k3@ =~= key_initial_angle());
        assert(k4@ =~= key_iterations());
        assert(k5@ =~= key_rules());
    }
    push_key(&mut out, &k1);
    let initiator_chars = str_to_chars(state.initiator.as_str());
    push_string(&mut out, &initiator_chars);
    out.push(',');
    push_key(&mut out, &k2);
    let mut angle_digits = format_fixed(state.angle);
    out.append(&mut angle_digits);
    out.push(',');
    push_key(&mut out, &k3);
    let mut initial_digits = format_fixed(state.initial_angle);
    out.append(&mut initial_digits);
    out.push(',');
    push_key(&mut out, &k4);
    let mut iter_digits = format_nat(state.iterations as u64);
    out.append(&mut iter_digits);
    out.push(',');
    push_key(&mut out, &k5);
    out.push('[');
    let ghost head = out@;
    let mut i: usize = 0;
    while i < state.rules.len()
        invariant
            i <= state.rules@.len(),
            i == 0 ==> out@ == head,
            i >= 1 ==> out@ == head + render_strings(rule_texts(state.rules@).take(i as int)),
        decreases state.rules@.len() - i,
    {
        if i > 0 {
            out.push(',');
        }
        let rule_chars = str_to_chars(state.rules[i].as_str());
        push_string(&mut out, &rule_chars);
        i = i + 1;
        proof {
            let rt = rule_texts(state.rules@);
            if i == 1 {
                assert(rt.take(1) =~= seq![rt[0]]);
                assert(render_strings(seq![rt[0]]) == render_string(rt[0]));
                assert(out@ =~= head + render_strings(rt.take(1)));
            } else {
                assert(rt.take(i as int) =~= rt.take(i - 1).push(rt[i - 1]));
                lemma_render_strings_push(rt.take(i - 1), rt[i - 1]);
                assert(out@ =~= head + render_strings(rt.take(i as int)));
            }
        }
    }
    out.push(']');
    out.push('}');
    proof {
        let rt = rule_texts(state.rules@);
        assert(rt.take(rt.len() as int) =~= rt);
        if rt.len() == 0 {
            assert(render_strings(rt) =~= Seq::<char>::empty());
        }
        assert(out@ =~= render_lsystem(
            state.initiator@,
            state.angle,
            state.initial_angle,
            state.iterations as nat,
            rt,
        ));
    }
    chars_to_string(&out)
}

fn matches_chars_exec(s: &Vec<char>, i: usize, key: &Vec<char>) -> (r: bool)
    requires
        i <= s@.len(),
    ensures
        r == matches_chars(s@, i as int, key@),
{
    let n = s.len();
    let m = key.len();
    if n < m || i > n - m {
        return false;
    }
    let mut t: usize = 0;
    let mut p: usize = i;
    while t < m
        invariant
            t <= m,
            p == i + t,
            m == key@.len(),
            n == s@.len(),
            i + m <= n,
            forall|j: int| 0 <= j < t ==> s@[i + j] == key@[j],
        decreases m - t,
    {
        if s[p] != key[t] {
            proof {
                assert(s@.subrange(i as int, i + key@.len())[t as int] == s@[i + t]);
            }
            return false;
        }
        t = t + 1;
        p = p + 1;
    }
    proof {
        assert(s@.subrange(i as int, i + key@.len()) =~= key@);
    }
    true
}

fn after_key_exec(s: &Vec<char>, i: usize, key: &Vec<char>) -> (r: Option<usize>)
    requires
        i <= s@.len(),
    ensures
        r matches Some(p) ==> after_key(s@, i as int, key@) == Some(p as int) && p <= s@.len(),
        r is None <==> after_key(s@, i as int, key@) is None,
{
    if matches_chars_exec(s, i, key) {
        let total = s.len();
        proof {
            assert(i + key@.len() <= total);
        }
        let j = crate::ifs::serialization::skip_ws(s, i + key.len());
        if j < s.len() && s[j] == ':' {
            Some(crate::ifs::serialization::skip_ws(s, j + 1))
        } else {
            None
        }
    } else {
        None
    }
}

fn after_comma_exec(s: &Vec<char>, i: usize) -> (r: Option<usize>)
    requires
        i <= s@.len(),
    ensures
        r matches Some(p) ==> after_comma(s@, i as int) == Some(p as int) && p <= s@.len(),
        r is None <==> after_comma(s@, i as int) is None,
{
    let j = crate::ifs::serialization::skip_ws(s, i);
    if j < s.len() && s[j] == ',' {
        Some(crate::ifs::serialization::skip_ws(s, j + 1))
    } else {
        None
    }
}

/// Parse a quoted string value, unescaping its content.
fn parse_string_exec(s: &Vec<char>, i: usize) -> (r: Option<(Vec<char>, usize)>)
    requires
        i <= s@.len(),
    ensures
        r matches Some(p) ==> parse_string_at(s@, i as int) == Some((p.0@, p.1 as int)) && i < p.1
            <= s@.len(),
        r is None <==> parse_string_at(s@, i as int) is None,
{
    if !(i < s.len() && s[i] == '"') {
        return None;
    }
    let mut content: Vec<char> = Vec::new();
    let mut cur: usize = i + 1;
    proof {
        assert forall|p2: (Seq<char>, int)|
            parse_string_body(s@, i + 1) == Some(p2) implies parse_string_body(s@, i + 1) == Some(
            (content@ + p2.0, p2.1),
        ) by {
            assert(content@ + p2.0 =~= p2.0);
        }
    }
    loop
        invariant
            i < s@.len(),
            s@[i as int] == '"',
            i + 1 <= cur <= s@.len(),
            parse_string_body(s@, i + 1) is Some <==> parse_string_body(s@, cur as int) is Some,
            parse_string_body(s@, cur as int) matches Some(p2) ==> parse_string_body(s@, i + 1)
                == Some((content@ + p2.0, p2.1)),
        decreases s@.len() - cur,
    {
        if cur >= s.len() {
            return None;
        }
        let c = s[cur];
        if c == '"' {
            proof {
                assert(parse_string_body(s@, cur as int) == Some(
                    (Seq::<char>::empty(), cur + 1 as int),
                ));
                assert(content@ + Seq::<char>::empty() =~= content@);
            }
            return Some((content, cur + 1));
        }
        if c == '\\' {
            if cur + 1 >= s.len() {
                return None;
            }
            let ghost prev = content@;
            let u = s[cur + 1];
            content.push(u);
            cur = cur + 2;
            proof {
                assert forall|p2: (Seq<char>, int)|
                    parse_string_body(s@, cur as int) == Some(p2) implies parse_string_body(
                    s@,
                    i + 1,
                ) == Some((content@ + p2.0, p2.1)) by {
                    assert(prev + (seq![u] + p2.0) =~= content@ + p2.0);
                }
            }
        } else {
            let ghost prev = content@;
            content.push(c);
            cur = cur + 1;
            proof {
                assert forall|p2: (Seq<char>, int)|
                    parse_string_body(s@, cur as int) == Some(p2) implies parse_string_body(
                    s@,
                    i + 1,
                ) == Some((content@ + p2.0, p2.1)) by {
                    assert(prev + (seq![c] + p2.0) =~= content@ + p2.0);
                }
            }
        }
    }
}

/// Parse comma-separated quoted strings up to the closing bracket.
fn parse_strings_exec(s: &Vec<char>, i: usize) -> (r: Option<(Vec<String>, usize)>)
    requires
        i <= s@.len(),
    ensures
        r matches Some(p) ==> parse_strings_at(s@, i as int) == Some(
            (rule_texts(p.0@), p.1 as int),
        ) && p.1 <= s@.len(),
        r is None <==> parse_strings_at(s@, i as int) is None,
    decreases s@.len() - i,
{
    match parse_string_exec(s, i) {
        None => None,
        Some((v, e)) => {
            let j = crate::ifs::serialization::skip_ws(s, e);
            if j < s.len() && s[j] == ',' {
                let k = crate::ifs::serialization::skip_ws(s, j + 1);
                match parse_strings_exec(s, k) {
                    None => None,
                    Some((vs, e2)) => {
                        let ghost tail = vs@;
                        let mut vs2 = vs;
                        vs2.insert(0, chars_to_string(&v));
                        proof {
                            assert(rule_texts(vs2@) =~= seq![v@] + rule_texts(tail));
                        }
                        Some((vs2, e2))
                    },
                }
            } else if j < s.len() && s[j] == ']' {
                let mut vs: Vec<String> = Vec::new();
                vs.push(chars_to_string(&v));
                proof {
                    assert(rule_texts(vs@) =~= seq![v@]);
                }
                Some((vs, j + 1))
            } else {
                None
            }
        },
    }
}

/// Read a persisted document back into an L-System.
pub fn deserialize(json: String) -> (r: Result<LSystemDto, JsonError>)
    ensures
        r matches Ok(dto) ==> parse_lsystem_document(json@) == Some(
            (
                dto.initiator@,
                dto.angle as int,
                dto.initial_angle as int,
                dto.iterations as int,
                rule_texts(dto.rules@),
            ),
        ),
        r is Err <==> parse_lsystem_document(json@) is None,
{
    let s = str_to_chars(json.as_str());
    let k1: Vec<char> = vec!['"', 'A', 'x', 'i', 'o', 'm', '"'];
    let k2: Vec<char> = vec!['"', 'A', 'n', 'g', 'l', 'e', '"'];
    let k3: Vec<char> = vec![
        '"',
        'I',
        'n',
        'i',
        't',
        'i',
        'a',
        'l',
        ' ',
        'A',
        'n',
        'g',
        'l',
        'e',
        '"',
    ];
    let k4: Vec<char> = vec!['"', 'I', 't', 'e', 'r', 'a', 't', 'i', 'o', 'n', 's', '"'];
    let k5: Vec<char> = vec!['"', 'R', 'u', 'l', 'e', 's', '"'];
    proof {
        assert(k1@ =~= key_initiator());
        assert(k2@ =~= key_angle());
        assert(k3@ =~= key_initial_angle());
        assert(k4@ =~= key_iterations());
        assert(k5@ =~= key_rules());
    }
    let i0 = crate::ifs::serialization::skip_ws(&s, 0);
    if !(i0 < s.len() && s[i0] == '{') {
        return Err(JsonError::MalformedDocument);
    }
    let w1 = crate::ifs::serialization::skip_ws(&s, i0 + 1);
    let p1 = match after_key_exec(&s, w1, &k1) {
        None => {
            return Err(JsonError::MalformedDocument);
        },
        Some(p) => p,
    };
    let (initiator, e1) = match parse_string_exec(&s, p1) {
        None => {
            return Err(JsonError::MalformedDocument);
        },
        Some(p) => p,
    };
    let p2 = match after_comma_exec(&s, e1) {
        None => {
            return Err(JsonError::MalformedDocument);
        },
        Some(p) => p,
    };
    let p3 = match after_key_exec(&s, p2, &k2) {
        None => {
            return Err(JsonError::MalformedDocument);
        },
        Some(p) => p,
    };
    let (angle, e2) = match parse_fixed(&s, p3) {
        None => {
            return Err(JsonError::MalformedDocument);
        },
        Some(p) => p,
    };
    let p4 = match after_comma_exec(&s, e2) {
        None => {
            return Err(JsonError::MalformedDocument);
        },
        Some(p) => p,
    };
    let p5 = match after_key_exec(&s, p4, &k3) {
        None => {
            return Err(JsonError::MalformedDocument);
        },
        Some(p) => p,
    };
    let (initial_angle, e3) = match parse_fixed(&s, p5) {
        None => {
            return Err(JsonError::MalformedDocument);
        },
        Some(p) => p,
    };
    let p6 = match after_comma_exec(&s, e3) {
        None => {
            return Err(JsonError::MalformedDocument);
        },
        Some(p) => p,
    };
    let p7 = match after_key_exec(&s, p6, &k4) {
        None => {
            return Err(JsonError::MalformedDocument);
        },
        Some(p) => p,
    };
    let (iterations_raw, e4) = match crate::decimal::parse_digits_run(&s, p7) {
        None => {
            return Err(JsonError::MalformedDocument);
        },
        Some(p) => p,
    };
    if iterations_raw > usize::MAX as u64 {
        return Err(JsonError::MalformedDocument);
    }
    let iterations = iterations_raw as usize;
    let p8 = match after_comma_exec(&s, e4) {
        None => {
            return Err(JsonError::MalformedDocument);
        },
        Some(p) => p,
    };
    let p9 = match after_key_exec(&s, p8, &k5) {
        None => {
            return Err(JsonError::MalformedDocument);
        },
        Some(p) => p,
    };
    if !(p9 < s.len() && s[p9] == '[') {
        return Err(JsonError::MalformedDocument);
    }
    let j = crate::ifs::serialization::skip_ws(&s, p9 + 1);
    let parsed: (Vec<String>, usize) = if j < s.len() && s[j] == ']' {
        (Vec::new(), j + 1)
    } else {
        match parse_strings_exec(&s, j) {
            None => {
                return Err(JsonError::MalformedDocument);
            },
            Some(p) => p,
        }
    };
    let (rules, e5) = parsed;
    let i3 = crate::ifs::serialization::skip_ws(&s, e5);
    if !(i3 < s.len() && s[i3] == '}') {
        return Err(JsonError::MalformedDocument);
    }
    if crate::ifs::serialization::skip_ws(&s, i3 + 1) != s.len() {
        return Err(JsonError::MalformedDocument);
    }
    proof {
        if rules@.len() == 0 {
            assert(rule_texts(rules@) =~= Seq::<Seq<char>>::empty());
        }
    }
    Ok(
        LSystemDto {
            initiator: chars_to_string(&initiator),
            angle,
            initial_angle,
            iterations,
            rules,
        },
    )
}

impl LSystemDto {
    /// Replace the state's parameters with the loaded ones and validate
    /// them. On failure the state is reset to its defaults, so no
    /// partially loaded system stays live.
    pub fn load(self, state: &mut LSystemState) -> (r: Result<(), ValidationError>)
        ensures
            r == validate_spec(
                self.initiator@,
                self.angle as int,
                self.initial_angle as int,
                500_000int,
                self.iterations as int,
                rule_texts(self.rules@),
            ),
            r is Ok ==> final(state).is_initialized && final(state).initiator@ == self.initiator@
                && final(state).angle == self.angle && final(state).initial_angle
                == self.initial_angle && final(state).iterations == self.iterations && rule_texts(
                final(state).rules@,
            ) == rule_texts(self.rules@),
            r is Err ==> {
                &&& !final(state).is_initialized
                &&& !final(state).is_drawing_requested
                &&& final(state).angle == 0
                &&& final(state).initial_angle == 0
                &&& final(state).initiator@.len() == 0
                &&& final(state).rules@.len() == 1 && final(state).rules@[0]@.len() == 0
                &&& final(state).iterations == 1
                &&& final(state).length == 500_000
                &&& final(state).color == crate::colors::black()
                &&& final(state).stroke == (crate::geometry::Stroke {
                    width: crate::lsystem::model::FRACTAL_STROKE_WIDTH,
                    color: crate::colors::black(),
                })
                &&& final(state).rules_set@.len() == 0
                &&& final(state).lines@.len() == 0
            },
    {
        state.reset_with_empty_rules();
        state.initiator = self.initiator;
        state.angle = self.angle;
        state.initial_angle = self.initial_angle;
        state.iterations = self.iterations;
        state.rules = self.rules;
        let result = state.initialize();
        if result.is_err() {
            *state = LSystemState::default();
        }
        result
    }
}

/// The suffix of `s` from `i` on.
pub open spec fn suffix_from(s: Seq<char>, i: int) -> Seq<char> {
    s.subrange(i, s.len() as int)
}

/// The scan for a closing quote stops exactly at the first one.
/// Reading an escaped string body off the remaining text: unescaping
/// gives the content back, and the closing quote is consumed.
proof fn lemma_string_body_step(s: Seq<char>, j: int, content: Seq<char>, rest: Seq<char>)
    requires
        0 <= j <= s.len(),
        suffix_from(s, j) == escape_string(content) + seq!['"'] + rest,
    ensures
        parse_string_body(s, j) == Some((content, j + escape_string(content).len() + 1)),
        suffix_from(s, j + escape_string(content).len() + 1) == rest,
    decreases content.len(),
{
    let suf = suffix_from(s, j);
    let esc = escape_string(content);
    let el = esc.len() as int;
    assert(suf.len() == s.len() - j);
    assert(suf.len() == el + 1 + rest.len());
    if content.len() == 0 {
        assert(esc =~= Seq::<char>::empty());
        assert(s[j] == '"') by {
            assert(s[j + 0] == suf[0]);
        }
        assert(content =~= Seq::<char>::empty());
        assert(suffix_from(s, j + 1) =~= rest) by {
            assert forall|u: int| 0 <= u < rest.len() implies suffix_from(s, j + 1)[u]
                == rest[u] by {
                assert(suffix_from(s, j + 1)[u] == s[j + 1 + u]);
                assert(s[j + (1 + u)] == suf[1 + u]);
                assert(suf[1 + u] == rest[u]);
            }
        }
    } else {
        let c = content[0];
        let tail = escape_string(content.skip(1));
        assert(esc == escape_char(c) + tail);
        if c == '"' || c == '\\' {
            assert(esc[0] == '\\');
            assert(esc[1] == c);
            assert(s[j] == '\\') by {
                assert(s[j + 0] == suf[0]);
                assert(suf[0] == esc[0]);
            }
            assert(s[j + 1] == c) by {
                assert(suf[1] == esc[1]);
            }
            assert(suffix_from(s, j + 2) =~= tail + seq!['"'] + rest) by {
                assert forall|u: int| 0 <= u < tail.len() + 1 + rest.len() implies suffix_from(
                    s,
                    j + 2,
                )[u] == (tail + seq!['"'] + rest)[u] by {
                    assert(suffix_from(s, j + 2)[u] == s[j + 2 + u]);
                    assert(s[j + (2 + u)] == suf[2 + u]);
                }
            }
            lemma_string_body_step(s, j + 2, content.skip(1), rest);
            assert(seq![c] + content.skip(1) =~= content);
        } else {
            assert(esc[0] == c);
            assert(s[j] == c) by {
                assert(s[j + 0] == suf[0]);
                assert(suf[0] == esc[0]);
            }
            assert(suffix_from(s, j + 1) =~= tail + seq!['"'] + rest) by {
                assert forall|u: int| 0 <= u < tail.len() + 1 + rest.len() implies suffix_from(
                    s,
                    j + 1,
                )[u] == (tail + seq!['"'] + rest)[u] by {
                    assert(suffix_from(s, j + 1)[u] == s[j + 1 + u]);
                    assert(s[j + (1 + u)] == suf[1 + u]);
                }
            }
            lemma_string_body_step(s, j + 1, content.skip(1), rest);
            assert(seq![c] + content.skip(1) =~= content);
        }
    }
}

/// Reading one `"key":` prefix of the remaining text.
proof fn lemma_key_step(s: Seq<char>, i: int, key: Seq<char>, rest: Seq<char>)
    requires
        0 <= i <= s.len(),
        key.len() >= 1,
        key[0] == '"',
        suffix_from(s, i) == key + seq![':'] + rest,
        rest.len() >= 1,
        !crate::ifs::serialization::is_json_space(rest[0]),
    ensures
        after_key(s, i, key) == Some(i + key.len() + 1),
        suffix_from(s, i + key.len() + 1) == rest,
{
    let suf = suffix_from(s, i);
    let kl = key.len() as int;
    assert(suf.len() == s.len() - i);
    assert(suf.len() == kl + 1 + rest.len());
    assert(s.subrange(i, i + kl) =~= key) by {
        assert forall|t: int| 0 <= t < kl implies s.subrange(i, i + kl)[t] == key[t] by {
            assert(s.subrange(i, i + kl)[t] == s[i + t]);
            assert(s[i + t] == suf[t]);
            assert(suf[t] == key[t]);
        }
    }
    assert(matches_chars(s, i, key));
    assert(s[i + kl] == ':') by {
        assert(s[i + kl] == suf[kl]);
    }
    crate::ifs::serialization::lemma_ws_end_here(s, i + kl);
    assert(s[i + kl + 1] == rest[0]) by {
        assert(s[i + (kl + 1)] == suf[kl + 1]);
    }
    crate::ifs::serialization::lemma_ws_end_here(s, i + kl + 1);
    assert(suffix_from(s, i + kl + 1) =~= rest) by {
        assert forall|t: int| 0 <= t < rest.len() implies suffix_from(s, i + kl + 1)[t]
            == rest[t] by {
            assert(suffix_from(s, i + kl + 1)[t] == s[i + kl + 1 + t]);
            assert(s[i + (kl + 1 + t)] == suf[kl + 1 + t]);
            assert(suf[kl + 1 + t] == rest[t]);
        }
    }
}

/// Reading one quoted string value off the remaining text.
proof fn lemma_string_step(s: Seq<char>, i: int, content: Seq<char>, rest: Seq<char>)
    requires
        0 <= i <= s.len(),
        suffix_from(s, i) == render_string(content) + rest,
    ensures
        parse_string_at(s, i) == Some((content, i + escape_string(content).len() + 2)),
        suffix_from(s, i + escape_string(content).len() + 2) == rest,
{
    let suf = suffix_from(s, i);
    let esc = escape_string(content);
    let el = esc.len() as int;
    assert(suf.len() == s.len() - i);
    assert(suf.len() == el + 2 + rest.len());
    assert(s[i] == '"') by {
        assert(s[i + 0] == suf[0]);
        assert(suf[0] == '"');
    }
    assert(suffix_from(s, i + 1) =~= esc + seq!['"'] + rest) by {
        assert forall|u: int| 0 <= u < el + 1 + rest.len() implies suffix_from(s, i + 1)[u] == (esc
            + seq!['"'] + rest)[u] by {
            assert(suffix_from(s, i + 1)[u] == s[i + 1 + u]);
            assert(s[i + (1 + u)] == suf[1 + u]);
        }
    }
    lemma_string_body_step(s, i + 1, content, rest);
}

/// Reading one rendered number off the remaining text.
proof fn lemma_number_step(s: Seq<char>, i: int, v: i64, rest: Seq<char>)
    requires
        0 <= i <= s.len(),
        suffix_from(s, i) == render_fixed(v as int) + rest,
        rest.len() >= 1,
        !crate::decimal::is_digit_char(rest[0]),
        rest[0] != '.',
    ensures
        parse_fixed_i64_at(s, i) == Some((v as int, i + render_fixed(v as int).len())),
        suffix_from(s, i + render_fixed(v as int).len()) == rest,
{
    let suf = suffix_from(s, i);
    let r = render_fixed(v as int);
    let n = r.len() as int;
    assert(suf.len() == s.len() - i);
    assert(suf.len() == n + rest.len());
    assert(s.subrange(i, i + n) =~= r) by {
        assert forall|t: int| 0 <= t < n implies s.subrange(i, i + n)[t] == r[t] by {
            assert(s.subrange(i, i + n)[t] == s[i + t]);
            assert(s[i + t] == suf[t]);
            assert(suf[t] == r[t]);
        }
    }
    assert(s[i + n] == rest[0]) by {
        assert(s[i + n] == suf[n]);
    }
    crate::ifs::serialization::lemma_parse_fixed_embedded(s, i, v);
    assert(suffix_from(s, i + n) =~= rest) by {
        assert forall|t: int| 0 <= t < rest.len() implies suffix_from(s, i + n)[t] == rest[t] by {
            assert(suffix_from(s, i + n)[t] == s[i + n + t]);
            assert(s[i + (n + t)] == suf[n + t]);
            assert(suf[n + t] == rest[t]);
        }
    }
}

/// Reading one digit run off the remaining text.
proof fn lemma_digits_step(s: Seq<char>, i: int, n: nat, rest: Seq<char>)
    requires
        0 <= i <= s.len(),
        n < 10_000_000_000_000_000_000,
        suffix_from(s, i) == digits_of(n) + rest,
        rest.len() >= 1,
        !crate::decimal::is_digit_char(rest[0]),
    ensures
        parse_digits(s, i) == Some((n as int, i + digits_of(n).len())),
        suffix_from(s, i + digits_of(n).len()) == rest,
{
    let suf = suffix_from(s, i);
    let d = digits_of(n);
    let dl = d.len() as int;
    assert(suf.len() == s.len() - i);
    assert(suf.len() == dl + rest.len());
    crate::decimal::lemma_digits_of_are_digits(n);
    crate::decimal::lemma_pow10_values();
    crate::decimal::lemma_digits_of_len(n, 19);
    assert forall|k: int| i <= k < i + dl implies crate::decimal::is_digit_char(
        #[trigger] s[k],
    ) by {
        assert(s[i + (k - i)] == suf[k - i]);
        assert(suf[k - i] == d[k - i]);
    }
    assert(s[i + dl] == rest[0]) by {
        assert(s[i + dl] == suf[dl]);
    }
    crate::decimal::lemma_digit_run_end(s, i, i + dl);
    assert(s.subrange(i, i + dl) =~= d) by {
        assert forall|t: int| 0 <= t < dl implies s.subrange(i, i + dl)[t] == d[t] by {
            assert(s.subrange(i, i + dl)[t] == s[i + t]);
            assert(s[i + t] == suf[t]);
            assert(suf[t] == d[t]);
        }
    }
    crate::decimal::lemma_digits_value_of_digits_of(n);
    assert(suffix_from(s, i + dl) =~= rest) by {
        assert forall|t: int| 0 <= t < rest.len() implies suffix_from(s, i + dl)[t] == rest[t] by {
            assert(suffix_from(s, i + dl)[t] == s[i + dl + t]);
            assert(s[i + (dl + t)] == suf[dl + t]);
            assert(suf[dl + t] == rest[t]);
        }
    }
}

/// Reading one comma off the remaining text.
proof fn lemma_comma_step(s: Seq<char>, i: int, rest: Seq<char>)
    requires
        0 <= i <= s.len(),
        suffix_from(s, i) == seq![','] + rest,
        rest.len() >= 1,
        !crate::ifs::serialization::is_json_space(rest[0]),
    ensures
        after_comma(s, i) == Some(i + 1),
        suffix_from(s, i + 1) == rest,
{
    let suf = suffix_from(s, i);
    assert(suf.len() == s.len() - i);
    assert(suf.len() == 1 + rest.len());
    assert(s[i] == ',') by {
        assert(s[i + 0] == suf[0]);
    }
    crate::ifs::serialization::lemma_ws_end_here(s, i);
    assert(s[i + 1] == rest[0]) by {
        assert(s[i + 1] == suf[1]);
    }
    crate::ifs::serialization::lemma_ws_end_here(s, i + 1);
    assert(suffix_from(s, i + 1) =~= rest) by {
        assert forall|t: int| 0 <= t < rest.len() implies suffix_from(s, i + 1)[t] == rest[t] by {
            assert(suffix_from(s, i + 1)[t] == s[i + 1 + t]);
            assert(s[i + (1 + t)] == suf[1 + t]);
            assert(suf[1 + t] == rest[t]);
        }
    }
}

/// Reading the comma-joined string values and the array's closing bracket
/// off the remaining text.
proof fn lemma_strings_suffix(s: Seq<char>, i: int, vals: Seq<Seq<char>>, rest: Seq<char>)
    requires
        vals.len() >= 1,
        0 <= i <= s.len(),
        suffix_from(s, i) == render_strings(vals) + seq![']'] + rest,
    ensures
        parse_strings_at(s, i) == Some((vals, i + render_strings(vals).len() + 1)),
        suffix_from(s, i + render_strings(vals).len() + 1) == rest,
    decreases vals.len(),
{
    let body = render_strings(vals);
    if vals.len() == 1 {
        assert(body == render_string(vals[0]));
        assert(suffix_from(s, i) =~= render_string(vals[0]) + (seq![']'] + rest));
        lemma_string_step(s, i, vals[0], seq![']'] + rest);
        let e: int = i + escape_string(vals[0]).len() as int + 2;
        assert(s[e] == ']') by {
            assert(suffix_from(s, e)[0] == s[e + 0]);
        }
        assert(!crate::ifs::serialization::is_json_space(']'));
        crate::ifs::serialization::lemma_ws_end_here(s, e);
        assert(seq![vals[0]] =~= vals);
        assert(suffix_from(s, e + 1) =~= rest) by {
            let suf = suffix_from(s, e);
            assert forall|t: int| 0 <= t < rest.len() implies suffix_from(s, e + 1)[t]
                == rest[t] by {
                assert(suffix_from(s, e + 1)[t] == s[e + 1 + t]);
                assert(s[e + (1 + t)] == suf[1 + t]);
                assert(suf[1 + t] == rest[t]);
            }
        }
    } else {
        let tail = render_strings(vals.skip(1));
        assert(body == render_string(vals[0]) + seq![','] + tail);
        assert(suffix_from(s, i) =~= render_string(vals[0]) + (seq![','] + tail + seq![']']
            + rest));
        lemma_string_step(s, i, vals[0], seq![','] + tail + seq![']'] + rest);
        let e: int = i + escape_string(vals[0]).len() as int + 2;
        assert(suffix_from(s, e) =~= seq![','] + (tail + seq![']'] + rest));
        assert(tail[0] == render_string(vals.skip(1)[0])[0]);
        assert(render_string(vals.skip(1)[0])[0] == '"');
        assert((tail + seq![']'] + rest)[0] == '"');
        assert(!crate::ifs::serialization::is_json_space('"'));
        lemma_comma_step(s, e, tail + seq![']'] + rest);
        let k: int = e + 1;
        assert(suffix_from(s, k) =~= tail + seq![']'] + rest);
        lemma_strings_suffix(s, k, vals.skip(1), rest);
        assert(seq![vals[0]] + vals.skip(1) =~= vals);
        assert(k + tail.len() + 1 == i + body.len() + 1);
    }
}

/// Reading the whole rules array off the remaining text.
proof fn lemma_strings_array_step(s: Seq<char>, i: int, vals: Seq<Seq<char>>, rest: Seq<char>)
    requires
        0 <= i <= s.len(),
        suffix_from(s, i) == seq!['['] + render_strings(vals) + seq![']'] + rest,
    ensures
        parse_strings_array_at(s, i) == Some((vals, i + render_strings(vals).len() + 2)),
        suffix_from(s, i + render_strings(vals).len() + 2) == rest,
{
    let suf = suffix_from(s, i);
    let body = render_strings(vals);
    let bl = body.len() as int;
    assert(suf.len() == s.len() - i);
    assert(suf.len() == 1 + bl + 1 + rest.len());
    assert(s[i] == '[') by {
        assert(s[i + 0] == suf[0]);
    }
    if vals.len() == 0 {
        assert(bl == 0);
        assert(s[i + 1] == ']') by {
            assert(s[i + 1] == suf[1]);
        }
        assert(!crate::ifs::serialization::is_json_space(']'));
        crate::ifs::serialization::lemma_ws_end_here(s, i + 1);
        assert(suffix_from(s, i + 2) =~= rest) by {
            assert forall|t: int| 0 <= t < rest.len() implies suffix_from(s, i + 2)[t]
                == rest[t] by {
                assert(suffix_from(s, i + 2)[t] == s[i + 2 + t]);
                assert(s[i + (2 + t)] == suf[2 + t]);
                assert(suf[2 + t] == rest[t]);
            }
        }
        assert(vals =~= Seq::<Seq<char>>::empty());
    } else {
        assert(body[0] == render_string(vals[0])[0]);
        assert(render_string(vals[0])[0] == '"');
        assert(s[i + 1] == '"') by {
            assert(s[i + 1] == suf[1]);
            assert(suf[1] == body[0]);
        }
        assert(!crate::ifs::serialization::is_json_space('"'));
        crate::ifs::serialization::lemma_ws_end_here(s, i + 1);
        assert(suffix_from(s, i + 1) =~= body + seq![']'] + rest) by {
            assert forall|t: int| 0 <= t < bl + 1 + rest.len() implies suffix_from(s, i + 1)[t]
                == (body + seq![']'] + rest)[t] by {
                assert(suffix_from(s, i + 1)[t] == s[i + 1 + t]);
                assert(s[i + (1 + t)] == suf[1 + t]);
            }
        }
        lemma_strings_suffix(s, i + 1, vals, rest);
    }
}

/// The rendered document, regrouped one `"key":value` step at a time.
#[verifier::rlimit(100)]
#[verifier::spinoff_prover]
proof fn lemma_render_decomposition(
    initiator: Seq<char>,
    angle: i64,
    initial_angle: i64,
    iterations: nat,
    rules: Seq<Seq<char>>,
)
    ensures
        render_lsystem(initiator, angle, initial_angle, iterations, rules) == seq!['{']
            + key_value(
            key_initiator(),
            doc_from_initiator(initiator, angle, initial_angle, iterations, rules),
        ),
{
    assert(render_lsystem(initiator, angle, initial_angle, iterations, rules) =~= seq!['{']
        + key_value(
        key_initiator(),
        doc_from_initiator(initiator, angle, initial_angle, iterations, rules),
    ));
}

/// The positions and values of the first two `"key":value` pairs of a
/// rendered document.
#[verifier::rlimit(100)]
#[verifier::spinoff_prover]
proof fn lemma_round_trip_prefix_a(
    initiator: Seq<char>,
    angle: i64,
    initial_angle: i64,
    iterations: nat,
    rules: Seq<Seq<char>>,
)
    ensures
        ({
            let s = render_lsystem(initiator, angle, initial_angle, iterations, rules);
            let p1 = 1 + key_initiator().len() as int + 1;
            let e1 = p1 + escape_string(initiator).len() as int + 2;
            &&& 0 < s.len() && s[0] == '{'
            &&& ws_end(s, 0) == 0
            &&& ws_end(s, 1) == 1
            &&& after_key(s, 1, key_initiator()) == Some(p1)
            &&& parse_string_at(s, p1) == Some((initiator, e1))
            &&& after_comma(s, e1) == Some(e1 + 1)
            &&& e1 + 1 <= s.len()
            &&& suffix_from(s, e1 + 1) == key_value(
                key_angle(),
                doc_from_angle(angle, initial_angle, iterations, rules),
            )
        }),
{
    let s = render_lsystem(initiator, angle, initial_angle, iterations, rules);
    let a_txt = render_fixed(angle as int);
    crate::ifs::serialization::lemma_render_fixed_shape(angle);
    let t3 = doc_from_initial_angle(initial_angle, iterations, rules);
    let t2k = key_value(key_initial_angle(), t3);
    let t2c = comma_then(t2k);
    let t2 = doc_from_angle(angle, initial_angle, iterations, rules);
    let t1k = key_value(key_angle(), t2);
    let t1c = comma_then(t1k);
    let t1 = doc_from_initiator(initiator, angle, initial_angle, iterations, rules);
    let t0k = key_value(key_initiator(), t1);
    lemma_render_decomposition(initiator, angle, initial_angle, iterations, rules);
    assert(s == seq!['{'] + t0k);
    assert(t1 == render_string(initiator) + t1c);
    assert(t2 == a_txt + t2c);
    assert(s[0] == '{') by {
        assert(s[0] == (seq!['{'] + t0k)[0]);
    }
    assert(!crate::ifs::serialization::is_json_space('{'));
    crate::ifs::serialization::lemma_ws_end_here(s, 0);
    assert(s[1] == '"') by {
        assert(s[1] == (seq!['{'] + t0k)[1]);
        assert(t0k[0] == '"');
    }
    assert(!crate::ifs::serialization::is_json_space('"'));
    crate::ifs::serialization::lemma_ws_end_here(s, 1);
    assert(suffix_from(s, 1) =~= t0k) by {
        assert forall|t: int| 0 <= t < t0k.len() implies suffix_from(s, 1)[t] == t0k[t] by {
            assert(suffix_from(s, 1)[t] == s[1 + t]);
            assert(s[1 + t] == (seq!['{'] + t0k)[1 + t]);
        }
    }
    assert(t1[0] == '"') by {
        assert(t1[0] == render_string(initiator)[0]);
    }
    lemma_key_step(s, 1, key_initiator(), t1);
    let p1: int = 1 + key_initiator().len() as int + 1;
    lemma_string_step(s, p1, initiator, t1c);
    let e1: int = p1 + escape_string(initiator).len() as int + 2;
    assert(t1k[0] == '"');
    lemma_comma_step(s, e1, t1k);
}

/// Reading one `"key":<number>,` group off the remaining text.
#[verifier::rlimit(100)]
#[verifier::spinoff_prover]
proof fn lemma_key_number_comma(s: Seq<char>, p: int, key: Seq<char>, v: i64, rest2: Seq<char>)
    requires
        0 <= p <= s.len(),
        key.len() >= 1,
        key[0] == '"',
        suffix_from(s, p) == key_value(key, render_fixed(v as int) + comma_then(rest2)),
        rest2.len() >= 1,
        !crate::ifs::serialization::is_json_space(rest2[0]),
    ensures
        ({
            let pv = p + key.len() as int + 1;
            let e = pv + render_fixed(v as int).len() as int;
            &&& after_key(s, p, key) == Some(pv)
            &&& parse_fixed_i64_at(s, pv) == Some((v as int, e))
            &&& after_comma(s, e) == Some(e + 1)
            &&& e + 1 <= s.len()
            &&& suffix_from(s, e + 1) == rest2
        }),
{
    let v_txt = render_fixed(v as int);
    crate::ifs::serialization::lemma_render_fixed_shape(v);
    let tail = v_txt + comma_then(rest2);
    assert(tail[0] == v_txt[0]);
    lemma_key_step(s, p, key, tail);
    let pv: int = p + key.len() as int + 1;
    assert(comma_then(rest2)[0] == ',');
    assert(!crate::decimal::is_digit_char(',') && ',' != '.');
    lemma_number_step(s, pv, v, comma_then(rest2));
    let e: int = pv + v_txt.len() as int;
    lemma_comma_step(s, e, rest2);
}

/// Reading one `"key":<integer>,` group off the remaining text.
#[verifier::rlimit(100)]
#[verifier::spinoff_prover]
proof fn lemma_key_digits_comma(s: Seq<char>, p: int, key: Seq<char>, n: nat, rest2: Seq<char>)
    requires
        0 <= p <= s.len(),
        key.len() >= 1,
        key[0] == '"',
        n < 10_000_000_000_000_000_000,
        suffix_from(s, p) == key_value(key, digits_of(n) + comma_then(rest2)),
        rest2.len() >= 1,
        !crate::ifs::serialization::is_json_space(rest2[0]),
    ensures
        ({
            let pv = p + key.len() as int + 1;
            let e = pv + digits_of(n).len() as int;
            &&& after_key(s, p, key) == Some(pv)
            &&& parse_digits(s, pv) == Some((n as int, e))
            &&& after_comma(s, e) == Some(e + 1)
            &&& e + 1 <= s.len()
            &&& suffix_from(s, e + 1) == rest2
        }),
{
    let d_txt = digits_of(n);
    crate::decimal::lemma_digits_of_are_digits(n);
    let tail = d_txt + comma_then(rest2);
    assert(tail[0] == d_txt[0]);
    assert(!crate::ifs::serialization::is_json_space(tail[0])) by {
        assert(crate::decimal::is_digit_char(d_txt[0]));
    }
    lemma_key_step(s, p, key, tail);
    let pv: int = p + key.len() as int + 1;
    assert(comma_then(rest2)[0] == ',');
    assert(!crate::decimal::is_digit_char(','));
    lemma_digits_step(s, pv, n, comma_then(rest2));
    let e: int = pv + d_txt.len() as int;
    lemma_comma_step(s, e, rest2);
}

/// Every token position and parsed value of a rendered document.
#[verifier::rlimit(100)]
#[verifier::spinoff_prover]
proof fn lemma_round_trip_positions(
    initiator: Seq<char>,
    angle: i64,
    initial_angle: i64,
    iterations: nat,
    rules: Seq<Seq<char>>,
)
    requires
        iterations < 10_000_000_000_000_000_000,
    ensures
        ({
            let s = render_lsystem(initiator, angle, initial_angle, iterations, rules);
            let p1 = 1 + key_initiator().len() as int + 1;
            let e1 = p1 + escape_string(initiator).len() as int + 2;
            let p3 = e1 + 1 + key_angle().len() as int + 1;
            let e2 = p3 + render_fixed(angle as int).len() as int;
            let p5 = e2 + 1 + key_initial_angle().len() as int + 1;
            let e3 = p5 + render_fixed(initial_angle as int).len() as int;
            let p7 = e3 + 1 + key_iterations().len() as int + 1;
            let e4 = p7 + digits_of(iterations).len() as int;
            let p9 = e4 + 1 + key_rules().len() as int + 1;
            let e5 = p9 + render_strings(rules).len() as int + 2;
            &&& 0 < s.len() && s[0] == '{'
            &&& ws_end(s, 0) == 0
            &&& ws_end(s, 1) == 1
            &&& after_key(s, 1, key_initiator()) == Some(p1)
            &&& parse_string_at(s, p1) == Some((initiator, e1))
            &&& after_comma(s, e1) == Some(e1 + 1)
            &&& after_key(s, e1 + 1, key_angle()) == Some(p3)
            &&& parse_fixed_i64_at(s, p3) == Some((angle as int, e2))
            &&& after_comma(s, e2) == Some(e2 + 1)
            &&& after_key(s, e2 + 1, key_initial_angle()) == Some(p5)
            &&& parse_fixed_i64_at(s, p5) == Some((initial_angle as int, e3))
            &&& after_comma(s, e3) == Some(e3 + 1)
            &&& after_key(s, e3 + 1, key_iterations()) == Some(p7)
            &&& parse_digits(s, p7) == Some((iterations as int, e4))
            &&& after_comma(s, e4) == Some(e4 + 1)
            &&& after_key(s, e4 + 1, key_rules()) == Some(p9)
            &&& parse_strings_array_at(s, p9) == Some((rules, e5))
            &&& e5 < s.len() && s[e5] == '}'
            &&& ws_end(s, e5) == e5
            &&& ws_end(s, e5 + 1) == s.len()
        }),
{
    let s = render_lsystem(initiator, angle, initial_angle, iterations, rules);
    lemma_round_trip_prefix_a(initiator, angle, initial_angle, iterations, rules);
    let q1: int = 1 + key_initiator().len() as int + 1 + escape_string(
        initiator,
    ).len() as int + 2 + 1;
    let rest_b = key_value(
        key_initial_angle(),
        doc_from_initial_angle(initial_angle, iterations, rules),
    );
    assert(doc_from_angle(angle, initial_angle, iterations, rules) == render_fixed(angle as int)
        + comma_then(rest_b));
    assert(rest_b[0] == '"');
    assert(!crate::ifs::serialization::is_json_space('"'));
    lemma_key_number_comma(s, q1, key_angle(), angle, rest_b);
    let q2: int = q1 + key_angle().len() as int + 1 + render_fixed(angle as int).len() as int + 1;
    let rest_c = key_value(key_iterations(), doc_from_iterations(iterations, rules));
    assert(doc_from_initial_angle(initial_angle, iterations, rules) == render_fixed(
        initial_angle as int,
    ) + comma_then(rest_c));
    assert(rest_c[0] == '"');
    lemma_key_number_comma(s, q2, key_initial_angle(), initial_angle, rest_c);
    let q3: int = q2 + key_initial_angle().len() as int + 1 + render_fixed(
        initial_angle as int,
    ).len() as int + 1;
    let t6 = doc_from_rules(rules);
    let t5 = key_value(key_rules(), t6);
    assert(doc_from_iterations(iterations, rules) == digits_of(iterations) + comma_then(t5));
    assert(t5[0] == '"');
    lemma_key_digits_comma(s, q3, key_iterations(), iterations, t5);
    let q4: int = q3 + key_iterations().len() as int + 1 + digits_of(iterations).len() as int + 1;
    assert(t6[0] == '[');
    assert(!crate::ifs::serialization::is_json_space('['));
    lemma_key_step(s, q4, key_rules(), t6);
    let p9: int = q4 + key_rules().len() as int + 1;
    assert(suffix_from(s, p9) == seq!['['] + render_strings(rules) + seq![']'] + seq!['}']);
    lemma_strings_array_step(s, p9, rules, seq!['}']);
    let e5: int = p9 + render_strings(rules).len() as int + 2;
    assert(s[e5] == '}') by {
        assert(suffix_from(s, e5)[0] == s[e5 + 0]);
    }
    assert(!crate::ifs::serialization::is_json_space('}'));
    crate::ifs::serialization::lemma_ws_end_here(s, e5);
    assert(e5 + 1 == s.len()) by {
        assert(suffix_from(s, e5).len() == 1);
    }
    crate::ifs::serialization::lemma_ws_end_here(s, e5 + 1);
}

/// Round trip: parsing the rendered document gives back exactly the
/// parameters that were rendered, for every initiator and rule set,
/// provided the iteration count is within the nineteen digits the number
/// reader takes.
#[verifier::rlimit(100)]
#[verifier::spinoff_prover]
pub proof fn lemma_lsystem_render_parse_round_trip(
    initiator: Seq<char>,
    angle: i64,
    initial_angle: i64,
    iterations: nat,
    rules: Seq<Seq<char>>,
)
    requires
        iterations <= usize::MAX,
        iterations < 10_000_000_000_000_000_000,
    ensures
        parse_lsystem_document(render_lsystem(initiator, angle, initial_angle, iterations, rules))
            == Some((initiator, angle as int, initial_angle as int, iterations as int, rules)),
{
    lemma_round_trip_positions(initiator, angle, initial_angle, iterations, rules);
}

} // verus!
