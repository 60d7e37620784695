//! Validation of an L-System's parameters: initiator, angles, length,
//! iteration count, rule syntax, and alphabet closure. A raw rule is a
//! line `"<symbol> -> <replacement>"`; the five terminal symbols
//! `F + - [ ]` are always allowed in the initiator and in replacements.

use vstd::prelude::*;
use crate::angle::DEG_FULL;
use crate::decimal::digits_of;
use crate::text::{chars_to_string, str_to_chars};

verus! {

/// Why an L-System was rejected. Rule indices are one-based, as shown to
/// the user.
#[derive(Clone, Copy, Debug, PartialEq, Eq, Structural)]
pub enum ValidationError {
    InitiatorIsEmpty,
    BadAngleValue,
    BadLengthValue,
    BadIterationsValue,
    WrongRuleSyntax(usize),
    RuleConstantIsEmpty(usize),
    RuleConstantIsNotValidChar(usize),
    RuleConditionIsEmpty(usize),
    NonAlphabetSymbolCondition(usize, char),
    NonAlphabetSymbolInitiator(char),
}

/// The five symbols the turtle always understands.
pub open spec fn is_terminal(c: char) -> bool {
    c == 'F' || c == '+' || c == '-' || c == '[' || c == ']'
}

pub fn is_terminal_symbol(c: char) -> (r: bool)
    ensures
        r == is_terminal(c),
{
    c == 'F' || c == '+' || c == '-' || c == '[' || c == ']'
}

/// Whitespace as `str::trim` sees it: the characters with the Unicode
/// White_Space property.
pub open spec fn is_space(c: char) -> bool {
    ||| c == '\u{0009}'
    ||| c == '\u{000A}'
    ||| c == '\u{000B}'
    ||| c == '\u{000C}'
    ||| c == '\u{000D}'
    ||| c == ' '
    ||| c == '\u{0085}'
    ||| c == '\u{00A0}'
    ||| c == '\u{1680}'
    ||| c == '\u{2000}'
    ||| c == '\u{2001}'
    ||| c == '\u{2002}'
    ||| c == '\u{2003}'
    ||| c == '\u{2004}'
    ||| c == '\u{2005}'
    ||| c == '\u{2006}'
    ||| c == '\u{2007}'
    ||| c == '\u{2008}'
    ||| c == '\u{2009}'
    ||| c == '\u{200A}'
    ||| c == '\u{2028}'
    ||| c == '\u{2029}'
    ||| c == '\u{202F}'
    ||| c == '\u{205F}'
    ||| c == '\u{3000}'
}

pub fn is_space_char(c: char) -> (r: bool)
    ensures
        r == is_space(c),
{
    c == '\u{0009}' || c == '\u{000A}' || c == '\u{000B}' || c == '\u{000C}' || c == '\u{000D}'
        || c == ' ' || c == '\u{0085}' || c == '\u{00A0}' || c == '\u{1680}' || c == '\u{2000}'
        || c == '\u{2001}' || c == '\u{2002}' || c == '\u{2003}' || c == '\u{2004}' || c
        == '\u{2005}' || c == '\u{2006}' || c == '\u{2007}' || c == '\u{2008}' || c == '\u{2009}'
        || c == '\u{200A}' || c == '\u{2028}' || c == '\u{2029}' || c == '\u{202F}' || c
        == '\u{205F}' || c == '\u{3000}'
}

pub open spec fn all_space(s: Seq<char>) -> bool {
    forall|i: int| 0 <= i < s.len() ==> is_space(#[trigger] s[i])
}

/// A rule line has the shape `<symbol> -> <replacement>`: at least five
/// characters with the delimiter at positions one to four.
pub open spec fn rule_syntax_ok(r: Seq<char>) -> bool {
    r.len() >= 5 && r[1] == ' ' && r[2] == '-' && r[3] == '>' && r[4] == ' '
}

/// The left-hand symbol of a syntactically well-formed rule.
pub open spec fn rule_lhs(r: Seq<char>) -> char {
    r[0]
}

/// The replacement of a syntactically well-formed rule.
pub open spec fn rule_rhs(r: Seq<char>) -> Seq<char> {
    r.skip(5)
}

/// The outcome of checking the single rule with zero-based index `k`.
pub open spec fn check_rule(r: Seq<char>, k: int) -> Result<(), ValidationError> {
    if !rule_syntax_ok(r) {
        Err(ValidationError::WrongRuleSyntax((k + 1) as usize))
    } else if is_space(rule_lhs(r)) {
        Err(ValidationError::RuleConstantIsEmpty((k + 1) as usize))
    } else if all_space(rule_rhs(r)) {
        Err(ValidationError::RuleConditionIsEmpty((k + 1) as usize))
    } else {
        Ok(())
    }
}

/// First failure among the rules from index `k` on.
pub open spec fn check_rules_from(rules: Seq<Seq<char>>, k: int) -> Result<(), ValidationError>
    decreases rules.len() - k,
{
    if k < 0 || k >= rules.len() {
        Ok(())
    } else {
        match check_rule(rules[k], k) {
            Err(e) => Err(e),
            Ok(()) => check_rules_from(rules, k + 1),
        }
    }
}

/// The declared alphabet: the left-hand symbol of each rule.
pub open spec fn alphabet_of(rules: Seq<Seq<char>>) -> Seq<char> {
    Seq::new(rules.len(), |i: int| rule_lhs(rules[i]))
}

/// A symbol is admissible when it is declared or terminal.
pub open spec fn symbol_ok(alphabet: Seq<char>, c: char) -> bool {
    alphabet.contains(c) || is_terminal(c)
}

/// First inadmissible symbol of `s` at or after `j`, if any.
pub open spec fn first_bad_symbol(alphabet: Seq<char>, s: Seq<char>, j: int) -> Option<char>
    decreases s.len() - j,
{
    if j < 0 || j >= s.len() {
        None
    } else if !symbol_ok(alphabet, s[j]) {
        Some(s[j])
    } else {
        first_bad_symbol(alphabet, s, j + 1)
    }
}

/// First failure of the alphabet-closure check over the replacements,
/// from rule `k` on.
pub open spec fn check_conditions_from(
    alphabet: Seq<char>,
    conditions: Seq<Seq<char>>,
    k: int,
) -> Result<(), ValidationError>
    decreases conditions.len() - k,
{
    if k < 0 || k >= conditions.len() {
        Ok(())
    } else {
        match first_bad_symbol(alphabet, conditions[k], 0) {
            Some(c) => Err(ValidationError::NonAlphabetSymbolCondition((k + 1) as usize, c)),
            None => check_conditions_from(alphabet, conditions, k + 1),
        }
    }
}

pub open spec fn conditions_of(rules: Seq<Seq<char>>) -> Seq<Seq<char>> {
    Seq::new(rules.len(), |i: int| rule_rhs(rules[i]))
}

/// The whole validation, first failure winning: initiator non-empty, both
/// angles within one turn, length non-negative, at least one generation,
/// every rule well-formed, and the initiator and every replacement closed
/// over the alphabet and the terminals.
pub open spec fn validate_spec(
    initiator: Seq<char>,
    angle: int,
    initial_angle: int,
    length: int,
    iterations: int,
    rules: Seq<Seq<char>>,
) -> Result<(), ValidationError> {
    if initiator.len() == 0 {
        Err(ValidationError::InitiatorIsEmpty)
    } else if !(0 <= angle <= DEG_FULL as int) {
        Err(ValidationError::BadAngleValue)
    } else if !(0 <= initial_angle <= DEG_FULL as int) {
        Err(ValidationError::BadAngleValue)
    } else if length < 0 {
        Err(ValidationError::BadLengthValue)
    } else if iterations < 1 {
        Err(ValidationError::BadIterationsValue)
    } else {
        match check_rules_from(rules, 0) {
            Err(e) => Err(e),
            Ok(()) => match first_bad_symbol(alphabet_of(rules), initiator, 0) {
                Some(c) => Err(ValidationError::NonAlphabetSymbolInitiator(c)),
                None => check_conditions_from(alphabet_of(rules), conditions_of(rules), 0),
            },
        }
    }
}

/// The initiator must be non-empty.
pub fn initiator_is_not_empty(initiator: &str) -> (r: Result<(), ValidationError>)
    ensures
        r is Ok <==> initiator@.len() > 0,
        r is Err ==> r == Err::<(), ValidationError>(ValidationError::InitiatorIsEmpty),
{
    if initiator.unicode_len() == 0 {
        Err(ValidationError::InitiatorIsEmpty)
    } else {
        Ok(())
    }
}

/// An angle must lie within one turn, in micro-degrees.
pub fn angle_range(angle: i64) -> (r: Result<(), ValidationError>)
    ensures
        r is Ok <==> 0 <= angle <= DEG_FULL,
        r is Err ==> r == Err::<(), ValidationError>(ValidationError::BadAngleValue),
{
    if angle < 0 || angle > DEG_FULL {
        Err(ValidationError::BadAngleValue)
    } else {
        Ok(())
    }
}

/// The step length must be non-negative, in micro-units.
pub fn length_range(length: i64) -> (r: Result<(), ValidationError>)
    ensures
        r is Ok <==> length >= 0,
        r is Err ==> r == Err::<(), ValidationError>(ValidationError::BadLengthValue),
{
    if length < 0 {
        Err(ValidationError::BadLengthValue)
    } else {
        Ok(())
    }
}

/// At least one generation must be asked for.
pub fn iterations_range(iterations: usize) -> (r: Result<(), ValidationError>)
    ensures
        r is Ok <==> iterations >= 1,
        r is Err ==> r == Err::<(), ValidationError>(ValidationError::BadIterationsValue),
{
    if iterations < 1 {
        Err(ValidationError::BadIterationsValue)
    } else {
        Ok(())
    }
}

/// The rule line must carry the delimiter `" -> "` at positions one to
/// four. `index` is the zero-based rule index.
pub fn right_syntax(raw_rule: &str, index: usize) -> (r: Result<(), ValidationError>)
    requires
        index < usize::MAX,
    ensures
        r is Ok <==> rule_syntax_ok(raw_rule@),
        r is Err ==> r == Err::<(), ValidationError>(
            ValidationError::WrongRuleSyntax((index + 1) as usize),
        ),
{
    let cs = str_to_chars(raw_rule);
    if cs.len() >= 5 && cs[1] == ' ' && cs[2] == '-' && cs[3] == '>' && cs[4] == ' ' {
        Ok(())
    } else {
        Err(ValidationError::WrongRuleSyntax(index + 1))
    }
}

pub(crate) fn find_non_space(cs: &Vec<char>) -> (r: Option<usize>)
    ensures
        r is None <==> all_space(cs@),
        r matches Some(i) ==> i < cs@.len() && !is_space(cs@[i as int]),
{
    let mut i: usize = 0;
    while i < cs.len()
        invariant
            i <= cs@.len(),
            forall|j: int| 0 <= j < i ==> is_space(#[trigger] cs@[j]),
        decreases cs@.len() - i,
    {
        if !is_space_char(cs[i]) {
            return Some(i);
        }
        i = i + 1;
    }
    None
}

/// The rule's left-hand side must hold a non-whitespace character.
pub fn rule_constant_is_not_empty(letter: &str, index: usize) -> (r: Result<(), ValidationError>)
    requires
        index < usize::MAX,
    ensures
        r is Ok <==> !all_space(letter@),
        r is Err ==> r == Err::<(), ValidationError>(
            ValidationError::RuleConstantIsEmpty((index + 1) as usize),
        ),
{
    let cs = str_to_chars(letter);
    match find_non_space(&cs) {
        Some(_) => Ok(()),
        None => Err(ValidationError::RuleConstantIsEmpty(index + 1)),
    }
}

/// The rule's left-hand side as a character: its first character, which
/// exists unless the text is empty.
pub fn is_valid_char(letter: &str, index: usize) -> (r: Result<char, ValidationError>)
    requires
        index < usize::MAX,
    ensures
        r matches Ok(c) ==> letter@.len() > 0 && c == letter@[0],
        r is Err <==> letter@.len() == 0,
        r is Err ==> r == Err::<char, ValidationError>(
            ValidationError::RuleConstantIsNotValidChar((index + 1) as usize),
        ),
{
    if letter.unicode_len() > 0 {
        Ok(letter.get_char(0))
    } else {
        Err(ValidationError::RuleConstantIsNotValidChar(index + 1))
    }
}

/// The rule's replacement must hold a non-whitespace character.
pub fn rule_condition_is_not_empty(condition: &str, index: usize) -> (r: Result<
    (),
    ValidationError,
>)
    requires
        index < usize::MAX,
    ensures
        r is Ok <==> !all_space(condition@),
        r is Err ==> r == Err::<(), ValidationError>(
            ValidationError::RuleConditionIsEmpty((index + 1) as usize),
        ),
{
    let cs = str_to_chars(condition);
    match find_non_space(&cs) {
        Some(_) => Ok(()),
        None => Err(ValidationError::RuleConditionIsEmpty(index + 1)),
    }
}

fn in_alphabet(alphabet: &Vec<char>, c: char) -> (r: bool)
    ensures
        r == alphabet@.contains(c),
{
    let mut i: usize = 0;
    while i < alphabet.len()
        invariant
            i <= alphabet@.len(),
            forall|j: int| 0 <= j < i ==> alphabet@[j] != c,
        decreases alphabet@.len() - i,
    {
        if alphabet[i] == c {
            return true;
        }
        i = i + 1;
    }
    false
}

/// First inadmissible symbol of `cs`, executable form of
/// `first_bad_symbol`.
pub(crate) fn find_bad_symbol(alphabet: &Vec<char>, cs: &Vec<char>) -> (r: Option<char>)
    ensures
        r == first_bad_symbol(alphabet@, cs@, 0),
{
    let mut i: usize = 0;
    while i < cs.len()
        invariant
            i <= cs@.len(),
            first_bad_symbol(alphabet@, cs@, 0) == first_bad_symbol(alphabet@, cs@, i as int),
        decreases cs@.len() - i,
    {
        let c = cs[i];
        if !in_alphabet(alphabet, c) && !is_terminal_symbol(c) {
            return Some(c);
        }
        i = i + 1;
    }
    None
}

/// Every symbol of the initiator must be declared or terminal; the first
/// offender is reported.
pub fn ensure_initiator_symbols_in_alphabet(alphabet: &Vec<char>, initiator: &str) -> (r: Result<
    (),
    ValidationError,
>)
    ensures
        r is Ok <==> first_bad_symbol(alphabet@, initiator@, 0) is None,
        r matches Err(e) ==> first_bad_symbol(alphabet@, initiator@, 0) matches Some(c) && e
            == ValidationError::NonAlphabetSymbolInitiator(c),
{
    let cs = str_to_chars(initiator);
    match find_bad_symbol(alphabet, &cs) {
        Some(c) => Err(ValidationError::NonAlphabetSymbolInitiator(c)),
        None => Ok(()),
    }
}

/// Every symbol of every replacement must be declared or terminal; the
/// first offender is reported with its one-based rule index.
pub fn ensure_condition_symbols_in_alphabet(
    alphabet: &Vec<char>,
    conditions: &Vec<String>,
) -> (r: Result<(), ValidationError>)
    requires
        conditions@.len() < usize::MAX,
    ensures
        r == check_conditions_from(
            alphabet@,
            Seq::new(conditions@.len() as nat, |i: int| conditions@[i]@),
            0,
        ),
{
    let ghost conds = Seq::new(conditions@.len() as nat, |i: int| conditions@[i]@);
    let mut index: usize = 0;
    while index < conditions.len()
        invariant
            index <= conditions@.len() < usize::MAX,
            conds == Seq::new(conditions@.len() as nat, |i: int| conditions@[i]@),
            check_conditions_from(alphabet@, conds, 0) == check_conditions_from(
                alphabet@,
                conds,
                index as int,
            ),
        decreases conditions@.len() - index,
    {
        let cs = str_to_chars(conditions[index].as_str());
        match find_bad_symbol(alphabet, &cs) {
            Some(c) => {
                return Err(ValidationError::NonAlphabetSymbolCondition(index + 1, c));
            },
            None => {},
        }
        index = index + 1;
    }
    Ok(())
}

impl ValidationError {
    /// The short human-readable summary of the error.
    pub fn summary(&self) -> (r: String)
        ensures
            self is InitiatorIsEmpty ==> r@ == "Initiator value is empty."@,
            self is BadAngleValue ==> r@
                == "The angle value is either greater than 360 degrees or less than 0 degrees."@,
            self is BadLengthValue ==> r@ == "The 'length' value is lower than 0."@,
            self is BadIterationsValue ==> r@ == "The 'iterations' value is lower than 1."@,
            self is WrongRuleSyntax ==> r@
                == "Wrong rule syntax. There have to be constant, delimiter, and condition"@,
            self is RuleConstantIsEmpty ==> r@ == "Rule constant is a whitespace"@,
            self is RuleConstantIsNotValidChar ==> r@
                == "Rule constant is not a valid UTF-8 symbol."@,
            self is RuleConditionIsEmpty ==> r@
                == "Rule condition consists of less than 1 symbol."@,
            self is NonAlphabetSymbolCondition ==> r@
                == "There's symbol in a rule that is not from an alphabet."@,
            self is NonAlphabetSymbolInitiator ==> r@
                == "There's symbol in the initiator that is not from an alphabet."@,
    {
        match self {
            ValidationError::InitiatorIsEmpty => String::from_str("Initiator value is empty."),
            ValidationError::BadAngleValue => String::from_str(
                "The angle value is either greater than 360 degrees or less than 0 degrees.",
            ),
            ValidationError::BadLengthValue => String::from_str(
                "The 'length' value is lower than 0.",
            ),
            ValidationError::BadIterationsValue => String::from_str(
                "The 'iterations' value is lower than 1.",
            ),
            ValidationError::WrongRuleSyntax(_) => String::from_str(
                "Wrong rule syntax. There have to be constant, delimiter, and condition",
            ),
            ValidationError::RuleConstantIsEmpty(_) => String::from_str(
                "Rule constant is a whitespace",
            ),
            ValidationError::RuleConstantIsNotValidChar(_) => String::from_str(
                "Rule constant is not a valid UTF-8 symbol.",
            ),
            ValidationError::RuleConditionIsEmpty(_) => String::from_str(
                "Rule condition consists of less than 1 symbol.",
            ),
            ValidationError::NonAlphabetSymbolCondition(_, _) => String::from_str(
                "There's symbol in a rule that is not from an alphabet.",
            ),
            ValidationError::NonAlphabetSymbolInitiator(_) => String::from_str(
                "There's symbol in the initiator that is not from an alphabet.",
            ),
        }
    }

    /// The structured detail of the error: the one-based rule index and
    /// the offending symbol, where the variant carries them.
    pub fn additional_info(&self) -> (r: Option<String>)
        ensures
            r is Some <==> !(self is InitiatorIsEmpty || self is BadAngleValue || self
                is BadLengthValue || self is BadIterationsValue),
            self matches ValidationError::WrongRuleSyntax(n) ==> r matches Some(s) && s@
                == rule_info(n as nat),
            self matches ValidationError::RuleConstantIsEmpty(n) ==> r matches Some(s) && s@
                == rule_info(n as nat),
            self matches ValidationError::RuleConstantIsNotValidChar(n) ==> r matches Some(s)
                && s@ == rule_info(n as nat),
            self matches ValidationError::RuleConditionIsEmpty(n) ==> r matches Some(s) && s@
                == rule_info(n as nat),
            self matches ValidationError::NonAlphabetSymbolCondition(n, c) ==> r matches Some(s)
                && s@ == rule_info(n as nat) + seq!['\n'] + symbol_info(*c),
            self matches ValidationError::NonAlphabetSymbolInitiator(c) ==> r matches Some(s)
                && s@ == symbol_info(*c),
    {
        match self {
            ValidationError::WrongRuleSyntax(n)
            | ValidationError::RuleConstantIsEmpty(n)
            | ValidationError::RuleConstantIsNotValidChar(n)
            | ValidationError::RuleConditionIsEmpty(n) => Some(rule_text(*n)),
            ValidationError::NonAlphabetSymbolCondition(n, c) => {
                let mut text = rule_chars(*n);
                text.push('\n');
                text.push('S');
                text.push('y');
                text.push('m');
                text.push('b');
                text.push('o');
                text.push('l');
                text.push(':');
                text.push(' ');
                text.push(*c);
                proof {
                    assert(text@ =~= rule_info(n as nat) + seq!['\n'] + symbol_info(*c));
                }
                Some(chars_to_string(&text))
            },
            ValidationError::NonAlphabetSymbolInitiator(c) => {
                let mut text: Vec<char> = vec!['S', 'y', 'm', 'b', 'o', 'l', ':', ' '];
                text.push(*c);
                proof {
                    assert(text@ =~= symbol_info(*c));
                }
                Some(chars_to_string(&text))
            },
            ValidationError::InitiatorIsEmpty
            | ValidationError::BadAngleValue
            | ValidationError::BadLengthValue
            | ValidationError::BadIterationsValue => None,
        }
    }
}

/// The text `Rule: <n>` of a one-based rule index.
pub open spec fn rule_info(n: nat) -> Seq<char> {
    seq!['R', 'u', 'l', 'e', ':', ' '] + digits_of(n)
}

/// The text `Symbol: <c>` of an offending symbol.
pub open spec fn symbol_info(c: char) -> Seq<char> {
    seq!['S', 'y', 'm', 'b', 'o', 'l', ':', ' ', c]
}

/// The characters `Rule: <n>`.
fn rule_chars(n: usize) -> (r: Vec<char>)
    ensures
        r@ == rule_info(n as nat),
{
    let mut text: Vec<char> = vec!['R', 'u', 'l', 'e', ':', ' '];
    let mut digits = crate::decimal::format_nat(n as u64);
    text.append(&mut digits);
    text
}

/// The text `Rule: <n>`.
fn rule_text(n: usize) -> (r: String)
    ensures
        r@ == rule_info(n as nat),
{
    let text = rule_chars(n);
    chars_to_string(&text)
}

} // verus!
