//! The L-System fractal's state: editable parameters, the initialized and
//! drawing-requested flags, the compiled rule set, and the cached
//! segments.

use vstd::prelude::*;
use crate::angle::{normalize_degree, DEG_FULL};
use crate::colors::{black, rgb_black, Rgb};
use crate::geometry::{Line2D, Stroke};
use crate::lsystem::model::{
    count_symbol, init_config, rewrite_spec, rules_view, turtle_run, ModelBuilder,
    FRACTAL_STROKE_WIDTH,
};
use crate::lsystem::validation::{
    alphabet_of, check_conditions_from, check_rule, check_rules_from, conditions_of,
    ensure_initiator_symbols_in_alphabet, find_bad_symbol, find_non_space, first_bad_symbol,
    is_space_char, rule_lhs, rule_rhs, validate_spec, ValidationError,
};
use crate::text::{clone_string, str_to_chars};
use crate::util::copy_vec;

verus! {

pub struct LSystemState {
    pub is_initialized: bool,
    pub is_drawing_requested: bool,
    pub angle: i64,
    pub initial_angle: i64,
    pub initiator: String,
    pub rules: Vec<String>,
    pub iterations: usize,
    pub length: i64,
    pub color: Rgb,
    pub stroke: Stroke,
    pub lines: Vec<Line2D>,
    pub rules_set: Vec<(char, Vec<char>)>,
}

/// The raw rule lines as character sequences.
pub open spec fn rule_texts(rules: Seq<String>) -> Seq<Seq<char>> {
    Seq::new(rules.len(), |i: int| rules[i]@)
}

/// The compiled rule set a successful validation yields: each rule's
/// left-hand symbol paired with its replacement.
pub open spec fn compiled_rules(rules: Seq<Seq<char>>) -> Seq<(char, Seq<char>)> {
    Seq::new(rules.len(), |i: int| (rule_lhs(rules[i]), rule_rhs(rules[i])))
}

/// The whole validation outcome for this state's parameters.
pub open spec fn state_validation(s: &LSystemState) -> Result<(), ValidationError> {
    validate_spec(
        s.initiator@,
        s.angle as int,
        s.initial_angle as int,
        s.length as int,
        s.iterations as int,
        rule_texts(s.rules@),
    )
}

impl Default for LSystemState {
    fn default() -> (s: Self)
        ensures
            !s.is_initialized,
            !s.is_drawing_requested,
            s.angle == 0,
            s.initial_angle == 0,
            s.initiator@.len() == 0,
            s.rules@.len() == 1 && s.rules@[0]@.len() == 0,
            s.iterations == 1,
            s.length == 500_000,
            s.color == black(),
            s.stroke == (Stroke { width: FRACTAL_STROKE_WIDTH, color: black() }),
            s.lines@.len() == 0,
            s.rules_set@.len() == 0,
    {
        let mut rules: Vec<String> = Vec::new();
        rules.push(String::new());
        LSystemState {
            is_initialized: false,
            is_drawing_requested: false,
            angle: 0,
            initial_angle: 0,
            initiator: String::new(),
            rules,
            iterations: 1,
            length: 500_000,
            color: rgb_black(),
            stroke: Stroke { width: FRACTAL_STROKE_WIDTH, color: rgb_black() },
            lines: Vec::new(),
            rules_set: Vec::new(),
        }
    }
}

/// A fresh copy of a compiled rule set.
fn copy_rules(rules: &Vec<(char, Vec<char>)>) -> (r: Vec<(char, Vec<char>)>)
    ensures
        rules_view(r@) == rules_view(rules@),
{
    let mut r: Vec<(char, Vec<char>)> = Vec::new();
    let mut i: usize = 0;
    while i < rules.len()
        invariant
            i <= rules@.len(),
            r@.len() == i,
            forall|j: int|
                0 <= j < i ==> (#[trigger] r@[j]).0 == rules@[j].0 && r@[j].1@ == rules@[j].1@,
        decreases rules@.len() - i,
    {
        let lhs = rules[i].0;
        let rhs = copy_vec(&rules[i].1);
        r.push((lhs, rhs));
        i = i + 1;
    }
    proof {
        assert(rules_view(r@) =~= rules_view(rules@));
    }
    r
}

impl LSystemState {
    /// Everything but the cache, the compiled rules and the flags.
    pub open spec fn same_parameters(&self, other: &Self) -> bool {
        &&& self.angle == other.angle
        &&& self.initial_angle == other.initial_angle
        &&& self.initiator == other.initiator
        &&& self.rules == other.rules
        &&& self.iterations == other.iterations
        &&& self.length == other.length
        &&& self.color == other.color
    }

    /// Regenerate the segments if drawing was requested, then hand out the
    /// cached segments. A drawing request is only made after validation,
    /// which keeps both angles within one turn.
    pub fn shapes(&mut self) -> (r: Vec<Line2D>)
        requires
            old(self).is_drawing_requested ==> 0 <= old(self).angle <= DEG_FULL && 0 <= old(
                self,
            ).initial_angle <= DEG_FULL,
        ensures
            !final(self).is_drawing_requested,
            final(self).same_parameters(old(self)),
            final(self).is_initialized == old(self).is_initialized,
            final(self).rules_set == old(self).rules_set,
            final(self).stroke == (Stroke {
                width: old(self).stroke.width,
                color: old(self).color,
            }),
            r@ == final(self).lines@,
            !old(self).is_drawing_requested ==> final(self).lines == old(self).lines,
            old(self).is_drawing_requested ==> {
                let path = rewrite_spec(
                    rules_view(old(self).rules_set@),
                    old(self).initiator@,
                    old(self).iterations as nat,
                );
                &&& r@ == turtle_run(
                    path,
                    normalize_degree(old(self).angle as int) as i64,
                    crate::fixed::clamp_coord(old(self).length as int) as i64,
                    Stroke { width: old(self).stroke.width, color: old(self).color },
                    init_config(normalize_degree(old(self).initial_angle as int) as i64),
                ).lines
                &&& r@.len() == count_symbol(path, 'F')
            },
    {
        self.stroke = Stroke { width: self.stroke.width, color: self.color };
        if self.is_drawing_requested {
            self.is_drawing_requested = false;
            let model = ModelBuilder::default().with_initiator(clone_string(&self.initiator))
                .with_angle(self.angle).with_initial_angle(self.initial_angle).with_rules(
                copy_rules(&self.rules_set),
            ).with_iterations(self.iterations).with_length(self.length).with_stroke(
                self.stroke,
            ).build();
            self.lines = model.lines();
        } else {
            self.is_drawing_requested = false;
        }
        copy_vec(&self.lines)
    }

    pub fn is_initialized(&self) -> (r: bool)
        ensures
            r == self.is_initialized,
    {
        self.is_initialized
    }

    /// Validate every parameter, first failure winning, and compile the
    /// rule set. Success marks the state initialized; failure drops the
    /// flag and resets the compiled rules to empty.
    pub fn initialize(&mut self) -> (r: Result<(), ValidationError>)
        ensures
            r == state_validation(old(self)),
            final(self).same_parameters(old(self)),
            final(self).is_drawing_requested == old(self).is_drawing_requested,
            final(self).lines == old(self).lines,
            final(self).stroke == old(self).stroke,
            r is Ok ==> final(self).is_initialized && rules_view(final(self).rules_set@)
                == compiled_rules(rule_texts(old(self).rules@)),
            r is Err ==> !final(self).is_initialized && final(self).rules_set@.len() == 0,
    {
        let ghost rtexts = rule_texts(self.rules@);
        if self.initiator.unicode_len() == 0 {
            self.is_initialized = false;
            self.rules_set = Vec::new();
            return Err(ValidationError::InitiatorIsEmpty);
        }
        if self.angle < 0 || self.angle > DEG_FULL {
            self.is_initialized = false;
            self.rules_set = Vec::new();
            return Err(ValidationError::BadAngleValue);
        }
        if self.initial_angle < 0 || self.initial_angle > DEG_FULL {
            self.is_initialized = false;
            self.rules_set = Vec::new();
            return Err(ValidationError::BadAngleValue);
        }
        if self.length < 0 {
            self.is_initialized = false;
            self.rules_set = Vec::new();
            return Err(ValidationError::BadLengthValue);
        }
        if self.iterations < 1 {
            self.is_initialized = false;
            self.rules_set = Vec::new();
            return Err(ValidationError::BadIterationsValue);
        }

        let mut alphabet: Vec<char> = Vec::new();
        let mut conditions: Vec<Vec<char>> = Vec::new();
        let mut index: usize = 0;
        while index < self.rules.len()
            invariant
                *self == *old(self),
                old(self).initiator@.len() > 0,
                0 <= old(self).angle <= DEG_FULL,
                0 <= old(self).initial_angle <= DEG_FULL,
                old(self).length >= 0,
                old(self).iterations >= 1,
                index <= self.rules@.len(),
                rtexts == rule_texts(self.rules@),
                check_rules_from(rtexts, 0) == check_rules_from(rtexts, index as int),
                alphabet@.len() == index,
                conditions@.len() == index,
                forall|j: int| 0 <= j < index ==> #[trigger] alphabet@[j] == rule_lhs(rtexts[j]),
                forall|j: int|
                    0 <= j < index ==> (#[trigger] conditions@[j])@ == rule_rhs(rtexts[j]),
            decreases self.rules@.len() - index,
        {
            let cs = str_to_chars(self.rules[index].as_str());
            proof {
                assert(rtexts[index as int] == self.rules@[index as int]@);
            }
            if !(cs.len() >= 5 && cs[1] == ' ' && cs[2] == '-' && cs[3] == '>' && cs[4] == ' ') {
                proof {
                    assert(check_rules_from(rtexts, index as int) == check_rule(
                        rtexts[index as int],
                        index as int,
                    ));
                }
                self.is_initialized = false;
                self.rules_set = Vec::new();
                return Err(ValidationError::WrongRuleSyntax(index + 1));
            }
            if is_space_char(cs[0]) {
                proof {
                    assert(check_rules_from(rtexts, index as int) == check_rule(
                        rtexts[index as int],
                        index as int,
                    ));
                }
                self.is_initialized = false;
                self.rules_set = Vec::new();
                return Err(ValidationError::RuleConstantIsEmpty(index + 1));
            }
            let letter = cs[0];
            let mut condition: Vec<char> = Vec::new();
            let mut j: usize = 5;
            while j < cs.len()
                invariant
                    5 <= j <= cs@.len(),
                    condition@ == cs@.subrange(5, j as int),
                decreases cs@.len() - j,
            {
                let ch = cs[j];
                condition.push(ch);
                j = j + 1;
                proof {
                    assert(condition@ =~= cs@.subrange(5, j as int));
                }
            }
            proof {
                assert(condition@ =~= cs@.skip(5));
            }
            match find_non_space(&condition) {
                None => {
                    proof {
                        assert(condition@ == rule_rhs(rtexts[index as int]));
                        assert(check_rules_from(rtexts, index as int) == check_rule(
                            rtexts[index as int],
                            index as int,
                        ));
                    }
                    self.is_initialized = false;
                self.rules_set = Vec::new();
                    return Err(ValidationError::RuleConditionIsEmpty(index + 1));
                },
                Some(_) => {},
            }
            proof {
                assert(check_rule(rtexts[index as int], index as int) is Ok);
            }
            alphabet.push(letter);
            conditions.push(condition);
            index = index + 1;
        }
        proof {
            assert(alphabet@ =~= alphabet_of(rtexts));
        }

        match ensure_initiator_symbols_in_alphabet(&alphabet, self.initiator.as_str()) {
            Err(e) => {
                self.is_initialized = false;
                self.rules_set = Vec::new();
                return Err(e);
            },
            Ok(()) => {},
        }

        let mut k: usize = 0;
        while k < conditions.len()
            invariant
                *self == *old(self),
                old(self).initiator@.len() > 0,
                0 <= old(self).angle <= DEG_FULL,
                0 <= old(self).initial_angle <= DEG_FULL,
                old(self).length >= 0,
                old(self).iterations >= 1,
                check_rules_from(rtexts, 0) is Ok,
                first_bad_symbol(alphabet_of(rtexts), old(self).initiator@, 0) is None,
                k <= conditions@.len(),
                conditions@.len() == rtexts.len(),
                rtexts == rule_texts(self.rules@),
                alphabet@ == alphabet_of(rtexts),
                forall|j: int|
                    0 <= j < conditions@.len() ==> (#[trigger] conditions@[j])@ == rule_rhs(
                        rtexts[j],
                    ),
                check_conditions_from(alphabet@, conditions_of(rtexts), 0)
                    == check_conditions_from(alphabet@, conditions_of(rtexts), k as int),
            decreases conditions@.len() - k,
        {
            match find_bad_symbol(&alphabet, &conditions[k]) {
                Some(c) => {
                    proof {
                        assert(conditions@[k as int]@ == conditions_of(rtexts)[k as int]);
                        assert(check_conditions_from(alphabet@, conditions_of(rtexts), k as int)
                            == Err::<(), ValidationError>(
                            ValidationError::NonAlphabetSymbolCondition((k + 1) as usize, c),
                        ));
                    }
                    self.is_initialized = false;
                self.rules_set = Vec::new();
                    return Err(ValidationError::NonAlphabetSymbolCondition(k + 1, c));
                },
                None => {},
            }
            k = k + 1;
        }

        let mut rules_set: Vec<(char, Vec<char>)> = Vec::new();
        let mut i: usize = 0;
        while i < alphabet.len()
            invariant
                *self == *old(self),
                old(self).initiator@.len() > 0,
                0 <= old(self).angle <= DEG_FULL,
                0 <= old(self).initial_angle <= DEG_FULL,
                old(self).length >= 0,
                old(self).iterations >= 1,
                check_rules_from(rtexts, 0) is Ok,
                first_bad_symbol(alphabet_of(rtexts), old(self).initiator@, 0) is None,
                check_conditions_from(alphabet_of(rtexts), conditions_of(rtexts), 0) is Ok,
                i <= alphabet@.len(),
                alphabet@.len() == conditions@.len() == rtexts.len(),
                forall|j: int| 0 <= j < rtexts.len() ==> #[trigger] alphabet@[j] == rule_lhs(
                    rtexts[j],
                ),
                forall|j: int|
                    0 <= j < rtexts.len() ==> (#[trigger] conditions@[j])@ == rule_rhs(rtexts[j]),
                rules_set@.len() == i,
                forall|j: int|
                    0 <= j < i ==> (#[trigger] rules_set@[j]).0 == rule_lhs(rtexts[j])
                        && rules_set@[j].1@ == rule_rhs(rtexts[j]),
            decreases alphabet@.len() - i,
        {
            let lhs = alphabet[i];
            let rhs = copy_vec(&conditions[i]);
            rules_set.push((lhs, rhs));
            i = i + 1;
        }
        proof {
            assert(rules_view(rules_set@) =~= compiled_rules(rtexts));
        }
        self.rules_set = rules_set;
        self.is_initialized = true;
        Ok(())
    }

    /// Drop the initialized flag and the compiled rules.
    pub fn reset_initialization(&mut self)
        ensures
            !final(self).is_initialized,
            final(self).rules_set@.len() == 0,
            final(self).same_parameters(old(self)),
            final(self).is_drawing_requested == old(self).is_drawing_requested,
            final(self).lines == old(self).lines,
            final(self).stroke == old(self).stroke,
    {
        self.rules_set = Vec::new();
        self.is_initialized = false;
    }

    pub fn request_drawing(&mut self)
        ensures
            final(self).is_drawing_requested,
            final(self).same_parameters(old(self)),
            final(self).is_initialized == old(self).is_initialized,
            final(self).rules_set == old(self).rules_set,
            final(self).lines == old(self).lines,
            final(self).stroke == old(self).stroke,
    {
        self.is_drawing_requested = true;
    }

    pub fn is_drawing_requested(&self) -> (r: bool)
        ensures
            r == self.is_drawing_requested,
    {
        self.is_drawing_requested
    }

    /// Append an empty rule line; the edit drops the initialized flag.
    pub fn push_empty_rule(&mut self)
        ensures
            !final(self).is_initialized,
            final(self).rules_set@.len() == 0,
            final(self).rules@.len() == old(self).rules@.len() + 1,
            final(self).rules@.drop_last() == old(self).rules@,
            final(self).rules@.last()@.len() == 0,
            final(self).initiator == old(self).initiator,
            final(self).angle == old(self).angle,
            final(self).initial_angle == old(self).initial_angle,
            final(self).iterations == old(self).iterations,
            final(self).length == old(self).length,
            final(self).lines == old(self).lines,
    {
        self.reset_initialization();
        self.rules.push(String::new());
    }

    /// Remove the rule line at `index`; the edit drops the initialized
    /// flag.
    pub fn remove_rule(&mut self, index: usize)
        requires
            index < old(self).rules@.len(),
        ensures
            !final(self).is_initialized,
            final(self).rules_set@.len() == 0,
            final(self).rules@ == old(self).rules@.remove(index as int),
            final(self).initiator == old(self).initiator,
            final(self).angle == old(self).angle,
            final(self).initial_angle == old(self).initial_angle,
            final(self).iterations == old(self).iterations,
            final(self).length == old(self).length,
            final(self).lines == old(self).lines,
    {
        self.reset_initialization();
        self.rules.remove(index);
    }

    /// Back to the defaults, but with no rule lines at all.
    pub fn reset_with_empty_rules(&mut self)
        ensures
            !final(self).is_initialized,
            !final(self).is_drawing_requested,
            final(self).angle == 0,
            final(self).initial_angle == 0,
            final(self).initiator@.len() == 0,
            final(self).rules@.len() == 0,
            final(self).iterations == 1,
            final(self).length == 500_000,
            final(self).color == black(),
            final(self).stroke == (Stroke { width: FRACTAL_STROKE_WIDTH, color: black() }),
            final(self).rules_set@.len() == 0,
            final(self).lines@.len() == 0,
    {
        *self = LSystemState::default();
        self.rules = Vec::new();
    }
}

} // verus!
