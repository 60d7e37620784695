//! The L-System engine: grammar rewriting of the initiator string under
//! the production rules, and turtle interpretation of the result.
//!
//! The turtle's sign convention: `+` decreases the heading and `-`
//! increases it, while a forward step adds the cosine to x and subtracts
//! the sine from y; turning by `+` from heading zero therefore bends the
//! drawn direction toward positive y.

use vstd::prelude::*;
use crate::angle::{normalize_degree, Angle, DEG_FULL};
use crate::fixed::{add_sat, add_sat_spec, clamp, clamp_coord, mul_fix, mul_fix_spec, COORD_LIMIT};
use crate::geometry::{Line2D, Point2D, Stroke};
use crate::text::str_to_chars;
use crate::trig::{cos_micro, cos_micro_spec, sin_micro, sin_micro_spec};
use crate::util::copy_vec;

verus! {

/// Width of the stroke the turtle draws with: one unit.
pub const FRACTAL_STROKE_WIDTH: i64 = 1_000_000;

/// A rule list as pairs of symbol and replacement characters.
pub open spec fn rules_view(rules: Seq<(char, Vec<char>)>) -> Seq<(char, Seq<char>)> {
    rules.map_values(|p: (char, Vec<char>)| (p.0, p.1@))
}

/// The replacement for `c`, the last rule with that symbol winning, as an
/// insertion into a map would.
pub open spec fn lookup_rule(rules: Seq<(char, Seq<char>)>, c: char) -> Option<Seq<char>>
    decreases rules.len(),
{
    if rules.len() == 0 {
        None
    } else if rules.last().0 == c {
        Some(rules.last().1)
    } else {
        lookup_rule(rules.drop_last(), c)
    }
}

/// A symbol with a rule becomes its replacement; one without stays.
pub open spec fn expand_symbol(rules: Seq<(char, Seq<char>)>, c: char) -> Seq<char> {
    match lookup_rule(rules, c) {
        Some(rhs) => rhs,
        None => seq![c],
    }
}

/// One generation: every symbol expanded in place.
pub open spec fn rewrite_once_spec(rules: Seq<(char, Seq<char>)>, s: Seq<char>) -> Seq<char>
    decreases s.len(),
{
    if s.len() == 0 {
        Seq::empty()
    } else {
        rewrite_once_spec(rules, s.drop_last()) + expand_symbol(rules, s.last())
    }
}

/// `n` generations of rewriting.
pub open spec fn rewrite_spec(rules: Seq<(char, Seq<char>)>, s: Seq<char>, n: nat) -> Seq<char>
    decreases n,
{
    if n == 0 {
        s
    } else {
        rewrite_once_spec(rules, rewrite_spec(rules, s, (n - 1) as nat))
    }
}

/// Index of the rule for `c` that an insertion-ordered map would hold:
/// the last one, if any.
fn find_rule(rules: &Vec<(char, Vec<char>)>, c: char) -> (r: Option<usize>)
    ensures
        r matches Some(i) ==> i < rules@.len() && rules@[i as int].0 == c && lookup_rule(
            rules_view(rules@),
            c,
        ) == Some(rules@[i as int].1@),
        r is None <==> lookup_rule(rules_view(rules@), c) is None,
{
    let ghost rv = rules_view(rules@);
    let mut i: usize = rules.len();
    proof {
        assert(rv.take(rules@.len() as int) =~= rv);
    }
    while i > 0
        invariant
            i <= rules@.len(),
            rv == rules_view(rules@),
            rv.len() == rules@.len(),
            lookup_rule(rv, c) == lookup_rule(rv.take(i as int), c),
        decreases i,
    {
        proof {
            assert(rv[i - 1] == (rules@[i - 1].0, rules@[i - 1].1@));
            assert(rv.take(i as int).last() == rv[i - 1]);
            assert(rv.take(i as int).drop_last() =~= rv.take(i - 1));
        }
        if rules[i - 1].0 == c {
            return Some(i - 1);
        }
        i = i - 1;
    }
    proof {
        assert(rv.take(0) =~= Seq::<(char, Seq<char>)>::empty());
    }
    None
}

/// One generation of rewriting, executable.
pub fn rewrite_once(rules: &Vec<(char, Vec<char>)>, path: &Vec<char>) -> (r: Vec<char>)
    ensures
        r@ == rewrite_once_spec(rules_view(rules@), path@),
{
    let ghost rv = rules_view(rules@);
    let mut out: Vec<char> = Vec::new();
    let mut k: usize = 0;
    proof {
        assert(path@.take(0) =~= Seq::<char>::empty());
    }
    while k < path.len()
        invariant
            k <= path@.len(),
            rv == rules_view(rules@),
            out@ == rewrite_once_spec(rv, path@.take(k as int)),
        decreases path@.len() - k,
    {
        let c = path[k];
        match find_rule(rules, c) {
            Some(i) => {
                let ghost base = out@;
                let rhs_len = rules[i].1.len();
                let mut j: usize = 0;
                while j < rhs_len
                    invariant
                        j <= rhs_len,
                        rhs_len == rules@[i as int].1@.len(),
                        i < rules@.len(),
                        out@ == base + rules@[i as int].1@.subrange(0, j as int),
                    decreases rhs_len - j,
                {
                    let ch = rules[i].1[j];
                    out.push(ch);
                    j = j + 1;
                    proof {
                        assert(out@ =~= base + rules@[i as int].1@.subrange(0, j as int));
                    }
                }
                proof {
                    assert(rules@[i as int].1@.subrange(0, rhs_len as int) =~= rules@[
                        i as int].1@);
                    assert(expand_symbol(rv, c) == rules@[i as int].1@);
                }
            },
            None => {
                out.push(c);
                proof {
                    assert(expand_symbol(rv, c) =~= seq![c]);
                }
            },
        }
        k = k + 1;
        proof {
            assert(path@.take(k as int).drop_last() =~= path@.take(k - 1));
            assert(path@.take(k as int).last() == c);
            assert(out@ =~= rewrite_once_spec(rv, path@.take(k as int)));
        }
    }
    proof {
        assert(path@.take(path@.len() as int) =~= path@);
    }
    out
}

/// Expand the initiator for `iterations` generations.
pub fn create_path(
    initiator: &Vec<char>,
    rules: &Vec<(char, Vec<char>)>,
    iterations: usize,
) -> (r: Vec<char>)
    ensures
        r@ == rewrite_spec(rules_view(rules@), initiator@, iterations as nat),
{
    let mut path = copy_vec(initiator);
    let mut g: usize = 0;
    while g < iterations
        invariant
            g <= iterations,
            path@ == rewrite_spec(rules_view(rules@), initiator@, g as nat),
        decreases iterations - g,
    {
        path = rewrite_once(rules, &path);
        g = g + 1;
    }
    path
}

/// The turtle's whole configuration: position, heading in micro-degrees,
/// branch stack, and the segments drawn so far.
pub struct TurtleConfig {
    pub pos: Point2D,
    pub heading: i64,
    pub stack: Seq<(Point2D, i64)>,
    pub lines: Seq<Line2D>,
}

/// Where a forward step of `len` lands from `pos` at `heading`: the
/// cosine is added to x, the sine subtracted from y.
pub open spec fn step_forward(pos: Point2D, heading: i64, len: i64) -> Point2D {
    Point2D {
        x: add_sat_spec(
            pos.x as int,
            mul_fix_spec(len as int, cos_micro_spec(heading as int)),
        ) as i64,
        y: add_sat_spec(
            pos.y as int,
            -mul_fix_spec(len as int, sin_micro_spec(heading as int)),
        ) as i64,
    }
}

/// One symbol's effect on the turtle. Symbols other than the five
/// terminals are inert.
pub open spec fn turtle_step(
    cfg: TurtleConfig,
    c: char,
    turn: i64,
    len: i64,
    stroke: Stroke,
) -> TurtleConfig {
    if c == 'F' {
        let np = step_forward(cfg.pos, cfg.heading, len);
        TurtleConfig {
            pos: np,
            heading: cfg.heading,
            stack: cfg.stack,
            lines: cfg.lines.push(Line2D { start: cfg.pos, end: np, stroke }),
        }
    } else if c == '+' {
        TurtleConfig {
            pos: cfg.pos,
            heading: normalize_degree(cfg.heading - turn) as i64,
            stack: cfg.stack,
            lines: cfg.lines,
        }
    } else if c == '-' {
        TurtleConfig {
            pos: cfg.pos,
            heading: normalize_degree(cfg.heading + turn) as i64,
            stack: cfg.stack,
            lines: cfg.lines,
        }
    } else if c == '[' {
        TurtleConfig {
            pos: cfg.pos,
            heading: cfg.heading,
            stack: cfg.stack.push((cfg.pos, cfg.heading)),
            lines: cfg.lines,
        }
    } else if c == ']' {
        if cfg.stack.len() == 0 {
            cfg
        } else {
            TurtleConfig {
                pos: cfg.stack.last().0,
                heading: cfg.stack.last().1,
                stack: cfg.stack.drop_last(),
                lines: cfg.lines,
            }
        }
    } else {
        cfg
    }
}

/// The turtle run over a whole path, left to right.
pub open spec fn turtle_run(
    path: Seq<char>,
    turn: i64,
    len: i64,
    stroke: Stroke,
    init: TurtleConfig,
) -> TurtleConfig
    decreases path.len(),
{
    if path.len() == 0 {
        init
    } else {
        turtle_step(turtle_run(path.drop_last(), turn, len, stroke, init), path.last(), turn, len, stroke)
    }
}

/// The turtle's starting configuration: the origin, the given heading, an
/// empty stack, nothing drawn.
pub open spec fn init_config(initial_heading: i64) -> TurtleConfig {
    TurtleConfig {
        pos: Point2D { x: 0, y: 0 },
        heading: initial_heading,
        stack: Seq::empty(),
        lines: Seq::empty(),
    }
}

pub open spec fn count_symbol(s: Seq<char>, c: char) -> int
    decreases s.len(),
{
    if s.len() == 0 {
        0
    } else {
        count_symbol(s.drop_last(), c) + if s.last() == c {
            1int
        } else {
            0int
        }
    }
}

/// A well-formed turtle configuration: the heading lies within one turn,
/// the position within the coordinate band, and likewise every saved
/// branch state.
pub open spec fn config_wf(cfg: TurtleConfig) -> bool {
    &&& 0 <= cfg.heading <= DEG_FULL
    &&& -COORD_LIMIT <= cfg.pos.x <= COORD_LIMIT
    &&& -COORD_LIMIT <= cfg.pos.y <= COORD_LIMIT
    &&& forall|i: int|
        0 <= i < cfg.stack.len() ==> {
            &&& 0 <= (#[trigger] cfg.stack[i]).1 <= DEG_FULL
            &&& -COORD_LIMIT <= cfg.stack[i].0.x <= COORD_LIMIT
            &&& -COORD_LIMIT <= cfg.stack[i].0.y <= COORD_LIMIT
        }
}

/// Each step keeps the configuration well-formed.
proof fn lemma_step_wf(cfg: TurtleConfig, c: char, turn: i64, len: i64, stroke: Stroke)
    requires
        config_wf(cfg),
        0 <= turn <= DEG_FULL,
        -COORD_LIMIT <= len <= COORD_LIMIT,
    ensures
        config_wf(turtle_step(cfg, c, turn, len, stroke)),
{
}

/// Bracket balance: one segment is drawn for each `F`, whatever the rest
/// of the path holds; popping an empty stack is a no-op, never an error.
pub proof fn lemma_turtle_visits(
    path: Seq<char>,
    turn: i64,
    len: i64,
    stroke: Stroke,
    init: TurtleConfig,
)
    ensures
        turtle_run(path, turn, len, stroke, init).lines.len() == init.lines.len() + count_symbol(
            path,
            'F',
        ),
    decreases path.len(),
{
    if path.len() > 0 {
        lemma_turtle_visits(path.drop_last(), turn, len, stroke, init);
    }
}

/// Walk the path: `F` draws one segment forward, `+` and `-` turn, `[`
/// saves and `]` restores the position and heading. Returns the drawn
/// segments, one per `F`.
pub fn interpret(
    path: &Vec<char>,
    turn_angle: i64,
    initial_heading: i64,
    step_length: i64,
    stroke: Stroke,
) -> (r: Vec<Line2D>)
    requires
        0 <= turn_angle <= DEG_FULL,
        0 <= initial_heading <= DEG_FULL,
        -COORD_LIMIT <= step_length <= COORD_LIMIT,
    ensures
        r@ == turtle_run(path@, turn_angle, step_length, stroke, init_config(initial_heading)).lines,
        r@.len() == count_symbol(path@, 'F'),
{
    let ghost init = init_config(initial_heading);
    let mut x: i64 = 0;
    let mut y: i64 = 0;
    let mut heading: i64 = initial_heading;
    let mut stack: Vec<(Point2D, i64)> = Vec::new();
    let mut lines: Vec<Line2D> = Vec::new();
    let mut k: usize = 0;
    proof {
        assert(path@.take(0) =~= Seq::<char>::empty());
    }
    while k < path.len()
        invariant
            k <= path@.len(),
            0 <= turn_angle <= DEG_FULL,
            -COORD_LIMIT <= step_length <= COORD_LIMIT,
            ({
                let cfg = turtle_run(
                    path@.take(k as int),
                    turn_angle,
                    step_length,
                    stroke,
                    init_config(initial_heading),
                );
                &&& cfg.pos == (Point2D { x, y })
                &&& cfg.heading == heading
                &&& cfg.stack == stack@
                &&& cfg.lines == lines@
                &&& config_wf(cfg)
            }),
        decreases path@.len() - k,
    {
        let ghost cfg = turtle_run(
            path@.take(k as int),
            turn_angle,
            step_length,
            stroke,
            init_config(initial_heading),
        );
        let c = path[k];
        if c == 'F' {
            let cos = cos_micro(heading);
            let sin = sin_micro(heading);
            let dx = mul_fix(step_length, cos);
            let dy = mul_fix(step_length, sin);
            let nx = add_sat(x, dx);
            let ny = add_sat(y, -dy);
            lines.push(Line2D { start: Point2D { x, y }, end: Point2D { x: nx, y: ny }, stroke });
            x = nx;
            y = ny;
        } else if c == '+' {
            let a = Angle::from_degree(heading - turn_angle);
            heading = a.degree();
        } else if c == '-' {
            let a = Angle::from_degree(heading + turn_angle);
            heading = a.degree();
        } else if c == '[' {
            stack.push((Point2D { x, y }, heading));
        } else if c == ']' {
            match stack.pop() {
                Some((p, h)) => {
                    x = p.x;
                    y = p.y;
                    heading = h;
                },
                None => {},
            }
        } else {
        }
        k = k + 1;
        proof {
            assert(path@.take(k as int).drop_last() =~= path@.take(k - 1));
            assert(path@.take(k as int).last() == c);
            lemma_step_wf(cfg, c, turn_angle, step_length, stroke);
            let cfg2 = turtle_step(cfg, c, turn_angle, step_length, stroke);
            assert(cfg2 == turtle_run(
                path@.take(k as int),
                turn_angle,
                step_length,
                stroke,
                init_config(initial_heading),
            ));
            if c == ']' && cfg.stack.len() > 0 {
                assert(stack@ =~= cfg.stack.drop_last());
            }
            assert(cfg2.pos == (Point2D { x, y }));
            assert(cfg2.heading == heading);
            assert(cfg2.stack =~= stack@);
            assert(cfg2.lines =~= lines@);
        }
    }
    proof {
        assert(path@.take(path@.len() as int) =~= path@);
        lemma_turtle_visits(path@, turn_angle, step_length, stroke, init_config(initial_heading));
    }
    lines
}

pub open spec fn pow2(k: nat) -> int
    decreases k,
{
    if k == 0 {
        1
    } else {
        2 * pow2((k - 1) as nat)
    }
}

pub open spec fn all_f(s: Seq<char>) -> bool {
    forall|i: int| 0 <= i < s.len() ==> s[i] == 'F'
}

/// One generation under a doubling rule for `F` doubles an all-`F`
/// string.
proof fn lemma_rewrite_once_doubles(rules: Seq<(char, Seq<char>)>, s: Seq<char>)
    requires
        lookup_rule(rules, 'F') == Some(seq!['F', 'F']),
        all_f(s),
    ensures
        rewrite_once_spec(rules, s).len() == 2 * s.len(),
        all_f(rewrite_once_spec(rules, s)),
    decreases s.len(),
{
    if s.len() > 0 {
        assert(all_f(s.drop_last()));
        lemma_rewrite_once_doubles(rules, s.drop_last());
        assert(s.last() == 'F');
        assert(expand_symbol(rules, 'F') == seq!['F', 'F']);
    }
}

/// The exponential doubling law: from the single-symbol initiator `F`
/// under a rule replacing `F` by `FF`, the string after `k` generations
/// consists of `F` alone and has length two to the `k`.
pub proof fn lemma_doubling_law(rules: Seq<(char, Seq<char>)>, k: nat)
    requires
        lookup_rule(rules, 'F') == Some(seq!['F', 'F']),
    ensures
        rewrite_spec(rules, seq!['F'], k).len() == pow2(k),
        all_f(rewrite_spec(rules, seq!['F'], k)),
    decreases k,
{
    if k == 0 {
        assert(all_f(seq!['F']));
    } else {
        lemma_doubling_law(rules, (k - 1) as nat);
        lemma_rewrite_once_doubles(rules, rewrite_spec(rules, seq!['F'], (k - 1) as nat));
    }
}

/// The expanded grammar and its turtle interpretation, bundled with the
/// parameters that drive them.
pub struct Model {
    pub angle: Angle,
    pub initial_angle: Angle,
    pub initiator: String,
    pub rules: Vec<(char, Vec<char>)>,
    pub iterations: usize,
    pub length: i64,
    pub stroke: Stroke,
}

impl Model {
    /// The path after all generations of rewriting.
    pub open spec fn path_spec(&self) -> Seq<char> {
        rewrite_spec(rules_view(self.rules@), self.initiator@, self.iterations as nat)
    }

    /// Rewrite, then interpret: the turtle's segments for this model. The
    /// step length saturates at the coordinate band.
    pub fn lines(&self) -> (r: Vec<Line2D>)
        requires
            0 <= self.angle.degree <= DEG_FULL,
            0 <= self.initial_angle.degree <= DEG_FULL,
        ensures
            r@ == turtle_run(
                self.path_spec(),
                self.angle.degree,
                clamp_coord(self.length as int) as i64,
                self.stroke,
                init_config(self.initial_angle.degree),
            ).lines,
            r@.len() == count_symbol(self.path_spec(), 'F'),
    {
        let initiator = str_to_chars(self.initiator.as_str());
        let path = create_path(&initiator, &self.rules, self.iterations);
        let len = clamp(self.length);
        interpret(&path, self.angle.degree(), self.initial_angle.degree(), len, self.stroke)
    }
}

pub struct ModelBuilder {
    pub angle: i64,
    pub initial_angle: i64,
    pub initiator: String,
    pub rules: Vec<(char, Vec<char>)>,
    pub iterations: usize,
    pub length: i64,
    pub stroke: Stroke,
}

impl Default for ModelBuilder {
    fn default() -> (b: Self)
        ensures
            b.angle == 0,
            b.initial_angle == 0,
            b.initiator@.len() == 0,
            b.rules@.len() == 0,
            b.iterations == 0,
            b.length == 0,
            b.stroke == (Stroke { width: FRACTAL_STROKE_WIDTH, color: crate::colors::black() }),
    {
        ModelBuilder {
            angle: 0,
            initial_angle: 0,
            initiator: String::new(),
            rules: Vec::new(),
            iterations: 0,
            length: 0,
            stroke: Stroke { width: FRACTAL_STROKE_WIDTH, color: crate::colors::rgb_black() },
        }
    }
}

impl ModelBuilder {
    pub fn with_initiator(self, initiator: String) -> (b: Self)
        ensures
            b == (ModelBuilder { initiator, ..self }),
    {
        ModelBuilder { initiator, ..self }
    }

    pub fn with_angle(self, angle: i64) -> (b: Self)
        ensures
            b == (ModelBuilder { angle, ..self }),
    {
        ModelBuilder { angle, ..self }
    }

    pub fn with_initial_angle(self, initial_angle: i64) -> (b: Self)
        ensures
            b == (ModelBuilder { initial_angle, ..self }),
    {
        ModelBuilder { initial_angle, ..self }
    }

    pub fn with_rules(self, rules: Vec<(char, Vec<char>)>) -> (b: Self)
        ensures
            b == (ModelBuilder { rules, ..self }),
    {
        ModelBuilder { rules, ..self }
    }

    pub fn with_iterations(self, iterations: usize) -> (b: Self)
        ensures
            b == (ModelBuilder { iterations, ..self }),
    {
        ModelBuilder { iterations, ..self }
    }

    pub fn with_length(self, length: i64) -> (b: Self)
        ensures
            b == (ModelBuilder { length, ..self }),
    {
        ModelBuilder { length, ..self }
    }

    pub fn with_stroke(self, stroke: Stroke) -> (b: Self)
        ensures
            b == (ModelBuilder { stroke, ..self }),
    {
        ModelBuilder { stroke, ..self }
    }

    /// Build the model; the raw angles are wrapped once into the standard
    /// turn.
    pub fn build(self) -> (m: Model)
        ensures
            m.angle.degree as int == normalize_degree(self.angle as int),
            m.initial_angle.degree as int == normalize_degree(self.initial_angle as int),
            m.initiator == self.initiator,
            m.rules == self.rules,
            m.iterations == self.iterations,
            m.length == self.length,
            m.stroke == self.stroke,
    {
        Model {
            angle: Angle::from_degree(self.angle),
            initial_angle: Angle::from_degree(self.initial_angle),
            initiator: self.initiator,
            rules: self.rules,
            iterations: self.iterations,
            length: self.length,
            stroke: self.stroke,
        }
    }
}

} // verus!
