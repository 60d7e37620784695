use fractals::angle::Angle;
use fractals::colors::{ColorScheme, Rgb};
use fractals::fixed::SCALE;
use fractals::geometry::{Point2D, Stroke};
use fractals::ifs::model::{EngineError, ModelBuilder};
use fractals::ifs::state::IfsState;
use fractals::lsystem::model::{create_path, interpret, rewrite_once};
use fractals::lsystem::state::LSystemState;
use fractals::trig::{cos_micro, sin_micro};

fn chars(s: &str) -> Vec<char> {
    s.chars().collect()
}

fn doubling_rules() -> Vec<(char, Vec<char>)> {
    vec![('F', chars("FF"))]
}

#[test]
fn rewriting_one_generation_doubles() {
    let path = create_path(&chars("F"), &doubling_rules(), 1);
    assert_eq!(path, chars("FF"));
}

#[test]
fn rewriting_two_generations_quadruples() {
    let path = create_path(&chars("F"), &doubling_rules(), 2);
    assert_eq!(path, chars("FFFF"));
}

#[test]
fn rewriting_follows_the_doubling_law() {
    for generations in 0..8 {
        let path = create_path(&chars("F"), &doubling_rules(), generations);
        assert_eq!(path.len(), 1usize << generations);
        assert!(path.iter().all(|c| *c == 'F'));
    }
}

#[test]
fn rewriting_keeps_symbols_without_rules() {
    let rules = vec![('X', chars("X+Y")), ('Y', chars("FX"))];
    let path = rewrite_once(&rules, &chars("X-Y"));
    assert_eq!(path, chars("X+Y-FX"));
}

#[test]
fn rewriting_lets_the_last_duplicate_rule_win() {
    let rules = vec![('F', chars("FA")), ('A', chars("A")), ('F', chars("FB"))];
    let path = rewrite_once(&rules, &chars("F"));
    assert_eq!(path, chars("FB"));
}

#[test]
fn turtle_draws_two_segments_for_f_plus_f() {
    // turn 90, heading 0, step 1: (0,0) -> (1,0), then (1,0) -> (1,1);
    // `+` lowers the heading, which bends the drawn direction toward +y.
    let stroke = Stroke::new(SCALE, Rgb { r: 0, g: 0, b: 0 });
    let lines = interpret(&chars("F+F"), 90_000_000, 0, SCALE, stroke);
    assert_eq!(lines.len(), 2);
    assert_eq!(lines[0].start, Point2D { x: 0, y: 0 });
    assert_eq!(lines[0].end, Point2D { x: SCALE, y: 0 });
    assert_eq!(lines[1].start, Point2D { x: SCALE, y: 0 });
    assert_eq!(lines[1].end, Point2D { x: SCALE, y: SCALE });
}

#[test]
fn turtle_visits_one_position_per_f() {
    let stroke = Stroke::new(SCALE, Rgb { r: 0, g: 0, b: 0 });
    // unmatched closing brackets are ignored, never an error
    let lines = interpret(&chars("]F]]+F-]F["), 30_000_000, 0, SCALE, stroke);
    assert_eq!(lines.len(), 3);
    let lines = interpret(&chars("]]]"), 30_000_000, 0, SCALE, stroke);
    assert_eq!(lines.len(), 0);
}

#[test]
fn turtle_restores_state_on_closing_bracket() {
    let stroke = Stroke::new(SCALE, Rgb { r: 0, g: 0, b: 0 });
    let lines = interpret(&chars("F[+F]F"), 90_000_000, 0, SCALE, stroke);
    assert_eq!(lines.len(), 3);
    // the branch turns toward +y, the trunk continues along +x
    assert_eq!(lines[1].start, Point2D { x: SCALE, y: 0 });
    assert_eq!(lines[1].end, Point2D { x: SCALE, y: SCALE });
    assert_eq!(lines[2].start, Point2D { x: SCALE, y: 0 });
    assert_eq!(lines[2].end, Point2D { x: 2 * SCALE, y: 0 });
}

#[test]
fn turtle_skips_inert_symbols() {
    let stroke = Stroke::new(SCALE, Rgb { r: 0, g: 0, b: 0 });
    let lines = interpret(&chars("XFYZ"), 90_000_000, 0, SCALE, stroke);
    assert_eq!(lines.len(), 1);
    assert_eq!(lines[0].end, Point2D { x: SCALE, y: 0 });
}

#[test]
fn trig_is_exact_at_quadrant_boundaries() {
    assert_eq!(cos_micro(0), SCALE);
    assert_eq!(sin_micro(0), 0);
    assert_eq!(cos_micro(90_000_000), 0);
    assert_eq!(sin_micro(90_000_000), SCALE);
    assert_eq!(cos_micro(180_000_000), -SCALE);
    assert_eq!(sin_micro(180_000_000), 0);
    assert_eq!(cos_micro(270_000_000), 0);
    assert_eq!(sin_micro(270_000_000), -SCALE);
    assert_eq!(cos_micro(360_000_000), SCALE);
    assert_eq!(sin_micro(360_000_000), 0);
}

#[test]
fn trig_stays_close_to_the_real_functions() {
    for deg in 0..=360 {
        let a = deg * 1_000_000i64;
        let s = sin_micro(a) as f64 / 1e6;
        let c = cos_micro(a) as f64 / 1e6;
        let rad = (deg as f64).to_radians();
        assert!((s - rad.sin()).abs() < 1e-3, "sin at {} degrees: {}", deg, s);
        assert!((c - rad.cos()).abs() < 1e-3, "cos at {} degrees: {}", deg, c);
    }
}

#[test]
fn angle_normalization_lands_in_the_standard_turn() {
    assert_eq!(Angle::from_degree(-10_000_000).degree(), 350_000_000);
    assert_eq!(Angle::from_degree(370_000_000).degree(), 10_000_000);
    assert_eq!(Angle::from_degree(0).degree(), 0);
    assert_eq!(Angle::from_degree(360_000_000).degree(), 0);
    assert_eq!(Angle::from_degree(730_000_000).degree(), 10_000_000);
    assert_eq!(Angle::from_degree(-730_000_000).degree(), 350_000_000);
    assert_eq!(Angle::from_degree(i64::MIN).degree() >= 0, true);
    assert_eq!(Angle::from_degree(i64::MAX).degree() < 360_000_000, true);
}

#[test]
fn chaos_game_cloud_length_is_iterations_plus_one() {
    let model = ModelBuilder::default()
        .with_systems(vec![[0, 0, 0, 0, 0, 0, 500_000], [0, 0, 0, 0, SCALE, SCALE, 500_000]])
        .with_color_schemas(vec![ColorScheme::Standard, ColorScheme::Standard])
        .with_iterations(100)
        .with_radius(25_000)
        .build();
    let dots = model.dots().expect("weights sum to one");
    assert_eq!(dots.len(), 101);
    assert_eq!(dots[0].point, Point2D { x: 0, y: 0 });
}

#[test]
fn chaos_game_applies_the_chosen_map() {
    // a single constant map: every generated dot lands on (2, 3)
    let model = ModelBuilder::default()
        .with_systems(vec![[0, 0, 0, 0, 2_000_000, 3_000_000, SCALE]])
        .with_color_schemas(vec![ColorScheme::Fixed(Rgb { r: 7, g: 8, b: 9 })])
        .with_iterations(5)
        .with_radius(25_000)
        .build();
    let dots = model.dots().expect("one full-weight map");
    assert_eq!(dots.len(), 6);
    for dot in &dots[1..] {
        assert_eq!(dot.point, Point2D { x: 2_000_000, y: 3_000_000 });
        assert_eq!(dot.color, Rgb { r: 7, g: 8, b: 9 });
    }
}

#[test]
fn chaos_game_rejects_all_zero_weights() {
    let model = ModelBuilder::default()
        .with_systems(vec![[0, 0, 0, 0, 0, 0, 0]])
        .with_color_schemas(vec![ColorScheme::Standard])
        .with_iterations(5)
        .with_radius(25_000)
        .build();
    assert_eq!(model.dots().unwrap_err(), EngineError::DegenerateWeights);
}

#[test]
fn ifs_state_drawing_request_is_consumed_once() {
    let mut state = IfsState::default();
    state.systems = vec![[0, 0, 0, 0, SCALE, 0, SCALE]];
    state.color_schemas = vec![ColorScheme::Standard];
    state.iterations = 10;
    assert!(state.initialize().is_ok());

    state.request_drawing();
    assert!(state.is_drawing_requested());
    let dots = state.shapes().expect("full-weight map");
    assert_eq!(dots.len(), 11);
    assert!(!state.is_drawing_requested());

    // without a new request the cache is handed out unchanged
    let again = state.shapes().expect("cached");
    assert_eq!(again.len(), 11);
}

#[test]
fn lsystem_state_draws_after_validation() {
    let mut state = LSystemState::default();
    state.initiator = "F".to_string();
    state.rules = vec![String::from("F -> F+F")];
    state.angle = 90_000_000;
    state.initial_angle = 0;
    state.length = SCALE;
    state.iterations = 1;
    assert!(state.initialize().is_ok());

    state.request_drawing();
    let lines = state.shapes();
    assert_eq!(lines.len(), 2);
    assert_eq!(lines[1].end, Point2D { x: SCALE, y: SCALE });

    // the cache stays until the next request
    let cached = state.shapes();
    assert_eq!(cached, lines);
}

#[test]
fn color_schemes_yield_their_colors() {
    let fixed = ColorScheme::Fixed(Rgb { r: 1, g: 2, b: 3 });
    assert_eq!(fixed.get_color(), Rgb { r: 1, g: 2, b: 3 });
    assert_eq!(ColorScheme::Standard.get_color(), Rgb { r: 0, g: 0, b: 0 });
    let _random: Rgb = ColorScheme::Random.get_color();
}

#[test]
fn system_edits_track_the_color_schemes() {
    let mut state = IfsState::default();
    assert_eq!(state.systems.len(), 1);
    assert_eq!(state.color_schemas.len(), 1);
    state.add_empty_system();
    assert_eq!(state.systems.len(), 2);
    assert_eq!(state.color_schemas.len(), 2);
    assert!(!state.is_initialized());
    state.remove_system(0);
    assert_eq!(state.systems.len(), 1);
    state.empty_systems();
    assert!(state.systems.is_empty());
    assert!(state.color_schemas.is_empty());
}
