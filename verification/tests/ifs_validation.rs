use fractals::ifs::state::IfsState;
use fractals::ifs::validation::ValidationError;

#[test]
fn valid_probability_range() {
    let mut state = IfsState::default();
    state.systems = vec![[0, 0, 0, 0, 0, 0, 500_000]];

    let result = state.initialize();

    assert!(result.is_ok());
}

#[test]
fn negative_probability() {
    let mut state = IfsState::default();
    state.systems = vec![
        [307_692, -531_469, -461_538, -293_706, 5_401_953, 8_655_175, 400_000],
        [307_692, -76_923, 153_846, -447_552, -1_295_248, 4_152_990, -150_000],
        [0, 545_455, 692_308, -195_804, -4_893_637, 7_269_794, 450_000],
    ];

    let result = state.initialize();

    assert!(matches!(result, Err(ValidationError::BadProbability(_))));
}

#[test]
fn probability_greater_than_one() {
    let mut state = IfsState::default();
    state.systems = vec![
        [307_692, -531_469, -461_538, -293_706, 5_401_953, 8_655_175, 400_000],
        [307_692, -76_923, 153_846, -447_552, -1_295_248, 4_152_990, 150_000],
        [307_692, -76_923, 153_846, -447_552, -1_295_248, 4_152_990, 1_010_000],
        [0, 545_455, 692_308, -195_804, -4_893_637, 7_269_794, 450_000],
    ];

    let result = state.initialize();

    assert!(matches!(result, Err(ValidationError::BadProbability(_))));
}

#[test]
fn no_systems() {
    let mut state = IfsState::default();
    state.systems = vec![];

    let result = state.initialize();

    assert!(matches!(result, Err(ValidationError::NoSystems)));
}

#[test]
fn sum_greater_than_one() {
    let mut state = IfsState::default();
    state.systems = vec![
        [787_879, -424_242, 242_424, 859_848, 1_758_647, 1_408_065, 895_652],
        [-121_212, 257_576, 151_515, 53_030, -6_721_654, 1_377_236, 250_000],
        [181_818, -136_364, 90_909, 181_818, 6_086_107, 1_568_035, 52_174],
    ];

    let result = state.initialize();

    assert!(matches!(result, Err(ValidationError::BadProbabilitySum(_))));
}

#[test]
fn bad_probability_reports_the_offending_value() {
    let mut state = IfsState::default();
    state.systems = vec![
        [0, 0, 0, 0, 0, 0, 400_000],
        [0, 0, 0, 0, 0, 0, -150_000],
    ];

    match state.initialize() {
        Err(ValidationError::BadProbability(value)) => assert_eq!(value, -150_000),
        other => panic!("expected BadProbability, got {:?}", other),
    }
}

#[test]
fn bad_probability_sum_reports_the_sum() {
    let mut state = IfsState::default();
    state.systems = vec![
        [0, 0, 0, 0, 0, 0, 895_652],
        [0, 0, 0, 0, 0, 0, 250_000],
        [0, 0, 0, 0, 0, 0, 52_174],
    ];

    match state.initialize() {
        Err(ValidationError::BadProbabilitySum(sum)) => assert_eq!(sum, 1_197_826),
        other => panic!("expected BadProbabilitySum, got {:?}", other),
    }
}

#[test]
fn epsilon_band_admits_slightly_heavy_weights() {
    // 1 + 1e-6 is within the band; 1 + 2e-6 is not.
    let mut state = IfsState::default();
    state.systems = vec![[0, 0, 0, 0, 0, 0, 1_000_001]];
    assert!(state.initialize().is_ok());

    state.systems = vec![[0, 0, 0, 0, 0, 0, 1_000_002]];
    assert!(matches!(
        state.initialize(),
        Err(ValidationError::BadProbability(1_000_002))
    ));
}

#[test]
fn initialization_flag_follows_validation() {
    let mut state = IfsState::default();
    assert!(!state.is_initialized());
    assert!(state.initialize().is_ok());
    assert!(state.is_initialized());
    state.reset_initialization();
    assert!(!state.is_initialized());
}

#[test]
fn error_summaries_match_the_taxonomy() {
    assert_eq!(
        ValidationError::NoSystems.summary(),
        "The provided list of systems is empty. At least one system is required."
    );
    assert_eq!(
        ValidationError::BadProbability(2_000_000).summary(),
        "Probability have to be in range 0..=1"
    );
    assert_eq!(
        ValidationError::BadProbabilitySum(2_000_000).summary(),
        "Probability sum have to be lower than 1"
    );
    assert_eq!(
        ValidationError::BadProbability(-150_000).additional_info(),
        Some(String::from("Value: -0.150000"))
    );
    assert_eq!(ValidationError::NoSystems.additional_info(), None);
}
