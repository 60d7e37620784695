use fractals::lsystem::state::LSystemState;
use fractals::lsystem::validation::ValidationError;

fn kolam_rules() -> Vec<String> {
    vec![
        String::from("X -> X+YF++YF-FX--FXFX-YF+"),
        String::from("Y -> -FX+YFYF++YF+FX--FX-Y"),
    ]
}

#[test]
fn valid() {
    let mut state = LSystemState::default();
    state.initiator = "FX".to_string();
    state.rules = kolam_rules();

    let result = state.initialize();

    assert!(result.is_ok());
    assert!(state.is_initialized());
}

#[test]
fn empty_axiom() {
    let mut state = LSystemState::default();
    state.initiator = "".to_string();
    state.rules = kolam_rules();

    let result = state.initialize();

    assert!(matches!(result, Err(ValidationError::InitiatorIsEmpty)));
}

#[test]
fn wrong_angle_range() {
    let mut state = LSystemState::default();
    state.initiator = "FX".to_string();
    state.angle = -1_000_000;
    state.initial_angle = 1_000_000;
    state.rules = kolam_rules();

    let result = state.initialize();

    assert!(matches!(result, Err(ValidationError::BadAngleValue)));
}

#[test]
fn wrong_initial_angle_range() {
    let mut state = LSystemState::default();
    state.initiator = "FX".to_string();
    state.angle = 1_000_000;
    state.initial_angle = -1_000_000;
    state.rules = kolam_rules();

    let result = state.initialize();

    assert!(matches!(result, Err(ValidationError::BadAngleValue)));
}

#[test]
fn wrong_length_range() {
    let mut state = LSystemState::default();
    state.initiator = "FX".to_string();
    state.length = -1_000_000;
    state.rules = kolam_rules();

    let result = state.initialize();

    assert!(matches!(result, Err(ValidationError::BadLengthValue)));
}

#[test]
fn wrong_iterations_range() {
    let mut state = LSystemState::default();
    state.initiator = "FX".to_string();
    state.iterations = 0;
    state.rules = kolam_rules();

    let result = state.initialize();

    assert!(matches!(result, Err(ValidationError::BadIterationsValue)));
}

#[test]
fn wrong_rule_syntax() {
    let mut state = LSystemState::default();
    state.initiator = "FX".to_string();
    state.rules = vec![
        String::from("X-> X+YF++YF-FX--FXFX-YF+"),
        String::from("-> -FX+YFYF++YF+FX--FX-Y"),
    ];

    let result = state.initialize();

    assert!(matches!(result, Err(ValidationError::WrongRuleSyntax(_))));
}

#[test]
fn empty_rule_constant() {
    let mut state = LSystemState::default();
    state.initiator = "FX".to_string();
    state.rules = vec![
        String::from("X -> X+YF++YF-FX--FXFX-YF+"),
        String::from("  -> -FX+YFYF++YF+FX--FX-Y"),
    ];

    let result = state.initialize();

    assert!(matches!(result, Err(ValidationError::RuleConstantIsEmpty(_))));
}

#[test]
fn empty_rule_condition() {
    let mut state = LSystemState::default();
    state.initiator = "FX".to_string();
    state.rules = vec![String::from("X -> X+YF++YF-FX--FXFX-YF+"), String::from("Y ->  ")];

    let result = state.initialize();

    assert!(matches!(result, Err(ValidationError::RuleConditionIsEmpty(_))));
}

#[test]
fn non_alphabet_symbol_axiom() {
    let mut state = LSystemState::default();
    state.initiator = "FDX".to_string();
    state.rules = kolam_rules();

    let result = state.initialize();

    assert!(matches!(result, Err(ValidationError::NonAlphabetSymbolInitiator(_))));
}

#[test]
fn non_alphabet_symbol_condition() {
    let mut state = LSystemState::default();
    state.initiator = "FX".to_string();
    state.rules = vec![
        String::from("X -> X+YF++YF-FX--FXFX-YF+"),
        String::from("Y -> -FX+YFYDF++YF+FX--FX-Y"),
    ];

    let result = state.initialize();

    assert!(matches!(result, Err(ValidationError::NonAlphabetSymbolCondition(_, _))));
}

#[test]
fn failed_validation_keeps_the_error_details() {
    let mut state = LSystemState::default();
    state.initiator = "F".to_string();
    state.rules = vec![String::from("F -> FF"), String::from("broken")];

    match state.initialize() {
        Err(ValidationError::WrongRuleSyntax(index)) => assert_eq!(index, 2),
        other => panic!("expected WrongRuleSyntax, got {:?}", other),
    }
    assert!(!state.is_initialized());

    assert_eq!(
        ValidationError::WrongRuleSyntax(2).additional_info(),
        Some(String::from("Rule: 2"))
    );
    assert_eq!(
        ValidationError::NonAlphabetSymbolCondition(3, 'D').additional_info(),
        Some(String::from("Rule: 3\nSymbol: D"))
    );
    assert_eq!(
        ValidationError::NonAlphabetSymbolInitiator('D').additional_info(),
        Some(String::from("Symbol: D"))
    );
    assert_eq!(ValidationError::InitiatorIsEmpty.additional_info(), None);
}

#[test]
fn unicode_whitespace_counts_as_blank() {
    // trim-style whitespace: a no-break space is not a symbol
    let mut state = LSystemState::default();
    state.initiator = "F".to_string();
    state.rules = vec![String::from("F -> FF"), String::from("\u{00A0} -> F")];
    assert!(matches!(
        state.initialize(),
        Err(ValidationError::RuleConstantIsEmpty(2))
    ));

    state.rules = vec![String::from("F -> FF"), String::from("Y -> \u{00A0}")];
    assert!(matches!(
        state.initialize(),
        Err(ValidationError::RuleConditionIsEmpty(2))
    ));
}

#[test]
fn terminals_alone_form_a_valid_system() {
    let mut state = LSystemState::default();
    state.initiator = "F+F-[F]".to_string();
    state.rules = vec![String::from("F -> F+F")];

    assert!(state.initialize().is_ok());
}

#[test]
fn rule_edits_reset_initialization() {
    let mut state = LSystemState::default();
    state.initiator = "F".to_string();
    state.rules = vec![String::from("F -> FF")];
    assert!(state.initialize().is_ok());
    assert!(state.is_initialized());

    state.push_empty_rule();
    assert!(!state.is_initialized());
    assert_eq!(state.rules.len(), 2);

    state.remove_rule(1);
    assert_eq!(state.rules.len(), 1);

    state.reset_with_empty_rules();
    assert!(state.rules.is_empty());
}
