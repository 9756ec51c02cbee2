use turn_based_rpg::token_converter::{
    convert_ui_rules_to_nodes, parse_ui_token, ActionNode, CharacterNode, ConditionNode, ParsedResolver, UITokenType,
    ValueNode,
};
use turn_based_rpg::ui_core::{BattleOrchestrator, CurrentRules, FlatTokenInput, GameMode, GameState};

// ---- game state ----

#[test]
fn test_game_state_creation() {
    let state = GameState::new();
    assert_eq!(state.mode, GameMode::RuleCreation);
    assert_eq!(state.is_rule_creation_mode(), true);
    assert_eq!(state.is_battle_mode(), false);
}

#[test]
fn test_game_state_transitions() {
    let mut state = GameState::new();
    state.switch_to_battle();
    assert_eq!(state.mode, GameMode::Battle);
    assert_eq!(state.is_battle_mode(), true);
    assert_eq!(state.is_rule_creation_mode(), false);
    state.switch_to_rule_creation();
    assert_eq!(state.mode, GameMode::RuleCreation);
    assert_eq!(state.is_rule_creation_mode(), true);
    assert_eq!(state.is_battle_mode(), false);
}

#[test]
fn orchestrator_decisions() {
    let mut state = GameState::new();
    assert!(!BattleOrchestrator::should_start_new_battle(&state, true));
    assert!(!BattleOrchestrator::should_execute_turn(&state, false, true));
    assert_eq!(BattleOrchestrator::get_battle_ui_text(&state), Some("rule_creation_mode"));
    assert_eq!(BattleOrchestrator::get_log_ui_text(&state), Some("rule_creation_log"));
    state.switch_to_battle();
    assert!(BattleOrchestrator::should_start_new_battle(&state, true));
    assert!(!BattleOrchestrator::should_start_new_battle(&state, false));
    assert!(BattleOrchestrator::should_execute_turn(&state, false, true));
    assert!(!BattleOrchestrator::should_execute_turn(&state, true, true));
    assert_eq!(BattleOrchestrator::get_battle_ui_text(&state), None);
    assert_eq!(BattleOrchestrator::get_log_ui_text(&state), None);
    assert!(BattleOrchestrator::should_restart_battle(true, true));
    assert!(!BattleOrchestrator::should_restart_battle(false, true));
}

// ---- rule rows ----

#[test]
fn test_token_manipulation() {
    let mut rules = CurrentRules::new();
    rules.clear_current_row();
    rules.add_token_to_current_row(FlatTokenInput::Strike);
    rules.add_token_to_current_row(FlatTokenInput::ActingCharacter);
    rules.add_token_to_current_row(FlatTokenInput::Heal);
    rules.add_token_to_current_row(FlatTokenInput::ActingCharacter);
    assert_eq!(rules.rules[0].len(), 4);
    assert_eq!(rules.is_current_row_empty(), false);
    assert_eq!(rules.has_valid_rules(), true);
    rules.remove_last_token_from_current_row();
    assert_eq!(rules.rules[0].len(), 3);
    rules.clear_current_row();
    assert_eq!(rules.is_current_row_empty(), true);
    assert_eq!(rules.has_valid_rules(), false);
}

#[test]
fn test_row_navigation() {
    let mut rules = CurrentRules::new();
    assert_eq!(rules.selected_row, 0);
    rules.select_next_row();
    assert_eq!(rules.selected_row, 1);
    rules.select_previous_row();
    assert_eq!(rules.selected_row, 0);
    rules.select_row(10);
    assert_eq!(rules.selected_row, 0);
    rules.select_row(4);
    assert_eq!(rules.selected_row, 4);
    rules.select_next_row();
    assert_eq!(rules.selected_row, 4);
}

#[test]
fn test_rule_count_and_validation() {
    let mut rules = CurrentRules::new();
    assert_eq!(rules.non_empty_rule_count(), 1);
    assert_eq!(rules.has_valid_rules(), true);
    rules.clear_current_row();
    rules.add_token_to_current_row(FlatTokenInput::Strike);
    rules.add_token_to_current_row(FlatTokenInput::RandomPick);
    rules.add_token_to_current_row(FlatTokenInput::AllCharacters);
    assert_eq!(rules.non_empty_rule_count(), 1);
    assert_eq!(rules.has_valid_rules(), true);
    rules.select_next_row();
    rules.add_token_to_current_row(FlatTokenInput::Heal);
    rules.add_token_to_current_row(FlatTokenInput::ActingCharacter);
    assert_eq!(rules.non_empty_rule_count(), 2);
    rules.clear_all();
    assert_eq!(rules.non_empty_rule_count(), 0);
    assert_eq!(rules.has_valid_rules(), false);
    assert_eq!(rules.selected_row, 0);
}

#[test]
fn default_rows_and_previous_at_top() {
    let mut rules = CurrentRules::new();
    assert_eq!(rules.rules.len(), 5);
    assert_eq!(
        rules.rules[0],
        vec![FlatTokenInput::Strike, FlatTokenInput::RandomPick, FlatTokenInput::AllCharacters]
    );
    rules.select_previous_row();
    assert_eq!(rules.selected_row, 0);
    rules.remove_last_token_from_current_row();
    assert_eq!(rules.rules[0].len(), 2);
}

#[test]
fn with_rules_keeps_rows() {
    let rules = CurrentRules::with_rules(vec![vec![], vec![FlatTokenInput::Number(7)]]);
    assert_eq!(rules.selected_row, 0);
    assert_eq!(rules.non_empty_rule_count(), 1);
    assert!(rules.is_current_row_empty());
}

// ---- editor token parsing ----

#[test]
fn test_parse_simple_action_token() {
    let tokens = vec![UITokenType::Strike];
    let result = parse_ui_token(&tokens, 0);
    assert!(result.is_ok());
    let (parsed, consumed) = result.unwrap();
    assert_eq!(consumed, 1);
    assert!(parsed.require_action().is_ok());
}

#[test]
fn test_parse_condition_token() {
    let tokens = vec![UITokenType::TrueOrFalse];
    let result = parse_ui_token(&tokens, 0);
    assert!(result.is_ok());
    let (parsed, consumed) = result.unwrap();
    assert_eq!(consumed, 1);
    assert!(parsed.require_condition().is_ok());
}

#[test]
fn test_parse_value_token() {
    let tokens = vec![UITokenType::Number(42)];
    let result = parse_ui_token(&tokens, 0);
    assert!(result.is_ok());
    let (parsed, consumed) = result.unwrap();
    assert_eq!(consumed, 1);
    assert!(parsed.require_value().is_ok());
}

#[test]
fn test_parse_hp_value_with_character() {
    let tokens = vec![UITokenType::HP, UITokenType::ActingCharacter];
    let result = parse_ui_token(&tokens, 0);
    assert!(result.is_ok());
    let (parsed, consumed) = result.unwrap();
    assert_eq!(consumed, 2);
    assert!(parsed.require_value().is_ok());
}

#[test]
fn test_parse_greater_than_condition() {
    let tokens = vec![UITokenType::GreaterThan, UITokenType::Number(50), UITokenType::HP, UITokenType::ActingCharacter];
    let result = parse_ui_token(&tokens, 0);
    assert!(result.is_ok());
    let (parsed, consumed) = result.unwrap();
    assert_eq!(consumed, 4);
    assert!(parsed.require_condition().is_ok());
}

#[test]
fn test_parse_check_action() {
    let tokens = vec![UITokenType::Check, UITokenType::TrueOrFalse, UITokenType::Strike];
    let result = parse_ui_token(&tokens, 0);
    assert!(result.is_ok());
    let (parsed, consumed) = result.unwrap();
    assert_eq!(consumed, 3);
    assert!(parsed.require_action().is_ok());
}

#[test]
fn test_require_type_mismatch_error() {
    let tokens = vec![UITokenType::Strike];
    let result = parse_ui_token(&tokens, 0);
    assert!(result.is_ok());
    let (parsed, _) = result.unwrap();
    assert!(parsed.require_condition().is_err());
}

#[test]
fn parse_builds_exact_nodes() {
    let tokens = vec![UITokenType::GreaterThan, UITokenType::Number(50), UITokenType::HP, UITokenType::RandomCharacter];
    let (parsed, _) = parse_ui_token(&tokens, 0).unwrap();
    match parsed {
        ParsedResolver::Condition(c) => assert_eq!(
            c,
            ConditionNode::GreaterThan(ValueNode::Constant(50), ValueNode::CharacterHp(CharacterNode::Random))
        ),
        _ => panic!("expected a condition"),
    }
    let heal = vec![UITokenType::Heal, UITokenType::RandomCharacter];
    let (parsed, consumed) = parse_ui_token(&heal, 0).unwrap();
    assert_eq!(consumed, 1);
    match parsed.require_action().unwrap() {
        ActionNode::Heal(CharacterNode::Acting) => {}
        other => panic!("unexpected {:?}", other),
    }
}

#[test]
fn parse_errors() {
    let tokens: Vec<UITokenType> = vec![];
    assert!(parse_ui_token(&tokens, 0).is_err());
    let short = vec![UITokenType::GreaterThan, UITokenType::Number(1)];
    assert!(parse_ui_token(&short, 0).is_err());
    let bad_hp = vec![UITokenType::HP, UITokenType::Strike];
    assert!(parse_ui_token(&bad_hp, 0).is_err());
}

#[test]
fn test_convert_simple_ui_rule() {
    let ui_rules = vec![vec![UITokenType::Strike]];
    let rule_nodes = convert_ui_rules_to_nodes(&ui_rules);
    assert_eq!(rule_nodes.len(), 1);
}

#[test]
fn test_convert_complex_ui_rule() {
    let ui_rules = vec![vec![
        UITokenType::Check,
        UITokenType::GreaterThan,
        UITokenType::Number(50),
        UITokenType::HP,
        UITokenType::ActingCharacter,
        UITokenType::Heal,
    ]];
    let rule_nodes = convert_ui_rules_to_nodes(&ui_rules);
    assert_eq!(rule_nodes.len(), 1);
}

#[test]
fn test_convert_random_character_rule() {
    let ui_rules = vec![vec![
        UITokenType::Check,
        UITokenType::GreaterThan,
        UITokenType::Number(30),
        UITokenType::HP,
        UITokenType::RandomCharacter,
        UITokenType::Heal,
    ]];
    let rule_nodes = convert_ui_rules_to_nodes(&ui_rules);
    assert_eq!(rule_nodes.len(), 1);
}

#[test]
fn conversion_skips_invalid_and_empty_rows() {
    let ui_rules = vec![vec![], vec![UITokenType::Number(3)], vec![UITokenType::Check, UITokenType::TrueOrFalse], vec![UITokenType::Strike]];
    let rule_nodes = convert_ui_rules_to_nodes(&ui_rules);
    assert_eq!(rule_nodes.len(), 1);
}

#[test]
fn require_mismatch_message_names_the_parse() {
    let tokens = vec![UITokenType::Strike];
    let (parsed, _) = parse_ui_token(&tokens, 0).unwrap();
    assert_eq!(parsed.require_condition().unwrap_err(), "Expected Condition, got Action(Strike)");
}

#[test]
fn require_mismatch_message_renders_nested_nodes() {
    let tokens = vec![UITokenType::Check, UITokenType::GreaterThan, UITokenType::Number(50), UITokenType::HP, UITokenType::ActingCharacter, UITokenType::Heal];
    let (parsed, _) = parse_ui_token(&tokens, 0).unwrap();
    assert_eq!(
        parsed.require_value().unwrap_err(),
        "Expected Value, got Action(Check(GreaterThan(Constant(50), CharacterHp(Acting)), Heal(Acting)))"
    );
}
