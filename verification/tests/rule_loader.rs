use turn_based_rpg::rule_input_model::{RuleChain, RuleSet, TokenConfig, ValidatedRuleChain};
use turn_based_rpg::rule_loader::{convert_to_token_rules, TokenNode};

fn one_chain(tokens: Vec<TokenConfig>) -> RuleSet {
    RuleSet { rules: vec![RuleChain { tokens }] }
}

#[test]
fn test_convert_simple_tokens() {
    let rule_set = one_chain(vec![TokenConfig::Strike, TokenConfig::Heal]);
    let token_rules = convert_to_token_rules(&rule_set).unwrap();
    assert_eq!(token_rules.len(), 1);
    assert_eq!(token_rules[0].len(), 2);
}

#[test]
fn test_convert_complex_tokens() {
    let rule_set = one_chain(vec![
        TokenConfig::Check { condition: None, args: vec![TokenConfig::TrueOrFalseRandom] },
        TokenConfig::GreaterThan {
            left: None,
            right: None,
            args: vec![
                TokenConfig::Number { value: 50 },
                TokenConfig::CharacterHP { character: None, args: vec![TokenConfig::ActingCharacter] },
            ],
        },
        TokenConfig::Strike,
    ]);
    let token_rules = convert_to_token_rules(&rule_set).unwrap();
    assert_eq!(token_rules.len(), 1);
    assert_eq!(token_rules[0].len(), 3);
    match &token_rules[0][1] {
        TokenNode::GreaterThan(l, r) => {
            assert!(matches!(**l, TokenNode::Number(50)));
            match &**r {
                TokenNode::CharacterHP(c) => assert!(matches!(**c, TokenNode::ActingCharacter)),
                other => panic!("unexpected {:?}", other),
            }
        }
        other => panic!("unexpected {:?}", other),
    }
}

#[test]
fn test_convert_check_token_error_no_args_or_condition() {
    let rule_set = one_chain(vec![TokenConfig::Check { condition: None, args: vec![] }, TokenConfig::Strike]);
    let result = convert_to_token_rules(&rule_set);
    assert!(result.is_err());
    if let Err(error_msg) = result {
        assert!(error_msg.contains("Check token requires either args or condition"));
    }
}

#[test]
fn test_convert_greater_than_token_error_insufficient_args() {
    let rule_set = one_chain(vec![
        TokenConfig::GreaterThan { left: None, right: None, args: vec![TokenConfig::Number { value: 50 }] },
        TokenConfig::Strike,
    ]);
    let result = convert_to_token_rules(&rule_set);
    assert!(result.is_err());
    if let Err(error_msg) = result {
        assert!(error_msg.contains("GreaterThan token requires either args array with 2 elements"));
    }
}

#[test]
fn test_convert_character_hp_token_error_no_args_or_character() {
    let rule_set = one_chain(vec![TokenConfig::CharacterHP { character: None, args: vec![] }]);
    let result = convert_to_token_rules(&rule_set);
    assert!(result.is_err());
    if let Err(error_msg) = result {
        assert!(error_msg.contains("CharacterHP token requires either args or character field"));
    }
}

#[test]
fn test_convert_character_hp_token_error_unknown_character() {
    let rule_set = one_chain(vec![TokenConfig::CharacterHP { character: Some("UnknownCharacter".to_string()), args: vec![] }]);
    let result = convert_to_token_rules(&rule_set);
    assert!(result.is_err());
    if let Err(error_msg) = result {
        assert!(error_msg.contains("Unknown character type: UnknownCharacter"));
    }
}

#[test]
fn test_convert_nested_error_propagation() {
    let rule_set = one_chain(vec![
        TokenConfig::Check {
            condition: None,
            args: vec![TokenConfig::CharacterHP { character: Some("InvalidCharacter".to_string()), args: vec![] }],
        },
        TokenConfig::Strike,
    ]);
    let result = convert_to_token_rules(&rule_set);
    assert!(result.is_err());
    if let Err(error_msg) = result {
        assert!(error_msg.contains("Unknown character type: InvalidCharacter"));
    }
}

#[test]
fn test_continue_token_at_end_error_check() {
    let rule_set = one_chain(vec![TokenConfig::Check { condition: None, args: vec![TokenConfig::TrueOrFalseRandom] }]);
    let result = convert_to_token_rules(&rule_set);
    assert!(result.is_err());
    if let Err(error_msg) = result {
        assert!(error_msg.contains("Check token at position 0 cannot be the last token"));
    }
}

#[test]
fn test_continue_token_at_end_error_greater_than() {
    let rule_set = one_chain(vec![TokenConfig::GreaterThan {
        left: None,
        right: None,
        args: vec![TokenConfig::Number { value: 50 }, TokenConfig::Number { value: 30 }],
    }]);
    let result = convert_to_token_rules(&rule_set);
    assert!(result.is_err());
    if let Err(error_msg) = result {
        assert!(error_msg.contains("GreaterThan token at position 0 cannot be the last token"));
    }
}

#[test]
fn test_continue_token_at_end_error_true_or_false_random() {
    let rule_set = one_chain(vec![TokenConfig::TrueOrFalseRandom]);
    let result = convert_to_token_rules(&rule_set);
    assert!(result.is_err());
    if let Err(error_msg) = result {
        assert!(error_msg.contains("TrueOrFalseRandom token at position 0 cannot be the last token"));
    }
}

#[test]
fn test_valid_continue_token_with_following_action() {
    let rule_set = one_chain(vec![
        TokenConfig::Check { condition: None, args: vec![TokenConfig::TrueOrFalseRandom] },
        TokenConfig::Strike,
    ]);
    let result = convert_to_token_rules(&rule_set);
    assert!(result.is_ok());
    let token_rules = result.unwrap();
    assert_eq!(token_rules.len(), 1);
    assert_eq!(token_rules[0].len(), 2);
}

#[test]
fn test_action_token_at_end_is_valid() {
    let rule_set = one_chain(vec![TokenConfig::Strike]);
    let result = convert_to_token_rules(&rule_set);
    assert!(result.is_ok());
    let token_rules = result.unwrap();
    assert_eq!(token_rules.len(), 1);
    assert_eq!(token_rules[0].len(), 1);
}

#[test]
fn fallback_fields_are_used_without_args() {
    let rule_set = one_chain(vec![
        TokenConfig::Check { condition: Some(Box::new(TokenConfig::TrueOrFalseRandom)), args: vec![] },
        TokenConfig::CharacterHP { character: Some("Self".to_string()), args: vec![] },
        TokenConfig::GreaterThan {
            left: Some(Box::new(TokenConfig::Number { value: 1 })),
            right: Some(Box::new(TokenConfig::Number { value: 2 })),
            args: vec![],
        },
        TokenConfig::Heal,
    ]);
    let token_rules = convert_to_token_rules(&rule_set).unwrap();
    assert!(matches!(token_rules[0][0], TokenNode::Check(_)));
    match &token_rules[0][1] {
        TokenNode::CharacterHP(c) => assert!(matches!(**c, TokenNode::ActingCharacter)),
        other => panic!("unexpected {:?}", other),
    }
    assert!(matches!(token_rules[0][3], TokenNode::Heal));
}

#[test]
fn empty_rule_set_converts_to_no_rules() {
    let rule_set = RuleSet { rules: vec![] };
    assert_eq!(convert_to_token_rules(&rule_set).unwrap().len(), 0);
}

#[test]
fn validation_alone() {
    let ok = RuleChain { tokens: vec![TokenConfig::TrueOrFalseRandom, TokenConfig::Strike] };
    assert_eq!(ValidatedRuleChain::from_rule_chain(&ok).unwrap().tokens.len(), 2);
    let bad = RuleChain { tokens: vec![TokenConfig::Strike, TokenConfig::TrueOrFalseRandom] };
    assert_eq!(
        ValidatedRuleChain::from_rule_chain(&bad).unwrap_err(),
        "TrueOrFalseRandom token at position 1 cannot be the last token in a rule chain. \
        TrueOrFalseRandom tokens may continue execution and require subsequent tokens."
    );
}
