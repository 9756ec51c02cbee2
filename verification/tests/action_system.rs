use rand::rngs::StdRng;
use rand::{RngCore, SeedableRng};
use turn_based_rpg::action_system::actions::{ActionResolver, ActionResolverResult, CheckToken, HealAction, StrikeAction};
use turn_based_rpg::action_system::bool_tokens::{BoolToken, GreaterThanToken, TrueOrFalseRandomToken};
use turn_based_rpg::action_system::number_tokens::{CharacterHPToken, ConstantToken, NumberToken};
use turn_based_rpg::action_system::{calculate_action_with_coins, ActionCalculationSystem, ActionType, Check, Token, TokenResult};
use turn_based_rpg::battle_system::Character;

fn test_character(name: &str, hp: i32, mp: i32) -> Character {
    Character::new(name.to_string(), hp, mp, 25, true)
}

// ---- rule-line tokens ----

#[test]
fn action_system_test_strike_token() {
    let character = test_character("Test", 100, 50);
    let strike = Token::Strike;
    let mut rng = StdRng::from_entropy();
    match strike.evaluate(&character, &mut rng) {
        TokenResult::Action(ActionType::Strike) => {}
        _ => panic!("Strike should return Action(Strike) for alive character"),
    }
    let dead_character = test_character("Dead", 0, 0);
    match strike.evaluate(&dead_character, &mut rng) {
        TokenResult::Break => {}
        _ => panic!("Strike should return Break for dead character"),
    }
}

#[test]
fn action_system_test_heal_token() {
    let character = test_character("Test", 100, 50);
    let heal = Token::Heal;
    let mut rng = StdRng::from_entropy();
    match heal.evaluate(&character, &mut rng) {
        TokenResult::Action(ActionType::Heal) => {}
        _ => panic!("Heal should return Action(Heal) for alive character"),
    }
    let dead_character = test_character("Dead", 0, 0);
    match heal.evaluate(&dead_character, &mut rng) {
        TokenResult::Break => {}
        _ => panic!("Heal should return Break for dead character"),
    }
}

#[test]
fn heal_token_needs_ten_mp() {
    let mut rng = StdRng::seed_from_u64(1);
    assert_eq!(Token::Heal.evaluate(&test_character("Low", 100, 9), &mut rng), TokenResult::Break);
    assert_eq!(Token::Heal.evaluate(&test_character("Ok", 100, 10), &mut rng), TokenResult::Action(ActionType::Heal));
}

#[test]
fn action_system_test_true_or_false_random() {
    let character = test_character("Test", 100, 50);
    let random = Token::TrueOrFalseRandom;
    let mut rng1 = StdRng::seed_from_u64(42);
    let mut rng2 = StdRng::seed_from_u64(42);
    let result1 = random.evaluate(&character, &mut rng1);
    let result2 = random.evaluate(&character, &mut rng2);
    assert_eq!(std::mem::discriminant(&result1), std::mem::discriminant(&result2));
    let mut rng = StdRng::from_entropy();
    let mut true_count = 0;
    let mut false_count = 0;
    for _ in 0..100 {
        match random.evaluate(&character, &mut rng) {
            TokenResult::Continue(true) => true_count += 1,
            TokenResult::Continue(false) => false_count += 1,
            _ => panic!("TrueOrFalseRandom should only return Continue(bool)"),
        }
    }
    assert!(true_count > 0, "Should have some true results");
    assert!(false_count > 0, "Should have some false results");
}

#[test]
fn action_system_test_check_token() {
    let character = test_character("Test", 100, 50);
    let check_random = Check::new(Token::TrueOrFalseRandom);
    let mut rng = StdRng::from_entropy();
    match check_random.evaluate(&character, &mut rng) {
        TokenResult::Continue(_) | TokenResult::Break => {}
        _ => panic!("Check(TrueOrFalseRandom) should return Continue or Break"),
    }
    let check_strike = Check::new(Token::Strike);
    match check_strike.evaluate(&character, &mut rng) {
        TokenResult::Break => {}
        _ => panic!("Check(Strike) should return Break since Strike returns Action"),
    }
}

#[test]
fn test_action_calculation_system() {
    let mut system = ActionCalculationSystem::new();
    let character = test_character("Test", 100, 50);
    let action = system.calculate_action(&character);
    assert!(action.is_some(), "Should return some action");
    match action.unwrap() {
        ActionType::Strike | ActionType::Heal => {}
    }
}

#[test]
fn action_system_test_seeded_random_deterministic() {
    let character = test_character("Test", 100, 50);
    let random = Token::TrueOrFalseRandom;
    let seed = 12345;
    let mut rng1 = StdRng::seed_from_u64(seed);
    let mut rng2 = StdRng::seed_from_u64(seed);
    let result1 = random.evaluate(&character, &mut rng1);
    let result2 = random.evaluate(&character, &mut rng2);
    match (result1, result2) {
        (TokenResult::Continue(a), TokenResult::Continue(b)) => assert_eq!(a, b),
        _ => panic!("Both should return Continue with same boolean value"),
    }
}

#[test]
fn test_action_system_with_seed() {
    let character = test_character("Test", 100, 50);
    let mut damaged_character = character.clone();
    damaged_character.take_damage(50);
    let mut system1 = ActionCalculationSystem::with_seed(42);
    let mut system2 = ActionCalculationSystem::with_seed(42);
    let action1 = system1.calculate_action(&damaged_character);
    let action2 = system2.calculate_action(&damaged_character);
    assert_eq!(action1, action2, "Same seed should produce same action");
    let mut strike_count = 0;
    let mut heal_count = 0;
    for seed in 0..10 {
        let mut system = ActionCalculationSystem::with_seed(seed);
        if let Some(action) = system.calculate_action(&damaged_character) {
            match action {
                ActionType::Strike => strike_count += 1,
                ActionType::Heal => heal_count += 1,
            }
        }
    }
    assert!(strike_count >= 1, "Should have at least one Strike action across 10 seeds, got {}", strike_count);
    assert!(heal_count >= 1, "Should have at least one Heal action across 10 seeds, got {}", heal_count);
    assert_eq!(strike_count + heal_count, 10, "Should have 10 total actions");
}

#[test]
fn rules_with_given_coins() {
    let rules = vec![vec![Check::new(Token::TrueOrFalseRandom), Token::Heal], vec![Token::Strike]];
    let healthy = test_character("Test", 100, 50);
    assert_eq!(calculate_action_with_coins(&rules, &healthy, &vec![true]), Some(ActionType::Heal));
    assert_eq!(calculate_action_with_coins(&rules, &healthy, &vec![false]), Some(ActionType::Strike));
    assert_eq!(calculate_action_with_coins(&rules, &healthy, &vec![]), Some(ActionType::Strike));
    let no_mp = test_character("Dry", 100, 0);
    assert_eq!(calculate_action_with_coins(&rules, &no_mp, &vec![true]), Some(ActionType::Strike));
    let dead = test_character("Dead", 0, 50);
    assert_eq!(calculate_action_with_coins(&rules, &dead, &vec![true]), None);
    let empty: Vec<Vec<Token>> = vec![];
    assert_eq!(calculate_action_with_coins(&empty, &healthy, &vec![true]), None);
}

#[test]
fn evaluate_with_coins_consumes_one_coin_per_random_token() {
    let healthy = test_character("Test", 100, 50);
    let check = Check::new(Token::TrueOrFalseRandom);
    assert_eq!(check.evaluate_with_coins(&healthy, &vec![true, false], 0), (TokenResult::Continue(true), 1));
    assert_eq!(check.evaluate_with_coins(&healthy, &vec![true, false], 1), (TokenResult::Break, 1));
    assert_eq!(Token::Strike.evaluate_with_coins(&healthy, &vec![true], 0), (TokenResult::Action(ActionType::Strike), 0));
}

// ---- action resolvers ----

#[test]
fn actions_test_strike_token() {
    let character = test_character("Test", 100, 50);
    let strike = StrikeAction;
    let mut rng = StdRng::from_entropy();
    match strike.resolve(&character, &mut rng) {
        ActionResolverResult::Action(ActionType::Strike) => {}
        _ => panic!("StrikeAction should return Action(Strike) for alive character"),
    }
    let dead_character = test_character("Dead", 0, 0);
    match strike.resolve(&dead_character, &mut rng) {
        ActionResolverResult::Break => {}
        _ => panic!("StrikeAction should return Break for dead character"),
    }
}

#[test]
fn actions_test_heal_token() {
    let character = test_character("Test", 100, 50);
    let heal = HealAction;
    let mut rng = StdRng::from_entropy();
    match heal.resolve(&character, &mut rng) {
        ActionResolverResult::Action(ActionType::Heal) => {}
        _ => panic!("HealAction should return Action(Heal) for alive character"),
    }
    let dead_character = test_character("Dead", 0, 0);
    match heal.resolve(&dead_character, &mut rng) {
        ActionResolverResult::Break => {}
        _ => panic!("HealAction should return Break for dead character"),
    }
}

#[test]
fn actions_test_check_token() {
    let character = test_character("Test", 100, 50);
    let check_random = CheckToken::new(
        BoolToken::TrueOrFalseRandom(TrueOrFalseRandomToken),
        ActionResolver::Strike(StrikeAction),
    );
    let mut rng = StdRng::from_entropy();
    match check_random.resolve(&character, &mut rng) {
        ActionResolverResult::Action(_) | ActionResolverResult::Break => {}
    }
}

#[test]
fn check_with_greater_than_condition() {
    let mut rng = StdRng::seed_from_u64(7);
    let check = ActionResolver::Check(CheckToken::new(
        BoolToken::GreaterThan(GreaterThanToken::new(
            Box::new(NumberToken::Constant(ConstantToken::new(50))),
            Box::new(NumberToken::CharacterHP(CharacterHPToken)),
        )),
        ActionResolver::Heal(HealAction),
    ));
    assert_eq!(check.resolve(&test_character("Low", 30, 50), &mut rng), ActionResolverResult::Action(ActionType::Heal));
    assert_eq!(check.resolve(&test_character("High", 80, 50), &mut rng), ActionResolverResult::Break);
}

// ---- boolean tokens ----

#[test]
fn bool_tokens_test_true_or_false_random() {
    let character = test_character("Test", 100, 50);
    let random = TrueOrFalseRandomToken;
    let mut rng1 = StdRng::seed_from_u64(42);
    let mut rng2 = StdRng::seed_from_u64(42);
    let result1 = random.evaluate(&character, &mut rng1);
    let result2 = random.evaluate(&character, &mut rng2);
    assert_eq!(result1, result2);
    let mut rng = StdRng::from_entropy();
    let mut true_count = 0;
    let mut false_count = 0;
    for _ in 0..100 {
        if random.evaluate(&character, &mut rng) {
            true_count += 1;
        } else {
            false_count += 1;
        }
    }
    assert!(true_count > 0, "Should have some true results");
    assert!(false_count > 0, "Should have some false results");
}

#[test]
fn bool_tokens_test_seeded_random_deterministic() {
    let character = test_character("Test", 100, 50);
    let random = TrueOrFalseRandomToken;
    let seed = 12345;
    let mut rng1 = StdRng::seed_from_u64(seed);
    let mut rng2 = StdRng::seed_from_u64(seed);
    let result1 = random.evaluate(&character, &mut rng1);
    let result2 = random.evaluate(&character, &mut rng2);
    assert_eq!(result1, result2);
}

#[test]
fn test_greater_than_token() {
    let character = test_character("Test", 100, 50);
    let mut rng = StdRng::from_entropy();
    let greater_than_token = GreaterThanToken::new(
        Box::new(NumberToken::Constant(ConstantToken::new(60))),
        Box::new(NumberToken::Constant(ConstantToken::new(40))),
    );
    assert_eq!(greater_than_token.evaluate(&character, &mut rng), true);
    let greater_than_token_false = GreaterThanToken::new(
        Box::new(NumberToken::Constant(ConstantToken::new(30))),
        Box::new(NumberToken::Constant(ConstantToken::new(50))),
    );
    assert_eq!(greater_than_token_false.evaluate(&character, &mut rng), false);
}

// ---- number tokens ----

#[test]
fn test_constant_token() {
    let character = test_character("Test", 100, 50);
    let mut rng = StdRng::from_entropy();
    let number_token = ConstantToken::new(42);
    assert_eq!(number_token.evaluate(&character, &mut rng), 42);
}

#[test]
fn constant_token_is_clamped() {
    let character = test_character("Test", 100, 50);
    let mut rng = StdRng::seed_from_u64(0);
    assert_eq!(ConstantToken::new(0).evaluate(&character, &mut rng), 1);
    assert_eq!(ConstantToken::new(-5).evaluate(&character, &mut rng), 1);
    assert_eq!(ConstantToken::new(250).evaluate(&character, &mut rng), 100);
    assert_eq!(ConstantToken::new(100).evaluate(&character, &mut rng), 100);
}

#[test]
fn test_character_hp_token() {
    let character = test_character("Test", 100, 50);
    let mut rng = StdRng::from_entropy();
    let char_hp_token = CharacterHPToken;
    assert_eq!(char_hp_token.evaluate(&character, &mut rng), 100);
}

#[test]
fn resolve_with_given_coins() {
    let check = ActionResolver::Check(CheckToken::new(
        BoolToken::TrueOrFalseRandom(TrueOrFalseRandomToken),
        ActionResolver::Heal(HealAction),
    ));
    let c = test_character("Test", 100, 50);
    assert_eq!(check.resolve_with_coins(&c, &vec![true], 0), (ActionResolverResult::Action(ActionType::Heal), 1));
    assert_eq!(check.resolve_with_coins(&c, &vec![false], 0), (ActionResolverResult::Break, 1));
    assert_eq!(check.resolve_with_coins(&c, &vec![], 0), (ActionResolverResult::Break, 1));
    let strike = ActionResolver::Strike(StrikeAction);
    assert_eq!(strike.resolve_with_coins(&test_character("Dead", 0, 0), &vec![true], 0), (ActionResolverResult::Break, 0));
}

#[test]
fn number_values_need_no_generator() {
    let c = test_character("Test", 37, 50);
    assert_eq!(NumberToken::CharacterHP(CharacterHPToken).value_for(&c), 37);
    assert_eq!(NumberToken::Constant(ConstantToken::new(500)).value_for(&c), 100);
}

#[test]
fn non_random_tokens_leave_the_generator_alone() {
    let c = test_character("Test", 100, 50);
    let mut used = StdRng::seed_from_u64(9);
    let mut fresh = StdRng::seed_from_u64(9);
    Token::Heal.evaluate(&c, &mut used);
    ConstantToken::new(3).evaluate(&c, &mut used);
    CharacterHPToken.evaluate(&c, &mut used);
    assert_eq!(used.next_u64(), fresh.next_u64());
}
