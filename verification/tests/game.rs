use turn_based_rpg::game_core::battle::Battle as CoreBattle;
use turn_based_rpg::game_core::character::Character as CoreCharacter;
use turn_based_rpg::game_core::skill::Skill;
use turn_based_rpg::game_logic::{Battle as SimpleBattle, Character as SimpleCharacter};
use turn_based_rpg::name_map::NameMap;
use turn_based_rpg::structured_token::StructuredTokenInput;
use turn_based_rpg::type_system::types::Type;
use turn_based_rpg::util::{i32_to_string, str_eq, u64_to_string};

// ---- skills and the speed-ordered battle ----

#[test]
fn attack_damage_is_attack_less_half_defense() {
    let user = CoreCharacter::new("Knight", 100, 30, 10, 5);
    let mut target = CoreCharacter::new("Orc", 50, 10, 21, 3);
    let log = Skill::Attack.execute(&user, &mut target);
    assert_eq!(log.damage, Some(20));
    assert_eq!(log.healing, None);
    assert_eq!(log.action, "attacks");
    assert_eq!(log.actor, "Knight");
    assert_eq!(log.target, "Orc");
    assert_eq!(target.stats.hp, 30);
}

#[test]
fn attack_deals_at_least_one_and_stops_at_zero() {
    let weak = CoreCharacter::new("Weak", 10, 2, 0, 1);
    let mut wall = CoreCharacter::new("Wall", 1, 1, 100, 1);
    let log = Skill::Attack.execute(&weak, &mut wall);
    assert_eq!(log.damage, Some(1));
    assert_eq!(wall.stats.hp, 0);
    assert!(!wall.is_alive());
}

#[test]
fn heal_is_half_attack_capped_at_max() {
    let healer = CoreCharacter::new("Cleric", 40, 15, 5, 5);
    let mut patient = CoreCharacter::new("Patient", 40, 5, 5, 5);
    patient.stats.hp = 10;
    let log = Skill::Heal.execute(&healer, &mut patient);
    assert_eq!(log.healing, Some(7));
    assert_eq!(patient.stats.hp, 17);
    patient.stats.hp = 38;
    let log = Skill::Heal.execute(&healer, &mut patient);
    assert_eq!(log.healing, Some(2));
    assert_eq!(patient.stats.hp, 40);
    assert_eq!(log.action, "heals");
}

#[test]
fn new_character_knows_both_skills() {
    let c = CoreCharacter::new("Hero", 100, 20, 10, 15);
    assert_eq!(c.get_available_skills(), &[Skill::Attack, Skill::Heal]);
    assert_eq!(c.stats.max_hp, 100);
    assert!(c.is_alive());
}

#[test]
fn faster_character_goes_first() {
    let player = CoreCharacter::new("Hero", 100, 20, 10, 5);
    let enemy = CoreCharacter::new("Bat", 30, 8, 2, 9);
    let battle = CoreBattle::new(player, enemy);
    assert_eq!(battle.turn_order.iter().cloned().collect::<Vec<_>>(), vec!["Bat".to_string(), "Hero".to_string()]);
    let tie = CoreBattle::new(CoreCharacter::new("A", 10, 1, 1, 4), CoreCharacter::new("B", 10, 1, 1, 4));
    assert_eq!(tie.turn_order[0], "A");
}

#[test]
fn turns_rotate_and_decide_the_winner() {
    let player = CoreCharacter::new("Hero", 100, 40, 10, 10);
    let enemy = CoreCharacter::new("Slime", 20, 8, 0, 1);
    let mut battle = CoreBattle::new(player, enemy);
    assert_eq!(battle.is_player_winner(), None);
    let over = battle.execute_turn_with(&Skill::Attack, false);
    assert!(over);
    assert_eq!(battle.enemy.stats.hp, 0);
    assert_eq!(battle.turn_order[0], "Slime");
    assert_eq!(battle.logs.len(), 1);
    assert_eq!(battle.is_player_winner(), Some(true));
}

#[test]
fn enemy_heals_itself_when_below_half() {
    let player = CoreCharacter::new("Hero", 100, 10, 10, 1);
    let mut enemy = CoreCharacter::new("Troll", 60, 20, 0, 5);
    enemy.stats.hp = 20;
    let mut battle = CoreBattle::new(player, enemy);
    let over = battle.execute_turn_with(&Skill::Attack, true);
    assert!(!over);
    assert_eq!(battle.enemy.stats.hp, 30);
    assert_eq!(battle.player.stats.hp, 100);
    let over = battle.execute_turn_with(&Skill::Attack, false);
    assert!(!over);
    assert_eq!(battle.enemy.stats.hp, 20);
}

// ---- the simple battle ----

#[test]
fn simple_battle_turns() {
    let player = SimpleCharacter::new("Hero".to_string(), 100, 30, true);
    let enemy = SimpleCharacter::new("Goblin".to_string(), 50, 15, false);
    let mut battle = SimpleBattle::new(player, enemy);
    assert!(battle.is_player_turn());
    assert_eq!(battle.get_current_player_name(), "プレイヤー");
    battle.execute_player_action();
    assert_eq!(battle.enemy.hp, 20);
    assert_eq!(battle.battle_log[0], "HeroがGoblinに30のダメージ！");
    assert_eq!(battle.get_current_player_name(), "敵");
    battle.execute_enemy_action();
    assert!(battle.player.hp >= 85 && battle.player.hp <= 90);
    assert_eq!(battle.current_turn, 2);
    battle.execute_player_action();
    assert!(battle.battle_over);
    assert_eq!(battle.winner.as_deref(), Some("Hero"));
    assert_eq!(battle.get_recent_logs(1)[0], "Heroの勝利！");
    assert_eq!(battle.get_recent_logs(10).len(), 4);
}

#[test]
fn simple_character_damage_floors_at_zero() {
    let mut c = SimpleCharacter::new("X".to_string(), 10, 1, false);
    c.take_damage(25);
    assert_eq!(c.hp, 0);
    assert!(!c.is_alive());
}

// ---- small helpers ----

#[test]
fn number_formatting() {
    assert_eq!(u64_to_string(0), "0");
    assert_eq!(u64_to_string(1234567890), "1234567890");
    assert_eq!(i32_to_string(-42), "-42");
    assert_eq!(i32_to_string(i32::MIN), "-2147483648");
    assert!(str_eq("abc", "abc"));
    assert!(!str_eq("abc", "abd"));
}

#[test]
fn name_map_insert_replaces() {
    let mut m: NameMap<i32> = NameMap::new();
    m.insert("a".to_string(), 1);
    m.insert("b".to_string(), 2);
    m.insert("a".to_string(), 3);
    assert_eq!(m.len(), 2);
    assert_eq!(m.get("a"), Some(&3));
    assert!(m.contains_key("b"));
    assert!(!m.contains_key("c"));
}

#[test]
fn structured_token_names_and_arguments() {
    let t = StructuredTokenInput::Strike { target: Box::new(StructuredTokenInput::ActingCharacter) };
    assert_eq!(t.token_type_name(), "Strike");
    assert!(t.argument("target").is_some());
    assert!(t.argument("value").is_none());
    assert_eq!(t.output_type(), Type::Action);
    let m = StructuredTokenInput::MapList {
        array: Box::new(StructuredTokenInput::AllCharacters),
        transform: Box::new(StructuredTokenInput::Element),
    };
    assert_eq!(m.token_type_name(), "Map");
}

#[test]
fn attack_on_a_target_at_maximum_hp() {
    let user = CoreCharacter::new("Knight", 100, 30, 10, 5);
    let mut target = CoreCharacter::new("Giant", i32::MAX, 10, 0, 3);
    let log = Skill::Attack.execute(&user, &mut target);
    assert_eq!(log.damage, Some(30));
    assert_eq!(target.stats.hp, i32::MAX - 30);
}

#[test]
fn simple_battle_hit_directly() {
    let player = SimpleCharacter::new("Hero".to_string(), 100, 30, true);
    let enemy = SimpleCharacter::new("Goblin".to_string(), 50, 15, false);
    let mut battle = SimpleBattle::new(player, enemy);
    battle.hit(false, 12);
    assert_eq!(battle.player.hp, 88);
    assert_eq!(battle.current_turn, 1);
    assert_eq!(battle.battle_log[0], "GoblinがHeroに12のダメージ！");
}
