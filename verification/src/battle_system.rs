//! A one-on-one battle: characters with HP and MP, and turns that alternate
//! between the player and the enemy, each acting by the rules of the action
//! system.

use vstd::prelude::*;
use vstd::string::StringExecFns;
use crate::action_system::{ActionCalculationSystem, ActionType, Token, eval_rules, lines_of};
use crate::util::{owned, decimal, signed_decimal, usize_to_string, i32_to_string};

verus! {

/// A character of the battle.
#[derive(Debug)]
pub struct Character {
    pub name: String,
    pub hp: i32,
    pub max_hp: i32,
    pub mp: i32,
    pub max_mp: i32,
    pub attack: i32,
    pub is_player: bool,
}

/// HP within `0..=max_hp` and MP within `0..=max_mp`.
pub open spec fn character_valid(c: Character) -> bool {
    0 <= c.hp <= c.max_hp && 0 <= c.mp <= c.max_mp
}

/// `hp` after `damage`, never below zero.
pub open spec fn damaged(hp: int, damage: int) -> int {
    if hp - damage > 0 { hp - damage } else { 0 }
}

/// `value` raised by `amount`, never above `max`.
pub open spec fn raised(value: int, amount: int, max: int) -> int {
    if value + amount < max { value + amount } else { max }
}

impl Character {
    /// A character at full HP and MP.
    pub fn new(name: String, max_hp: i32, max_mp: i32, attack: i32, is_player: bool) -> (r: Self)
        ensures
            r.name == name,
            r.hp == max_hp,
            r.max_hp == max_hp,
            r.mp == max_mp,
            r.max_mp == max_mp,
            r.attack == attack,
            r.is_player == is_player,
    {
        Self { name, hp: max_hp, max_hp, mp: max_mp, max_mp, attack, is_player }
    }

    /// Whether the character has HP left.
    pub fn is_alive(&self) -> (r: bool)
        ensures
            r == (self.hp > 0),
    {
        self.hp > 0
    }

    /// Loses `damage` HP, down to zero at most.
    pub fn take_damage(&mut self, damage: i32)
        requires
            i32::MIN <= old(self).hp - damage <= i32::MAX,
        ensures
            final(self).hp == damaged(old(self).hp as int, damage as int),
            final(self).name == old(self).name,
            final(self).max_hp == old(self).max_hp,
            final(self).mp == old(self).mp,
            final(self).max_mp == old(self).max_mp,
            final(self).attack == old(self).attack,
            final(self).is_player == old(self).is_player,
            character_valid(*old(self)) && damage >= 0 ==> character_valid(*final(self)),
    {
        let h = self.hp - damage;
        self.hp = if h > 0 { h } else { 0 };
    }

    /// Gains `amount` HP, up to the maximum at most.
    pub fn heal(&mut self, amount: i32)
        requires
            i32::MIN <= old(self).hp + amount <= i32::MAX,
        ensures
            final(self).hp == raised(old(self).hp as int, amount as int, old(self).max_hp as int),
            final(self).name == old(self).name,
            final(self).max_hp == old(self).max_hp,
            final(self).mp == old(self).mp,
            final(self).max_mp == old(self).max_mp,
            final(self).attack == old(self).attack,
            final(self).is_player == old(self).is_player,
            character_valid(*old(self)) && amount >= 0 ==> character_valid(*final(self)),
    {
        let h = self.hp + amount;
        self.hp = if h < self.max_hp { h } else { self.max_hp };
    }

    /// Spends `amount` MP when there is that much; says whether it did.
    pub fn consume_mp(&mut self, amount: i32) -> (r: bool)
        requires
            old(self).mp >= amount ==> i32::MIN <= old(self).mp - amount <= i32::MAX,
        ensures
            r == (old(self).mp >= amount),
            final(self).mp == (if r { old(self).mp - amount } else { old(self).mp as int }),
            final(self).name == old(self).name,
            final(self).hp == old(self).hp,
            final(self).max_hp == old(self).max_hp,
            final(self).max_mp == old(self).max_mp,
            final(self).attack == old(self).attack,
            final(self).is_player == old(self).is_player,
            character_valid(*old(self)) && amount >= 0 ==> character_valid(*final(self)),
    {
        if self.mp >= amount {
            self.mp = self.mp - amount;
            true
        } else {
            false
        }
    }

    /// Regains `amount` MP, up to the maximum at most.
    pub fn restore_mp(&mut self, amount: i32)
        requires
            i32::MIN <= old(self).mp + amount <= i32::MAX,
        ensures
            final(self).mp == raised(old(self).mp as int, amount as int, old(self).max_mp as int),
            final(self).name == old(self).name,
            final(self).hp == old(self).hp,
            final(self).max_hp == old(self).max_hp,
            final(self).max_mp == old(self).max_mp,
            final(self).attack == old(self).attack,
            final(self).is_player == old(self).is_player,
            character_valid(*old(self)) && amount >= 0 ==> character_valid(*final(self)),
    {
        let m = self.mp + amount;
        self.mp = if m < self.max_mp { m } else { self.max_mp };
    }

    /// A copy of this character.
    pub fn duplicate(&self) -> (r: Self)
        ensures
            r == *self,
    {
        Character {
            name: self.name.clone(),
            hp: self.hp,
            max_hp: self.max_hp,
            mp: self.mp,
            max_mp: self.max_mp,
            attack: self.attack,
            is_player: self.is_player,
        }
    }
}

impl Clone for Character {
    fn clone(&self) -> (r: Self)
        ensures
            r == *self,
    {
        self.duplicate()
    }
}

/// The MP that healing costs.
pub const HEAL_COST: i32 = 10;

/// The HP that healing gives.
pub const HEAL_AMOUNT: i32 = 20;

/// "ターン`turn`: ", the start of each turn's log line.
pub open spec fn turn_text(turn: nat) -> Seq<char> {
    "ターン"@ + decimal(turn) + ": "@
}

/// The log line of an action of `actor` against `target` in turn `turn`
/// (counted from one).
pub open spec fn action_log(turn: nat, actor: Character, target: Character, action: Option<ActionType>) -> Seq<char> {
    match action {
        Some(ActionType::Strike) =>
            turn_text(turn) + actor.name@ + "が"@ + target.name@ + "に"@ + signed_decimal(actor.attack as int)
                + "のダメージ！"@,
        Some(ActionType::Heal) =>
            if actor.mp >= HEAL_COST {
                turn_text(turn) + actor.name@ + "がMP10を消費して"@ + signed_decimal(HEAL_AMOUNT as int) + "回復！"@
            } else {
                turn_text(turn) + actor.name@ + "はMPが足りない！"@
            },
        None => turn_text(turn) + actor.name@ + "は何もしなかった"@,
    }
}

/// The log line of a victory.
pub open spec fn victory_log(name: Seq<char>) -> Seq<char> {
    name + "の勝利！"@
}

/// The actor's HP after its action.
pub open spec fn actor_hp_after(actor: Character, action: Option<ActionType>) -> int {
    if action == Some(ActionType::Heal) && actor.mp >= HEAL_COST {
        raised(actor.hp as int, HEAL_AMOUNT as int, actor.max_hp as int)
    } else {
        actor.hp as int
    }
}

/// The actor's MP after its action.
pub open spec fn actor_mp_after(actor: Character, action: Option<ActionType>) -> int {
    if action == Some(ActionType::Heal) && actor.mp >= HEAL_COST { actor.mp - HEAL_COST } else { actor.mp as int }
}

/// The target's HP after the actor's action.
pub open spec fn target_hp_after(actor: Character, target: Character, action: Option<ActionType>) -> int {
    if action == Some(ActionType::Strike) { damaged(target.hp as int, actor.attack as int) } else { target.hp as int }
}

/// The arithmetic of the action taken stays within `i32`: a strike's new HP
/// of the target, a heal's (when the MP suffices) new HP of the actor.
pub open spec fn action_in_range(actor: Character, target: Character, action: Option<ActionType>) -> bool {
    match action {
        Some(ActionType::Strike) => i32::MIN <= target.hp - actor.attack <= i32::MAX,
        Some(ActionType::Heal) => actor.mp >= HEAL_COST ==> i32::MIN <= actor.hp + HEAL_AMOUNT <= i32::MAX,
        None => true,
    }
}

/// Whatever action the rules choose for `actor`, its arithmetic stays within
/// `i32`.
pub open spec fn rules_in_range(rules: Seq<Seq<Token>>, actor: Character, target: Character) -> bool {
    forall|coins: Seq<bool>| #![trigger eval_rules(rules, actor.hp, actor.mp, coins, 0)]
        action_in_range(actor, target, eval_rules(rules, actor.hp, actor.mp, coins, 0))
}

/// `c` is `before` with HP `hp` and MP `mp`.
pub open spec fn same_but_hp_mp(c: Character, before: Character, hp: int, mp: int) -> bool {
    &&& c.name == before.name
    &&& c.hp == hp
    &&& c.max_hp == before.max_hp
    &&& c.mp == mp
    &&& c.max_mp == before.max_mp
    &&& c.attack == before.attack
    &&& c.is_player == before.is_player
}

/// The texts of the log lines.
pub open spec fn log_texts(log: Seq<String>) -> Seq<Seq<char>> {
    log.map_values(|s: String| s@)
}

/// A one-on-one battle.
pub struct Battle {
    pub player: Character,
    pub enemy: Character,
    pub current_turn: usize,
    pub battle_over: bool,
    pub winner: Option<String>,
    pub battle_log: Vec<String>,
    pub action_system: ActionCalculationSystem,
}

/// The battle is not over and the turn number is even.
pub open spec fn player_turn(b: Battle) -> bool {
    !b.battle_over && b.current_turn % 2 == 0
}

/// `after` is `before` after the player's turn with `action`.
pub open spec fn player_turn_done(before: Battle, after: Battle, action: Option<ActionType>) -> bool {
    let enemy_hp = target_hp_after(before.player, before.enemy, action);
    let line = action_log((before.current_turn + 1) as nat, before.player, before.enemy, action);
    &&& same_but_hp_mp(after.player, before.player, actor_hp_after(before.player, action), actor_mp_after(before.player, action))
    &&& same_but_hp_mp(after.enemy, before.enemy, enemy_hp, before.enemy.mp as int)
    &&& after.current_turn == before.current_turn + 1
    &&& after.battle_over == (before.battle_over || enemy_hp <= 0)
    &&& after.winner == (if enemy_hp <= 0 { Some(before.player.name) } else { before.winner })
    &&& log_texts(after.battle_log@) == log_texts(before.battle_log@).push(line)
        + (if enemy_hp <= 0 { seq![victory_log(before.player.name@)] } else { Seq::empty() })
    &&& after.action_system.rules@ == before.action_system.rules@
}

/// `after` is `before` after the enemy's turn with `action`.
pub open spec fn enemy_turn_done(before: Battle, after: Battle, action: Option<ActionType>) -> bool {
    let player_hp = target_hp_after(before.enemy, before.player, action);
    let line = action_log((before.current_turn + 1) as nat, before.enemy, before.player, action);
    &&& same_but_hp_mp(after.enemy, before.enemy, actor_hp_after(before.enemy, action), actor_mp_after(before.enemy, action))
    &&& same_but_hp_mp(after.player, before.player, player_hp, before.player.mp as int)
    &&& after.current_turn == before.current_turn + 1
    &&& after.battle_over == (before.battle_over || player_hp <= 0)
    &&& after.winner == (if player_hp <= 0 { Some(before.enemy.name) } else { before.winner })
    &&& log_texts(after.battle_log@) == log_texts(before.battle_log@).push(line)
        + (if player_hp <= 0 { seq![victory_log(before.enemy.name@)] } else { Seq::empty() })
    &&& after.action_system.rules@ == before.action_system.rules@
}

/// The log line of an action, as a string.
fn action_log_string(turn: usize, actor: &Character, target: &Character, action: Option<ActionType>) -> (r: String)
    ensures
        r@ == action_log(turn as nat, *actor, *target, action),
{
    let t = usize_to_string(turn);
    let head = owned("ターン").concat(t.as_str()).concat(": ").concat(actor.name.as_str());
    match action {
        Some(ActionType::Strike) => {
            let d = i32_to_string(actor.attack);
            head.concat("が").concat(target.name.as_str()).concat("に").concat(d.as_str()).concat("のダメージ！")
        },
        Some(ActionType::Heal) => {
            if actor.mp >= HEAL_COST {
                let h = i32_to_string(HEAL_AMOUNT);
                head.concat("がMP10を消費して").concat(h.as_str()).concat("回復！")
            } else {
                head.concat("はMPが足りない！")
            }
        },
        None => head.concat("は何もしなかった"),
    }
}

/// The log line of a victory, as a string.
fn victory_log_string(name: &String) -> (r: String)
    ensures
        r@ == victory_log(name@),
{
    name.clone().concat("の勝利！")
}

/// Carries out `action` of `actor` against `target`.
fn perform(actor: &mut Character, target: &mut Character, action: Option<ActionType>)
    requires
        action_in_range(*old(actor), *old(target), action),
    ensures
        same_but_hp_mp(*final(actor), *old(actor), actor_hp_after(*old(actor), action), actor_mp_after(*old(actor), action)),
        same_but_hp_mp(*final(target), *old(target), target_hp_after(*old(actor), *old(target), action), old(target).mp as int),
{
    match action {
        Some(ActionType::Strike) => {
            let damage = actor.attack;
            target.take_damage(damage);
        },
        Some(ActionType::Heal) => {
            if actor.consume_mp(HEAL_COST) {
                actor.heal(HEAL_AMOUNT);
            }
        },
        None => {},
    }
}

impl Battle {
    /// A battle at turn zero with the default rules.
    pub fn new(player: Character, enemy: Character) -> (r: Self)
        ensures
            r.player == player,
            r.enemy == enemy,
            r.current_turn == 0,
            !r.battle_over,
            r.winner is None,
            r.battle_log@.len() == 0,
            lines_of(r.action_system.rules@) == crate::action_system::default_rules(),
    {
        Self {
            player,
            enemy,
            current_turn: 0,
            battle_over: false,
            winner: None,
            battle_log: Vec::new(),
            action_system: ActionCalculationSystem::new(),
        }
    }

    /// A battle at turn zero with the given action system.
    pub fn new_with_action_system(player: Character, enemy: Character, action_system: ActionCalculationSystem) -> (r: Self)
        ensures
            r.player == player,
            r.enemy == enemy,
            r.current_turn == 0,
            !r.battle_over,
            r.winner is None,
            r.battle_log@.len() == 0,
            r.action_system.rules@ == action_system.rules@,
    {
        Self { player, enemy, current_turn: 0, battle_over: false, winner: None, battle_log: Vec::new(), action_system }
    }

    /// Whether it is the player's turn.
    pub fn is_player_turn(&self) -> (r: bool)
        ensures
            r == player_turn(*self),
    {
        !self.battle_over && self.current_turn % 2 == 0
    }

    /// The player's turn with the given action (as the rules chose it).
    pub fn apply_player_action(&mut self, action: Option<ActionType>)
        requires
            old(self).current_turn < usize::MAX,
            action_in_range(old(self).player, old(self).enemy, action),
        ensures
            player_turn_done(*old(self), *final(self), action),
    {
        let line = action_log_string(self.current_turn + 1, &self.player, &self.enemy, action);
        perform(&mut self.player, &mut self.enemy, action);
        assert(self.enemy.hp == target_hp_after(old(self).player, old(self).enemy, action));
        self.battle_log.push(line);
        if !self.enemy.is_alive() {
            self.battle_over = true;
            self.winner = Some(self.player.name.clone());
            let v = victory_log_string(&self.player.name);
            self.battle_log.push(v);
            proof {
                assert(log_texts(self.battle_log@) =~= log_texts(old(self).battle_log@).push(
                    action_log((old(self).current_turn + 1) as nat, old(self).player, old(self).enemy, action))
                    + seq![victory_log(old(self).player.name@)]);
            }
        } else {
            proof {
                assert(log_texts(self.battle_log@) =~= log_texts(old(self).battle_log@).push(
                    action_log((old(self).current_turn + 1) as nat, old(self).player, old(self).enemy, action))
                    + Seq::<Seq<char>>::empty());
            }
        }
        self.current_turn = self.current_turn + 1;
        proof {
            let before = *old(self);
            let after = *self;
            let enemy_hp = target_hp_after(before.player, before.enemy, action);
            assert(same_but_hp_mp(after.player, before.player, actor_hp_after(before.player, action), actor_mp_after(before.player, action)));
            assert(same_but_hp_mp(after.enemy, before.enemy, enemy_hp, before.enemy.mp as int));
            assert(after.current_turn == before.current_turn + 1);
            assert(after.winner == (if enemy_hp <= 0 { Some(before.player.name) } else { before.winner }));
            assert(after.action_system.rules@ == before.action_system.rules@);
        }
    }

    /// The enemy's turn with the given action (as the rules chose it).
    pub fn apply_enemy_action(&mut self, action: Option<ActionType>)
        requires
            old(self).current_turn < usize::MAX,
            action_in_range(old(self).enemy, old(self).player, action),
        ensures
            enemy_turn_done(*old(self), *final(self), action),
    {
        let line = action_log_string(self.current_turn + 1, &self.enemy, &self.player, action);
        perform(&mut self.enemy, &mut self.player, action);
        self.battle_log.push(line);
        if !self.player.is_alive() {
            self.battle_over = true;
            self.winner = Some(self.enemy.name.clone());
            let v = victory_log_string(&self.enemy.name);
            self.battle_log.push(v);
            proof {
                assert(log_texts(self.battle_log@) =~= log_texts(old(self).battle_log@).push(
                    action_log((old(self).current_turn + 1) as nat, old(self).enemy, old(self).player, action))
                    + seq![victory_log(old(self).enemy.name@)]);
            }
        } else {
            proof {
                assert(log_texts(self.battle_log@) =~= log_texts(old(self).battle_log@).push(
                    action_log((old(self).current_turn + 1) as nat, old(self).enemy, old(self).player, action))
                    + Seq::<Seq<char>>::empty());
            }
        }
        self.current_turn = self.current_turn + 1;
    }

    /// On the player's turn, the player acts by the rules; otherwise nothing
    /// happens.
    pub fn execute_player_action(&mut self)
        requires
            player_turn(*old(self)) ==> old(self).current_turn < usize::MAX
                && rules_in_range(lines_of(old(self).action_system.rules@), old(self).player, old(self).enemy),
        ensures
            !player_turn(*old(self)) ==> *final(self) == *old(self),
            player_turn(*old(self)) ==> exists|coins: Seq<bool>| player_turn_done(*old(self), *final(self),
                eval_rules(lines_of(old(self).action_system.rules@), old(self).player.hp, old(self).player.mp, coins, 0)),
    {
        if !self.is_player_turn() {
            return;
        }
        let action = self.action_system.calculate_action(&self.player);
        self.apply_player_action(action);
    }

    /// On the enemy's turn, the enemy acts by the rules; otherwise nothing
    /// happens.
    pub fn execute_enemy_action(&mut self)
        requires
            !old(self).battle_over && !player_turn(*old(self)) ==> old(self).current_turn < usize::MAX
                && rules_in_range(lines_of(old(self).action_system.rules@), old(self).enemy, old(self).player),
        ensures
            (old(self).battle_over || player_turn(*old(self))) ==> *final(self) == *old(self),
            !(old(self).battle_over || player_turn(*old(self))) ==> exists|coins: Seq<bool>| enemy_turn_done(*old(self), *final(self),
                eval_rules(lines_of(old(self).action_system.rules@), old(self).enemy.hp, old(self).enemy.mp, coins, 0)),
    {
        if self.battle_over || self.is_player_turn() {
            return;
        }
        let action = self.action_system.calculate_action(&self.enemy);
        self.apply_enemy_action(action);
    }

    /// Whose turn it is, as shown to the user.
    pub fn get_current_player_name(&self) -> (r: &str)
        ensures
            r@ == (if player_turn(*self) { "プレイヤー"@ } else { "敵"@ }),
    {
        if self.is_player_turn() {
            "プレイヤー"
        } else {
            "敵"
        }
    }

    /// The last `count` log lines (or all of them if there are fewer), the
    /// latest first.
    pub fn get_recent_logs(&self, count: usize) -> (r: Vec<&String>)
        ensures
            r@.len() == (if count < self.battle_log@.len() { count as int } else { self.battle_log@.len() as int }),
            forall|i: int| 0 <= i < r@.len() ==> *r@[i] == self.battle_log@[self.battle_log@.len() - 1 - i],
    {
        let n = self.battle_log.len();
        let mut out: Vec<&String> = Vec::new();
        let mut i: usize = 0;
        while i < count && i < n
            invariant
                n == self.battle_log@.len(),
                i <= n,
                i <= count,
                out@.len() == i,
                forall|j: int| 0 <= j < i ==> *out@[j] == self.battle_log@[n - 1 - j],
            decreases n - i,
        {
            out.push(&self.battle_log[n - 1 - i]);
            i += 1;
        }
        out
    }
}

/// Turns alternate: the player's turn is followed by the enemy's unless the
/// battle ended, and the enemy's by the player's unless it ended.
pub proof fn lemma_turns_alternate(before: Battle, after: Battle, action: Option<ActionType>)
    ensures
        player_turn(before) && player_turn_done(before, after, action) ==> !player_turn(after),
        !before.battle_over && !player_turn(before) && enemy_turn_done(before, after, action)
            ==> (player_turn(after) || after.battle_over),
{
    let t = before.current_turn as int;
    assert(t % 2 == 0 ==> (t + 1) % 2 == 1);
    assert(t % 2 != 0 ==> (t + 1) % 2 == 0);
}

/// A turn never revives the fallen: a defeated side stays defeated, and a
/// battle that a turn ends is won by the side that acted.
pub proof fn lemma_turn_keeps_defeat(before: Battle, after: Battle, action: Option<ActionType>)
    requires
        before.enemy.attack >= 0,
        before.player.attack >= 0,
    ensures
        player_turn_done(before, after, action) && before.enemy.hp <= 0 ==> after.enemy.hp <= 0,
        !before.battle_over && player_turn_done(before, after, action) && after.battle_over ==> after.winner == Some(before.player.name),
        enemy_turn_done(before, after, action) && before.player.hp <= 0 ==> after.player.hp <= 0,
        !before.battle_over && enemy_turn_done(before, after, action) && after.battle_over ==> after.winner == Some(before.enemy.name),
{
}

/// A turn keeps both characters valid: HP and MP never drop below zero nor
/// rise above their maximums.
pub proof fn lemma_turn_keeps_characters_valid(before: Battle, after: Battle, action: Option<ActionType>)
    requires
        character_valid(before.player),
        character_valid(before.enemy),
        before.player.attack >= 0,
        before.enemy.attack >= 0,
    ensures
        player_turn_done(before, after, action) ==> character_valid(after.player) && character_valid(after.enemy),
        enemy_turn_done(before, after, action) ==> character_valid(after.player) && character_valid(after.enemy),
{
}

} // verus!
