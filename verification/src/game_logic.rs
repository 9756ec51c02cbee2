//! The simplest battle: the player strikes with its attack, the enemy with a
//! random damage between 10 and its attack.

use vstd::prelude::*;
use vstd::string::StringExecFns;
use crate::random::thread_range_inclusive;
use crate::util::{signed_decimal, i32_to_string};

verus! {

/// A character of the simple battle.
#[derive(Debug)]
pub struct Character {
    pub name: String,
    pub hp: i32,
    pub max_hp: i32,
    pub attack: i32,
    pub is_player: bool,
}

impl Character {
    /// A character at full HP.
    pub fn new(name: String, max_hp: i32, attack: i32, is_player: bool) -> (r: Self)
        ensures
            r.name == name,
            r.hp == max_hp,
            r.max_hp == max_hp,
            r.attack == attack,
            r.is_player == is_player,
    {
        Self { name, hp: max_hp, max_hp, attack, is_player }
    }

    /// Whether the character has HP left.
    pub fn is_alive(&self) -> (r: bool)
        ensures
            r == (self.hp > 0),
    {
        self.hp > 0
    }

    /// Loses `damage` HP, down to zero at most.
    pub fn take_damage(&mut self, damage: i32)
        requires
            i32::MIN <= old(self).hp - damage <= i32::MAX,
        ensures
            final(self).hp == (if old(self).hp - damage > 0 { old(self).hp - damage } else { 0 }),
            final(self).name == old(self).name,
            final(self).max_hp == old(self).max_hp,
            final(self).attack == old(self).attack,
            final(self).is_player == old(self).is_player,
    {
        let h = self.hp - damage;
        self.hp = if h > 0 { h } else { 0 };
    }
}

/// The simple battle.
pub struct Battle {
    pub player: Character,
    pub enemy: Character,
    pub current_turn: usize,
    pub battle_over: bool,
    pub winner: Option<String>,
    pub battle_log: Vec<String>,
}

/// The log line of a hit.
pub open spec fn hit_log(actor: Seq<char>, target: Seq<char>, damage: int) -> Seq<char> {
    actor + "が"@ + target + "に"@ + signed_decimal(damage) + "のダメージ！"@
}

/// The log line of a victory.
pub open spec fn win_log(name: Seq<char>) -> Seq<char> {
    name + "の勝利！"@
}

/// The texts of the log lines.
pub open spec fn texts(log: Seq<String>) -> Seq<Seq<char>> {
    log.map_values(|s: String| s@)
}

/// The battle is not over and the turn number is even.
pub open spec fn player_turn(b: Battle) -> bool {
    !b.battle_over && b.current_turn % 2 == 0
}

/// `after` is `before` after `attacker` hit `defender` for `damage` (the
/// attacker being the player when `by_player`).
pub open spec fn hit_done(before: Battle, after: Battle, by_player: bool, damage: int) -> bool {
    let (att, def) = if by_player { (before.player, before.enemy) } else { (before.enemy, before.player) };
    let (att2, def2) = if by_player { (after.player, after.enemy) } else { (after.enemy, after.player) };
    let hp = if def.hp - damage > 0 { def.hp - damage } else { 0 };
    &&& att2 == att
    &&& def2.hp == hp
    &&& def2.name == def.name
    &&& def2.max_hp == def.max_hp
    &&& def2.attack == def.attack
    &&& def2.is_player == def.is_player
    &&& after.current_turn == before.current_turn + 1
    &&& after.battle_over == (before.battle_over || hp <= 0)
    &&& after.winner == (if hp <= 0 { Some(att.name) } else { before.winner })
    &&& texts(after.battle_log@) == texts(before.battle_log@).push(hit_log(att.name@, def.name@, damage))
        + (if hp <= 0 { seq![win_log(att.name@)] } else { Seq::empty() })
}

impl Battle {
    /// A battle at turn zero.
    pub fn new(player: Character, enemy: Character) -> (r: Self)
        ensures
            r.player == player,
            r.enemy == enemy,
            r.current_turn == 0,
            !r.battle_over,
            r.winner is None,
            r.battle_log@.len() == 0,
    {
        Self { player, enemy, current_turn: 0, battle_over: false, winner: None, battle_log: Vec::new() }
    }

    /// Whether it is the player's turn.
    pub fn is_player_turn(&self) -> (r: bool)
        ensures
            r == player_turn(*self),
    {
        !self.battle_over && self.current_turn % 2 == 0
    }

    /// One side hits the other for `damage`, then the turn passes.
    pub fn hit(&mut self, by_player: bool, damage: i32)
        requires
            old(self).current_turn < usize::MAX,
            by_player ==> i32::MIN <= old(self).enemy.hp - damage <= i32::MAX,
            !by_player ==> i32::MIN <= old(self).player.hp - damage <= i32::MAX,
        ensures
            hit_done(*old(self), *final(self), by_player, damage as int),
    {
        let d = i32_to_string(damage);
        if by_player {
            self.enemy.take_damage(damage);
            let line = self.player.name.clone().concat("が").concat(self.enemy.name.as_str()).concat("に")
                .concat(d.as_str()).concat("のダメージ！");
            self.battle_log.push(line);
            if !self.enemy.is_alive() {
                self.battle_over = true;
                self.winner = Some(self.player.name.clone());
                let v = self.player.name.clone().concat("の勝利！");
                self.battle_log.push(v);
            }
        } else {
            self.player.take_damage(damage);
            let line = self.enemy.name.clone().concat("が").concat(self.player.name.as_str()).concat("に")
                .concat(d.as_str()).concat("のダメージ！");
            self.battle_log.push(line);
            if !self.player.is_alive() {
                self.battle_over = true;
                self.winner = Some(self.enemy.name.clone());
                let v = self.enemy.name.clone().concat("の勝利！");
                self.battle_log.push(v);
            }
        }
        proof {
            let before = *old(self);
            let (att, def) = if by_player { (before.player, before.enemy) } else { (before.enemy, before.player) };
            let hp = if def.hp - damage > 0 { def.hp - damage } else { 0 };
            if hp <= 0 {
                assert(texts(self.battle_log@) =~= texts(before.battle_log@).push(hit_log(att.name@, def.name@, damage as int))
                    + seq![win_log(att.name@)]);
            } else {
                assert(texts(self.battle_log@) =~= texts(before.battle_log@).push(hit_log(att.name@, def.name@, damage as int))
                    + Seq::<Seq<char>>::empty());
            }
        }
        self.current_turn = self.current_turn + 1;
    }

    /// On the player's turn, the player hits the enemy with its attack;
    /// otherwise nothing happens.
    pub fn execute_player_action(&mut self)
        requires
            player_turn(*old(self)) ==> old(self).current_turn < usize::MAX
                && i32::MIN <= old(self).enemy.hp - old(self).player.attack <= i32::MAX,
        ensures
            !player_turn(*old(self)) ==> *final(self) == *old(self),
            player_turn(*old(self)) ==> hit_done(*old(self), *final(self), true, old(self).player.attack as int),
    {
        if !self.is_player_turn() {
            return;
        }
        let damage = self.player.attack;
        self.hit(true, damage);
    }

    /// On the enemy's turn, the enemy hits the player for a random damage
    /// between 10 and its attack; otherwise nothing happens.
    pub fn execute_enemy_action(&mut self)
        requires
            !old(self).battle_over && !player_turn(*old(self)) ==> old(self).current_turn < usize::MAX
                && 10 <= old(self).enemy.attack
                && i32::MIN <= old(self).player.hp - old(self).enemy.attack,
        ensures
            (old(self).battle_over || player_turn(*old(self))) ==> *final(self) == *old(self),
            !(old(self).battle_over || player_turn(*old(self))) ==> exists|damage: int|
                10 <= damage <= old(self).enemy.attack && hit_done(*old(self), *final(self), false, damage),
    {
        if self.battle_over || self.is_player_turn() {
            return;
        }
        let damage = thread_range_inclusive(10, self.enemy.attack);
        self.hit(false, damage);
    }

    /// Whose turn it is, as shown to the user.
    pub fn get_current_player_name(&self) -> (r: &str)
        ensures
            r@ == (if player_turn(*self) { "プレイヤー"@ } else { "敵"@ }),
    {
        if self.is_player_turn() {
            "プレイヤー"
        } else {
            "敵"
        }
    }

    /// The last `count` log lines (or all of them if there are fewer), the
    /// latest first.
    pub fn get_recent_logs(&self, count: usize) -> (r: Vec<&String>)
        ensures
            r@.len() == (if count < self.battle_log@.len() { count as int } else { self.battle_log@.len() as int }),
            forall|i: int| 0 <= i < r@.len() ==> *r@[i] == self.battle_log@[self.battle_log@.len() - 1 - i],
    {
        let n = self.battle_log.len();
        let mut out: Vec<&String> = Vec::new();
        let mut i: usize = 0;
        while i < count && i < n
            invariant
                n == self.battle_log@.len(),
                i <= n,
                i <= count,
                out@.len() == i,
                forall|j: int| 0 <= j < i ==> *out@[j] == self.battle_log@[n - 1 - j],
            decreases n - i,
        {
            out.push(&self.battle_log[n - 1 - i]);
            i += 1;
        }
        out
    }
}

} // verus!
