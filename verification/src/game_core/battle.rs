//! A battle where the two characters take turns in the order of their speed.

use vstd::prelude::*;
use std::collections::VecDeque;
use crate::game_core::character::{Character, Stats};
use crate::game_core::skill::{Skill, hp_after_skill, skill_log, skill_in_range};
use crate::util::str_eq;

verus! {

/// What one turn did.
#[derive(Debug)]
pub struct BattleLog {
    pub actor: String,
    pub action: String,
    pub target: String,
    pub damage: Option<i32>,
    pub healing: Option<i32>,
}

/// A battle between the player and the enemy.
#[derive(Debug)]
pub struct Battle {
    pub player: Character,
    pub enemy: Character,
    pub turn_order: VecDeque<String>,
    pub logs: Vec<BattleLog>,
}

impl Battle {
    /// A battle where the faster character goes first (the player on a tie).
    pub fn new(player: Character, enemy: Character) -> (r: Self)
        ensures
            r.player == player,
            r.enemy == enemy,
            r.logs@.len() == 0,
            r.turn_order@.len() == 2,
            player.stats.speed >= enemy.stats.speed ==> r.turn_order@ == seq![player.name, enemy.name],
            player.stats.speed < enemy.stats.speed ==> r.turn_order@ == seq![enemy.name, player.name],
    {
        let mut turn_order: VecDeque<String> = VecDeque::new();
        if player.stats.speed >= enemy.stats.speed {
            turn_order.push_back(player.name.clone());
            turn_order.push_back(enemy.name.clone());
        } else {
            turn_order.push_back(enemy.name.clone());
            turn_order.push_back(player.name.clone());
        }
        assert(player.stats.speed >= enemy.stats.speed ==> turn_order@ =~= seq![player.name, enemy.name]);
        assert(player.stats.speed < enemy.stats.speed ==> turn_order@ =~= seq![enemy.name, player.name]);
        Self { player, enemy, turn_order, logs: Vec::new() }
    }

    /// The next turn: the player uses `skill` on the enemy; the enemy heals
    /// itself when its HP is below half (`enemy_below_half`), and attacks the
    /// player otherwise. The actor goes to the back of the order. Says
    /// whether the battle is over.
    pub fn execute_turn_with(&mut self, skill: &Skill, enemy_below_half: bool) -> (r: bool)
        requires
            old(self).turn_order@.len() > 0,
            old(self).turn_order@[0]@ == old(self).player.name@ ==> skill_in_range(*skill, old(self).player, old(self).enemy),
            old(self).turn_order@[0]@ != old(self).player.name@ && enemy_below_half
                ==> skill_in_range(Skill::Heal, old(self).enemy, old(self).enemy),
            old(self).turn_order@[0]@ != old(self).player.name@ && !enemy_below_half
                ==> skill_in_range(Skill::Attack, old(self).enemy, old(self).player),
        ensures
            final(self).turn_order@ == old(self).turn_order@.drop_first().push(old(self).turn_order@[0]),
            final(self).logs@.len() == old(self).logs@.len() + 1,
            final(self).player.name == old(self).player.name,
            final(self).enemy.name == old(self).enemy.name,
            old(self).turn_order@[0]@ == old(self).player.name@ ==> {
                &&& final(self).player.stats == old(self).player.stats
                &&& final(self).enemy.stats == (Stats { hp: hp_after_skill(*skill, old(self).player, old(self).enemy) as i32, ..old(self).enemy.stats })
                &&& skill_log(final(self).logs@.last(), *skill, old(self).player, old(self).enemy)
            },
            old(self).turn_order@[0]@ != old(self).player.name@ && enemy_below_half ==> {
                &&& final(self).player.stats == old(self).player.stats
                &&& final(self).enemy.stats == (Stats { hp: hp_after_skill(Skill::Heal, old(self).enemy, old(self).enemy) as i32, ..old(self).enemy.stats })
                &&& skill_log(final(self).logs@.last(), Skill::Heal, old(self).enemy, old(self).enemy)
            },
            old(self).turn_order@[0]@ != old(self).player.name@ && !enemy_below_half ==> {
                &&& final(self).enemy.stats == old(self).enemy.stats
                &&& final(self).player.stats == (Stats { hp: hp_after_skill(Skill::Attack, old(self).enemy, old(self).player) as i32, ..old(self).player.stats })
                &&& skill_log(final(self).logs@.last(), Skill::Attack, old(self).enemy, old(self).player)
            },
            final(self).logs@.drop_last() == old(self).logs@,
            r == (final(self).player.stats.hp <= 0 || final(self).enemy.stats.hp <= 0),
    {
        let current_turn = match self.turn_order.pop_front() {
            Some(name) => name,
            None => {
                return !self.player.is_alive() || !self.enemy.is_alive();
            },
        };
        let log = if str_eq(current_turn.as_str(), self.player.name.as_str()) {
            skill.execute(&self.player, &mut self.enemy)
        } else if enemy_below_half {
            let user = self.enemy.duplicate();
            Skill::Heal.execute(&user, &mut self.enemy)
        } else {
            Skill::Attack.execute(&self.enemy, &mut self.player)
        };
        self.logs.push(log);
        self.turn_order.push_back(current_turn);
        !self.player.is_alive() || !self.enemy.is_alive()
    }

    /// `Some(false)` when the player is down, `Some(true)` when the enemy is
    /// down, `None` while both stand.
    pub fn is_player_winner(&self) -> (r: Option<bool>)
        ensures
            r == (if self.player.stats.hp <= 0 {
                Some(false)
            } else if self.enemy.stats.hp <= 0 {
                Some(true)
            } else {
                None
            }),
    {
        if !self.player.is_alive() {
            Some(false)
        } else if !self.enemy.is_alive() {
            Some(true)
        } else {
            None
        }
    }
}

} // verus!
