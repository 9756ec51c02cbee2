//! Skills and what using one does.

use vstd::prelude::*;
use crate::game_core::character::Character;
use crate::game_core::battle::BattleLog;
use crate::util::owned;

verus! {

/// A skill.
#[derive(Debug, Clone, Copy, PartialEq, Eq, Structural)]
pub enum Skill {
    Attack,
    Heal,
}

/// Half of `x`, rounded toward zero (as integer division does).
pub open spec fn half(x: int) -> int {
    if x >= 0 { x / 2 } else { -((-x) / 2) }
}

/// The damage of an attack: attack less half the defense, at least one.
pub open spec fn attack_damage(attack: int, defense: int) -> int {
    if attack - half(defense) > 1 { attack - half(defense) } else { 1 }
}

/// The healing of a heal: half the attack, at least one.
pub open spec fn heal_power(attack: int) -> int {
    if half(attack) > 1 { half(attack) } else { 1 }
}

/// The target's HP after `user` uses `skill` on it: an attack takes
/// `attack_damage` (down to zero), a heal gives `heal_power` (up to the
/// maximum).
pub open spec fn hp_after_skill(skill: Skill, user: Character, target: Character) -> int {
    match skill {
        Skill::Attack => {
            let d = attack_damage(user.stats.attack as int, target.stats.defense as int);
            if target.stats.hp - d > 0 { target.stats.hp - d } else { 0 }
        },
        Skill::Heal => {
            let h = heal_power(user.stats.attack as int);
            if target.stats.hp + h < target.stats.max_hp { target.stats.hp + h } else { target.stats.max_hp as int }
        },
    }
}

/// The arithmetic of `user` using `skill` on `target` stays within `i32`: for
/// an attack, the raw damage and the HP it leaves; for a heal, the raised HP
/// and the HP actually restored.
pub open spec fn skill_in_range(skill: Skill, user: Character, target: Character) -> bool {
    match skill {
        Skill::Attack => {
            &&& i32::MIN <= user.stats.attack - half(target.stats.defense as int) <= i32::MAX
            &&& i32::MIN <= target.stats.hp - attack_damage(user.stats.attack as int, target.stats.defense as int)
        },
        Skill::Heal => {
            &&& target.stats.hp + heal_power(user.stats.attack as int) <= i32::MAX
            &&& i32::MIN <= hp_after_skill(skill, user, target) - target.stats.hp
        },
    }
}

/// `log` records `user` using `skill` on `target` (as it was before): the
/// names, the action, and the damage dealt or the HP actually restored.
pub open spec fn skill_log(log: BattleLog, skill: Skill, user: Character, target: Character) -> bool {
    &&& log.actor == user.name
    &&& log.target == target.name
    &&& match skill {
        Skill::Attack => {
            &&& log.action@ == "attacks"@
            &&& log.damage == Some(attack_damage(user.stats.attack as int, target.stats.defense as int) as i32)
            &&& log.healing is None
        },
        Skill::Heal => {
            &&& log.action@ == "heals"@
            &&& log.damage is None
            &&& log.healing == Some((hp_after_skill(skill, user, target) - target.stats.hp) as i32)
        },
    }
}

impl Skill {
    /// `user` uses the skill on `target`: an attack takes HP (down to zero),
    /// a heal gives HP (up to the maximum); the log says how much.
    pub fn execute(&self, user: &Character, target: &mut Character) -> (r: BattleLog)
        requires
            skill_in_range(*self, *user, *old(target)),
        ensures
            final(target).name == old(target).name,
            final(target).skills@ == old(target).skills@,
            final(target).stats.max_hp == old(target).stats.max_hp,
            final(target).stats.attack == old(target).stats.attack,
            final(target).stats.defense == old(target).stats.defense,
            final(target).stats.speed == old(target).stats.speed,
            final(target).stats.hp == hp_after_skill(*self, *user, *old(target)),
            skill_log(r, *self, *user, *old(target)),
    {
        match self {
            Skill::Attack => {
                let half_defense = target.stats.defense / 2;
                assert(half_defense == half(target.stats.defense as int));
                let raw = user.stats.attack - half_defense;
                let damage = if raw > 1 { raw } else { 1 };
                let h = target.stats.hp - damage;
                target.stats.hp = if h > 0 { h } else { 0 };
                BattleLog {
                    actor: user.name.clone(),
                    action: owned("attacks"),
                    target: target.name.clone(),
                    damage: Some(damage),
                    healing: None,
                }
            },
            Skill::Heal => {
                let half_attack = user.stats.attack / 2;
                assert(half_attack == half(user.stats.attack as int));
                let healing = if half_attack > 1 { half_attack } else { 1 };
                let sum = target.stats.hp + healing;
                let new_hp = if sum < target.stats.max_hp { sum } else { target.stats.max_hp };
                let actual_healing = new_hp - target.stats.hp;
                target.stats.hp = new_hp;
                BattleLog {
                    actor: user.name.clone(),
                    action: owned("heals"),
                    target: target.name.clone(),
                    damage: None,
                    healing: Some(actual_healing),
                }
            },
        }
    }
}

} // verus!
