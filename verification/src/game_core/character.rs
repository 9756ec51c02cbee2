//! Characters with stats and the skills they know.

use vstd::prelude::*;
use crate::game_core::skill::Skill;
use crate::util::owned;

verus! {

/// A character's numbers.
#[derive(Debug, Clone, Copy, PartialEq, Eq, Structural)]
pub struct Stats {
    pub hp: i32,
    pub max_hp: i32,
    pub attack: i32,
    pub defense: i32,
    pub speed: i32,
}

/// A character.
#[derive(Debug)]
pub struct Character {
    pub name: String,
    pub stats: Stats,
    pub skills: Vec<Skill>,
}

impl Character {
    /// A character at full HP that knows attacking and healing.
    pub fn new(name: &str, hp: i32, attack: i32, defense: i32, speed: i32) -> (r: Self)
        ensures
            r.name@ == name@,
            r.stats == (Stats { hp, max_hp: hp, attack, defense, speed }),
            r.skills@ == seq![Skill::Attack, Skill::Heal],
    {
        Self {
            name: owned(name),
            stats: Stats { hp, max_hp: hp, attack, defense, speed },
            skills: vec![Skill::Attack, Skill::Heal],
        }
    }

    /// Whether the character has HP left.
    pub fn is_alive(&self) -> (r: bool)
        ensures
            r == (self.stats.hp > 0),
    {
        self.stats.hp > 0
    }

    /// The skills the character knows.
    pub fn get_available_skills(&self) -> (r: &[Skill])
        ensures
            r@ == self.skills@,
    {
        self.skills.as_slice()
    }

    /// A copy of this character.
    pub fn duplicate(&self) -> (r: Self)
        ensures
            r.name == self.name,
            r.stats == self.stats,
            r.skills@ == self.skills@,
    {
        Character { name: self.name.clone(), stats: self.stats, skills: self.skills.clone() }
    }
}

impl Clone for Character {
    fn clone(&self) -> (r: Self)
        ensures
            r.name == self.name,
            r.stats == self.stats,
            r.skills@ == self.skills@,
    {
        self.duplicate()
    }
}

} // verus!
