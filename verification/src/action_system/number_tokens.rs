//! Tokens that evaluate to numbers.

use vstd::prelude::*;
use rand::rngs::StdRng;
use crate::battle_system::Character;

verus! {

/// A constant, kept within `1..=100`.
#[derive(Debug)]
pub struct ConstantToken {
    value: i32,
}

/// `value` clamped to `1..=100`.
pub open spec fn clamp_percent(value: i32) -> i32 {
    if value < 1 { 1 } else if value > 100 { 100 } else { value }
}

impl ConstantToken {
    /// The value lies within `1..=100`.
    #[verifier::type_invariant]
    spec fn within_percent(self) -> bool {
        1 <= self.value <= 100
    }

    /// The constant's value.
    pub closed spec fn value_spec(self) -> i32 {
        self.value
    }

    /// The constant `value`, clamped to `1..=100`.
    pub fn new(value: i32) -> (r: Self)
        ensures
            r.value_spec() == clamp_percent(value),
    {
        let v = if value < 1 { 1 } else if value > 100 { 100 } else { value };
        Self { value: v }
    }

    /// The constant's value.
    pub fn evaluate(&self, _character: &Character, _rng: &mut StdRng) -> (r: i32)
        ensures
            r == self.value_spec(),
            *final(_rng) == *old(_rng),
            1 <= r <= 100,
    {
        proof { use_type_invariant(self); }
        self.value
    }
}

/// The HP of the character that acts.
#[derive(Debug)]
pub struct CharacterHPToken;

impl CharacterHPToken {
    /// The character's HP.
    pub fn evaluate(&self, character: &Character, _rng: &mut StdRng) -> (r: i32)
        ensures
            r == character.hp,
            *final(_rng) == *old(_rng),
    {
        character.hp
    }
}

/// A token that evaluates to a number.
#[derive(Debug)]
pub enum NumberToken {
    Constant(ConstantToken),
    CharacterHP(CharacterHPToken),
}

/// The number a token evaluates to for a character with `hp`.
pub open spec fn number_value(t: NumberToken, hp: i32) -> i32 {
    match t {
        NumberToken::Constant(c) => c.value_spec(),
        NumberToken::CharacterHP(_) => hp,
    }
}

impl NumberToken {
    /// The number for `character`; no number token draws at random.
    pub fn value_for(&self, character: &Character) -> (r: i32)
        ensures
            r == number_value(*self, character.hp),
    {
        match self {
            NumberToken::Constant(c) => {
                proof { use_type_invariant(c); }
                c.value
            },
            NumberToken::CharacterHP(_) => character.hp,
        }
    }

    /// The number this token evaluates to.
    pub fn evaluate(&self, character: &Character, rng: &mut StdRng) -> (r: i32)
        ensures
            r == number_value(*self, character.hp),
            *final(rng) == *old(rng),
    {
        match self {
            NumberToken::Constant(c) => c.evaluate(character, rng),
            NumberToken::CharacterHP(h) => h.evaluate(character, rng),
        }
    }
}

} // verus!
