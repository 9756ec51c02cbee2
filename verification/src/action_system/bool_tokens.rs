//! Tokens that evaluate to true or false.

use vstd::prelude::*;
use rand::rngs::StdRng;
use crate::battle_system::Character;
use crate::action_system::number_tokens::{NumberToken, number_value};
use crate::random::rng_ratio;

verus! {

/// True or false at random, with even odds.
#[derive(Debug)]
pub struct TrueOrFalseRandomToken;

impl TrueOrFalseRandomToken {
    /// A fair coin drawn from `rng`.
    pub fn evaluate(&self, _character: &Character, rng: &mut StdRng) -> (r: bool) {
        rng_ratio(rng, 1, 2)
    }
}

/// Whether the left number is greater than the right one.
#[derive(Debug)]
pub struct GreaterThanToken {
    pub left: Box<NumberToken>,
    pub right: Box<NumberToken>,
}

impl GreaterThanToken {
    pub fn new(left: Box<NumberToken>, right: Box<NumberToken>) -> (r: Self)
        ensures
            r.left == left,
            r.right == right,
    {
        Self { left, right }
    }

    /// Whether the left number is greater than the right one.
    pub fn evaluate(&self, character: &Character, rng: &mut StdRng) -> (r: bool)
        ensures
            r == (number_value(*self.left, character.hp) > number_value(*self.right, character.hp)),
            *final(rng) == *old(rng),
    {
        let l = self.left.evaluate(character, rng);
        let r = self.right.evaluate(character, rng);
        l > r
    }
}

/// A token that evaluates to true or false.
#[derive(Debug)]
pub enum BoolToken {
    TrueOrFalseRandom(TrueOrFalseRandomToken),
    GreaterThan(GreaterThanToken),
}

impl BoolToken {
    /// What this token evaluates to; a comparison is decided by the numbers,
    /// a random token by a coin drawn from `rng`.
    pub fn evaluate(&self, character: &Character, rng: &mut StdRng) -> (r: bool)
        ensures
            self matches BoolToken::GreaterThan(g) ==>
                r == (number_value(*g.left, character.hp) > number_value(*g.right, character.hp))
                && *final(rng) == *old(rng),
    {
        match self {
            BoolToken::TrueOrFalseRandom(t) => t.evaluate(character, rng),
            BoolToken::GreaterThan(g) => g.evaluate(character, rng),
        }
    }
}

} // verus!
