//! Tokens that resolve to an action or stop the rule.

use vstd::prelude::*;
use rand::rngs::StdRng;
use crate::battle_system::Character;
use crate::action_system::{ActionType, coin};
use crate::action_system::bool_tokens::BoolToken;
use crate::action_system::number_tokens::number_value;

verus! {

/// What resolving a rule gives: an action, or a stop.
#[derive(Clone, Copy, Debug, PartialEq, Eq, Structural)]
pub enum ActionResolverResult {
    Action(ActionType),
    Break,
}

/// Goes on to the next token when its condition holds, and stops otherwise.
#[derive(Debug)]
pub struct CheckToken {
    condition: BoolToken,
    next: Box<ActionResolver>,
}

/// Strikes when the character is alive.
#[derive(Debug)]
pub struct StrikeAction;

/// Heals when the character is alive and has at least 10 MP.
#[derive(Debug)]
pub struct HealAction;

/// A token that resolves to an action or a stop.
#[derive(Debug)]
pub enum ActionResolver {
    Check(CheckToken),
    Strike(StrikeAction),
    Heal(HealAction),
}

/// A rule: one token that resolves the whole rule.
pub type RuleToken = ActionResolver;

/// Whether resolving `t` for a character with `hp` and `mp` can give `r`:
/// exactly one result, except that a random condition can go either way.
pub open spec fn possible_result(t: ActionResolver, hp: i32, mp: i32, r: ActionResolverResult) -> bool
    decreases t,
{
    match t {
        ActionResolver::Strike(_) =>
            r == (if hp > 0 { ActionResolverResult::Action(ActionType::Strike) } else { ActionResolverResult::Break }),
        ActionResolver::Heal(_) =>
            r == (if hp > 0 && mp >= 10 { ActionResolverResult::Action(ActionType::Heal) } else { ActionResolverResult::Break }),
        ActionResolver::Check(c) => match c.condition() {
            BoolToken::GreaterThan(g) =>
                if number_value(*g.left, hp) > number_value(*g.right, hp) {
                    possible_result(c.next(), hp, mp, r)
                } else {
                    r == ActionResolverResult::Break
                },
            BoolToken::TrueOrFalseRandom(_) => r == ActionResolverResult::Break || possible_result(c.next(), hp, mp, r),
        },
    }
}

/// Whether resolving `t` may draw from the generator: some check on the way
/// has a random condition.
pub open spec fn draws_coin(t: ActionResolver) -> bool
    decreases t,
{
    match t {
        ActionResolver::Check(c) => c.condition() is TrueOrFalseRandom || draws_coin(c.next()),
        _ => false,
    }
}

/// Resolving `t` for a character with `hp` and `mp`, each random condition
/// taking the coin at the next position of `coins` from `at` on (a missing
/// coin counts as `false`): the result and how many coins were read.
pub open spec fn resolve_with(t: ActionResolver, hp: i32, mp: i32, coins: Seq<bool>, at: nat) -> (ActionResolverResult, nat)
    decreases t,
{
    match t {
        ActionResolver::Strike(_) =>
            (if hp > 0 { ActionResolverResult::Action(ActionType::Strike) } else { ActionResolverResult::Break }, 0),
        ActionResolver::Heal(_) =>
            (if hp > 0 && mp >= 10 { ActionResolverResult::Action(ActionType::Heal) } else { ActionResolverResult::Break }, 0),
        ActionResolver::Check(c) => match c.condition() {
            BoolToken::GreaterThan(g) =>
                if number_value(*g.left, hp) > number_value(*g.right, hp) {
                    resolve_with(c.next(), hp, mp, coins, at)
                } else {
                    (ActionResolverResult::Break, 0)
                },
            BoolToken::TrueOrFalseRandom(_) =>
                if coin(coins, at) {
                    let (r, used) = resolve_with(c.next(), hp, mp, coins, at + 1);
                    (r, used + 1)
                } else {
                    (ActionResolverResult::Break, 1)
                },
        },
    }
}

impl CheckToken {
    pub fn new(condition: BoolToken, next: ActionResolver) -> (r: Self)
        ensures
            r.condition() == condition,
            r.next() == next,
    {
        Self { condition, next: Box::new(next) }
    }

    /// The condition.
    pub closed spec fn condition(self) -> BoolToken {
        self.condition
    }

    /// The token that follows when the condition holds.
    pub closed spec fn next(self) -> ActionResolver {
        *self.next
    }

    /// Resolves the next token when the condition holds, and stops otherwise.
    pub fn resolve(&self, character: &Character, rng: &mut StdRng) -> (r: ActionResolverResult)
        ensures
            possible_result(ActionResolver::Check(*self), character.hp, character.mp, r),
            !draws_coin(ActionResolver::Check(*self)) ==> *final(rng) == *old(rng),
        decreases self,
    {
        if self.condition.evaluate(character, rng) {
            self.next.resolve(character, rng)
        } else {
            ActionResolverResult::Break
        }
    }
}

impl StrikeAction {
    /// A strike when the character is alive, else a stop.
    pub fn resolve(&self, character: &Character, _rng: &mut StdRng) -> (r: ActionResolverResult)
        ensures
            r == (if character.hp > 0 { ActionResolverResult::Action(ActionType::Strike) } else { ActionResolverResult::Break }),
            *final(_rng) == *old(_rng),
    {
        if character.hp > 0 {
            ActionResolverResult::Action(ActionType::Strike)
        } else {
            ActionResolverResult::Break
        }
    }
}

impl HealAction {
    /// A heal when the character is alive and has at least 10 MP, else a stop.
    pub fn resolve(&self, character: &Character, _rng: &mut StdRng) -> (r: ActionResolverResult)
        ensures
            r == (if character.hp > 0 && character.mp >= 10 {
                ActionResolverResult::Action(ActionType::Heal)
            } else {
                ActionResolverResult::Break
            }),
            *final(_rng) == *old(_rng),
    {
        if character.hp > 0 && character.mp >= 10 {
            ActionResolverResult::Action(ActionType::Heal)
        } else {
            ActionResolverResult::Break
        }
    }
}

impl ActionResolver {
    /// Resolves this token for `character`; random conditions draw from `rng`.
    pub fn resolve(&self, character: &Character, rng: &mut StdRng) -> (r: ActionResolverResult)
        ensures
            possible_result(*self, character.hp, character.mp, r),
            !draws_coin(*self) ==> *final(rng) == *old(rng),
        decreases self,
    {
        match self {
            ActionResolver::Check(c) => c.resolve(character, rng),
            ActionResolver::Strike(s) => s.resolve(character, rng),
            ActionResolver::Heal(h) => h.resolve(character, rng),
        }
    }

    /// Resolves this token for `character` with given coins for its random
    /// conditions, read from position `at`: the result and how many coins
    /// were read.
    pub fn resolve_with_coins(&self, character: &Character, coins: &Vec<bool>, at: usize) -> (r: (ActionResolverResult, usize))
        requires
            at + check_depth(*self) <= usize::MAX,
        ensures
            (r.0, r.1 as nat) == resolve_with(*self, character.hp, character.mp, coins@, at as nat),
        decreases self,
    {
        match self {
            ActionResolver::Check(c) => match &c.condition {
                BoolToken::GreaterThan(g) => {
                    if g.left.value_for(character) > g.right.value_for(character) {
                        c.next.resolve_with_coins(character, coins, at)
                    } else {
                        (ActionResolverResult::Break, 0)
                    }
                },
                BoolToken::TrueOrFalseRandom(_) => {
                    let flip = if at < coins.len() { coins[at] } else { false };
                    if flip {
                        let (r, used) = c.next.resolve_with_coins(character, coins, at + 1);
                        proof { lemma_coins_read_within_depth(c.next(), character.hp, character.mp, coins@, (at + 1) as nat); }
                        (r, used + 1)
                    } else {
                        (ActionResolverResult::Break, 1)
                    }
                },
            },
            ActionResolver::Strike(_) =>
                (if character.hp > 0 { ActionResolverResult::Action(ActionType::Strike) } else { ActionResolverResult::Break }, 0),
            ActionResolver::Heal(_) => (
                if character.hp > 0 && character.mp >= 10 {
                    ActionResolverResult::Action(ActionType::Heal)
                } else {
                    ActionResolverResult::Break
                },
                0,
            ),
        }
    }
}

/// How many checks are nested in `t`.
pub open spec fn check_depth(t: ActionResolver) -> nat
    decreases t,
{
    match t {
        ActionResolver::Check(c) => 1 + check_depth(c.next()),
        _ => 0,
    }
}

/// Resolving reads no more coins than there are nested checks.
proof fn lemma_coins_read_within_depth(t: ActionResolver, hp: i32, mp: i32, coins: Seq<bool>, at: nat)
    ensures
        resolve_with(t, hp, mp, coins, at).1 <= check_depth(t),
    decreases t,
{
    match t {
        ActionResolver::Check(c) => {
            lemma_coins_read_within_depth(c.next(), hp, mp, coins, at);
            lemma_coins_read_within_depth(c.next(), hp, mp, coins, at + 1);
        },
        _ => {},
    }
}

/// What resolving with given coins gives is a possible result.
pub proof fn lemma_coin_result_possible(t: ActionResolver, hp: i32, mp: i32, coins: Seq<bool>, at: nat)
    ensures
        possible_result(t, hp, mp, resolve_with(t, hp, mp, coins, at).0),
    decreases t,
{
    match t {
        ActionResolver::Check(c) => {
            lemma_coin_result_possible(c.next(), hp, mp, coins, at);
            lemma_coin_result_possible(c.next(), hp, mp, coins, at + 1);
        },
        _ => {},
    }
}

/// A resolved action is one the character can take: a strike only when it is
/// alive, a heal only when it is alive and has at least 10 MP.
pub proof fn lemma_resolved_action_possible(t: ActionResolver, hp: i32, mp: i32, r: ActionResolverResult)
    requires
        possible_result(t, hp, mp, r),
    ensures
        r == ActionResolverResult::Action(ActionType::Strike) ==> hp > 0,
        r == ActionResolverResult::Action(ActionType::Heal) ==> hp > 0 && mp >= 10,
    decreases t,
{
    match t {
        ActionResolver::Check(c) => {
            if r != ActionResolverResult::Break {
                lemma_resolved_action_possible(*c.next, hp, mp, r);
            }
        },
        _ => {},
    }
}

} // verus!
