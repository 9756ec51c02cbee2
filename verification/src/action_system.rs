//! Rule-based action choice: a rule is a line of tokens read left to right;
//! condition tokens let the line go on or stop it, action tokens decide the
//! action. The first line that decides an action wins.

use vstd::prelude::*;
use rand::rngs::StdRng;
use crate::battle_system::Character;
use crate::random::{rng_from_seed, rng_from_entropy, rng_ratio};

pub mod actions;
pub mod bool_tokens;
pub mod number_tokens;

verus! {

/// An action a character can take.
#[derive(Clone, Copy, Debug, PartialEq, Eq, Structural)]
pub enum ActionType {
    Strike,
    Heal,
}

/// What evaluating a token gives: go on (or not), an action, or a stop.
#[derive(Clone, Copy, Debug, PartialEq, Eq, Structural)]
pub enum TokenResult {
    Continue(bool),
    Action(ActionType),
    Break,
}

/// A token of a rule line.
#[derive(Debug)]
pub enum Token {
    /// Goes on when its condition goes on, and stops the line otherwise.
    Check(Box<Token>),
    /// Goes on or not, at random with even odds.
    TrueOrFalseRandom,
    /// Strikes when the character is alive.
    Strike,
    /// Heals when the character is alive and has at least 10 MP.
    Heal,
}

/// A token that goes on when its condition goes on.
pub struct Check;

impl Check {
    /// The check of `condition`.
    pub fn new(condition: Token) -> (r: Token)
        ensures
            r == Token::Check(Box::new(condition)),
    {
        Token::Check(Box::new(condition))
    }
}

/// The coin at position `i` of `coins`; a missing coin counts as `false`.
pub open spec fn coin(coins: Seq<bool>, i: nat) -> bool {
    if i < coins.len() { coins[i as int] } else { false }
}

/// Whether evaluating `t` draws from the generator: it is, or checks, a
/// random token.
pub open spec fn token_draws(t: Token) -> bool
    decreases t,
{
    match t {
        Token::Check(c) => token_draws(*c),
        Token::TrueOrFalseRandom => true,
        _ => false,
    }
}

/// Evaluating `t` for a character with `hp` and `mp`, with random coins read
/// from position `at` of `coins`: the result and how many coins it read.
pub open spec fn eval_token(t: Token, hp: i32, mp: i32, coins: Seq<bool>, at: nat) -> (TokenResult, nat)
    decreases t,
{
    match t {
        Token::Check(c) => {
            let (r, used) = eval_token(*c, hp, mp, coins, at);
            (if r == TokenResult::Continue(true) { TokenResult::Continue(true) } else { TokenResult::Break }, used)
        },
        Token::TrueOrFalseRandom => (TokenResult::Continue(coin(coins, at)), 1),
        Token::Strike => (if hp > 0 { TokenResult::Action(ActionType::Strike) } else { TokenResult::Break }, 0),
        Token::Heal => (if hp > 0 && mp >= 10 { TokenResult::Action(ActionType::Heal) } else { TokenResult::Break }, 0),
    }
}

/// Evaluating a rule line: each token in turn while they go on; the first
/// action decides, anything else stops the line. The decided action (if any)
/// and how many coins were read.
pub open spec fn eval_line(line: Seq<Token>, hp: i32, mp: i32, coins: Seq<bool>, at: nat) -> (Option<ActionType>, nat)
    decreases line.len(),
{
    if line.len() == 0 {
        (None, 0)
    } else {
        let (r, used) = eval_token(line[0], hp, mp, coins, at);
        match r {
            TokenResult::Continue(true) => {
                let (a, more) = eval_line(line.drop_first(), hp, mp, coins, at + used);
                (a, used + more)
            },
            TokenResult::Action(a) => (Some(a), used),
            _ => (None, used),
        }
    }
}

/// Evaluating the rule lines in order: the first line that decides an action
/// gives it.
pub open spec fn eval_rules(rules: Seq<Seq<Token>>, hp: i32, mp: i32, coins: Seq<bool>, at: nat) -> Option<ActionType>
    decreases rules.len(),
{
    if rules.len() == 0 {
        None
    } else {
        let (a, used) = eval_line(rules[0], hp, mp, coins, at);
        match a {
            Some(x) => Some(x),
            None => eval_rules(rules.drop_first(), hp, mp, coins, at + used),
        }
    }
}

/// `full` begins with `prefix`.
pub open spec fn extends(full: Seq<bool>, prefix: Seq<bool>) -> bool {
    prefix.len() <= full.len() && forall|i: int| 0 <= i < prefix.len() ==> full[i] == prefix[i]
}

/// The rule lines of a sequence of vectors.
pub open spec fn lines_of(rules: Seq<Vec<Token>>) -> Seq<Seq<Token>> {
    rules.map_values(|l: Vec<Token>| l@)
}

/// The default rules: heal at random, else strike.
pub open spec fn default_rules() -> Seq<Seq<Token>> {
    seq![
        seq![Token::Check(Box::new(Token::TrueOrFalseRandom)), Token::Heal],
        seq![Token::Strike],
    ]
}

impl Token {
    /// Evaluates this token for `character`, drawing a coin from `rng` for
    /// each random token on the way; `drawn` are the coins drawn before, and
    /// the coins drawn after are returned.
    fn evaluate_drawing(&self, character: &Character, rng: &mut StdRng, Ghost(drawn): Ghost<Seq<bool>>)
        -> (r: (TokenResult, Ghost<Seq<bool>>))
        ensures
            extends(r.1@, drawn),
            forall|full: Seq<bool>| #[trigger] extends(full, r.1@) ==>
                eval_token(*self, character.hp, character.mp, full, drawn.len()) == (r.0, (r.1@.len() - drawn.len()) as nat),
            !token_draws(*self) ==> *final(rng) == *old(rng),
        decreases self,
    {
        match self {
            Token::Check(c) => {
                let (inner, after) = c.evaluate_drawing(character, rng, Ghost(drawn));
                let res = match inner {
                    TokenResult::Continue(true) => TokenResult::Continue(true),
                    _ => TokenResult::Break,
                };
                (res, after)
            },
            Token::TrueOrFalseRandom => {
                let flip = rng_ratio(rng, 1, 2);
                let ghost now = drawn.push(flip);
                proof {
                    assert forall|full: Seq<bool>| #[trigger] extends(full, now) implies
                        eval_token(*self, character.hp, character.mp, full, drawn.len()) == (TokenResult::Continue(flip), 1nat) by {
                        assert(full[drawn.len() as int] == now[drawn.len() as int]);
                    }
                }
                (TokenResult::Continue(flip), Ghost(now))
            },
            Token::Strike => {
                let res = if character.hp > 0 { TokenResult::Action(ActionType::Strike) } else { TokenResult::Break };
                (res, Ghost(drawn))
            },
            Token::Heal => {
                let res = if character.hp > 0 && character.mp >= 10 {
                    TokenResult::Action(ActionType::Heal)
                } else {
                    TokenResult::Break
                };
                (res, Ghost(drawn))
            },
        }
    }

    /// Evaluates this token for `character`; random tokens draw from `rng`.
    pub fn evaluate(&self, character: &Character, rng: &mut StdRng) -> (r: TokenResult)
        ensures
            exists|coins: Seq<bool>| eval_token(*self, character.hp, character.mp, coins, 0).0 == r,
            !token_draws(*self) ==> *final(rng) == *old(rng),
    {
        let (r, after) = self.evaluate_drawing(character, rng, Ghost(Seq::empty()));
        assert(extends(after@, after@));
        r
    }

    /// Evaluates this token with the given coins for its random tokens,
    /// read from position `at`.
    pub fn evaluate_with_coins(&self, character: &Character, coins: &Vec<bool>, at: usize) -> (r: (TokenResult, usize))
        ensures
            (r.0, r.1 as nat) == eval_token(*self, character.hp, character.mp, coins@, at as nat),
        decreases self,
    {
        match self {
            Token::Check(c) => {
                let (inner, used) = c.evaluate_with_coins(character, coins, at);
                let res = match inner {
                    TokenResult::Continue(true) => TokenResult::Continue(true),
                    _ => TokenResult::Break,
                };
                (res, used)
            },
            Token::TrueOrFalseRandom => {
                let flip = if at < coins.len() { coins[at] } else { false };
                (TokenResult::Continue(flip), 1)
            },
            Token::Strike => (if character.hp > 0 { TokenResult::Action(ActionType::Strike) } else { TokenResult::Break }, 0),
            Token::Heal => (
                if character.hp > 0 && character.mp >= 10 {
                    TokenResult::Action(ActionType::Heal)
                } else {
                    TokenResult::Break
                },
                0,
            ),
        }
    }

    /// A copy of this token.
    pub fn duplicate(&self) -> (r: Token)
        ensures
            r == *self,
        decreases self,
    {
        match self {
            Token::Check(c) => Token::Check(Box::new(c.duplicate())),
            Token::TrueOrFalseRandom => Token::TrueOrFalseRandom,
            Token::Strike => Token::Strike,
            Token::Heal => Token::Heal,
        }
    }
}

/// A token reads at most one coin.
proof fn lemma_token_reads_at_most_one(t: Token, hp: i32, mp: i32, coins: Seq<bool>, at: nat)
    ensures
        eval_token(t, hp, mp, coins, at).1 <= 1,
    decreases t,
{
    match t {
        Token::Check(c) => lemma_token_reads_at_most_one(*c, hp, mp, coins, at),
        _ => {},
    }
}

/// The system that chooses actions by rules, with its random generator.
pub struct ActionCalculationSystem {
    pub rules: Vec<Vec<Token>>,
    pub rng: StdRng,
}

/// The default rules as vectors.
fn default_rule_vectors() -> (r: Vec<Vec<Token>>)
    ensures
        lines_of(r@) == default_rules(),
{
    let r = vec![
        vec![Check::new(Token::TrueOrFalseRandom), Token::Heal],
        vec![Token::Strike],
    ];
    assert(lines_of(r@) =~= default_rules()) by {
        assert(r@[0]@ =~= default_rules()[0]);
        assert(r@[1]@ =~= default_rules()[1]);
    }
    r
}

impl ActionCalculationSystem {
    /// The default rules with a generator seeded from the operating system.
    pub fn new() -> (r: Self)
        ensures
            lines_of(r.rules@) == default_rules(),
    {
        ActionCalculationSystem { rules: default_rule_vectors(), rng: rng_from_entropy() }
    }

    /// The default rules with a generator seeded from `seed`.
    pub fn with_seed(seed: u64) -> (r: Self)
        ensures
            lines_of(r.rules@) == default_rules(),
    {
        ActionCalculationSystem { rules: default_rule_vectors(), rng: rng_from_seed(seed) }
    }

    /// The action that the rules choose for `character`, drawing a coin for
    /// each random token evaluated: what the rules give for some sequence of
    /// coins.
    pub fn calculate_action(&mut self, character: &Character) -> (r: Option<ActionType>)
        ensures
            exists|coins: Seq<bool>| r == eval_rules(lines_of(old(self).rules@), character.hp, character.mp, coins, 0),
            final(self).rules@ == old(self).rules@,
    {
        let ghost rules = lines_of(self.rules@);
        let ghost hp = character.hp;
        let ghost mp = character.mp;
        let mut drawn: Ghost<Seq<bool>> = Ghost(Seq::empty());
        let mut i: usize = 0;
        assert(rules.skip(0) =~= rules);
        while i < self.rules.len()
            invariant
                rules == lines_of(self.rules@),
                self.rules@ == old(self).rules@,
                hp == character.hp,
                mp == character.mp,
                i <= self.rules@.len(),
                forall|full: Seq<bool>| #[trigger] extends(full, drawn@) ==>
                    eval_rules(rules, hp, mp, full, 0) == eval_rules(rules.skip(i as int), hp, mp, full, drawn@.len()),
            decreases self.rules@.len() - i,
        {
            let ghost line = rules[i as int];
            let ghost start = drawn@;
            let rule_line = &self.rules[i];
            assert(rule_line@ == line);
            let mut k: usize = 0;
            let mut decided: Option<ActionType> = None;
            let mut stopped = false;
            assert(line.skip(0) =~= line);
            while k < rule_line.len()
                invariant_except_break
                    !stopped,
                    decided is None,
                invariant
                    rule_line@ == line,
                    self.rules@ == old(self).rules@,
                    rules == lines_of(self.rules@),
                    i < self.rules@.len(),
                    *rule_line == self.rules@[i as int],
                    hp == character.hp,
                    mp == character.mp,
                    k <= line.len(),
                    extends(drawn@, start),
                    !stopped && decided is None ==> forall|full: Seq<bool>| #[trigger] extends(full, drawn@) ==>
                        eval_line(line, hp, mp, full, start.len()) == {
                            let (a, u) = eval_line(line.skip(k as int), hp, mp, full, drawn@.len());
                            (a, (u + drawn@.len() - start.len()) as nat)
                        },
                ensures
                    extends(drawn@, start),
                    forall|full: Seq<bool>| #[trigger] extends(full, drawn@) ==>
                        eval_line(line, hp, mp, full, start.len()) == (decided, (drawn@.len() - start.len()) as nat),
                decreases line.len() - k,
            {
                let ghost before = drawn@;
                let (res, after) = rule_line[k].evaluate_drawing(character, &mut self.rng, drawn);
                drawn = after;
                proof {
                    assert(line.skip(k as int)[0] == line[k as int]);
                    assert(line.skip(k as int).drop_first() =~= line.skip(k + 1));
                    assert forall|full: Seq<bool>| #[trigger] extends(full, drawn@) implies extends(full, before) by {}
                    assert forall|full: Seq<bool>| #[trigger] extends(full, drawn@) implies extends(full, start) by {}
                }
                match res {
                    TokenResult::Continue(true) => {},
                    TokenResult::Action(action) => {
                        decided = Some(action);
                        proof {
                            assert forall|full: Seq<bool>| #[trigger] extends(full, drawn@) implies
                                eval_line(line, hp, mp, full, start.len()) == (decided, (drawn@.len() - start.len()) as nat) by {
                                assert(extends(full, before));
                            }
                        }
                        break;
                    },
                    _ => {
                        stopped = true;
                        proof {
                            assert forall|full: Seq<bool>| #[trigger] extends(full, drawn@) implies
                                eval_line(line, hp, mp, full, start.len()) == (decided, (drawn@.len() - start.len()) as nat) by {
                                assert(extends(full, before));
                            }
                        }
                        break;
                    },
                }
                proof {
                    assert forall|full: Seq<bool>| #[trigger] extends(full, drawn@) implies
                        eval_line(line, hp, mp, full, start.len()) == {
                            let (a, u) = eval_line(line.skip(k + 1), hp, mp, full, drawn@.len());
                            (a, (u + drawn@.len() - start.len()) as nat)
                        } by {
                        assert(extends(full, before));
                    }
                }
                k += 1;
            }
            proof {
                if !stopped && decided is None && k == line.len() {
                    assert(line.skip(k as int) =~= Seq::<Token>::empty());
                }
                assert(rules.skip(i as int)[0] == line);
                assert(rules.skip(i as int).drop_first() =~= rules.skip(i + 1));
            }
            match decided {
                Some(action) => {
                    proof {
                        assert(extends(drawn@, drawn@));
                    }
                    return Some(action);
                },
                None => {},
            }
            proof {
                assert forall|full: Seq<bool>| #[trigger] extends(full, drawn@) implies
                    eval_rules(rules, hp, mp, full, 0) == eval_rules(rules.skip(i + 1), hp, mp, full, drawn@.len()) by {
                    assert(extends(full, start));
                }
            }
            i += 1;
        }
        proof {
            assert(rules.skip(i as int) =~= Seq::<Seq<Token>>::empty());
            assert(extends(drawn@, drawn@));
        }
        None
    }
}

/// The number of tokens in a sequence of rule lines.
pub open spec fn count_tokens(lines: Seq<Seq<Token>>) -> nat
    decreases lines.len(),
{
    if lines.len() == 0 {
        0
    } else {
        count_tokens(lines.drop_last()) + lines.last().len()
    }
}

proof fn lemma_count_tokens_take(lines: Seq<Seq<Token>>, i: int)
    requires
        0 <= i < lines.len(),
    ensures
        count_tokens(lines.take(i + 1)) == count_tokens(lines.take(i)) + lines[i].len(),
        count_tokens(lines.take(i + 1)) <= count_tokens(lines),
    decreases lines.len(),
{
    assert(lines.take(i + 1).drop_last() =~= lines.take(i));
    if i + 1 < lines.len() {
        lemma_count_tokens_take(lines.drop_last(), i);
        assert(lines.drop_last().take(i + 1) =~= lines.take(i + 1));
    } else {
        assert(lines.take(i + 1) =~= lines);
    }
}

/// The action that `rules` choose for `character` when the random tokens
/// read their outcomes from `coins` in order (a missing coin counts as
/// `false`).
pub fn calculate_action_with_coins(rules: &Vec<Vec<Token>>, character: &Character, coins: &Vec<bool>) -> (r: Option<ActionType>)
    requires
        count_tokens(lines_of(rules@)) < usize::MAX,
    ensures
        r == eval_rules(lines_of(rules@), character.hp, character.mp, coins@, 0),
{
    let ghost lines = lines_of(rules@);
    let ghost hp = character.hp;
    let ghost mp = character.mp;
    let mut at: usize = 0;
    let mut i: usize = 0;
    assert(lines.skip(0) =~= lines);
    assert(lines.take(0) =~= Seq::<Seq<Token>>::empty());
    while i < rules.len()
        invariant
            lines == lines_of(rules@),
            hp == character.hp,
            mp == character.mp,
            i <= rules@.len(),
            count_tokens(lines) < usize::MAX,
            at <= count_tokens(lines.take(i as int)),
            count_tokens(lines.take(i as int)) <= count_tokens(lines),
            eval_rules(lines, hp, mp, coins@, 0) == eval_rules(lines.skip(i as int), hp, mp, coins@, at as nat),
        decreases rules@.len() - i,
    {
        let line = &rules[i];
        let ghost l = line@;
        assert(l == lines[i as int]);
        proof { lemma_count_tokens_take(lines, i as int); }
        let ghost start = at;
        let mut k: usize = 0;
        let mut decided: Option<ActionType> = None;
        let mut stopped = false;
        assert(l.skip(0) =~= l);
        while k < line.len()
            invariant_except_break
                !stopped,
                decided is None,
                start <= at <= start + k,
            invariant
                l == line@,
                hp == character.hp,
                mp == character.mp,
                k <= l.len(),
                start <= at <= start + l.len(),
                start + l.len() <= count_tokens(lines),
                count_tokens(lines) < usize::MAX,
                !stopped && decided is None ==> eval_line(l, hp, mp, coins@, start as nat) == {
                    let (a, u) = eval_line(l.skip(k as int), hp, mp, coins@, at as nat);
                    (a, (u + at - start) as nat)
                },
            ensures
                start <= at <= start + l.len(),
                eval_line(l, hp, mp, coins@, start as nat) == (decided, (at - start) as nat),
            decreases l.len() - k,
        {
            let ghost before = at;
            proof {
                lemma_token_reads_at_most_one(l[k as int], hp, mp, coins@, at as nat);
                assert(l.skip(k as int)[0] == l[k as int]);
                assert(l.skip(k as int).drop_first() =~= l.skip(k + 1));
            }
            let (res, used) = line[k].evaluate_with_coins(character, coins, at);
            at = at + used;
            match res {
                TokenResult::Continue(true) => {},
                TokenResult::Action(action) => {
                    decided = Some(action);
                    break;
                },
                _ => {
                    stopped = true;
                    break;
                },
            }
            k += 1;
        }
        proof {
            if !stopped && decided is None && k == l.len() {
                assert(l.skip(k as int) =~= Seq::<Token>::empty());
            }
            assert(lines.skip(i as int)[0] == l);
            assert(lines.skip(i as int).drop_first() =~= lines.skip(i + 1));
        }
        match decided {
            Some(action) => {
                return Some(action);
            },
            None => {},
        }
        i += 1;
    }
    proof {
        assert(lines.skip(i as int) =~= Seq::<Seq<Token>>::empty());
    }
    None
}

/// A chosen action is one the character can take: a strike only when it is
/// alive, a heal only when it is alive and has at least 10 MP. This holds
/// whatever the rules and the coins.
pub proof fn lemma_chosen_action_possible(rules: Seq<Seq<Token>>, hp: i32, mp: i32, coins: Seq<bool>, at: nat)
    ensures
        eval_rules(rules, hp, mp, coins, at) == Some(ActionType::Strike) ==> hp > 0,
        eval_rules(rules, hp, mp, coins, at) == Some(ActionType::Heal) ==> hp > 0 && mp >= 10,
    decreases rules.len(),
{
    if rules.len() > 0 {
        lemma_line_action_possible(rules[0], hp, mp, coins, at);
        let (a, used) = eval_line(rules[0], hp, mp, coins, at);
        lemma_chosen_action_possible(rules.drop_first(), hp, mp, coins, at + used);
    }
}

proof fn lemma_token_action_possible(t: Token, hp: i32, mp: i32, coins: Seq<bool>, at: nat)
    ensures
        eval_token(t, hp, mp, coins, at).0 == TokenResult::Action(ActionType::Strike) ==> hp > 0,
        eval_token(t, hp, mp, coins, at).0 == TokenResult::Action(ActionType::Heal) ==> hp > 0 && mp >= 10,
{
}

proof fn lemma_line_action_possible(line: Seq<Token>, hp: i32, mp: i32, coins: Seq<bool>, at: nat)
    ensures
        eval_line(line, hp, mp, coins, at).0 == Some(ActionType::Strike) ==> hp > 0,
        eval_line(line, hp, mp, coins, at).0 == Some(ActionType::Heal) ==> hp > 0 && mp >= 10,
    decreases line.len(),
{
    if line.len() > 0 {
        lemma_token_action_possible(line[0], hp, mp, coins, at);
        let (r, used) = eval_token(line[0], hp, mp, coins, at);
        lemma_line_action_possible(line.drop_first(), hp, mp, coins, at + used);
    }
}

/// Under the default rules a living character always gets an action: a
/// heal on a winning coin when it has the MP for it, else a strike.
pub proof fn lemma_default_rules_decide(hp: i32, mp: i32, coins: Seq<bool>)
    requires
        hp > 0,
    ensures
        eval_rules(default_rules(), hp, mp, coins, 0) == (if coin(coins, 0) && mp >= 10 {
            Some(ActionType::Heal)
        } else {
            Some(ActionType::Strike)
        }),
{
    let rules = default_rules();
    let first = rules[0];
    let second = rules[1];
    let c = coin(coins, 0);
    assert(first[0] == Token::Check(Box::new(Token::TrueOrFalseRandom)));
    assert(first[1] == Token::Heal);
    assert(second[0] == Token::Strike);
    assert(first.drop_first() =~= seq![Token::Heal]);
    assert(seq![Token::Heal].drop_first() =~= Seq::<Token>::empty());
    assert(rules.drop_first() =~= seq![second]);
    assert(second.drop_first() =~= Seq::<Token>::empty());
    assert(seq![second].drop_first() =~= Seq::<Seq<Token>>::empty());
    assert(eval_token(Token::TrueOrFalseRandom, hp, mp, coins, 0) == (TokenResult::Continue(c), 1nat));
    assert(eval_token(first[0], hp, mp, coins, 0) == (if c { TokenResult::Continue(true) } else { TokenResult::Break }, 1nat));
    let heal = eval_token(Token::Heal, hp, mp, coins, 1);
    assert(heal == (if mp >= 10 { TokenResult::Action(ActionType::Heal) } else { TokenResult::Break }, 0nat));
    assert(eval_line(seq![Token::Heal], hp, mp, coins, 1) == (if mp >= 10 { Some(ActionType::Heal) } else { None }, 0nat));
    let line1 = eval_line(first, hp, mp, coins, 0);
    assert(line1 == (if c && mp >= 10 { Some(ActionType::Heal) } else { None }, 1nat));
    assert(eval_line(second, hp, mp, coins, 1) == (Some(ActionType::Strike), 0nat));
    assert(eval_rules(seq![second], hp, mp, coins, 1) == Some(ActionType::Strike));
}

} // verus!
