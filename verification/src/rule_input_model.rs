//! The rules as they are written in rule files: rule sets of rule chains of
//! token configurations, and the check that a chain does not end in a token
//! that may continue.

use vstd::prelude::*;
use vstd::string::StringExecFns;
use crate::util::{owned, decimal, usize_to_string};

verus! {

/// A token as a rule file describes it.
#[derive(Debug)]
pub enum TokenConfig {
    Strike,
    Heal,
    TrueOrFalseRandom,
    ActingCharacter,
    Check { condition: Option<Box<TokenConfig>>, args: Vec<TokenConfig> },
    GreaterThan { left: Option<Box<TokenConfig>>, right: Option<Box<TokenConfig>>, args: Vec<TokenConfig> },
    Number { value: i32 },
    CharacterHP { character: Option<String>, args: Vec<TokenConfig> },
}

/// The value of a token configuration.
pub enum ConfigTerm {
    Strike,
    Heal,
    TrueOrFalseRandom,
    ActingCharacter,
    Check(Option<Box<ConfigTerm>>, Seq<ConfigTerm>),
    GreaterThan(Option<Box<ConfigTerm>>, Option<Box<ConfigTerm>>, Seq<ConfigTerm>),
    Number(i32),
    CharacterHP(Option<Seq<char>>, Seq<ConfigTerm>),
}

/// The value of a token configuration.
pub open spec fn config_term(t: TokenConfig) -> ConfigTerm
    decreases t,
{
    match t {
        TokenConfig::Strike => ConfigTerm::Strike,
        TokenConfig::Heal => ConfigTerm::Heal,
        TokenConfig::TrueOrFalseRandom => ConfigTerm::TrueOrFalseRandom,
        TokenConfig::ActingCharacter => ConfigTerm::ActingCharacter,
        TokenConfig::Check { condition, args } => ConfigTerm::Check(
            match condition { Some(c) => Some(Box::new(config_term(*c))), None => None },
            config_terms(args@),
        ),
        TokenConfig::GreaterThan { left, right, args } => ConfigTerm::GreaterThan(
            match left { Some(c) => Some(Box::new(config_term(*c))), None => None },
            match right { Some(c) => Some(Box::new(config_term(*c))), None => None },
            config_terms(args@),
        ),
        TokenConfig::Number { value } => ConfigTerm::Number(value),
        TokenConfig::CharacterHP { character, args } => ConfigTerm::CharacterHP(
            match character { Some(c) => Some(c@), None => None },
            config_terms(args@),
        ),
    }
}

/// The values of a sequence of token configurations.
pub open spec fn config_terms(s: Seq<TokenConfig>) -> Seq<ConfigTerm>
    decreases s,
{
    if s.len() == 0 {
        seq![]
    } else {
        seq![config_term(s[0])] + config_terms(s.drop_first())
    }
}

impl View for TokenConfig {
    type V = ConfigTerm;

    open spec fn view(&self) -> ConfigTerm {
        config_term(*self)
    }
}

proof fn lemma_config_terms_push(s: Seq<TokenConfig>, t: TokenConfig)
    ensures
        config_terms(s.push(t)) == config_terms(s).push(config_term(t)),
    decreases s.len(),
{
    if s.len() == 0 {
        assert(s.push(t).drop_first() =~= Seq::<TokenConfig>::empty());
        assert(s.push(t)[0] == t);
        assert(config_terms(Seq::<TokenConfig>::empty()) =~= Seq::<ConfigTerm>::empty());
        assert(config_terms(s.push(t)) =~= seq![config_term(t)]);
    } else {
        assert(s.push(t).drop_first() =~= s.drop_first().push(t));
        lemma_config_terms_push(s.drop_first(), t);
        assert(config_terms(s.push(t)) =~= config_terms(s).push(config_term(t)));
    }
}

pub(crate) proof fn lemma_config_terms_index(s: Seq<TokenConfig>, i: int)
    requires
        0 <= i < s.len(),
    ensures
        config_terms(s).len() == s.len(),
        config_terms(s)[i] == config_term(s[i]),
    decreases s.len(),
{
    lemma_config_terms_len(s);
    if i > 0 {
        lemma_config_terms_index(s.drop_first(), i - 1);
    }
}

pub(crate) proof fn lemma_config_terms_len(s: Seq<TokenConfig>)
    ensures
        config_terms(s).len() == s.len(),
    decreases s.len(),
{
    if s.len() > 0 {
        lemma_config_terms_len(s.drop_first());
    }
}

/// A rule chain: tokens read in order.
#[derive(Debug)]
pub struct RuleChain {
    pub tokens: Vec<TokenConfig>,
}

/// A set of rule chains.
#[derive(Debug)]
pub struct RuleSet {
    pub rules: Vec<RuleChain>,
}

/// A rule chain that passed validation.
#[derive(Debug)]
pub struct ValidatedRuleChain {
    pub tokens: Vec<TokenConfig>,
}

/// The kind name of a token that may continue the chain (`Check`,
/// `GreaterThan`, `TrueOrFalseRandom`), or `None`.
pub open spec fn continuing_kind(t: TokenConfig) -> Option<Seq<char>> {
    match t {
        TokenConfig::Check { .. } => Some("Check"@),
        TokenConfig::GreaterThan { .. } => Some("GreaterThan"@),
        TokenConfig::TrueOrFalseRandom => Some("TrueOrFalseRandom"@),
        _ => None,
    }
}

/// The message for a continuing token of kind `kind` at the end of a chain.
pub open spec fn last_token_message(kind: Seq<char>, position: nat) -> Seq<char> {
    kind + " token at position "@ + decimal(position) + " cannot be the last token in a rule chain. "@ + kind
        + " tokens may continue execution and require subsequent tokens."@
}

/// The outcome of validating a chain: it fails exactly when its last token
/// may continue.
pub open spec fn validation_outcome(tokens: Seq<TokenConfig>) -> Result<(), Seq<char>> {
    if tokens.len() > 0 && continuing_kind(tokens.last()) is Some {
        Err(last_token_message(continuing_kind(tokens.last())->Some_0, (tokens.len() - 1) as nat))
    } else {
        Ok(())
    }
}

pub(crate) proof fn lemma_list_element_smaller(t: TokenConfig, i: int)
    requires
        t is Check || t is GreaterThan || t is CharacterHP,
        t is Check ==> 0 <= i < t->Check_args@.len(),
        t is GreaterThan ==> 0 <= i < t->GreaterThan_args@.len(),
        t is CharacterHP ==> 0 <= i < t->CharacterHP_args@.len(),
    ensures
        t is Check ==> decreases_to!(t => t->Check_args@[i]),
        t is GreaterThan ==> decreases_to!(t => t->GreaterThan_args@[i]),
        t is CharacterHP ==> decreases_to!(t => t->CharacterHP_args@[i]),
{
    if t is Check {
        let a = t->Check_args;
        assert(decreases_to!(t => a));
        assert(decreases_to!(a => a@));
        assert(decreases_to!(a@ => a@[i]));
    } else if t is GreaterThan {
        let a = t->GreaterThan_args;
        assert(decreases_to!(t => a));
        assert(decreases_to!(a => a@));
        assert(decreases_to!(a@ => a@[i]));
    } else {
        let a = t->CharacterHP_args;
        assert(decreases_to!(t => a));
        assert(decreases_to!(a => a@));
        assert(decreases_to!(a@ => a@[i]));
    }
}

/// Copies of a list of token configurations.
fn duplicate_configs(v: &Vec<TokenConfig>) -> (r: Vec<TokenConfig>)
    ensures
        config_terms(r@) == config_terms(v@),
        r@.len() == v@.len(),
        forall|i: int| 0 <= i < v@.len() ==> continuing_kind(#[trigger] r@[i]) == continuing_kind(v@[i]),
    decreases v@,
{
    let mut out: Vec<TokenConfig> = Vec::new();
    let mut i: usize = 0;
    while i < v.len()
        invariant
            i <= v@.len(),
            out@.len() == i,
            config_terms(out@) == config_terms(v@.take(i as int)),
            forall|j: int| 0 <= j < i ==> continuing_kind(#[trigger] out@[j]) == continuing_kind(v@[j]),
        decreases v@.len() - i,
    {
        assert(decreases_to!(v@ => v@[i as int]));
        let c = v[i].duplicate();
        proof {
            lemma_config_terms_push(out@, c);
            assert(v@.take(i + 1) =~= v@.take(i as int).push(v@[i as int]));
            lemma_config_terms_push(v@.take(i as int), v@[i as int]);
        }
        out.push(c);
        i += 1;
    }
    assert(v@.take(v@.len() as int) =~= v@);
    out
}

impl TokenConfig {
    /// A copy of this configuration.
    pub fn duplicate(&self) -> (r: TokenConfig)
        ensures
            r@ == self@,
            continuing_kind(r) == continuing_kind(*self),
        decreases self,
    {
        match self {
            TokenConfig::Strike => TokenConfig::Strike,
            TokenConfig::Heal => TokenConfig::Heal,
            TokenConfig::TrueOrFalseRandom => TokenConfig::TrueOrFalseRandom,
            TokenConfig::ActingCharacter => TokenConfig::ActingCharacter,
            TokenConfig::Check { condition, args } => {
                let c = match condition {
                    Some(b) => Some(Box::new((**b).duplicate())),
                    None => None,
                };
                assert(decreases_to!(*self => *args));
                TokenConfig::Check { condition: c, args: duplicate_configs(args) }
            },
            TokenConfig::GreaterThan { left, right, args } => {
                let l = match left {
                    Some(b) => Some(Box::new((**b).duplicate())),
                    None => None,
                };
                let r = match right {
                    Some(b) => Some(Box::new((**b).duplicate())),
                    None => None,
                };
                assert(decreases_to!(*self => *args));
                TokenConfig::GreaterThan { left: l, right: r, args: duplicate_configs(args) }
            },
            TokenConfig::Number { value } => TokenConfig::Number { value: *value },
            TokenConfig::CharacterHP { character, args } => {
                let c = match character {
                    Some(s) => Some(s.clone()),
                    None => None,
                };
                assert(decreases_to!(*self => *args));
                TokenConfig::CharacterHP { character: c, args: duplicate_configs(args) }
            },
        }
    }
}

impl ValidatedRuleChain {
    /// The chain, once it is known not to end in a token that may continue.
    pub fn from_rule_chain(rule_chain: &RuleChain) -> (r: Result<Self, String>)
        ensures
            match (r, validation_outcome(rule_chain.tokens@)) {
                (Ok(v), Ok(())) => config_terms(v.tokens@) == config_terms(rule_chain.tokens@)
                    && v.tokens@.len() == rule_chain.tokens@.len()
                    && forall|i: int| 0 <= i < v.tokens@.len()
                        ==> continuing_kind(#[trigger] v.tokens@[i]) == continuing_kind(rule_chain.tokens@[i]),
                (Err(m), Err(n)) => m@ == n,
                _ => false,
            },
    {
        Self::validate_token_sequence(&rule_chain.tokens)?;
        Ok(ValidatedRuleChain { tokens: duplicate_configs(&rule_chain.tokens) })
    }

    /// Fails at a token that may continue when it is the last of the chain;
    /// the tokens nested in each token are validated too.
    fn validate_token_sequence(tokens: &Vec<TokenConfig>) -> (r: Result<(), String>)
        ensures
            match (r, validation_outcome(tokens@)) {
                (Ok(()), Ok(())) => true,
                (Err(m), Err(n)) => m@ == n,
                _ => false,
            },
    {
        proof {
            reveal_strlit("Check");
            reveal_strlit("GreaterThan");
            reveal_strlit("TrueOrFalseRandom");
        }
        let n = tokens.len();
        let mut i: usize = 0;
        while i < n
            invariant
                n == tokens@.len(),
                i <= n,
                forall|j: int| 0 <= j < i && j == n - 1 ==> continuing_kind(tokens@[j]) is None,
            decreases n - i,
        {
            let kind: Option<&str> = match &tokens[i] {
                TokenConfig::Check { condition, args } => {
                    if let Some(c) = condition {
                        Self::validate_single_token(c)?;
                    }
                    let mut k: usize = 0;
                    while k < args.len()
                        decreases args@.len() - k,
                    {
                        Self::validate_single_token(&args[k])?;
                        k += 1;
                    }
                    Some("Check")
                },
                TokenConfig::GreaterThan { left, right, args } => {
                    if let Some(l) = left {
                        Self::validate_single_token(l)?;
                    }
                    if let Some(r) = right {
                        Self::validate_single_token(r)?;
                    }
                    let mut k: usize = 0;
                    while k < args.len()
                        decreases args@.len() - k,
                    {
                        Self::validate_single_token(&args[k])?;
                        k += 1;
                    }
                    Some("GreaterThan")
                },
                TokenConfig::TrueOrFalseRandom => Some("TrueOrFalseRandom"),
                _ => None,
            };
            match kind {
                Some(name) => {
                    assert(continuing_kind(tokens@[i as int]) == Some(name@));
                    if i == n - 1 {
                        let p = usize_to_string(i);
                        return Err(owned(name).concat(" token at position ").concat(p.as_str())
                            .concat(" cannot be the last token in a rule chain. ").concat(name)
                            .concat(" tokens may continue execution and require subsequent tokens."));
                    }
                },
                None => {
                    assert(continuing_kind(tokens@[i as int]) is None);
                },
            }
            i += 1;
        }
        Ok(())
    }

    /// Validates the tokens nested in `token`; every nested token is valid.
    fn validate_single_token(token: &TokenConfig) -> (r: Result<(), String>)
        ensures
            r is Ok,
        decreases token,
    {
        match token {
            TokenConfig::Check { condition, args } => {
                if let Some(c) = condition {
                    Self::validate_single_token(c)?;
                }
                let mut k: usize = 0;
                while k < args.len()
                    invariant
                        *token == (TokenConfig::Check { condition: *condition, args: *args }),
                    decreases args@.len() - k,
                {
                    proof { lemma_list_element_smaller(*token, k as int); }
                    Self::validate_single_token(&args[k])?;
                    k += 1;
                }
            },
            TokenConfig::GreaterThan { left, right, args } => {
                if let Some(l) = left {
                    Self::validate_single_token(l)?;
                }
                if let Some(r) = right {
                    Self::validate_single_token(r)?;
                }
                let mut k: usize = 0;
                while k < args.len()
                    invariant
                        *token == (TokenConfig::GreaterThan { left: *left, right: *right, args: *args }),
                    decreases args@.len() - k,
                {
                    proof { lemma_list_element_smaller(*token, k as int); }
                    Self::validate_single_token(&args[k])?;
                    k += 1;
                }
            },
            TokenConfig::CharacterHP { character, args } => {
                let mut k: usize = 0;
                while k < args.len()
                    invariant
                        *token == (TokenConfig::CharacterHP { character: *character, args: *args }),
                    decreases args@.len() - k,
                {
                    proof { lemma_list_element_smaller(*token, k as int); }
                    Self::validate_single_token(&args[k])?;
                    k += 1;
                }
            },
            _ => {},
        }
        Ok(())
    }
}

} // verus!
