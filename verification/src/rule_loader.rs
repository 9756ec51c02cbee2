//! Turning rule sets, as rule files describe them, into token trees: each
//! chain is validated, then each token configuration is converted.

use vstd::prelude::*;
use vstd::string::StringExecFns;
use crate::rule_input_model::{
    RuleSet, TokenConfig, ValidatedRuleChain, ConfigTerm, config_term, config_terms, validation_outcome,
    lemma_list_element_smaller, lemma_config_terms_index, lemma_config_terms_len,
};
use crate::util::{owned, str_eq};

verus! {

/// A token of a loaded rule.
#[derive(Debug)]
pub enum TokenNode {
    Strike,
    Heal,
    TrueOrFalseRandom,
    ActingCharacter,
    Check(Box<TokenNode>),
    GreaterThan(Box<TokenNode>, Box<TokenNode>),
    Number(i32),
    CharacterHP(Box<TokenNode>),
}

/// The token that a configuration converts to, or why it does not convert.
/// Arguments are preferred to the named fields.
pub open spec fn convert_spec(c: ConfigTerm) -> Result<TokenNode, Seq<char>>
    decreases c,
{
    match c {
        ConfigTerm::Strike => Ok(TokenNode::Strike),
        ConfigTerm::Heal => Ok(TokenNode::Heal),
        ConfigTerm::TrueOrFalseRandom => Ok(TokenNode::TrueOrFalseRandom),
        ConfigTerm::ActingCharacter => Ok(TokenNode::ActingCharacter),
        ConfigTerm::Check(condition, args) =>
            if args.len() > 0 {
                match convert_spec(args[0]) {
                    Ok(t) => Ok(TokenNode::Check(Box::new(t))),
                    Err(e) => Err(e),
                }
            } else {
                match condition {
                    Some(x) => match convert_spec(*x) {
                        Ok(t) => Ok(TokenNode::Check(Box::new(t))),
                        Err(e) => Err(e),
                    },
                    None => Err("Check token requires either args or condition"@),
                }
            },
        ConfigTerm::GreaterThan(left, right, args) =>
            if args.len() >= 2 {
                match (convert_spec(args[0]), convert_spec(args[1])) {
                    (Ok(l), Ok(r)) => Ok(TokenNode::GreaterThan(Box::new(l), Box::new(r))),
                    (Err(e), _) => Err(e),
                    (_, Err(e)) => Err(e),
                }
            } else {
                match (left, right) {
                    (Some(l), Some(r)) => match (convert_spec(*l), convert_spec(*r)) {
                        (Ok(a), Ok(b)) => Ok(TokenNode::GreaterThan(Box::new(a), Box::new(b))),
                        (Err(e), _) => Err(e),
                        (_, Err(e)) => Err(e),
                    },
                    _ => Err("GreaterThan token requires either args array with 2 elements or left/right fields"@),
                }
            },
        ConfigTerm::Number(value) => Ok(TokenNode::Number(value)),
        ConfigTerm::CharacterHP(character, args) =>
            if args.len() > 0 {
                match convert_spec(args[0]) {
                    Ok(t) => Ok(TokenNode::CharacterHP(Box::new(t))),
                    Err(e) => Err(e),
                }
            } else {
                match character {
                    Some(name) =>
                        if name == "Self"@ {
                            Ok(TokenNode::CharacterHP(Box::new(TokenNode::ActingCharacter)))
                        } else {
                            Err("Unknown character type: "@ + name)
                        },
                    None => Err("CharacterHP token requires either args or character field"@),
                }
            },
    }
}

/// The tokens that a chain converts to, or the first failure.
pub open spec fn convert_chain(tokens: Seq<ConfigTerm>) -> Result<Seq<TokenNode>, Seq<char>>
    decreases tokens.len(),
{
    if tokens.len() == 0 {
        Ok(seq![])
    } else {
        match convert_spec(tokens[0]) {
            Err(e) => Err(e),
            Ok(t) => match convert_chain(tokens.drop_first()) {
                Ok(rest) => Ok(seq![t] + rest),
                Err(e) => Err(e),
            },
        }
    }
}

/// The rules that chains convert to: each chain is validated, then
/// converted; the first failure is reported.
pub open spec fn convert_rules(chains: Seq<Seq<TokenConfig>>) -> Result<Seq<Seq<TokenNode>>, Seq<char>>
    decreases chains.len(),
{
    if chains.len() == 0 {
        Ok(seq![])
    } else {
        match validation_outcome(chains[0]) {
            Err(e) => Err(e),
            Ok(()) => match convert_chain(config_terms(chains[0])) {
                Err(e) => Err(e),
                Ok(first) => match convert_rules(chains.drop_first()) {
                    Ok(rest) => Ok(seq![first] + rest),
                    Err(e) => Err(e),
                },
            },
        }
    }
}

/// The token configurations of each chain of a rule set.
pub open spec fn chains_of(rule_set: RuleSet) -> Seq<Seq<TokenConfig>> {
    rule_set.rules@.map_values(|c: crate::rule_input_model::RuleChain| c.tokens@)
}

/// The result of a conversion is what the specification gives.
pub open spec fn converted_as<T>(r: Result<T, String>, s: Result<T, Seq<char>>) -> bool {
    match (r, s) {
        (Ok(a), Ok(b)) => a == b,
        (Err(m), Err(n)) => m@ == n,
        _ => false,
    }
}

/// Converts each chain of `rule_set` after validating it.
pub fn convert_to_token_rules(rule_set: &RuleSet) -> (r: Result<Vec<Vec<TokenNode>>, String>)
    ensures
        match (r, convert_rules(chains_of(*rule_set))) {
            (Ok(v), Ok(s)) => v@.map_values(|l: Vec<TokenNode>| l@) == s,
            (Err(m), Err(n)) => m@ == n,
            _ => false,
        },
{
    let ghost chains = chains_of(*rule_set);
    let mut token_rules: Vec<Vec<TokenNode>> = Vec::new();
    let mut i: usize = 0;
    assert(chains.skip(0) =~= chains);
    while i < rule_set.rules.len()
        invariant
            chains == chains_of(*rule_set),
            i <= rule_set.rules@.len(),
            match convert_rules(chains) {
                Ok(s) => match convert_rules(chains.skip(i as int)) {
                    Ok(rest) => s == token_rules@.map_values(|l: Vec<TokenNode>| l@) + rest,
                    Err(_) => false,
                },
                Err(e) => convert_rules(chains.skip(i as int)) == Err::<Seq<Seq<TokenNode>>, Seq<char>>(e),
            },
        decreases rule_set.rules@.len() - i,
    {
        let rule_chain = &rule_set.rules[i];
        let ghost toks = rule_chain.tokens@;
        assert(chains.skip(i as int)[0] == toks);
        assert(chains.skip(i as int).drop_first() =~= chains.skip(i + 1));
        let validated_chain = match ValidatedRuleChain::from_rule_chain(rule_chain) {
            Ok(v) => v,
            Err(e) => {
                return Err(e);
            },
        };
        let mut token_chain: Vec<TokenNode> = Vec::new();
        let mut k: usize = 0;
        let ghost vterms = config_terms(validated_chain.tokens@);
        proof { lemma_config_terms_len(validated_chain.tokens@); }
        assert(vterms.skip(0) =~= vterms);
        while k < validated_chain.tokens.len()
            invariant
                vterms == config_terms(validated_chain.tokens@),
                vterms == config_terms(toks),
                validation_outcome(toks) is Ok,
                chains == chains_of(*rule_set),
                i < chains.len(),
                chains.skip(i as int)[0] == toks,
                chains.skip(i as int).drop_first() == chains.skip(i + 1),
                match convert_rules(chains) {
                    Ok(s) => match convert_rules(chains.skip(i as int)) {
                        Ok(rest) => s == token_rules@.map_values(|l: Vec<TokenNode>| l@) + rest,
                        Err(_) => false,
                    },
                    Err(e) => convert_rules(chains.skip(i as int)) == Err::<Seq<Seq<TokenNode>>, Seq<char>>(e),
                },
                vterms.len() == validated_chain.tokens@.len(),
                k <= validated_chain.tokens@.len(),
                match convert_chain(vterms) {
                    Ok(s) => match convert_chain(vterms.skip(k as int)) {
                        Ok(rest) => s == token_chain@ + rest,
                        Err(_) => false,
                    },
                    Err(e) => convert_chain(vterms.skip(k as int)) == Err::<Seq<TokenNode>, Seq<char>>(e),
                },
            decreases validated_chain.tokens@.len() - k,
        {
            proof {
                lemma_config_terms_index(validated_chain.tokens@, k as int);
                assert(vterms.skip(k as int)[0] == vterms[k as int]);
                assert(vterms.skip(k as int).drop_first() =~= vterms.skip(k + 1));
            }
            let token = match convert_token_config(&validated_chain.tokens[k]) {
                Ok(t) => t,
                Err(e) => {
                    return Err(e);
                },
            };
            let ghost before = token_chain@;
            token_chain.push(token);
            proof {
                match convert_chain(vterms) {
                    Ok(s) => {
                        let rest = convert_chain(vterms.skip(k + 1))->Ok_0;
                        assert(s == before + (seq![token] + rest));
                        assert(before + (seq![token] + rest) =~= token_chain@ + rest);
                    },
                    Err(_) => {},
                }
            }
            k += 1;
        }
        proof {
            assert(vterms.skip(k as int) =~= Seq::<ConfigTerm>::empty());
            assert(token_chain@ + Seq::<TokenNode>::empty() =~= token_chain@);
        }
        let ghost before = token_rules@.map_values(|l: Vec<TokenNode>| l@);
        token_rules.push(token_chain);
        proof {
            assert(token_rules@.map_values(|l: Vec<TokenNode>| l@) =~= before.push(token_chain@));
            match convert_rules(chains) {
                Ok(s) => {
                    let rest = convert_rules(chains.skip(i + 1))->Ok_0;
                    assert(s == before + (seq![token_chain@] + rest));
                    assert(before + (seq![token_chain@] + rest) =~= before.push(token_chain@) + rest);
                },
                Err(_) => {},
            }
        }
        i += 1;
    }
    proof {
        assert(chains.skip(i as int) =~= Seq::<Seq<TokenConfig>>::empty());
        assert(token_rules@.map_values(|l: Vec<TokenNode>| l@) + Seq::<Seq<TokenNode>>::empty()
            =~= token_rules@.map_values(|l: Vec<TokenNode>| l@));
    }
    Ok(token_rules)
}

/// Converts one token configuration.
fn convert_token_config(config: &TokenConfig) -> (r: Result<TokenNode, String>)
    ensures
        converted_as(r, convert_spec(config@)),
    decreases config,
{
    match config {
        TokenConfig::Strike => Ok(TokenNode::Strike),
        TokenConfig::Heal => Ok(TokenNode::Heal),
        TokenConfig::TrueOrFalseRandom => Ok(TokenNode::TrueOrFalseRandom),
        TokenConfig::ActingCharacter => Ok(TokenNode::ActingCharacter),
        TokenConfig::Check { condition, args } => {
            proof { lemma_config_terms_len(args@); }
            if args.len() > 0 {
                proof {
                    lemma_config_terms_index(args@, 0);
                    lemma_list_element_smaller(*config, 0);
                }
                let condition_token = convert_token_config(&args[0])?;
                Ok(TokenNode::Check(Box::new(condition_token)))
            } else {
                match condition {
                    Some(c) => {
                        let condition_token = convert_token_config(c)?;
                        Ok(TokenNode::Check(Box::new(condition_token)))
                    },
                    None => Err(owned("Check token requires either args or condition")),
                }
            }
        },
        TokenConfig::GreaterThan { left, right, args } => {
            proof { lemma_config_terms_len(args@); }
            if args.len() >= 2 {
                proof {
                    lemma_config_terms_index(args@, 0);
                    lemma_config_terms_index(args@, 1);
                    lemma_list_element_smaller(*config, 0);
                    lemma_list_element_smaller(*config, 1);
                }
                let left_token = convert_token_config(&args[0])?;
                let right_token = convert_token_config(&args[1])?;
                Ok(TokenNode::GreaterThan(Box::new(left_token), Box::new(right_token)))
            } else {
                match (left, right) {
                    (Some(l), Some(r)) => {
                        let left_token = convert_token_config(l)?;
                        let right_token = convert_token_config(r)?;
                        Ok(TokenNode::GreaterThan(Box::new(left_token), Box::new(right_token)))
                    },
                    _ => Err(owned("GreaterThan token requires either args array with 2 elements or left/right fields")),
                }
            }
        },
        TokenConfig::Number { value } => Ok(TokenNode::Number(*value)),
        TokenConfig::CharacterHP { character, args } => {
            proof { lemma_config_terms_len(args@); }
            if args.len() > 0 {
                proof {
                    lemma_config_terms_index(args@, 0);
                    lemma_list_element_smaller(*config, 0);
                }
                let character_token = convert_token_config(&args[0])?;
                Ok(TokenNode::CharacterHP(Box::new(character_token)))
            } else {
                match character {
                    Some(name) => {
                        if str_eq(name.as_str(), "Self") {
                            Ok(TokenNode::CharacterHP(Box::new(TokenNode::ActingCharacter)))
                        } else {
                            Err(owned("Unknown character type: ").concat(name.as_str()))
                        }
                    },
                    None => Err(owned("CharacterHP token requires either args or character field")),
                }
            }
        },
    }
}

/// A comparison converts its operands in place: from the `left`/`right`
/// fields exactly as from `args` (the first argument on the left), and when
/// both operands convert, the left one becomes the comparison's left operand
/// and the right one its right operand.
pub proof fn lemma_greater_than_keeps_operand_order(l: ConfigTerm, r: ConfigTerm)
    ensures
        convert_spec(ConfigTerm::GreaterThan(Some(Box::new(l)), Some(Box::new(r)), Seq::empty()))
            == convert_spec(ConfigTerm::GreaterThan(None, None, seq![l, r])),
        convert_spec(l) is Ok && convert_spec(r) is Ok ==>
            convert_spec(ConfigTerm::GreaterThan(Some(Box::new(l)), Some(Box::new(r)), Seq::empty()))
                == Ok::<TokenNode, Seq<char>>(TokenNode::GreaterThan(
                    Box::new(convert_spec(l)->Ok_0),
                    Box::new(convert_spec(r)->Ok_0),
                )),
{
    let two = seq![l, r];
    assert(two[0] == l && two[1] == r);
}

} // verus!
