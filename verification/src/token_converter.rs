//! Turning the rows of tokens that the rule editor shows into rule trees: a
//! recursive-descent parser over the row, where each token takes the tokens
//! after it as its operands.

use vstd::prelude::*;
use vstd::string::StringExecFns;
use crate::util::{owned, signed_decimal, i32_to_string, tuple1_text, tuple2_text, tuple1_string, tuple2_string};

verus! {

/// A token of the rule editor.
#[derive(Clone, Copy, Debug, PartialEq, Eq, Structural)]
pub enum UITokenType {
    Check,
    Strike,
    Heal,
    Number(u32),
    /// The character that acts.
    ActingCharacter,
    /// A character picked at random.
    RandomCharacter,
    /// The HP of a character.
    HP,
    GreaterThan,
    TrueOrFalse,
}

/// A character a rule refers to.
#[derive(Clone, Copy, Debug, PartialEq, Eq, Structural)]
pub enum CharacterNode {
    Acting,
    Random,
}

/// A number a rule computes.
#[derive(Clone, Copy, Debug, PartialEq, Eq, Structural)]
pub enum ValueNode {
    Constant(i32),
    CharacterHp(CharacterNode),
}

/// A condition of a rule.
#[derive(Clone, Copy, Debug, PartialEq, Eq, Structural)]
pub enum ConditionNode {
    Random,
    GreaterThan(ValueNode, ValueNode),
}

/// What a rule does: strike, heal a character, or act when a condition holds.
#[derive(Debug)]
pub enum ActionNode {
    Strike,
    Heal(CharacterNode),
    Check(ConditionNode, Box<ActionNode>),
}

/// A rule: the action it resolves to.
pub type RuleNode = ActionNode;

/// What parsing a token gives, by the kind of node.
#[derive(Debug)]
pub enum ParsedResolver {
    Action(ActionNode),
    Condition(ConditionNode),
    Value(ValueNode),
    Character(CharacterNode),
}

/// What `{:?}` renders a character node as.
pub open spec fn character_debug_text(c: CharacterNode) -> Seq<char> {
    match c {
        CharacterNode::Acting => "Acting"@,
        CharacterNode::Random => "Random"@,
    }
}

/// What `{:?}` renders a value node as.
pub open spec fn value_debug_text(v: ValueNode) -> Seq<char> {
    match v {
        ValueNode::Constant(n) => tuple1_text("Constant"@, signed_decimal(n as int)),
        ValueNode::CharacterHp(c) => tuple1_text("CharacterHp"@, character_debug_text(c)),
    }
}

/// What `{:?}` renders a condition node as.
pub open spec fn condition_debug_text(c: ConditionNode) -> Seq<char> {
    match c {
        ConditionNode::Random => "Random"@,
        ConditionNode::GreaterThan(a, b) => tuple2_text("GreaterThan"@, value_debug_text(a), value_debug_text(b)),
    }
}

/// What `{:?}` renders an action node as.
pub open spec fn action_debug_text(a: ActionNode) -> Seq<char>
    decreases a,
{
    match a {
        ActionNode::Strike => "Strike"@,
        ActionNode::Heal(c) => tuple1_text("Heal"@, character_debug_text(c)),
        ActionNode::Check(c, next) => tuple2_text("Check"@, condition_debug_text(c), action_debug_text(*next)),
    }
}

/// What `{:?}` renders a parse result as.
pub open spec fn parsed_debug_text(p: ParsedResolver) -> Seq<char> {
    match p {
        ParsedResolver::Action(a) => tuple1_text("Action"@, action_debug_text(a)),
        ParsedResolver::Condition(c) => tuple1_text("Condition"@, condition_debug_text(c)),
        ParsedResolver::Value(v) => tuple1_text("Value"@, value_debug_text(v)),
        ParsedResolver::Character(c) => tuple1_text("Character"@, character_debug_text(c)),
    }
}

fn character_debug_string(c: &CharacterNode) -> (r: String)
    ensures
        r@ == character_debug_text(*c),
{
    match c {
        CharacterNode::Acting => owned("Acting"),
        CharacterNode::Random => owned("Random"),
    }
}

fn value_debug_string(v: &ValueNode) -> (r: String)
    ensures
        r@ == value_debug_text(*v),
{
    match v {
        ValueNode::Constant(n) => {
            let a = i32_to_string(*n);
            tuple1_string("Constant", &a)
        },
        ValueNode::CharacterHp(c) => {
            let a = character_debug_string(c);
            tuple1_string("CharacterHp", &a)
        },
    }
}

fn condition_debug_string(c: &ConditionNode) -> (r: String)
    ensures
        r@ == condition_debug_text(*c),
{
    match c {
        ConditionNode::Random => owned("Random"),
        ConditionNode::GreaterThan(a, b) => {
            let x = value_debug_string(a);
            let y = value_debug_string(b);
            tuple2_string("GreaterThan", &x, &y)
        },
    }
}

fn action_debug_string(a: &ActionNode) -> (r: String)
    ensures
        r@ == action_debug_text(*a),
    decreases a,
{
    match a {
        ActionNode::Strike => owned("Strike"),
        ActionNode::Heal(c) => {
            let x = character_debug_string(c);
            tuple1_string("Heal", &x)
        },
        ActionNode::Check(c, next) => {
            let x = condition_debug_string(c);
            let y = action_debug_string(next);
            tuple2_string("Check", &x, &y)
        },
    }
}

/// The text of `parsed_debug_text`.
fn parsed_debug_string(p: &ParsedResolver) -> (r: String)
    ensures
        r@ == parsed_debug_text(*p),
{
    match p {
        ParsedResolver::Action(a) => {
            let x = action_debug_string(a);
            tuple1_string("Action", &x)
        },
        ParsedResolver::Condition(c) => {
            let x = condition_debug_string(c);
            tuple1_string("Condition", &x)
        },
        ParsedResolver::Value(v) => {
            let x = value_debug_string(v);
            tuple1_string("Value", &x)
        },
        ParsedResolver::Character(c) => {
            let x = character_debug_string(c);
            tuple1_string("Character", &x)
        },
    }
}

/// The action of a parse result, or the mismatch message.
pub open spec fn require_action_spec(p: ParsedResolver) -> Result<ActionNode, Seq<char>> {
    match p {
        ParsedResolver::Action(a) => Ok(a),
        _ => Err("Expected Action, got "@ + parsed_debug_text(p)),
    }
}

/// The condition of a parse result, or the mismatch message.
pub open spec fn require_condition_spec(p: ParsedResolver) -> Result<ConditionNode, Seq<char>> {
    match p {
        ParsedResolver::Condition(c) => Ok(c),
        _ => Err("Expected Condition, got "@ + parsed_debug_text(p)),
    }
}

/// The value of a parse result, or the mismatch message.
pub open spec fn require_value_spec(p: ParsedResolver) -> Result<ValueNode, Seq<char>> {
    match p {
        ParsedResolver::Value(v) => Ok(v),
        _ => Err("Expected Value, got "@ + parsed_debug_text(p)),
    }
}

/// The character of a parse result, or the mismatch message.
pub open spec fn require_character_spec(p: ParsedResolver) -> Result<CharacterNode, Seq<char>> {
    match p {
        ParsedResolver::Character(c) => Ok(c),
        _ => Err("Expected Character, got "@ + parsed_debug_text(p)),
    }
}

/// The message when the tokens run out.
pub open spec fn no_tokens_text() -> Seq<char> {
    "No tokens to parse"@
}

/// The message when `GreaterThan` lacks its operands.
pub open spec fn greater_than_operands_text() -> Seq<char> {
    "GreaterThan token requires two value operands. Format: GreaterThan → <left_value> → <right_value> (e.g., GreaterThan → Number(50) → HP(ActingCharacter))"@
}

/// The message when `HP` lacks its character.
pub open spec fn hp_operand_text() -> Seq<char> {
    "HP token must be followed by a Character token. Valid combinations: HP → ActingCharacter, HP → RandomCharacter"@
}

/// The message when `Check` lacks its condition and action.
pub open spec fn check_operands_text() -> Seq<char> {
    "Check token requires a condition and action. Format: Check → <condition> → <action>"@
}

/// The message when `Check` lacks its action.
pub open spec fn check_action_text() -> Seq<char> {
    "Check token requires an action after the condition. Format: Check → <condition> → <action>"@
}

/// Parsing the token at `index`, with its operands: the result and how many
/// tokens it took, or why it fails.
pub open spec fn parse_spec(tokens: Seq<UITokenType>, index: nat) -> Result<(ParsedResolver, nat), Seq<char>>
    decreases tokens.len() - index,
{
    if index >= tokens.len() {
        Err(no_tokens_text())
    } else {
        match tokens[index as int] {
            UITokenType::Strike => Ok((ParsedResolver::Action(ActionNode::Strike), 1)),
            UITokenType::Heal => Ok((ParsedResolver::Action(ActionNode::Heal(CharacterNode::Acting)), 1)),
            UITokenType::TrueOrFalse => Ok((ParsedResolver::Condition(ConditionNode::Random), 1)),
            UITokenType::Number(n) => Ok((ParsedResolver::Value(ValueNode::Constant(n as i32)), 1)),
            UITokenType::ActingCharacter => Ok((ParsedResolver::Character(CharacterNode::Acting), 1)),
            UITokenType::RandomCharacter => Ok((ParsedResolver::Character(CharacterNode::Random), 1)),
            UITokenType::GreaterThan =>
                if index + 2 >= tokens.len() {
                    Err(greater_than_operands_text())
                } else {
                    match parse_spec(tokens, index + 1) {
                        Err(e) => Err(e),
                        Ok((lp, lc)) => match require_value_spec(lp) {
                            Err(e) => Err(e),
                            Ok(lv) => {
                                let j = index + 1 + lc;
                                let right = if j < tokens.len() { parse_spec(tokens, j) } else { Err(no_tokens_text()) };
                                match right {
                                    Err(e) => Err(e),
                                    Ok((rp, rc)) => match require_value_spec(rp) {
                                        Err(e) => Err(e),
                                        Ok(rv) => Ok((ParsedResolver::Condition(ConditionNode::GreaterThan(lv, rv)), 1 + lc + rc)),
                                    },
                                }
                            },
                        },
                    }
                },
            UITokenType::HP =>
                if index + 1 >= tokens.len() {
                    Err(hp_operand_text())
                } else {
                    match parse_spec(tokens, index + 1) {
                        Err(e) => Err(e),
                        Ok((cp, cc)) => match require_character_spec(cp) {
                            Err(e) => Err(e),
                            Ok(c) => Ok((ParsedResolver::Value(ValueNode::CharacterHp(c)), 1 + cc)),
                        },
                    }
                },
            UITokenType::Check =>
                if index + 1 >= tokens.len() {
                    Err(check_operands_text())
                } else {
                    match parse_spec(tokens, index + 1) {
                        Err(e) => Err(e),
                        Ok((cp, cc)) => match require_condition_spec(cp) {
                            Err(e) => Err(e),
                            Ok(cond) => {
                                let action_index = index + 1 + cc;
                                if action_index >= tokens.len() {
                                    Err(check_action_text())
                                } else {
                                    match parse_spec(tokens, action_index) {
                                        Err(e) => Err(e),
                                        Ok((ap, ac)) => match require_action_spec(ap) {
                                            Err(e) => Err(e),
                                            Ok(a) => Ok((ParsedResolver::Action(ActionNode::Check(cond, Box::new(a))), 1 + cc + ac)),
                                        },
                                    }
                                }
                            },
                        },
                    }
                },
        }
    }
}

/// A successful parse takes at least one token and no more than there are.
pub proof fn lemma_parse_consumes(tokens: Seq<UITokenType>, index: nat)
    ensures
        parse_spec(tokens, index) matches Ok((_, c)) ==> 1 <= c && index + c <= tokens.len(),
    decreases tokens.len() - index,
{
    if index < tokens.len() {
        match tokens[index as int] {
            UITokenType::GreaterThan => {
                if index + 2 < tokens.len() {
                    lemma_parse_consumes(tokens, index + 1);
                    match parse_spec(tokens, index + 1) {
                        Ok((_, lc)) => {
                            let j = index + 1 + lc;
                            if j < tokens.len() {
                                lemma_parse_consumes(tokens, j);
                            }
                        },
                        Err(_) => {},
                    }
                }
            },
            UITokenType::HP => {
                if index + 1 < tokens.len() {
                    lemma_parse_consumes(tokens, index + 1);
                }
            },
            UITokenType::Check => {
                if index + 1 < tokens.len() {
                    lemma_parse_consumes(tokens, index + 1);
                    match parse_spec(tokens, index + 1) {
                        Ok((_, cc)) => {
                            let j = index + 1 + cc;
                            if j < tokens.len() {
                                lemma_parse_consumes(tokens, j);
                            }
                        },
                        Err(_) => {},
                    }
                }
            },
            _ => {},
        }
    }
}

/// The result of a parse is what the specification gives.
pub open spec fn parsed_as(r: Result<(ParsedResolver, usize), String>, s: Result<(ParsedResolver, nat), Seq<char>>) -> bool {
    match (r, s) {
        (Ok((p, c)), Ok((q, d))) => p == q && c == d,
        (Err(m), Err(n)) => m@ == n,
        _ => false,
    }
}

impl ParsedResolver {
    /// The action, or an error naming what was found instead.
    pub fn require_action(self) -> (r: Result<ActionNode, String>)
        ensures
            match (r, require_action_spec(self)) {
                (Ok(a), Ok(b)) => a == b,
                (Err(m), Err(n)) => m@ == n,
                _ => false,
            },
    {
        match self {
            ParsedResolver::Action(action) => Ok(action),
            _ => {
                let d = parsed_debug_string(&self);
                Err(owned("Expected Action, got ").concat(d.as_str()))
            },
        }
    }

    /// The condition, or an error naming what was found instead.
    pub fn require_condition(self) -> (r: Result<ConditionNode, String>)
        ensures
            match (r, require_condition_spec(self)) {
                (Ok(a), Ok(b)) => a == b,
                (Err(m), Err(n)) => m@ == n,
                _ => false,
            },
    {
        match self {
            ParsedResolver::Condition(condition) => Ok(condition),
            _ => {
                let d = parsed_debug_string(&self);
                Err(owned("Expected Condition, got ").concat(d.as_str()))
            },
        }
    }

    /// The value, or an error naming what was found instead.
    pub fn require_value(self) -> (r: Result<ValueNode, String>)
        ensures
            match (r, require_value_spec(self)) {
                (Ok(a), Ok(b)) => a == b,
                (Err(m), Err(n)) => m@ == n,
                _ => false,
            },
    {
        match self {
            ParsedResolver::Value(value) => Ok(value),
            _ => {
                let d = parsed_debug_string(&self);
                Err(owned("Expected Value, got ").concat(d.as_str()))
            },
        }
    }

    /// The character, or an error naming what was found instead.
    pub fn require_character(self) -> (r: Result<CharacterNode, String>)
        ensures
            match (r, require_character_spec(self)) {
                (Ok(a), Ok(b)) => a == b,
                (Err(m), Err(n)) => m@ == n,
                _ => false,
            },
    {
        match self {
            ParsedResolver::Character(character_node) => Ok(character_node),
            _ => {
                let d = parsed_debug_string(&self);
                Err(owned("Expected Character, got ").concat(d.as_str()))
            },
        }
    }
}

/// Parses the token at `index` with its operands; says how many tokens it took.
pub fn parse_ui_token(tokens: &[UITokenType], index: usize) -> (r: Result<(ParsedResolver, usize), String>)
    ensures
        parsed_as(r, parse_spec(tokens@, index as nat)),
    decreases tokens@.len() - index, 1nat,
{
    if index >= tokens.len() {
        return Err(owned("No tokens to parse"));
    }
    match &tokens[index] {
        UITokenType::Strike => Ok((ParsedResolver::Action(ActionNode::Strike), 1)),
        UITokenType::Heal => Ok((ParsedResolver::Action(ActionNode::Heal(CharacterNode::Acting)), 1)),
        UITokenType::TrueOrFalse => Ok((ParsedResolver::Condition(ConditionNode::Random), 1)),
        UITokenType::GreaterThan => parse_greater_than_condition(tokens, index),
        UITokenType::Number(n) => Ok((ParsedResolver::Value(ValueNode::Constant(*n as i32)), 1)),
        UITokenType::HP => parse_hp_value(tokens, index),
        UITokenType::Check => parse_check_action(tokens, index),
        UITokenType::ActingCharacter => Ok((ParsedResolver::Character(CharacterNode::Acting), 1)),
        UITokenType::RandomCharacter => Ok((ParsedResolver::Character(CharacterNode::Random), 1)),
    }
}

/// Parses `GreaterThan` at `index` with its two value operands.
fn parse_greater_than_condition(tokens: &[UITokenType], index: usize) -> (r: Result<(ParsedResolver, usize), String>)
    requires
        index < tokens@.len(),
        tokens@[index as int] == UITokenType::GreaterThan,
    ensures
        parsed_as(r, parse_spec(tokens@, index as nat)),
    decreases tokens@.len() - index, 0nat,
{
    if tokens.len() - index <= 2 {
        return Err(owned("GreaterThan token requires two value operands. Format: GreaterThan → <left_value> → <right_value> (e.g., GreaterThan → Number(50) → HP(ActingCharacter))"));
    }
    proof { lemma_parse_consumes(tokens@, (index + 1) as nat); }
    let (left_parsed, left_consumed) = parse_ui_token(tokens, index + 1)?;
    let left_value = left_parsed.require_value()?;
    let j = index + 1 + left_consumed;
    proof {
        if j < tokens@.len() {
            lemma_parse_consumes(tokens@, j as nat);
        }
    }
    let (right_parsed, right_consumed) = parse_ui_token(tokens, j)?;
    let right_value = right_parsed.require_value()?;
    Ok((ParsedResolver::Condition(ConditionNode::GreaterThan(left_value, right_value)), 1 + left_consumed + right_consumed))
}

/// Parses `HP` at `index` with its character operand.
fn parse_hp_value(tokens: &[UITokenType], index: usize) -> (r: Result<(ParsedResolver, usize), String>)
    requires
        index < tokens@.len(),
        tokens@[index as int] == UITokenType::HP,
    ensures
        parsed_as(r, parse_spec(tokens@, index as nat)),
    decreases tokens@.len() - index, 0nat,
{
    if tokens.len() - index <= 1 {
        return Err(owned("HP token must be followed by a Character token. Valid combinations: HP → ActingCharacter, HP → RandomCharacter"));
    }
    proof { lemma_parse_consumes(tokens@, (index + 1) as nat); }
    let (character_parsed, character_consumed) = parse_ui_token(tokens, index + 1)?;
    let character_node = character_parsed.require_character()?;
    Ok((ParsedResolver::Value(ValueNode::CharacterHp(character_node)), 1 + character_consumed))
}

/// Parses `Check` at `index` with its condition and action.
fn parse_check_action(tokens: &[UITokenType], index: usize) -> (r: Result<(ParsedResolver, usize), String>)
    requires
        index < tokens@.len(),
        tokens@[index as int] == UITokenType::Check,
    ensures
        parsed_as(r, parse_spec(tokens@, index as nat)),
    decreases tokens@.len() - index, 0nat,
{
    if tokens.len() - index <= 1 {
        return Err(owned("Check token requires a condition and action. Format: Check → <condition> → <action>"));
    }
    proof { lemma_parse_consumes(tokens@, (index + 1) as nat); }
    let (condition_parsed, condition_consumed) = parse_ui_token(tokens, index + 1)?;
    let condition_node = condition_parsed.require_condition()?;
    let action_index = index + 1 + condition_consumed;
    if action_index >= tokens.len() {
        return Err(owned("Check token requires an action after the condition. Format: Check → <condition> → <action>"));
    }
    proof { lemma_parse_consumes(tokens@, action_index as nat); }
    let (action_parsed, action_consumed) = parse_ui_token(tokens, action_index)?;
    let action_node = action_parsed.require_action()?;
    Ok((ParsedResolver::Action(ActionNode::Check(condition_node, Box::new(action_node))), 1 + condition_consumed + action_consumed))
}

/// The rule that a row gives: the action parsed from its first token, if
/// that parse succeeds and gives an action.
pub open spec fn row_rule(row: Seq<UITokenType>) -> Option<ActionNode> {
    if row.len() == 0 {
        None
    } else {
        match parse_spec(row, 0) {
            Ok((ParsedResolver::Action(a), _)) => Some(a),
            _ => None,
        }
    }
}

/// The rules that rows give, in order, skipping rows that give none.
pub open spec fn rows_rules(rows: Seq<Seq<UITokenType>>) -> Seq<ActionNode>
    decreases rows.len(),
{
    if rows.len() == 0 {
        seq![]
    } else {
        let rest = rows_rules(rows.drop_last());
        match row_rule(rows.last()) {
            Some(a) => rest.push(a),
            None => rest,
        }
    }
}

/// The rules of the editor's rows: each non-empty row whose first token
/// parses to an action gives that action.
pub fn convert_ui_rules_to_nodes(ui_rules: &[Vec<UITokenType>]) -> (r: Vec<RuleNode>)
    ensures
        r@ == rows_rules(ui_rules@.map_values(|row: Vec<UITokenType>| row@)),
{
    let ghost rows = ui_rules@.map_values(|row: Vec<UITokenType>| row@);
    let mut out: Vec<RuleNode> = Vec::new();
    let mut i: usize = 0;
    assert(rows.take(0) =~= Seq::<Seq<UITokenType>>::empty());
    while i < ui_rules.len()
        invariant
            rows == ui_rules@.map_values(|row: Vec<UITokenType>| row@),
            i <= ui_rules@.len(),
            out@ == rows_rules(rows.take(i as int)),
        decreases ui_rules@.len() - i,
    {
        let row = &ui_rules[i];
        proof {
            assert(rows.take(i + 1).drop_last() =~= rows.take(i as int));
            assert(rows.take(i + 1).last() == row@);
        }
        if row.len() > 0 {
            match convert_ui_token_row_to_node(row.as_slice()) {
                Some(node) => out.push(node),
                None => {},
            }
        } else {
            assert(row_rule(row@) is None);
        }
        i += 1;
    }
    assert(rows.take(ui_rules@.len() as int) =~= rows);
    out
}

/// The rule of one row.
fn convert_ui_token_row_to_node(token_row: &[UITokenType]) -> (r: Option<RuleNode>)
    ensures
        r == row_rule(token_row@),
{
    if token_row.len() == 0 {
        return None;
    }
    match parse_ui_token(token_row, 0) {
        Ok((parsed, _consumed)) => match parsed.require_action() {
            Ok(action_resolver) => Some(action_resolver),
            Err(_) => None,
        },
        Err(_) => None,
    }
}

} // verus!
