//! Structured tokens: the tree form of a rule, where each token holds its
//! arguments by name.

use vstd::prelude::*;
use crate::type_system::types::Type;
use crate::util::{owned, str_eq, signed_decimal, i32_to_string};

verus! {

/// A token of a rule together with its arguments.
#[derive(Debug)]
pub enum StructuredTokenInput {
    Strike { target: Box<StructuredTokenInput> },
    Heal { target: Box<StructuredTokenInput> },
    Check { condition: Box<StructuredTokenInput>, then_action: Box<StructuredTokenInput> },
    TrueOrFalseRandom,
    GreaterThan { left: Box<StructuredTokenInput>, right: Box<StructuredTokenInput> },
    LessThan { left: Box<StructuredTokenInput>, right: Box<StructuredTokenInput> },
    Eq { left: Box<StructuredTokenInput>, right: Box<StructuredTokenInput> },
    ActingCharacter,
    AllCharacters,
    CharacterToHp { character: Box<StructuredTokenInput> },
    CharacterHpToCharacter { character_hp: Box<StructuredTokenInput> },
    RandomPick { array: Box<StructuredTokenInput> },
    FilterList { array: Box<StructuredTokenInput>, condition: Box<StructuredTokenInput> },
    MapList { array: Box<StructuredTokenInput>, transform: Box<StructuredTokenInput> },
    Element,
    CharacterTeam { character: Box<StructuredTokenInput> },
    TeamMembers { team_side: Box<StructuredTokenInput> },
    AllTeamSides,
    Enemy,
    Hero,
    Number { value: i32 },
    Max { array: Box<StructuredTokenInput> },
    Min { array: Box<StructuredTokenInput> },
    NumericMax { array: Box<StructuredTokenInput> },
    NumericMin { array: Box<StructuredTokenInput> },
}

/// `kind { field: value }`, as a derived `Debug` shows one field.
pub open spec fn fields1_text(kind: Seq<char>, field: Seq<char>, value: Seq<char>) -> Seq<char> {
    kind + " { "@ + field + ": "@ + value + " }"@
}

/// `kind { field1: value1, field2: value2 }`, as a derived `Debug` shows two
/// fields.
pub open spec fn fields2_text(kind: Seq<char>, f1: Seq<char>, v1: Seq<char>, f2: Seq<char>, v2: Seq<char>) -> Seq<char> {
    kind + " { "@ + f1 + ": "@ + v1 + ", "@ + f2 + ": "@ + v2 + " }"@
}

fn fields1_string(kind: &str, field: &str, value: &String) -> (r: String)
    ensures
        r@ == fields1_text(kind@, field@, value@),
{
    proof {
        reveal_strlit(" { ");
        reveal_strlit(": ");
        reveal_strlit(" }");
    }
    owned(kind).concat(" { ").concat(field).concat(": ").concat(value.as_str()).concat(" }")
}

fn fields2_string(kind: &str, f1: &str, v1: &String, f2: &str, v2: &String) -> (r: String)
    ensures
        r@ == fields2_text(kind@, f1@, v1@, f2@, v2@),
{
    owned(kind).concat(" { ").concat(f1).concat(": ").concat(v1.as_str()).concat(", ").concat(f2).concat(": ")
        .concat(v2.as_str()).concat(" }")
}

/// What `{:?}` renders a token as: the kind's name, then its fields by name
/// in braces (the list-mapping kind shows as `Map`).
pub open spec fn token_debug_text(t: StructuredTokenInput) -> Seq<char>
    decreases t,
{
    match t {
        StructuredTokenInput::Strike { target } => fields1_text("Strike"@, "target"@, token_debug_text(*target)),
        StructuredTokenInput::Heal { target } => fields1_text("Heal"@, "target"@, token_debug_text(*target)),
        StructuredTokenInput::Check { condition, then_action } =>
            fields2_text("Check"@, "condition"@, token_debug_text(*condition), "then_action"@, token_debug_text(*then_action)),
        StructuredTokenInput::TrueOrFalseRandom => "TrueOrFalseRandom"@,
        StructuredTokenInput::GreaterThan { left, right } =>
            fields2_text("GreaterThan"@, "left"@, token_debug_text(*left), "right"@, token_debug_text(*right)),
        StructuredTokenInput::LessThan { left, right } =>
            fields2_text("LessThan"@, "left"@, token_debug_text(*left), "right"@, token_debug_text(*right)),
        StructuredTokenInput::Eq { left, right } =>
            fields2_text("Eq"@, "left"@, token_debug_text(*left), "right"@, token_debug_text(*right)),
        StructuredTokenInput::ActingCharacter => "ActingCharacter"@,
        StructuredTokenInput::AllCharacters => "AllCharacters"@,
        StructuredTokenInput::CharacterToHp { character } => fields1_text("CharacterToHp"@, "character"@, token_debug_text(*character)),
        StructuredTokenInput::CharacterHpToCharacter { character_hp } => fields1_text("CharacterHpToCharacter"@, "character_hp"@, token_debug_text(*character_hp)),
        StructuredTokenInput::RandomPick { array } => fields1_text("RandomPick"@, "array"@, token_debug_text(*array)),
        StructuredTokenInput::FilterList { array, condition } =>
            fields2_text("FilterList"@, "array"@, token_debug_text(*array), "condition"@, token_debug_text(*condition)),
        StructuredTokenInput::MapList { array, transform } =>
            fields2_text("Map"@, "array"@, token_debug_text(*array), "transform"@, token_debug_text(*transform)),
        StructuredTokenInput::Element => "Element"@,
        StructuredTokenInput::CharacterTeam { character } => fields1_text("CharacterTeam"@, "character"@, token_debug_text(*character)),
        StructuredTokenInput::TeamMembers { team_side } => fields1_text("TeamMembers"@, "team_side"@, token_debug_text(*team_side)),
        StructuredTokenInput::AllTeamSides => "AllTeamSides"@,
        StructuredTokenInput::Enemy => "Enemy"@,
        StructuredTokenInput::Hero => "Hero"@,
        StructuredTokenInput::Number { value } => fields1_text("Number"@, "value"@, signed_decimal(value as int)),
        StructuredTokenInput::Max { array } => fields1_text("Max"@, "array"@, token_debug_text(*array)),
        StructuredTokenInput::Min { array } => fields1_text("Min"@, "array"@, token_debug_text(*array)),
        StructuredTokenInput::NumericMax { array } => fields1_text("NumericMax"@, "array"@, token_debug_text(*array)),
        StructuredTokenInput::NumericMin { array } => fields1_text("NumericMin"@, "array"@, token_debug_text(*array)),
    }
}

/// The text of `token_debug_text`.
pub(crate) fn token_debug_string(t: &StructuredTokenInput) -> (r: String)
    ensures
        r@ == token_debug_text(*t),
    decreases t,
{
    match t {
        StructuredTokenInput::Strike { target } => {
            let a = token_debug_string(target);
            fields1_string("Strike", "target", &a)
        },
        StructuredTokenInput::Heal { target } => {
            let a = token_debug_string(target);
            fields1_string("Heal", "target", &a)
        },
        StructuredTokenInput::Check { condition, then_action } => {
            let a = token_debug_string(condition);
            let b = token_debug_string(then_action);
            fields2_string("Check", "condition", &a, "then_action", &b)
        },
        StructuredTokenInput::TrueOrFalseRandom => owned("TrueOrFalseRandom"),
        StructuredTokenInput::GreaterThan { left, right } => {
            let a = token_debug_string(left);
            let b = token_debug_string(right);
            fields2_string("GreaterThan", "left", &a, "right", &b)
        },
        StructuredTokenInput::LessThan { left, right } => {
            let a = token_debug_string(left);
            let b = token_debug_string(right);
            fields2_string("LessThan", "left", &a, "right", &b)
        },
        StructuredTokenInput::Eq { left, right } => {
            let a = token_debug_string(left);
            let b = token_debug_string(right);
            fields2_string("Eq", "left", &a, "right", &b)
        },
        StructuredTokenInput::ActingCharacter => owned("ActingCharacter"),
        StructuredTokenInput::AllCharacters => owned("AllCharacters"),
        StructuredTokenInput::CharacterToHp { character } => {
            let a = token_debug_string(character);
            fields1_string("CharacterToHp", "character", &a)
        },
        StructuredTokenInput::CharacterHpToCharacter { character_hp } => {
            let a = token_debug_string(character_hp);
            fields1_string("CharacterHpToCharacter", "character_hp", &a)
        },
        StructuredTokenInput::RandomPick { array } => {
            let a = token_debug_string(array);
            fields1_string("RandomPick", "array", &a)
        },
        StructuredTokenInput::FilterList { array, condition } => {
            let a = token_debug_string(array);
            let b = token_debug_string(condition);
            fields2_string("FilterList", "array", &a, "condition", &b)
        },
        StructuredTokenInput::MapList { array, transform } => {
            let a = token_debug_string(array);
            let b = token_debug_string(transform);
            fields2_string("Map", "array", &a, "transform", &b)
        },
        StructuredTokenInput::Element => owned("Element"),
        StructuredTokenInput::CharacterTeam { character } => {
            let a = token_debug_string(character);
            fields1_string("CharacterTeam", "character", &a)
        },
        StructuredTokenInput::TeamMembers { team_side } => {
            let a = token_debug_string(team_side);
            fields1_string("TeamMembers", "team_side", &a)
        },
        StructuredTokenInput::AllTeamSides => owned("AllTeamSides"),
        StructuredTokenInput::Enemy => owned("Enemy"),
        StructuredTokenInput::Hero => owned("Hero"),
        StructuredTokenInput::Number { value } => {
            let a = i32_to_string(*value);
            fields1_string("Number", "value", &a)
        },
        StructuredTokenInput::Max { array } => {
            let a = token_debug_string(array);
            fields1_string("Max", "array", &a)
        },
        StructuredTokenInput::Min { array } => {
            let a = token_debug_string(array);
            fields1_string("Min", "array", &a)
        },
        StructuredTokenInput::NumericMax { array } => {
            let a = token_debug_string(array);
            fields1_string("NumericMax", "array", &a)
        },
        StructuredTokenInput::NumericMin { array } => {
            let a = token_debug_string(array);
            fields1_string("NumericMin", "array", &a)
        },
    }
}

impl StructuredTokenInput {
    /// The name of the token's kind.
    pub open spec fn kind_name(self) -> Seq<char> {
        match self {
            StructuredTokenInput::Strike { .. } => "Strike"@,
            StructuredTokenInput::Heal { .. } => "Heal"@,
            StructuredTokenInput::Check { .. } => "Check"@,
            StructuredTokenInput::TrueOrFalseRandom => "TrueOrFalseRandom"@,
            StructuredTokenInput::GreaterThan { .. } => "GreaterThan"@,
            StructuredTokenInput::LessThan { .. } => "LessThan"@,
            StructuredTokenInput::Eq { .. } => "Eq"@,
            StructuredTokenInput::ActingCharacter => "ActingCharacter"@,
            StructuredTokenInput::AllCharacters => "AllCharacters"@,
            StructuredTokenInput::CharacterToHp { .. } => "CharacterToHp"@,
            StructuredTokenInput::CharacterHpToCharacter { .. } => "CharacterHpToCharacter"@,
            StructuredTokenInput::RandomPick { .. } => "RandomPick"@,
            StructuredTokenInput::FilterList { .. } => "FilterList"@,
            StructuredTokenInput::MapList { .. } => "Map"@,
            StructuredTokenInput::Element => "Element"@,
            StructuredTokenInput::CharacterTeam { .. } => "CharacterTeam"@,
            StructuredTokenInput::TeamMembers { .. } => "TeamMembers"@,
            StructuredTokenInput::AllTeamSides => "AllTeamSides"@,
            StructuredTokenInput::Enemy => "Enemy"@,
            StructuredTokenInput::Hero => "Hero"@,
            StructuredTokenInput::Number { .. } => "Number"@,
            StructuredTokenInput::Max { .. } => "Max"@,
            StructuredTokenInput::Min { .. } => "Min"@,
            StructuredTokenInput::NumericMax { .. } => "NumericMax"@,
            StructuredTokenInput::NumericMin { .. } => "NumericMin"@,
        }
    }

    /// The name of the token's kind.
    pub fn token_type_name(&self) -> (r: String)
        ensures
            r@ == self.kind_name(),
    {
        match self {
            StructuredTokenInput::Strike { .. } => owned("Strike"),
            StructuredTokenInput::Heal { .. } => owned("Heal"),
            StructuredTokenInput::Check { .. } => owned("Check"),
            StructuredTokenInput::TrueOrFalseRandom => owned("TrueOrFalseRandom"),
            StructuredTokenInput::GreaterThan { .. } => owned("GreaterThan"),
            StructuredTokenInput::LessThan { .. } => owned("LessThan"),
            StructuredTokenInput::Eq { .. } => owned("Eq"),
            StructuredTokenInput::ActingCharacter => owned("ActingCharacter"),
            StructuredTokenInput::AllCharacters => owned("AllCharacters"),
            StructuredTokenInput::CharacterToHp { .. } => owned("CharacterToHp"),
            StructuredTokenInput::CharacterHpToCharacter { .. } => owned("CharacterHpToCharacter"),
            StructuredTokenInput::RandomPick { .. } => owned("RandomPick"),
            StructuredTokenInput::FilterList { .. } => owned("FilterList"),
            StructuredTokenInput::MapList { .. } => owned("Map"),
            StructuredTokenInput::Element => owned("Element"),
            StructuredTokenInput::CharacterTeam { .. } => owned("CharacterTeam"),
            StructuredTokenInput::TeamMembers { .. } => owned("TeamMembers"),
            StructuredTokenInput::AllTeamSides => owned("AllTeamSides"),
            StructuredTokenInput::Enemy => owned("Enemy"),
            StructuredTokenInput::Hero => owned("Hero"),
            StructuredTokenInput::Number { .. } => owned("Number"),
            StructuredTokenInput::Max { .. } => owned("Max"),
            StructuredTokenInput::Min { .. } => owned("Min"),
            StructuredTokenInput::NumericMax { .. } => owned("NumericMax"),
            StructuredTokenInput::NumericMin { .. } => owned("NumericMin"),
        }
    }

    /// The argument of this token named `name`, if it has one.
    pub open spec fn child(self, name: Seq<char>) -> Option<StructuredTokenInput> {
        match self {
            StructuredTokenInput::Strike { target } | StructuredTokenInput::Heal { target } =>
                if name == "target"@ { Some(*target) } else { None },
            StructuredTokenInput::Check { condition, then_action } =>
                if name == "condition"@ { Some(*condition) }
                else if name == "then_action"@ { Some(*then_action) }
                else { None },
            StructuredTokenInput::GreaterThan { left, right }
            | StructuredTokenInput::LessThan { left, right }
            | StructuredTokenInput::Eq { left, right } =>
                if name == "left"@ { Some(*left) }
                else if name == "right"@ { Some(*right) }
                else { None },
            StructuredTokenInput::CharacterToHp { character }
            | StructuredTokenInput::CharacterTeam { character } =>
                if name == "character"@ { Some(*character) } else { None },
            StructuredTokenInput::CharacterHpToCharacter { character_hp } =>
                if name == "character_hp"@ { Some(*character_hp) } else { None },
            StructuredTokenInput::TeamMembers { team_side } =>
                if name == "team_side"@ { Some(*team_side) } else { None },
            StructuredTokenInput::RandomPick { array }
            | StructuredTokenInput::Max { array }
            | StructuredTokenInput::Min { array }
            | StructuredTokenInput::NumericMax { array }
            | StructuredTokenInput::NumericMin { array } =>
                if name == "array"@ { Some(*array) } else { None },
            StructuredTokenInput::FilterList { array, condition } =>
                if name == "array"@ { Some(*array) }
                else if name == "condition"@ { Some(*condition) }
                else { None },
            StructuredTokenInput::MapList { array, transform } =>
                if name == "array"@ { Some(*array) }
                else if name == "transform"@ { Some(*transform) }
                else { None },
            _ => None,
        }
    }

    /// The argument of this token named `name`, if it has one.
    pub fn argument(&self, name: &str) -> (r: Option<&StructuredTokenInput>)
        ensures
            match r {
                Some(c) => self.child(name@) == Some(*c),
                None => self.child(name@) is None,
            },
    {
        match self {
            StructuredTokenInput::Strike { target } | StructuredTokenInput::Heal { target } =>
                if str_eq(name, "target") { Some(&**target) } else { None },
            StructuredTokenInput::Check { condition, then_action } =>
                if str_eq(name, "condition") { Some(&**condition) }
                else if str_eq(name, "then_action") { Some(&**then_action) }
                else { None },
            StructuredTokenInput::GreaterThan { left, right }
            | StructuredTokenInput::LessThan { left, right }
            | StructuredTokenInput::Eq { left, right } =>
                if str_eq(name, "left") { Some(&**left) }
                else if str_eq(name, "right") { Some(&**right) }
                else { None },
            StructuredTokenInput::CharacterToHp { character }
            | StructuredTokenInput::CharacterTeam { character } =>
                if str_eq(name, "character") { Some(&**character) } else { None },
            StructuredTokenInput::CharacterHpToCharacter { character_hp } =>
                if str_eq(name, "character_hp") { Some(&**character_hp) } else { None },
            StructuredTokenInput::TeamMembers { team_side } =>
                if str_eq(name, "team_side") { Some(&**team_side) } else { None },
            StructuredTokenInput::RandomPick { array }
            | StructuredTokenInput::Max { array }
            | StructuredTokenInput::Min { array }
            | StructuredTokenInput::NumericMax { array }
            | StructuredTokenInput::NumericMin { array } =>
                if str_eq(name, "array") { Some(&**array) } else { None },
            StructuredTokenInput::FilterList { array, condition } =>
                if str_eq(name, "array") { Some(&**array) }
                else if str_eq(name, "condition") { Some(&**condition) }
                else { None },
            StructuredTokenInput::MapList { array, transform } =>
                if str_eq(name, "array") { Some(&**array) }
                else if str_eq(name, "transform") { Some(&**transform) }
                else { None },
            _ => None,
        }
    }

    /// The arguments this token expects, in order, each with its expected type.
    pub open spec fn expected_args(self) -> Seq<(Seq<char>, Type)> {
        match self {
            StructuredTokenInput::Strike { .. } | StructuredTokenInput::Heal { .. } =>
                seq![("target"@, Type::Character)],
            StructuredTokenInput::Check { .. } =>
                seq![("condition"@, Type::Bool), ("then_action"@, Type::Action)],
            StructuredTokenInput::GreaterThan { .. } | StructuredTokenInput::LessThan { .. } =>
                seq![("left"@, Type::Numeric), ("right"@, Type::Numeric)],
            StructuredTokenInput::Eq { .. } =>
                seq![("left"@, Type::Any), ("right"@, Type::Any)],
            StructuredTokenInput::CharacterToHp { .. } | StructuredTokenInput::CharacterTeam { .. } =>
                seq![("character"@, Type::Character)],
            StructuredTokenInput::CharacterHpToCharacter { .. } =>
                seq![("character_hp"@, Type::CharacterHP)],
            StructuredTokenInput::TeamMembers { .. } =>
                seq![("team_side"@, Type::TeamSide)],
            StructuredTokenInput::RandomPick { .. } =>
                seq![("array"@, Type::Vec(Box::new(Type::Any)))],
            StructuredTokenInput::FilterList { .. } =>
                seq![("array"@, Type::Vec(Box::new(Type::Any))), ("condition"@, Type::Bool)],
            StructuredTokenInput::MapList { .. } =>
                seq![("array"@, Type::Vec(Box::new(Type::Any))), ("transform"@, Type::Any)],
            StructuredTokenInput::Max { .. } | StructuredTokenInput::Min { .. } =>
                seq![("array"@, Type::Vec(Box::new(Type::Character)))],
            StructuredTokenInput::NumericMax { .. } | StructuredTokenInput::NumericMin { .. } =>
                seq![("array"@, Type::Vec(Box::new(Type::Numeric)))],
            _ => seq![],
        }
    }

    /// The arguments this token expects, in order, each with its expected type.
    pub fn expected_argument_types(&self) -> (r: Vec<(String, Type)>)
        ensures
            r@.len() == self.expected_args().len(),
            forall|i: int| 0 <= i < r@.len() ==>
                (#[trigger] r@[i]).0@ == self.expected_args()[i].0
                    && r@[i].1 == self.expected_args()[i].1,
    {
        let mut v: Vec<(String, Type)> = Vec::new();
        match self {
            StructuredTokenInput::Strike { .. } | StructuredTokenInput::Heal { .. } => {
                v.push((owned("target"), Type::Character));
            },
            StructuredTokenInput::Check { .. } => {
                v.push((owned("condition"), Type::Bool));
                v.push((owned("then_action"), Type::Action));
            },
            StructuredTokenInput::GreaterThan { .. } | StructuredTokenInput::LessThan { .. } => {
                v.push((owned("left"), Type::Numeric));
                v.push((owned("right"), Type::Numeric));
            },
            StructuredTokenInput::Eq { .. } => {
                v.push((owned("left"), Type::Any));
                v.push((owned("right"), Type::Any));
            },
            StructuredTokenInput::CharacterToHp { .. } | StructuredTokenInput::CharacterTeam { .. } => {
                v.push((owned("character"), Type::Character));
            },
            StructuredTokenInput::CharacterHpToCharacter { .. } => {
                v.push((owned("character_hp"), Type::CharacterHP));
            },
            StructuredTokenInput::TeamMembers { .. } => {
                v.push((owned("team_side"), Type::TeamSide));
            },
            StructuredTokenInput::RandomPick { .. } => {
                v.push((owned("array"), Type::Vec(Box::new(Type::Any))));
            },
            StructuredTokenInput::FilterList { .. } => {
                v.push((owned("array"), Type::Vec(Box::new(Type::Any))));
                v.push((owned("condition"), Type::Bool));
            },
            StructuredTokenInput::MapList { .. } => {
                v.push((owned("array"), Type::Vec(Box::new(Type::Any))));
                v.push((owned("transform"), Type::Any));
            },
            StructuredTokenInput::Max { .. } | StructuredTokenInput::Min { .. } => {
                v.push((owned("array"), Type::Vec(Box::new(Type::Character))));
            },
            StructuredTokenInput::NumericMax { .. } | StructuredTokenInput::NumericMin { .. } => {
                v.push((owned("array"), Type::Vec(Box::new(Type::Numeric))));
            },
            _ => {},
        }
        v
    }

    /// The type this token produces when nothing more is known of its arguments.
    pub open spec fn declared_output(self) -> Type {
        match self {
            StructuredTokenInput::Strike { .. }
            | StructuredTokenInput::Heal { .. }
            | StructuredTokenInput::Check { .. } => Type::Action,
            StructuredTokenInput::TrueOrFalseRandom
            | StructuredTokenInput::GreaterThan { .. }
            | StructuredTokenInput::LessThan { .. }
            | StructuredTokenInput::Eq { .. } => Type::Bool,
            StructuredTokenInput::ActingCharacter
            | StructuredTokenInput::CharacterHpToCharacter { .. }
            | StructuredTokenInput::Max { .. }
            | StructuredTokenInput::Min { .. } => Type::Character,
            StructuredTokenInput::AllCharacters
            | StructuredTokenInput::TeamMembers { .. } => Type::Vec(Box::new(Type::Character)),
            StructuredTokenInput::CharacterToHp { .. } => Type::CharacterHP,
            StructuredTokenInput::RandomPick { .. } | StructuredTokenInput::Element => Type::Any,
            StructuredTokenInput::FilterList { .. }
            | StructuredTokenInput::MapList { .. } => Type::Vec(Box::new(Type::Any)),
            StructuredTokenInput::CharacterTeam { .. }
            | StructuredTokenInput::Enemy
            | StructuredTokenInput::Hero => Type::TeamSide,
            StructuredTokenInput::AllTeamSides => Type::Vec(Box::new(Type::TeamSide)),
            StructuredTokenInput::Number { .. } => Type::I32,
            StructuredTokenInput::NumericMax { .. }
            | StructuredTokenInput::NumericMin { .. } => Type::Numeric,
        }
    }

    /// The type this token produces when nothing more is known of its arguments.
    pub fn output_type(&self) -> (r: Type)
        ensures
            r == self.declared_output(),
    {
        match self {
            StructuredTokenInput::Strike { .. }
            | StructuredTokenInput::Heal { .. }
            | StructuredTokenInput::Check { .. } => Type::Action,
            StructuredTokenInput::TrueOrFalseRandom
            | StructuredTokenInput::GreaterThan { .. }
            | StructuredTokenInput::LessThan { .. }
            | StructuredTokenInput::Eq { .. } => Type::Bool,
            StructuredTokenInput::ActingCharacter
            | StructuredTokenInput::CharacterHpToCharacter { .. }
            | StructuredTokenInput::Max { .. }
            | StructuredTokenInput::Min { .. } => Type::Character,
            StructuredTokenInput::AllCharacters
            | StructuredTokenInput::TeamMembers { .. } => Type::Vec(Box::new(Type::Character)),
            StructuredTokenInput::CharacterToHp { .. } => Type::CharacterHP,
            StructuredTokenInput::RandomPick { .. } | StructuredTokenInput::Element => Type::Any,
            StructuredTokenInput::FilterList { .. }
            | StructuredTokenInput::MapList { .. } => Type::Vec(Box::new(Type::Any)),
            StructuredTokenInput::CharacterTeam { .. }
            | StructuredTokenInput::Enemy
            | StructuredTokenInput::Hero => Type::TeamSide,
            StructuredTokenInput::AllTeamSides => Type::Vec(Box::new(Type::TeamSide)),
            StructuredTokenInput::Number { .. } => Type::I32,
            StructuredTokenInput::NumericMax { .. }
            | StructuredTokenInput::NumericMin { .. } => Type::Numeric,
        }
    }

    /// A copy of this token.
    pub fn duplicate(&self) -> (r: StructuredTokenInput)
        ensures
            r == *self,
        decreases self,
    {
        match self {
            StructuredTokenInput::Strike { target } =>
                StructuredTokenInput::Strike { target: Box::new(target.duplicate()) },
            StructuredTokenInput::Heal { target } =>
                StructuredTokenInput::Heal { target: Box::new(target.duplicate()) },
            StructuredTokenInput::Check { condition, then_action } => StructuredTokenInput::Check {
                condition: Box::new(condition.duplicate()),
                then_action: Box::new(then_action.duplicate()),
            },
            StructuredTokenInput::TrueOrFalseRandom => StructuredTokenInput::TrueOrFalseRandom,
            StructuredTokenInput::GreaterThan { left, right } => StructuredTokenInput::GreaterThan {
                left: Box::new(left.duplicate()),
                right: Box::new(right.duplicate()),
            },
            StructuredTokenInput::LessThan { left, right } => StructuredTokenInput::LessThan {
                left: Box::new(left.duplicate()),
                right: Box::new(right.duplicate()),
            },
            StructuredTokenInput::Eq { left, right } => StructuredTokenInput::Eq {
                left: Box::new(left.duplicate()),
                right: Box::new(right.duplicate()),
            },
            StructuredTokenInput::ActingCharacter => StructuredTokenInput::ActingCharacter,
            StructuredTokenInput::AllCharacters => StructuredTokenInput::AllCharacters,
            StructuredTokenInput::CharacterToHp { character } =>
                StructuredTokenInput::CharacterToHp { character: Box::new(character.duplicate()) },
            StructuredTokenInput::CharacterHpToCharacter { character_hp } =>
                StructuredTokenInput::CharacterHpToCharacter {
                    character_hp: Box::new(character_hp.duplicate()),
                },
            StructuredTokenInput::RandomPick { array } =>
                StructuredTokenInput::RandomPick { array: Box::new(array.duplicate()) },
            StructuredTokenInput::FilterList { array, condition } => StructuredTokenInput::FilterList {
                array: Box::new(array.duplicate()),
                condition: Box::new(condition.duplicate()),
            },
            StructuredTokenInput::MapList { array, transform } => StructuredTokenInput::MapList {
                array: Box::new(array.duplicate()),
                transform: Box::new(transform.duplicate()),
            },
            StructuredTokenInput::Element => StructuredTokenInput::Element,
            StructuredTokenInput::CharacterTeam { character } =>
                StructuredTokenInput::CharacterTeam { character: Box::new(character.duplicate()) },
            StructuredTokenInput::TeamMembers { team_side } =>
                StructuredTokenInput::TeamMembers { team_side: Box::new(team_side.duplicate()) },
            StructuredTokenInput::AllTeamSides => StructuredTokenInput::AllTeamSides,
            StructuredTokenInput::Enemy => StructuredTokenInput::Enemy,
            StructuredTokenInput::Hero => StructuredTokenInput::Hero,
            StructuredTokenInput::Number { value } => StructuredTokenInput::Number { value: *value },
            StructuredTokenInput::Max { array } =>
                StructuredTokenInput::Max { array: Box::new(array.duplicate()) },
            StructuredTokenInput::Min { array } =>
                StructuredTokenInput::Min { array: Box::new(array.duplicate()) },
            StructuredTokenInput::NumericMax { array } =>
                StructuredTokenInput::NumericMax { array: Box::new(array.duplicate()) },
            StructuredTokenInput::NumericMin { array } =>
                StructuredTokenInput::NumericMin { array: Box::new(array.duplicate()) },
        }
    }
}

impl Clone for StructuredTokenInput {
    fn clone(&self) -> (r: Self)
        ensures
            r == *self,
    {
        self.duplicate()
    }
}

/// An argument of a token is smaller than the token.
pub proof fn lemma_child_smaller(t: StructuredTokenInput, name: Seq<char>)
    ensures
        t.child(name) matches Some(c) ==> decreases_to!(t => c),
{
}

} // verus!
