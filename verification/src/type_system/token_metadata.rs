//! Declarative metadata of the tokens: the arguments each token takes with
//! their expected types, its output type, how the output type follows from
//! the arguments, and which argument sees the array's element type.

use vstd::prelude::*;
use crate::name_map::NameMap;
use crate::structured_token::StructuredTokenInput;
use crate::type_system::types::{Type, TypeSignature};
use crate::util::{owned, str_eq};

verus! {

/// An argument of a token.
#[derive(Debug, Clone)]
pub struct ArgumentMetadata {
    pub name: String,
    pub expected_type: Type,
    pub required: bool,
    /// A token that stands for the argument when it is left out.
    pub default_value: Option<StructuredTokenInput>,
}

/// How a token's output type follows from the types of its arguments.
#[derive(Debug, Clone, Copy, PartialEq, Eq, Structural)]
pub enum OutputInference {
    /// The type of the `array` argument (a vector of `Any` without one).
    ArrayType,
    /// A vector of the type of the `transform` argument (of `Any` without one).
    VecOfTransform,
    /// Always `Any`.
    AnyType,
    /// The element type of the `array` argument (`Any` when it is no vector).
    ArrayElementType,
}

/// Which argument is checked with the element type of the `array` argument
/// as its context.
#[derive(Debug, Clone)]
pub enum ContextProvider {
    ArrayElementFor(String),
}

/// The metadata of one kind of token.
#[derive(Debug, Clone)]
pub struct TokenMetadata {
    pub token_type: String,
    pub arguments: Vec<ArgumentMetadata>,
    pub output_type: Type,
    pub output_type_inference: Option<OutputInference>,
    pub argument_context_provider: Option<ContextProvider>,
}

/// The value of an argument's metadata.
pub struct ArgView {
    pub name: Seq<char>,
    pub expected: Type,
    pub required: bool,
}

/// The value of a token's metadata.
pub struct MetaView {
    pub token_type: Seq<char>,
    pub args: Seq<ArgView>,
    pub output: Type,
    pub inference: Option<OutputInference>,
    /// The argument that sees the array's element type, if any.
    pub provider: Option<Seq<char>>,
}

pub open spec fn arg_view(a: ArgumentMetadata) -> ArgView {
    ArgView { name: a.name@, expected: a.expected_type, required: a.required }
}

pub open spec fn meta_view(m: TokenMetadata) -> MetaView {
    MetaView {
        token_type: m.token_type@,
        args: m.arguments@.map_values(|a: ArgumentMetadata| arg_view(a)),
        output: m.output_type,
        inference: m.output_type_inference,
        provider: match m.argument_context_provider {
            Some(ContextProvider::ArrayElementFor(n)) => Some(n@),
            None => None,
        },
    }
}

/// The output type of a token with metadata `m`, given its arguments' types.
pub open spec fn inferred_output(m: MetaView, arg_types: Map<Seq<char>, Type>) -> Type {
    match m.inference {
        None => m.output,
        Some(OutputInference::ArrayType) =>
            if arg_types.contains_key("array"@) { arg_types["array"@] } else { Type::Vec(Box::new(Type::Any)) },
        Some(OutputInference::VecOfTransform) =>
            if arg_types.contains_key("transform"@) {
                Type::Vec(Box::new(arg_types["transform"@]))
            } else {
                Type::Vec(Box::new(Type::Any))
            },
        Some(OutputInference::AnyType) => Type::Any,
        Some(OutputInference::ArrayElementType) =>
            if arg_types.contains_key("array"@) {
                match arg_types["array"@] {
                    Type::Vec(e) => *e,
                    _ => Type::Any,
                }
            } else {
                Type::Any
            },
    }
}

/// The required arguments, in order, each with its expected type.
pub open spec fn required_inputs(args: Seq<ArgView>) -> Seq<(Seq<char>, Type)>
    decreases args.len(),
{
    if args.len() == 0 {
        seq![]
    } else {
        let rest = required_inputs(args.drop_last());
        if args.last().required { rest.push((args.last().name, args.last().expected)) } else { rest }
    }
}

impl TokenMetadata {
    /// The signature made of the required arguments and the output type.
    pub fn to_signature(&self) -> (r: TypeSignature)
        ensures
            r.inputs@.map_values(|p: (String, Type)| (p.0@, p.1)) == required_inputs(meta_view(*self).args),
            r.output == self.output_type,
    {
        let ghost args = meta_view(*self).args;
        let mut inputs: Vec<(String, Type)> = Vec::new();
        let mut i: usize = 0;
        while i < self.arguments.len()
            invariant
                i <= self.arguments@.len(),
                args == meta_view(*self).args,
                args.len() == self.arguments@.len(),
                inputs@.map_values(|p: (String, Type)| (p.0@, p.1)) == required_inputs(args.take(i as int)),
            decreases self.arguments@.len() - i,
        {
            let ghost before = inputs@;
            if self.arguments[i].required {
                inputs.push((self.arguments[i].name.clone(), self.arguments[i].expected_type.duplicate()));
                assert(inputs@.map_values(|p: (String, Type)| (p.0@, p.1))
                    =~= before.map_values(|p: (String, Type)| (p.0@, p.1)).push((args[i as int].name, args[i as int].expected)));
            }
            assert(args.take(i + 1).drop_last() =~= args.take(i as int));
            i += 1;
        }
        assert(args.take(args.len() as int) =~= args);
        TypeSignature::new(inputs, self.output_type.duplicate())
    }

    /// The output type, given the types of the arguments by name.
    pub fn infer_output_type(&self, arg_types: &NameMap<Type>) -> (r: Type)
        requires
            arg_types.wf(),
        ensures
            r == inferred_output(meta_view(*self), arg_types.view()),
    {
        proof {
            reveal_strlit("array");
            reveal_strlit("transform");
        }
        match self.output_type_inference {
            None => self.output_type.duplicate(),
            Some(OutputInference::ArrayType) => match arg_types.get("array") {
                Some(t) => t.duplicate(),
                None => Type::Vec(Box::new(Type::Any)),
            },
            Some(OutputInference::VecOfTransform) => match arg_types.get("transform") {
                Some(t) => Type::Vec(Box::new(t.duplicate())),
                None => Type::Vec(Box::new(Type::Any)),
            },
            Some(OutputInference::AnyType) => Type::Any,
            Some(OutputInference::ArrayElementType) => match arg_types.get("array") {
                Some(Type::Vec(e)) => (**e).duplicate(),
                _ => Type::Any,
            },
        }
    }

    /// A copy of this metadata.
    pub fn duplicate(&self) -> (r: Self)
        ensures
            meta_view(r) == meta_view(*self),
    {
        let mut arguments: Vec<ArgumentMetadata> = Vec::new();
        let mut i: usize = 0;
        while i < self.arguments.len()
            invariant
                i <= self.arguments@.len(),
                arguments@.map_values(|a: ArgumentMetadata| arg_view(a))
                    == self.arguments@.take(i as int).map_values(|a: ArgumentMetadata| arg_view(a)),
            decreases self.arguments@.len() - i,
        {
            let a = &self.arguments[i];
            let copy = ArgumentMetadata {
                name: a.name.clone(),
                expected_type: a.expected_type.duplicate(),
                required: a.required,
                default_value: match &a.default_value {
                    Some(t) => Some(t.duplicate()),
                    None => None,
                },
            };
            assert(arg_view(copy) == arg_view(self.arguments@[i as int]));
            let ghost before = arguments@;
            arguments.push(copy);
            proof {
                assert(self.arguments@.take(i + 1) =~= self.arguments@.take(i as int).push(self.arguments@[i as int]));
                assert(arguments@.map_values(|a: ArgumentMetadata| arg_view(a))
                    =~= before.map_values(|a: ArgumentMetadata| arg_view(a)).push(arg_view(self.arguments@[i as int])));
                assert(self.arguments@.take(i + 1).map_values(|a: ArgumentMetadata| arg_view(a))
                    =~= self.arguments@.take(i as int).map_values(|a: ArgumentMetadata| arg_view(a)).push(arg_view(self.arguments@[i as int])));
            }
            i += 1;
        }
        assert(self.arguments@.take(self.arguments@.len() as int) =~= self.arguments@);
        let r = TokenMetadata {
            token_type: self.token_type.clone(),
            arguments,
            output_type: self.output_type.duplicate(),
            output_type_inference: self.output_type_inference,
            argument_context_provider: match &self.argument_context_provider {
                Some(ContextProvider::ArrayElementFor(n)) => Some(ContextProvider::ArrayElementFor(n.clone())),
                None => None,
            },
        };
        assert(meta_view(r).args =~= meta_view(*self).args);
        r
    }
}

/// The default values of a token's arguments, in order.
pub open spec fn default_values(m: TokenMetadata) -> Seq<Option<StructuredTokenInput>> {
    m.arguments@.map_values(|a: ArgumentMetadata| a.default_value)
}

/// No argument of any token in `d` has a default value.
pub open spec fn no_defaults(d: Map<Seq<char>, Seq<Option<StructuredTokenInput>>>) -> bool {
    forall|n: Seq<char>, i: int| d.contains_key(n) && 0 <= i < d[n].len() ==> (#[trigger] d[n][i]) is None
}

/// A required argument.
pub open spec fn av(name: Seq<char>, expected: Type) -> ArgView {
    ArgView { name, expected, required: true }
}

/// Metadata by value.
pub open spec fn mv(
    token_type: Seq<char>,
    args: Seq<ArgView>,
    output: Type,
    inference: Option<OutputInference>,
    provider: Option<Seq<char>>,
) -> MetaView {
    MetaView { token_type, args, output, inference, provider }
}

/// `Vec<t>`.
pub open spec fn vec_of(t: Type) -> Type {
    Type::Vec(Box::new(t))
}

/// The tokens that the registry starts with, first part, in order.
pub open spec fn builtin_tokens_first() -> Seq<MetaView> {
    seq![
        mv("Strike"@, seq![av("target"@, Type::Character)], Type::Action, None, None),
        mv("Heal"@, seq![av("target"@, Type::Character)], Type::Action, None, None),
        mv("GreaterThan"@, seq![av("left"@, Type::Numeric), av("right"@, Type::Numeric)], Type::Bool, None, None),
        mv("LessThan"@, seq![av("left"@, Type::Numeric), av("right"@, Type::Numeric)], Type::Bool, None, None),
        mv("ActingCharacter"@, seq![], Type::Character, None, None),
        mv("FilterList"@, seq![av("array"@, vec_of(Type::Any)), av("condition"@, Type::Bool)], vec_of(Type::Any),
            Some(OutputInference::ArrayType), Some("condition"@)),
        mv("Map"@, seq![av("array"@, vec_of(Type::Any)), av("transform"@, Type::Any)], vec_of(Type::Any),
            Some(OutputInference::VecOfTransform), Some("transform"@)),
        mv("Element"@, seq![], Type::Any, Some(OutputInference::AnyType), None),
        mv("Number"@, seq![], Type::I32, None, None),
    ]
}

/// The tokens that the registry starts with, second part, in order.
pub open spec fn builtin_tokens_rest() -> Seq<MetaView> {
    seq![
        mv("Check"@, seq![av("condition"@, Type::Bool), av("then_action"@, Type::Action)], Type::Action, None, None),
        mv("TrueOrFalseRandom"@, seq![], Type::Bool, None, None),
        mv("Eq"@, seq![av("left"@, Type::Any), av("right"@, Type::Any)], Type::Bool, None, None),
        mv("TrueOrFalseRandom"@, seq![], Type::Bool, None, None),
        mv("AllCharacters"@, seq![], vec_of(Type::Character), None, None),
        mv("AllTeamSides"@, seq![], vec_of(Type::TeamSide), None, None),
        mv("TeamMembers"@, seq![av("team_side"@, Type::TeamSide)], vec_of(Type::Character), None, None),
        mv("RandomPick"@, seq![av("array"@, vec_of(Type::Any))], Type::Any, Some(OutputInference::ArrayElementType), None),
        mv("Max"@, seq![av("array"@, vec_of(Type::Character))], Type::Character, None, None),
        mv("Min"@, seq![av("array"@, vec_of(Type::Character))], Type::Character, None, None),
        mv("NumericMax"@, seq![av("array"@, vec_of(Type::Numeric))], Type::Numeric, None, None),
        mv("NumericMin"@, seq![av("array"@, vec_of(Type::Numeric))], Type::Numeric, None, None),
        mv("CharacterToHp"@, seq![av("character"@, Type::Character)], Type::CharacterHP, None, None),
        mv("CharacterHpToCharacter"@, seq![av("character_hp"@, Type::CharacterHP)], Type::Character, None, None),
        mv("CharacterTeam"@, seq![av("character"@, Type::Character)], Type::TeamSide, None, None),
        mv("TeamMembers"@, seq![av("team_side"@, Type::TeamSide)], vec_of(Type::Character), None, None),
        mv("AllTeamSides"@, seq![], vec_of(Type::TeamSide), None, None),
        mv("CharacterHpToCharacter"@, seq![av("character_hp"@, Type::CharacterHP)], Type::Character, None, None),
        mv("Hero"@, seq![], Type::TeamSide, None, None),
        mv("Enemy"@, seq![], Type::TeamSide, None, None),
    ]
}

/// The metadata of the built-in tokens by token type.
pub open spec fn builtin_registry() -> Map<Seq<char>, MetaView> {
    register_all(register_all(Map::empty(), builtin_tokens_first()), builtin_tokens_rest())
}

/// `m` after registering each metadata of `t` in order, a later one
/// replacing an earlier one of the same token type.
pub open spec fn register_all(m: Map<Seq<char>, MetaView>, t: Seq<MetaView>) -> Map<Seq<char>, MetaView>
    decreases t.len(),
{
    if t.len() == 0 {
        m
    } else {
        register_all(m, t.drop_last()).insert(t.last().token_type, t.last())
    }
}

proof fn lemma_register_all_step(m: Map<Seq<char>, MetaView>, t: Seq<MetaView>, k: int)
    requires
        0 <= k < t.len(),
    ensures
        register_all(m, t.take(k + 1)) == register_all(m, t.take(k)).insert(t[k].token_type, t[k]),
{
    assert(t.take(k + 1).drop_last() =~= t.take(k));
    assert(t.take(k + 1).last() == t[k]);
}

/// A required argument.
fn arg(name: &str, expected_type: Type) -> (r: ArgumentMetadata)
    ensures
        arg_view(r) == av(name@, expected_type),
        r.default_value is None,
{
    ArgumentMetadata { name: owned(name), expected_type, required: true, default_value: None }
}

/// Metadata without arguments.
fn meta0(token_type: &str, output: Type, inference: Option<OutputInference>) -> (r: TokenMetadata)
    ensures
        meta_view(r) == mv(token_type@, seq![], output, inference, None),
        forall|i: int| 0 <= i < default_values(r).len() ==> (#[trigger] default_values(r)[i]) is None,
{
    let r = TokenMetadata {
        token_type: owned(token_type),
        arguments: Vec::new(),
        output_type: output,
        output_type_inference: inference,
        argument_context_provider: None,
    };
    assert(meta_view(r).args =~= Seq::<ArgView>::empty());
    r
}

/// Metadata with one required argument.
fn meta1(token_type: &str, name: &str, expected: Type, output: Type, inference: Option<OutputInference>) -> (r: TokenMetadata)
    ensures
        meta_view(r) == mv(token_type@, seq![av(name@, expected)], output, inference, None),
        forall|i: int| 0 <= i < default_values(r).len() ==> (#[trigger] default_values(r)[i]) is None,
{
    let r = TokenMetadata {
        token_type: owned(token_type),
        arguments: vec![arg(name, expected)],
        output_type: output,
        output_type_inference: inference,
        argument_context_provider: None,
    };
    assert(meta_view(r).args =~= seq![av(name@, expected)]);
    r
}

/// Metadata with two required arguments.
fn meta2(
    token_type: &str,
    name1: &str,
    expected1: Type,
    name2: &str,
    expected2: Type,
    output: Type,
    inference: Option<OutputInference>,
    provider: Option<&str>,
) -> (r: TokenMetadata)
    ensures
        meta_view(r) == mv(token_type@, seq![av(name1@, expected1), av(name2@, expected2)], output, inference,
            match provider { Some(p) => Some(p@), None => None }),
        forall|i: int| 0 <= i < default_values(r).len() ==> (#[trigger] default_values(r)[i]) is None,
{
    let r = TokenMetadata {
        token_type: owned(token_type),
        arguments: vec![arg(name1, expected1), arg(name2, expected2)],
        output_type: output,
        output_type_inference: inference,
        argument_context_provider: match provider {
            Some(p) => Some(ContextProvider::ArrayElementFor(owned(p))),
            None => None,
        },
    };
    assert(meta_view(r).args =~= seq![av(name1@, expected1), av(name2@, expected2)]);
    r
}

/// Whether `s` starts with "Numeric".
fn starts_with_numeric(s: &str) -> (r: bool)
    ensures
        r == (s@.len() >= 7 && s@.subrange(0, 7) == "Numeric"@),
{
    proof { reveal_strlit("Numeric"); }
    let n = s.unicode_len();
    if n < 7 {
        return false;
    }
    let p = s.substring_char(0, 7);
    str_eq(p, "Numeric")
}

/// The metadata of each kind of token, by token type.
pub struct TokenMetadataRegistry {
    metadata: NameMap<TokenMetadata>,
}

impl TokenMetadataRegistry {
    /// The metadata by token type.
    pub closed spec fn view(self) -> Map<Seq<char>, MetaView> {
        self.metadata.view().map_values(|m: TokenMetadata| meta_view(m))
    }

    /// The default values of each token's arguments, by token type.
    pub closed spec fn defaults(self) -> Map<Seq<char>, Seq<Option<StructuredTokenInput>>> {
        self.metadata.view().map_values(|m: TokenMetadata| default_values(m))
    }

    /// The registry's internal invariant.
    pub closed spec fn wf(self) -> bool {
        self.metadata.wf()
    }

    /// A registry holding the metadata of the built-in tokens.
    pub fn new() -> (r: Self)
        ensures
            r.wf(),
            r.view() == builtin_registry(),
            r.defaults().dom() == r.view().dom(),
            no_defaults(r.defaults()),
    {
        let mut registry = TokenMetadataRegistry { metadata: NameMap::new() };
        assert(registry.view() =~= Map::<Seq<char>, MetaView>::empty());
        assert(registry.defaults() =~= Map::<Seq<char>, Seq<Option<StructuredTokenInput>>>::empty());
        registry.register_builtin_tokens();
        assert(registry.defaults().dom() =~= registry.view().dom());
        registry
    }

    /// Registers built-in metadata, none of whose arguments has a default.
    fn register_builtin(&mut self, metadata: TokenMetadata)
        requires
            old(self).wf(),
            no_defaults(old(self).defaults()),
            forall|i: int| 0 <= i < default_values(metadata).len() ==> (#[trigger] default_values(metadata)[i]) is None,
        ensures
            final(self).wf(),
            final(self).view() == old(self).view().insert(metadata.token_type@, meta_view(metadata)),
            no_defaults(final(self).defaults()),
    {
        self.register(metadata);
    }

    /// Registers the first part of the built-in tokens, then the rest.
    fn register_builtin_tokens(&mut self)
        requires
            old(self).wf(),
            no_defaults(old(self).defaults()),
        ensures
            final(self).wf(),
            no_defaults(final(self).defaults()),
            final(self).view() == register_all(register_all(old(self).view(), builtin_tokens_first()), builtin_tokens_rest()),
    {
        let ghost m0 = self.view();
        let ghost t = builtin_tokens_first();
        assert(t.take(0) =~= Seq::<MetaView>::empty());

        self.register_builtin(meta1("Strike", "target", Type::Character, Type::Action, None));
        proof { lemma_register_all_step(m0, t, 0); }
        self.register_builtin(meta1("Heal", "target", Type::Character, Type::Action, None));
        proof { lemma_register_all_step(m0, t, 1); }
        self.register_builtin(meta2("GreaterThan", "left", Type::Numeric, "right", Type::Numeric, Type::Bool, None, None));
        proof { lemma_register_all_step(m0, t, 2); }
        self.register_builtin(meta2("LessThan", "left", Type::Numeric, "right", Type::Numeric, Type::Bool, None, None));
        proof { lemma_register_all_step(m0, t, 3); }
        self.register_builtin(meta0("ActingCharacter", Type::Character, None));
        proof { lemma_register_all_step(m0, t, 4); }
        self.register_builtin(meta2(
            "FilterList",
            "array",
            Type::Vec(Box::new(Type::Any)),
            "condition",
            Type::Bool,
            Type::Vec(Box::new(Type::Any)),
            Some(OutputInference::ArrayType),
            Some("condition"),
        ));
        proof { lemma_register_all_step(m0, t, 5); }
        self.register_builtin(meta2(
            "Map",
            "array",
            Type::Vec(Box::new(Type::Any)),
            "transform",
            Type::Any,
            Type::Vec(Box::new(Type::Any)),
            Some(OutputInference::VecOfTransform),
            Some("transform"),
        ));
        proof { lemma_register_all_step(m0, t, 6); }
        self.register_builtin(meta0("Element", Type::Any, Some(OutputInference::AnyType)));
        proof { lemma_register_all_step(m0, t, 7); }
        self.register_builtin(meta0("Number", Type::I32, None));
        proof {
            lemma_register_all_step(m0, t, 8);
            assert(t.take(9) =~= t);
        }
        self.register_remaining_tokens();
    }

    /// Registers the second part of the built-in tokens.
    fn register_remaining_tokens(&mut self)
        requires
            old(self).wf(),
            no_defaults(old(self).defaults()),
        ensures
            final(self).wf(),
            no_defaults(final(self).defaults()),
            final(self).view() == register_all(old(self).view(), builtin_tokens_rest()),
    {
        let ghost m0 = self.view();
        let ghost t = builtin_tokens_rest();
        assert(t.take(0) =~= Seq::<MetaView>::empty());

        self.register_builtin(meta2("Check", "condition", Type::Bool, "then_action", Type::Action, Type::Action, None, None));
        proof { lemma_register_all_step(m0, t, 0); }
        self.register_builtin(meta0("TrueOrFalseRandom", Type::Bool, None));
        proof { lemma_register_all_step(m0, t, 1); }
        self.register_builtin(meta2("Eq", "left", Type::Any, "right", Type::Any, Type::Bool, None, None));
        proof { lemma_register_all_step(m0, t, 2); }
        self.register_builtin(meta0("TrueOrFalseRandom", Type::Bool, None));
        proof { lemma_register_all_step(m0, t, 3); }
        self.register_builtin(meta0("AllCharacters", Type::Vec(Box::new(Type::Character)), None));
        proof { lemma_register_all_step(m0, t, 4); }
        self.register_builtin(meta0("AllTeamSides", Type::Vec(Box::new(Type::TeamSide)), None));
        proof { lemma_register_all_step(m0, t, 5); }
        self.register_builtin(meta1("TeamMembers", "team_side", Type::TeamSide, Type::Vec(Box::new(Type::Character)), None));
        proof { lemma_register_all_step(m0, t, 6); }
        self.register_builtin(meta1("RandomPick", "array", Type::Vec(Box::new(Type::Any)), Type::Any, Some(OutputInference::ArrayElementType)));
        proof { lemma_register_all_step(m0, t, 7); }

        let ops = ["Max", "Min", "NumericMax", "NumericMin"];
        proof {
            reveal_strlit("Max");
            reveal_strlit("Min");
            reveal_strlit("NumericMax");
            reveal_strlit("NumericMin");
            reveal_strlit("Numeric");
            assert("NumericMax"@.subrange(0, 7) =~= "Numeric"@);
            assert("NumericMin"@.subrange(0, 7) =~= "Numeric"@);
        }
        let mut k: usize = 0;
        while k < 4
            invariant
                k <= 4,
                self.wf(),
                t == builtin_tokens_rest(),
                ops@ == seq!["Max", "Min", "NumericMax", "NumericMin"],
                self.view() == register_all(m0, t.take(8 + k)),
                no_defaults(self.defaults()),
            decreases 4 - k,
        {
            let op = ops[k];
            let is_numeric = starts_with_numeric(op);
            let elem_type = if is_numeric { Type::Numeric } else { Type::Character };
            let output_type = if is_numeric { Type::Numeric } else { Type::Character };
            proof {
                reveal_strlit("Max");
                reveal_strlit("Min");
                reveal_strlit("NumericMax");
                reveal_strlit("NumericMin");
                reveal_strlit("Numeric");
                assert("NumericMax"@.subrange(0, 7) =~= "Numeric"@);
                assert("NumericMin"@.subrange(0, 7) =~= "Numeric"@);
                assert(op@ == ops@[k as int]@);
                if k < 2 {
                    assert(!is_numeric);
                } else {
                    assert(is_numeric);
                }
            }
            self.register_builtin(meta1(op, "array", Type::Vec(Box::new(elem_type)), output_type, None));
            proof {
                lemma_register_all_step(m0, t, 8 + k);
            }
            k += 1;
        }

        self.register_builtin(meta1("CharacterToHp", "character", Type::Character, Type::CharacterHP, None));
        proof { lemma_register_all_step(m0, t, 12); }
        self.register_builtin(meta1("CharacterHpToCharacter", "character_hp", Type::CharacterHP, Type::Character, None));
        proof { lemma_register_all_step(m0, t, 13); }
        self.register_builtin(meta1("CharacterTeam", "character", Type::Character, Type::TeamSide, None));
        proof { lemma_register_all_step(m0, t, 14); }
        self.register_builtin(meta1("TeamMembers", "team_side", Type::TeamSide, Type::Vec(Box::new(Type::Character)), None));
        proof { lemma_register_all_step(m0, t, 15); }
        self.register_builtin(meta0("AllTeamSides", Type::Vec(Box::new(Type::TeamSide)), None));
        proof { lemma_register_all_step(m0, t, 16); }
        self.register_builtin(meta1("CharacterHpToCharacter", "character_hp", Type::CharacterHP, Type::Character, None));
        proof { lemma_register_all_step(m0, t, 17); }
        self.register_builtin(meta0("Hero", Type::TeamSide, None));
        proof { lemma_register_all_step(m0, t, 18); }
        self.register_builtin(meta0("Enemy", Type::TeamSide, None));
        proof {
            lemma_register_all_step(m0, t, 19);
            assert(t.take(20) =~= t);
        }
    }

    /// Registers metadata under its token type, replacing earlier metadata of
    /// that type.
    pub fn register(&mut self, metadata: TokenMetadata)
        requires
            old(self).wf(),
        ensures
            final(self).wf(),
            final(self).view() == old(self).view().insert(metadata.token_type@, meta_view(metadata)),
            final(self).defaults() == old(self).defaults().insert(metadata.token_type@, default_values(metadata)),
    {
        let name = metadata.token_type.clone();
        let ghost mvw = meta_view(metadata);
        let ghost dv = default_values(metadata);
        self.metadata.insert(name, metadata);
        assert(self.view() =~= old(self).view().insert(name@, mvw));
        assert(self.defaults() =~= old(self).defaults().insert(name@, dv));
    }

    /// The metadata of `token_type`, if there is any.
    pub fn get(&self, token_type: &str) -> (r: Option<&TokenMetadata>)
        requires
            self.wf(),
        ensures
            match r {
                Some(m) => self.view().contains_key(token_type@) && meta_view(*m) == self.view()[token_type@]
                    && default_values(*m) == self.defaults()[token_type@],
                None => !self.view().contains_key(token_type@),
            },
    {
        self.metadata.get(token_type)
    }
}

impl Default for TokenMetadataRegistry {
    fn default() -> (r: Self)
        ensures
            r.wf(),
            r.view() == builtin_registry(),
    {
        Self::new()
    }
}

/// A token whose output is a vector of its transform's type (as `Map` is)
/// yields a vector of exactly that type once the transform's type is known:
/// mapping a list gives a list.
pub proof fn lemma_mapped_output_is_vector(m: MetaView, arg_types: Map<Seq<char>, Type>)
    requires
        m.inference == Some(OutputInference::VecOfTransform),
        arg_types.contains_key("transform"@),
    ensures
        inferred_output(m, arg_types) == Type::Vec(Box::new(arg_types["transform"@])),
{
}

} // verus!
