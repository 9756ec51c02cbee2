//! A type checker driven by token metadata: it knows no token kind by itself
//! and takes the arguments, their expected types and the output type of each
//! token from a metadata registry.

use vstd::prelude::*;
use vstd::string::StringExecFns;
use crate::name_map::NameMap;
use crate::structured_token::{StructuredTokenInput, lemma_child_smaller};
use crate::type_system::types::{
    Type, TypedAst, TypeContext, AstView, ast_view, children_view, compatible, put_child, put_entry,
    find_entry, child_type,
};
use crate::type_system::errors::{TypeError, CompileError, CompileResult};
use crate::type_system::token_metadata::{TokenMetadataRegistry, TokenMetadata, MetaView, ArgView, meta_view,
    inferred_output, ContextProvider, builtin_registry};
use crate::util::{owned, str_eq, join3};

verus! {

/// What a check failed with.
pub enum FailureKind {
    /// `UndefinedToken` of this token type.
    Undefined(Seq<char>),
    /// `TypeMismatch`: expected type, actual type, context.
    Mismatch(Type, Type, Seq<char>),
    /// `MissingField`: token type, argument name.
    Missing(Seq<char>, Seq<char>),
    /// `UnresolvedType` with this context.
    Unresolved(Seq<char>),
}

/// A failed check: what failed, and the path of arguments that leads there.
pub struct Failure {
    pub kind: FailureKind,
    pub path: Seq<Seq<char>>,
}

/// A compilation error is the one that a failure describes.
pub open spec fn fails_as(e: CompileError, f: Failure) -> bool {
    &&& e.path@.map_values(|s: String| s@) == f.path
    &&& e.token is None
    &&& match (e.error, f.kind) {
        (TypeError::UndefinedToken { token_type }, FailureKind::Undefined(t)) => token_type@ == t,
        (TypeError::TypeMismatch { expected, actual, context }, FailureKind::Mismatch(x, y, c)) =>
            expected == x && actual == y && context@ == c,
        (TypeError::MissingField { token_type, field_name }, FailureKind::Missing(t, n)) =>
            token_type@ == t && field_name@ == n,
        (TypeError::UnresolvedType { context }, FailureKind::Unresolved(c)) => context@ == c,
        _ => false,
    }
}

/// The context that argument `name` is checked in, by the metadata's
/// context provider: the element type of the `array` argument checked so far.
pub open spec fn argument_context(m: MetaView, name: Seq<char>, children: Seq<(Seq<char>, AstView)>) -> Option<Type> {
    match m.provider {
        Some(p) =>
            if name == p {
                match find_entry(children, "array"@) {
                    Some(v) => match v.ty {
                        Type::Vec(e) => Some(*e),
                        _ => None,
                    },
                    None => None,
                }
            } else {
                None
            },
        None => None,
    }
}

/// "`token_type`.`name`", the context of an argument.
pub open spec fn arg_context_text(token_type: Seq<char>, name: Seq<char>) -> Seq<char> {
    token_type + "."@ + name
}

/// The check of a token under registry `reg` in context `ctx`.
pub open spec fn check_spec(reg: Map<Seq<char>, MetaView>, token: StructuredTokenInput, ctx: Option<Type>) -> Result<AstView, Failure>
    decreases token, 1nat, 0nat,
{
    let tt = token.kind_name();
    if !reg.contains_key(tt) {
        Err(Failure { kind: FailureKind::Undefined(tt), path: seq![] })
    } else {
        let m = reg[tt];
        match check_args(reg, token, ctx, m, m.args, seq![], Map::empty()) {
            Err(f) => Err(f),
            Ok((children, types)) =>
                if tt == "Element"@ {
                    match ctx {
                        None => Err(Failure {
                            kind: FailureKind::Unresolved("Element used outside of list context"@),
                            path: seq![],
                        }),
                        Some(Type::Vec(e)) => Ok(AstView { token, ty: *e, children }),
                        Some(t) => Ok(AstView { token, ty: t, children }),
                    }
                } else {
                    Ok(AstView { token, ty: inferred_output(m, types), children })
                },
        }
    }
}

/// The check of one argument `c`, named `name`, of a token of type `tt`
/// without a context of its own: failures get the argument's context in front
/// of their path, and the type must be compatible with the expected one.
pub open spec fn check_argument_spec(reg: Map<Seq<char>, MetaView>, c: StructuredTokenInput, ctx: Option<Type>,
    tt: Seq<char>, a: ArgView) -> Result<AstView, Failure>
    decreases c, 2nat, 0nat,
{
    match check_spec(reg, c, ctx) {
        Err(f) => Err(Failure { kind: f.kind, path: seq![arg_context_text(tt, a.name)] + f.path }),
        Ok(v) =>
            if !compatible(v.ty, a.expected) {
                Err(Failure { kind: FailureKind::Mismatch(a.expected, v.ty, arg_context_text(tt, a.name)), path: seq![] })
            } else {
                Ok(v)
            },
    }
}

/// The checks of the arguments `args` of `token`, in order, after the
/// typed arguments `children` with types `types`.
pub open spec fn check_args(reg: Map<Seq<char>, MetaView>, token: StructuredTokenInput, ctx: Option<Type>, m: MetaView,
    args: Seq<ArgView>, children: Seq<(Seq<char>, AstView)>, types: Map<Seq<char>, Type>)
    -> Result<(Seq<(Seq<char>, AstView)>, Map<Seq<char>, Type>), Failure>
    decreases token, 0nat, args.len(),
{
    if args.len() == 0 {
        Ok((children, types))
    } else {
        let a = args[0];
        let tt = token.kind_name();
        match token.child(a.name) {
            Some(c) => {
                proof { lemma_child_smaller(token, a.name); }
                let res = match argument_context(m, a.name, children) {
                    Some(x) => check_spec(reg, c, Some(x)),
                    None => check_argument_spec(reg, c, ctx, tt, a),
                };
                match res {
                    Err(f) => Err(f),
                    Ok(v) => check_args(reg, token, ctx, m, args.drop_first(), put_entry(children, a.name, v),
                        types.insert(a.name, v.ty)),
                }
            },
            None =>
                if a.required {
                    Err(Failure { kind: FailureKind::Missing(tt, a.name), path: seq![] })
                } else {
                    check_args(reg, token, ctx, m, args.drop_first(), children, types)
                },
        }
    }
}

/// The result of a check is what the specification gives.
pub open spec fn check_result_matches(r: CompileResult<TypedAst>, s: Result<AstView, Failure>) -> bool {
    match (r, s) {
        (Ok(ast), Ok(v)) => ast_view(ast) == v,
        (Err(e), Err(f)) => fails_as(e, f),
        _ => false,
    }
}

/// A type checker that takes what it knows of tokens from a metadata registry.
pub struct TypeChecker {
    metadata_registry: TokenMetadataRegistry,
}

impl TypeChecker {
    /// The metadata the checker uses.
    pub closed spec fn registry(self) -> Map<Seq<char>, MetaView> {
        self.metadata_registry.view()
    }

    /// The checker's internal invariant.
    pub closed spec fn wf(self) -> bool {
        self.metadata_registry.wf()
    }

    /// A checker with the built-in token metadata.
    pub fn new() -> (r: Self)
        ensures
            r.wf(),
            r.registry() == builtin_registry(),
    {
        let metadata_registry = TokenMetadataRegistry::new();
        TypeChecker { metadata_registry }
    }

    /// A checker with the given metadata.
    pub fn with_registry(metadata_registry: TokenMetadataRegistry) -> (r: Self)
        requires
            metadata_registry.wf(),
        ensures
            r.wf(),
            r.registry() == metadata_registry.view(),
    {
        TypeChecker { metadata_registry }
    }

    /// Checks `token` without a context.
    pub fn check(&self, token: &StructuredTokenInput) -> (r: CompileResult<TypedAst>)
        requires
            self.wf(),
        ensures
            check_result_matches(r, check_spec(self.registry(), *token, None)),
    {
        let mut context = TypeContext::new();
        self.check_with_context(token, &mut context)
    }

    fn check_with_context(&self, token: &StructuredTokenInput, context: &mut TypeContext) -> (r: CompileResult<TypedAst>)
        requires
            self.wf(),
        ensures
            check_result_matches(r, check_spec(self.registry(), *token, old(context).context())),
            final(context).context() == old(context).context(),
        decreases *token, 1nat, 0nat,
    {
        let ghost reg = self.registry();
        let ghost ctx = context.context();
        let token_type = self.get_token_type(token);
        let metadata = match self.metadata_registry.get(token_type.as_str()) {
            Some(m) => m,
            None => {
                let e = CompileError::new(TypeError::UndefinedToken { token_type: token_type });
                assert(e.path@.map_values(|s: String| s@) =~= Seq::<Seq<char>>::empty());
                return Err(e);
            },
        };
        let ghost m = meta_view(*metadata);
        let ghost args = m.args;
        let token_args = self.extract_arguments(token);
        let mut typed_children: Vec<(String, TypedAst)> = Vec::new();
        let mut arg_types: NameMap<Type> = NameMap::new();
        let ghost target = check_args(reg, *token, ctx, m, args, seq![], Map::empty());
        assert(children_view(typed_children@) =~= Seq::<(Seq<char>, AstView)>::empty());
        assert(args.skip(0) =~= args);
        let mut i: usize = 0;
        while i < metadata.arguments.len()
            invariant
                self.wf(),
                reg == self.registry(),
                ctx == context.context(),
                ctx == old(context).context(),
                m == meta_view(*metadata),
                args == m.args,
                args.len() == metadata.arguments@.len(),
                token_type@ == token.kind_name(),
                reg.contains_key(token.kind_name()),
                reg[token.kind_name()] == m,
                token_args.wf(),
                forall|n: Seq<char>| #[trigger] token_args.view().contains_key(n) <==> token.child(n) is Some,
                forall|n: Seq<char>| #[trigger] token_args.view().contains_key(n) ==> Some(*token_args.view()[n]) == token.child(n),
                i <= args.len(),
                arg_types.wf(),
                target == check_args(reg, *token, ctx, m, args, seq![], Map::empty()),
                target == check_args(reg, *token, ctx, m, args.skip(i as int), children_view(typed_children@), arg_types.view()),
            decreases args.len() - i,
        {
            let arg_meta = &metadata.arguments[i];
            let ghost a = args[i as int];
            assert(a == crate::type_system::token_metadata::arg_view(*arg_meta));
            assert(args.skip(i as int)[0] == a);
            assert(args.skip(i as int).drop_first() =~= args.skip(i + 1));
            match token_args.get(arg_meta.name.as_str()) {
                Some(arg_token) => {
                    let arg_token: &StructuredTokenInput = *arg_token;
                    proof {
                        assert(token_args.view().contains_key(a.name));
                        assert(*token_args.view()[a.name] == *arg_token);
                        assert(token.child(a.name) == Some(*arg_token));
                        lemma_child_smaller(*token, a.name);
                    }
                    let arg_context = self.prepare_argument_context(context, &arg_meta.name, &typed_children, metadata)?;
                    let ghost children = children_view(typed_children@);
                    let ghost rest = check_args(reg, *token, ctx, m, args.skip(i as int), children, arg_types.view());
                    let result = match arg_context {
                        Some(elem) => {
                            let mut new_context = context.duplicate();
                            new_context.set_current_context(Some(elem));
                            self.check_with_context(arg_token, &mut new_context)
                        },
                        None => self.check_argument(arg_token, &arg_meta.expected_type, context, &token_type, &arg_meta.name),
                    };
                    let ghost res = match argument_context(m, a.name, children) {
                        Some(x) => check_spec(reg, *arg_token, Some(x)),
                        None => check_argument_spec(reg, *arg_token, ctx, token.kind_name(), a),
                    };
                    assert(check_result_matches(result, res));
                    let typed_arg = match result {
                        Ok(t) => t,
                        Err(e) => {
                            assert(res is Err);
                            assert(rest matches Err(f) && res == Err::<AstView, Failure>(f));
                            return Err(e);
                        },
                    };
                    assert(res == Ok::<AstView, Failure>(ast_view(typed_arg)));
                    assert(rest == check_args(reg, *token, ctx, m, args.skip(i + 1), put_entry(children, a.name, ast_view(typed_arg)),
                        arg_types.view().insert(a.name, typed_arg.ty)));
                    arg_types.insert(arg_meta.name.clone(), typed_arg.ty.duplicate());
                    put_child(&mut typed_children, arg_meta.name.clone(), typed_arg);
                },
                None => {
                    assert(!token_args.view().contains_key(a.name));
                    assert(token.child(a.name) is None);
                    if arg_meta.required {
                        let e = CompileError::new(TypeError::MissingField {
                            token_type: token_type.clone(),
                            field_name: arg_meta.name.clone(),
                        });
                        assert(e.path@.map_values(|s: String| s@) =~= Seq::<Seq<char>>::empty());
                        return Err(e);
                    }
                },
            }
            i += 1;
        }
        let output_type = if str_eq(token_type.as_str(), "Element") {
            match context.current_context() {
                Some(Type::Vec(elem_type)) => (**elem_type).duplicate(),
                Some(ty) => ty.duplicate(),
                None => {
                    let e = CompileError::new(TypeError::UnresolvedType {
                        context: owned("Element used outside of list context"),
                    });
                    assert(e.path@.map_values(|s: String| s@) =~= Seq::<Seq<char>>::empty());
                    return Err(e);
                },
            }
        } else {
            metadata.infer_output_type(&arg_types)
        };
        let mut typed_ast = TypedAst::new(token.duplicate(), output_type);
        typed_ast.children = typed_children;
        Ok(typed_ast)
    }

    /// Checks an argument without a context of its own, then its type against
    /// the expected one.
    fn check_argument(
        &self,
        arg_token: &StructuredTokenInput,
        expected_type: &Type,
        context: &mut TypeContext,
        parent_token_type: &String,
        arg_name: &String,
    ) -> (r: CompileResult<TypedAst>)
        requires
            self.wf(),
        ensures
            check_result_matches(r, check_argument_spec(self.registry(), *arg_token, old(context).context(),
                parent_token_type@, ArgView { name: arg_name@, expected: *expected_type, required: true })),
            check_result_matches(r, check_argument_spec(self.registry(), *arg_token, old(context).context(),
                parent_token_type@, ArgView { name: arg_name@, expected: *expected_type, required: false })),
            final(context).context() == old(context).context(),
        decreases *arg_token, 2nat, 0nat,
    {
        let typed_arg = match self.check_with_context(arg_token, context) {
            Ok(t) => t,
            Err(e) => {
                let c = join3(parent_token_type.as_str(), ".", arg_name.as_str());
                let e2 = e.add_context(c);
                proof {
                    assert(e2.path@.map_values(|s: String| s@) =~= seq![c@] + e.path@.map_values(|s: String| s@));
                }
                return Err(e2);
            },
        };
        if !typed_arg.ty.is_compatible_with(expected_type) {
            let e = CompileError::new(TypeError::TypeMismatch {
                expected: expected_type.duplicate(),
                actual: typed_arg.ty.duplicate(),
                context: join3(parent_token_type.as_str(), ".", arg_name.as_str()),
            });
            assert(e.path@.map_values(|s: String| s@) =~= Seq::<Seq<char>>::empty());
            return Err(e);
        }
        Ok(typed_arg)
    }

    /// The name of the token's kind.
    fn get_token_type(&self, token: &StructuredTokenInput) -> (r: String)
        ensures
            r@ == token.kind_name(),
    {
        token.token_type_name()
    }

    /// The context for argument `arg_name`, as the metadata's context
    /// provider gives it.
    fn prepare_argument_context(
        &self,
        _context: &TypeContext,
        arg_name: &String,
        typed_children: &Vec<(String, TypedAst)>,
        metadata: &TokenMetadata,
    ) -> (r: Result<Option<Type>, CompileError>)
        ensures
            r == Ok::<Option<Type>, CompileError>(argument_context(meta_view(*metadata), arg_name@, children_view(typed_children@))),
    {
        proof { reveal_strlit("array"); }
        match &metadata.argument_context_provider {
            Some(ContextProvider::ArrayElementFor(p)) => {
                if str_eq(arg_name.as_str(), p.as_str()) {
                    match child_type(typed_children, "array") {
                        Some(Type::Vec(e)) => Ok(Some(*e)),
                        _ => Ok(None),
                    }
                } else {
                    Ok(None)
                }
            },
            None => Ok(None),
        }
    }

    /// The arguments of `token` by name.
    fn extract_arguments<'a>(&self, token: &'a StructuredTokenInput) -> (r: NameMap<&'a StructuredTokenInput>)
        ensures
            r.wf(),
            forall|n: Seq<char>| #[trigger] r.view().contains_key(n) <==> token.child(n) is Some,
            forall|n: Seq<char>| #[trigger] r.view().contains_key(n) ==> Some(*r.view()[n]) == token.child(n),
    {
        proof {
            reveal_strlit("target");
            reveal_strlit("condition");
            reveal_strlit("then_action");
            reveal_strlit("left");
            reveal_strlit("right");
            reveal_strlit("character");
            reveal_strlit("character_hp");
            reveal_strlit("team_side");
            reveal_strlit("array");
            reveal_strlit("transform");
            assert("condition"@.len() == 9 && "then_action"@.len() == 11);
            assert("left"@.len() == 4 && "right"@.len() == 5);
            assert("array"@.len() == 5 && "transform"@.len() == 9);
        }
        let mut args: NameMap<&'a StructuredTokenInput> = NameMap::new();
        match token {
            StructuredTokenInput::Strike { target } | StructuredTokenInput::Heal { target } => {
                args.insert(owned("target"), &**target);
            },
            StructuredTokenInput::Check { condition, then_action } => {
                args.insert(owned("condition"), &**condition);
                args.insert(owned("then_action"), &**then_action);
            },
            StructuredTokenInput::GreaterThan { left, right }
            | StructuredTokenInput::LessThan { left, right }
            | StructuredTokenInput::Eq { left, right } => {
                args.insert(owned("left"), &**left);
                args.insert(owned("right"), &**right);
            },
            StructuredTokenInput::CharacterToHp { character } | StructuredTokenInput::CharacterTeam { character } => {
                args.insert(owned("character"), &**character);
            },
            StructuredTokenInput::CharacterHpToCharacter { character_hp } => {
                args.insert(owned("character_hp"), &**character_hp);
            },
            StructuredTokenInput::TeamMembers { team_side } => {
                args.insert(owned("team_side"), &**team_side);
            },
            StructuredTokenInput::RandomPick { array }
            | StructuredTokenInput::Max { array }
            | StructuredTokenInput::Min { array }
            | StructuredTokenInput::NumericMax { array }
            | StructuredTokenInput::NumericMin { array } => {
                args.insert(owned("array"), &**array);
            },
            StructuredTokenInput::FilterList { array, condition } => {
                args.insert(owned("array"), &**array);
                args.insert(owned("condition"), &**condition);
            },
            StructuredTokenInput::MapList { array, transform } => {
                args.insert(owned("array"), &**array);
                args.insert(owned("transform"), &**transform);
            },
            _ => {},
        }
        args
    }
}

impl Default for TypeChecker {
    fn default() -> (r: Self)
        ensures
            r.wf(),
            r.registry() == builtin_registry(),
    {
        Self::new()
    }
}

} // verus!
