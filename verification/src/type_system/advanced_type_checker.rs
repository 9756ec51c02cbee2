//! A type checker that combines each token's own argument types with
//! Hindley–Milner constraint solving, element contexts for list operations,
//! and the `Numeric` trait bound.

use vstd::prelude::*;
use vstd::string::StringExecFns;
use crate::structured_token::{StructuredTokenInput, lemma_child_smaller, token_debug_text, token_debug_string};
use crate::type_system::types::{
    Type, TypedAst, TypeContext, AstView, ast_view, children_view, compatible, type_text, put_child, put_entry,
    find_entry, child_type,
};
use crate::type_system::errors::{TypeError, CompileError, CompileResult};
use crate::type_system::hindley_milner::{
    HindleyMilner, PolyType, PolyTerm, TypeEnv, TypeScheme, Subst, concrete_terms, solve_concrete, lemma_solve_concrete, failure_text,
    reports,
};
use crate::type_system::type_checker::{Failure, FailureKind, fails_as, check_result_matches};
use crate::util::{owned, str_eq};

verus! {

/// `FilterList` or `Map`: the tokens whose element argument is checked in the
/// context of the array's element type.
pub open spec fn is_list_op(t: StructuredTokenInput) -> bool {
    t is FilterList || t is MapList
}

/// The argument of a list operation that sees the element type.
pub open spec fn element_arg(t: StructuredTokenInput) -> Seq<char> {
    if t is FilterList { "condition"@ } else { "transform"@ }
}

/// Whether a constraint between the expected and the actual type is added:
/// not for `Numeric` or `Any` expected, not for `Any` actual, and not for a
/// vector of `Any` expected against a vector.
pub open spec fn should_add_constraint(expected: Type, actual: Type) -> bool {
    match (expected, actual) {
        (Type::Numeric, _) => false,
        (Type::Any, _) => false,
        (_, Type::Any) => false,
        (Type::Vec(e), Type::Vec(_)) => !(*e is Any),
        _ => true,
    }
}

/// The types that implement the `Numeric` trait.
pub open spec fn is_numeric_type(t: Type) -> bool {
    t is I32 || t is CharacterHP || t is Numeric
}

/// The output type of `token` given its typed arguments and the context.
pub open spec fn output_spec(token: StructuredTokenInput, children: Seq<(Seq<char>, AstView)>, ctx: Option<Type>) -> Result<Type, Failure> {
    match token {
        StructuredTokenInput::Element => match ctx {
            None => Err(Failure { kind: FailureKind::Unresolved("Element used outside of list context"@), path: seq![] }),
            Some(Type::Vec(e)) => Ok(*e),
            Some(t) => Ok(t),
        },
        StructuredTokenInput::FilterList { .. } => Ok(match find_entry(children, "array"@) {
            Some(v) => v.ty,
            None => Type::Vec(Box::new(Type::Any)),
        }),
        StructuredTokenInput::MapList { .. } => Ok(match find_entry(children, "transform"@) {
            Some(v) => Type::Vec(Box::new(v.ty)),
            None => Type::Vec(Box::new(Type::Any)),
        }),
        StructuredTokenInput::RandomPick { .. } => Ok(match find_entry(children, "array"@) {
            Some(v) => match v.ty {
                Type::Vec(e) => *e,
                _ => Type::Any,
            },
            None => Type::Any,
        }),
        StructuredTokenInput::NumericMax { .. } | StructuredTokenInput::NumericMin { .. } =>
            Ok(match find_entry(children, "array"@) {
                Some(v) => match v.ty {
                    Type::Vec(e) => match *e {
                        Type::I32 => Type::I32,
                        Type::CharacterHP => Type::CharacterHP,
                        _ => Type::Numeric,
                    },
                    _ => Type::Numeric,
                },
                None => Type::Numeric,
            }),
        _ => Ok(token.declared_output()),
    }
}

/// The check of `token` in context `ctx` with constraints `pending` waiting:
/// the result, and the constraints waiting afterwards.
pub open spec fn adv_check(token: StructuredTokenInput, ctx: Option<Type>, pending: Seq<(Type, Type)>)
    -> (Result<AstView, Failure>, Seq<(Type, Type)>)
    decreases token, 2nat, 0nat,
{
    let pre: (Result<Seq<(Seq<char>, AstView)>, Failure>, Seq<(Type, Type)>, Option<Type>) =
        if is_list_op(token) && token.child("array"@) is Some {
            let c = token.child("array"@).unwrap();
            proof { lemma_child_smaller(token, "array"@); }
            match adv_check(c, ctx, pending) {
                (Err(f), p) => (Err(f), p, None),
                (Ok(v), p) => (
                    Ok(seq![("array"@, v)]),
                    p,
                    match v.ty {
                        Type::Vec(e) => Some(*e),
                        _ => None,
                    },
                ),
            }
        } else {
            (Ok(seq![]), pending, None)
        };
    match pre.0 {
        Err(f) => (Err(f), pre.1),
        Ok(first) => match adv_args(token, ctx, token.expected_args(), first, pre.1, pre.2) {
            (Err(f), p) => (Err(f), p),
            (Ok(children), p) => finish_check(token, ctx, children, p),
        },
    }
}

/// The end of a check once the arguments are typed: the waiting constraints
/// are solved (and gone afterwards), then the output type is found.
pub open spec fn finish_check(token: StructuredTokenInput, ctx: Option<Type>, children: Seq<(Seq<char>, AstView)>,
    pending: Seq<(Type, Type)>) -> (Result<AstView, Failure>, Seq<(Type, Type)>)
{
    match solve_concrete(pending) {
        Err(u) => (Err(Failure { kind: FailureKind::Unresolved(failure_text(u)), path: seq![] }), seq![]),
        Ok(()) => match output_spec(token, children, ctx) {
            Err(f) => (Err(f), seq![]),
            Ok(ty) => (Ok(AstView { token, ty, children }), seq![]),
        },
    }
}

/// The checks of the arguments `args` of `token`, in order, after the typed
/// arguments `children`, with constraints `pending` waiting and the element
/// context `elem` of a list operation.
pub open spec fn adv_args(token: StructuredTokenInput, ctx: Option<Type>, args: Seq<(Seq<char>, Type)>,
    children: Seq<(Seq<char>, AstView)>, pending: Seq<(Type, Type)>, elem: Option<Type>)
    -> (Result<Seq<(Seq<char>, AstView)>, Failure>, Seq<(Type, Type)>)
    decreases token, 1nat, args.len(),
{
    if args.len() == 0 {
        (Ok(children), pending)
    } else {
        let name = args[0].0;
        let expected = args[0].1;
        if find_entry(children, name) is Some {
            adv_args(token, ctx, args.drop_first(), children, pending, elem)
        } else {
            match token.child(name) {
                None => (Err(Failure { kind: FailureKind::Missing(token_debug_text(token), name), path: seq![] }), pending),
                Some(c) => {
                    proof { lemma_child_smaller(token, name); }
                    let cctx = if is_list_op(token) && name == element_arg(token) && elem is Some { elem } else { ctx };
                    match adv_check(c, cctx, pending) {
                        (Err(f), p) => (Err(f), p),
                        (Ok(v), p) =>
                            if !compatible(v.ty, expected) {
                                (Err(Failure {
                                    kind: FailureKind::Mismatch(expected, v.ty, token_debug_text(token) + "."@ + name),
                                    path: seq![],
                                }), p)
                            } else {
                                let p2 = if should_add_constraint(expected, v.ty) { p.push((expected, v.ty)) } else { p };
                                if expected == Type::Numeric && !is_numeric_type(v.ty) {
                                    (Err(Failure {
                                        kind: FailureKind::Mismatch(expected, v.ty,
                                            "Type "@ + type_text(v.ty) + " does not implement Numeric trait"@),
                                        path: seq![],
                                    }), p2)
                                } else {
                                    adv_args(token, ctx, args.drop_first(), put_entry(children, name, v), p2, elem)
                                }
                            },
                    }
                },
            }
        }
    }
}

/// The concrete type that a constraint term stands for.
pub open spec fn concrete_of(t: PolyTerm) -> Type {
    match t {
        PolyTerm::Concrete(x) => x,
        _ => Type::Any,
    }
}

/// The type checker that infers with Hindley–Milner unification.
pub struct AdvancedTypeChecker {
    hm_engine: HindleyMilner,
    type_env: TypeEnv,
}

impl AdvancedTypeChecker {
    /// The constraints waiting in the engine, as pairs of types.
    pub closed spec fn pending_types(self) -> Seq<(Type, Type)> {
        self.hm_engine.pending().map_values(|c: (PolyTerm, PolyTerm)| (concrete_of(c.0), concrete_of(c.1)))
    }

    /// Only constraints between concrete types wait in the engine.
    pub closed spec fn wf(self) -> bool {
        &&& self.type_env.wf()
        &&& forall|i: int| 0 <= i < self.hm_engine.pending().len()
            ==> (#[trigger] self.hm_engine.pending()[i]).0 is Concrete && self.hm_engine.pending()[i].1 is Concrete
    }

    /// The next fresh type variable of the engine.
    pub closed spec fn next_var(self) -> usize {
        self.hm_engine.next_var()
    }

    /// The substitution the engine has found so far.
    pub closed spec fn substitution(self) -> Subst {
        self.hm_engine.subst()
    }

    /// The typing environment, names bound to type schemes.
    pub closed spec fn env(self) -> Map<Seq<char>, TypeScheme> {
        self.type_env.view()
    }

    /// A checker with a fresh engine: no variable used, nothing substituted,
    /// no constraint waiting, and nothing bound in the environment.
    pub fn new() -> (r: Self)
        ensures
            r.wf(),
            r.pending_types() == Seq::<(Type, Type)>::empty(),
            r.next_var() == 0,
            r.substitution() == Map::<usize, PolyTerm>::empty(),
            r.env() == Map::<Seq<char>, TypeScheme>::empty(),
    {
        let r = AdvancedTypeChecker { hm_engine: HindleyMilner::new(), type_env: TypeEnv::new() };
        assert(r.pending_types() =~= Seq::<(Type, Type)>::empty());
        r
    }

    /// Checks `token` without a context. Constraints left by an earlier
    /// check that failed before solving are solved with this one's.
    pub fn check(&mut self, token: &StructuredTokenInput) -> (r: CompileResult<TypedAst>)
        requires
            old(self).wf(),
        ensures
            final(self).wf(),
            check_result_matches(r, adv_check(*token, None, old(self).pending_types()).0),
            final(self).pending_types() == adv_check(*token, None, old(self).pending_types()).1,
    {
        let mut context = TypeContext::new();
        self.check_with_inference(token, &mut context)
    }

    proof fn lemma_pending_terms(self)
        requires
            self.wf(),
        ensures
            concrete_terms(self.pending_types()) == self.hm_engine.pending(),
    {
        assert(concrete_terms(self.pending_types()) =~= self.hm_engine.pending());
    }

    /// Checks the argument `arg_token`, named `name`, of `token`.
    fn check_one_argument(&mut self, arg_token: &StructuredTokenInput, context: &mut TypeContext, elem: Option<Type>,
        use_elem: bool) -> (r: CompileResult<TypedAst>)
        requires
            old(self).wf(),
        ensures
            final(self).wf(),
            check_result_matches(r, adv_check(*arg_token,
                if use_elem && elem is Some { elem } else { old(context).context() }, old(self).pending_types()).0),
            final(self).pending_types() == adv_check(*arg_token,
                if use_elem && elem is Some { elem } else { old(context).context() }, old(self).pending_types()).1,
            final(context).context() == old(context).context(),
        decreases *arg_token, 3nat, 0nat,
    {
        if use_elem {
            match elem {
                Some(e) => {
                    let mut new_context = context.duplicate();
                    new_context.set_current_context(Some(e));
                    return self.check_with_inference(arg_token, &mut new_context);
                },
                None => {},
            }
        }
        self.check_with_inference(arg_token, context)
    }

    fn check_with_inference(&mut self, token: &StructuredTokenInput, context: &mut TypeContext) -> (r: CompileResult<TypedAst>)
        requires
            old(self).wf(),
        ensures
            final(self).wf(),
            check_result_matches(r, adv_check(*token, old(context).context(), old(self).pending_types()).0),
            final(self).pending_types() == adv_check(*token, old(context).context(), old(self).pending_types()).1,
            final(context).context() == old(context).context(),
        decreases *token, 2nat, 0nat,
    {
        proof {
            reveal_strlit("array");
            reveal_strlit("condition");
            reveal_strlit("transform");
        }
        let ghost ctx = context.context();
        let ghost pending0 = self.pending_types();
        let expected_args = token.expected_argument_types();
        let ghost eargs = token.expected_args();
        let mut typed_children: Vec<(String, TypedAst)> = Vec::new();
        let mut element_context: Option<Type> = None;
        let is_list = match token {
            StructuredTokenInput::FilterList { .. } | StructuredTokenInput::MapList { .. } => true,
            _ => false,
        };
        if is_list {
            match token.argument("array") {
                Some(array_arg) => {
                    proof { lemma_child_smaller(*token, "array"@); }
                    let typed_array = match self.check_with_inference(array_arg, context) {
                        Ok(t) => t,
                        Err(e) => {
                            return Err(e);
                        },
                    };
                    match &typed_array.ty {
                        Type::Vec(elem_type) => {
                            element_context = Some((**elem_type).duplicate());
                        },
                        _ => {},
                    }
                    put_child(&mut typed_children, owned("array"), typed_array);
                },
                None => {},
            }
        }
        let ghost first = children_view(typed_children@);
        let ghost pending1 = self.pending_types();
        assert(first == children_view(typed_children@));
        assert(eargs.skip(0) =~= eargs);
        let ghost target = adv_args(*token, ctx, eargs, first, pending1, element_context);
        let ghost whole = adv_check(*token, ctx, pending0);
        assert(target.0 is Err ==> whole == (Err::<AstView, Failure>(target.0->Err_0), target.1));
        assert(target.0 is Ok ==> whole == finish_check(*token, ctx, target.0->Ok_0, target.1));
        let mut i: usize = 0;
        while i < expected_args.len()
            invariant
                self.wf(),
                ctx == context.context(),
                ctx == old(context).context(),
                eargs == token.expected_args(),
                expected_args@.len() == eargs.len(),
                forall|j: int| 0 <= j < expected_args@.len() ==>
                    (#[trigger] expected_args@[j]).0@ == eargs[j].0 && expected_args@[j].1 == eargs[j].1,
                i <= eargs.len(),
                target == adv_args(*token, ctx, eargs, first, pending1, element_context),
                target == adv_args(*token, ctx, eargs.skip(i as int), children_view(typed_children@),
                    self.pending_types(), element_context),
                is_list == is_list_op(*token),
                pending0 == old(self).pending_types(),
                whole == adv_check(*token, ctx, pending0),
                target.0 is Err ==> whole == (Err::<AstView, Failure>(target.0->Err_0), target.1),
                target.0 is Ok ==> whole == finish_check(*token, ctx, target.0->Ok_0, target.1),
            decreases eargs.len() - i,
        {
            let ghost children = children_view(typed_children@);
            let ghost pend = self.pending_types();
            let arg_name = &expected_args[i].0;
            let expected_type = &expected_args[i].1;
            let ghost name = eargs[i as int].0;
            let ghost expected = eargs[i as int].1;
            assert(eargs.skip(i as int)[0] == eargs[i as int]);
            assert(eargs.skip(i as int).drop_first() =~= eargs.skip(i + 1));
            let present = match child_type(&typed_children, arg_name.as_str()) {
                Some(_) => true,
                None => false,
            };
            if !present {
                match token.argument(arg_name.as_str()) {
                    None => {
                        let d = token_debug_string(token);
                        let e = CompileError::new(TypeError::MissingField { token_type: d, field_name: arg_name.clone() });
                        assert(e.path@.map_values(|s: String| s@) =~= Seq::<Seq<char>>::empty());
                        return Err(e);
                    },
                    Some(arg_token) => {
                        proof { lemma_child_smaller(*token, name); }
                        let use_elem = is_list && match token {
                            StructuredTokenInput::FilterList { .. } => str_eq(arg_name.as_str(), "condition"),
                            _ => str_eq(arg_name.as_str(), "transform"),
                        };
                        let ghost cctx = if use_elem && element_context is Some { element_context } else { ctx };
                        assert(cctx == (if is_list_op(*token) && name == element_arg(*token) && element_context is Some {
                            element_context
                        } else {
                            ctx
                        }));
                        let ghost res = adv_check(*arg_token, cctx, pend);
                        let typed_arg = match self.check_one_argument(arg_token, context, element_context.clone(), use_elem) {
                            Ok(t) => t,
                            Err(e) => {
                                return Err(e);
                            },
                        };
                        assert(res.0 == Ok::<AstView, Failure>(ast_view(typed_arg)));
                        let ghost p = self.pending_types();
                        assert(p == res.1);
                        if !typed_arg.ty.is_compatible_with(expected_type) {
                            let d = token_debug_string(token);
                            let e = CompileError::new(TypeError::TypeMismatch {
                                expected: expected_type.duplicate(),
                                actual: typed_arg.ty.duplicate(),
                                context: d.concat(".").concat(arg_name.as_str()),
                            });
                            assert(e.path@.map_values(|s: String| s@) =~= Seq::<Seq<char>>::empty());
                            return Err(e);
                        }
                        let should_add = match (expected_type, &typed_arg.ty) {
                            (Type::Numeric, _) => false,
                            (Type::Any, _) => false,
                            (_, Type::Any) => false,
                            (Type::Vec(expected_elem), Type::Vec(_)) => match &**expected_elem {
                                Type::Any => false,
                                _ => true,
                            },
                            _ => true,
                        };
                        if should_add {
                            let expected_poly = PolyType::Concrete(expected_type.duplicate());
                            let actual_poly = PolyType::Concrete(typed_arg.ty.duplicate());
                            let ghost before = self.hm_engine.pending();
                            self.hm_engine.add_constraint(expected_poly, actual_poly);
                            proof {
                                assert(self.pending_types() =~= p.push((expected, typed_arg.ty)));
                            }
                        }
                        assert(should_add == should_add_constraint(expected, typed_arg.ty));
                        let ghost p2 = self.pending_types();
                        assert(p2 == (if should_add_constraint(expected, typed_arg.ty) { p.push((expected, typed_arg.ty)) } else { p }));
                        let is_numeric_expected = match expected_type {
                            Type::Numeric => true,
                            _ => false,
                        };
                        if is_numeric_expected {
                            let implements = match &typed_arg.ty {
                                Type::I32 | Type::CharacterHP | Type::Numeric => true,
                                _ => false,
                            };
                            if !implements {
                                let t = typed_arg.ty.to_display_string();
                                let e = CompileError::new(TypeError::TypeMismatch {
                                    expected: expected_type.duplicate(),
                                    actual: typed_arg.ty.duplicate(),
                                    context: owned("Type ").concat(t.as_str()).concat(" does not implement Numeric trait"),
                                });
                                assert(e.path@.map_values(|s: String| s@) =~= Seq::<Seq<char>>::empty());
                                return Err(e);
                            }
                        }
                        let ghost v = ast_view(typed_arg);
                        put_child(&mut typed_children, arg_name.clone(), typed_arg);
                        assert(children_view(typed_children@) == put_entry(children, name, v));
                        assert(target == adv_args(*token, ctx, eargs.skip(i + 1), children_view(typed_children@),
                            self.pending_types(), element_context));
                    },
                }
            }
            i += 1;
        }
        let ghost children = children_view(typed_children@);
        let ghost pend = self.pending_types();
        proof {
            self.lemma_pending_terms();
            lemma_solve_concrete(self.hm_engine.subst(), pend);
        }
        match self.hm_engine.solve_constraints() {
            Ok(()) => {},
            Err(e) => {
                let err = CompileError::new(TypeError::UnresolvedType { context: e });
                assert(err.path@.map_values(|s: String| s@) =~= Seq::<Seq<char>>::empty());
                assert(self.pending_types() =~= Seq::<(Type, Type)>::empty());
                return Err(err);
            },
        }
        assert(self.pending_types() =~= Seq::<(Type, Type)>::empty());
        let output_type = match self.infer_output_type(token, &typed_children, context) {
            Ok(t) => t,
            Err(e) => {
                return Err(e);
            },
        };
        if self.is_value_binding(token) {
            let poly_type = PolyType::Concrete(output_type.duplicate());
            let type_scheme = self.hm_engine.generalize(&self.type_env, &poly_type);
            match self.get_binding_name(token) {
                Some(binding_name) => self.type_env.bind(binding_name, type_scheme),
                None => {},
            }
        }
        let mut typed_ast = TypedAst::new(token.duplicate(), output_type);
        typed_ast.children = typed_children;
        Ok(typed_ast)
    }

    /// The output type of `token` given its typed arguments and the context.
    fn infer_output_type(&self, token: &StructuredTokenInput, typed_args: &Vec<(String, TypedAst)>,
        context: &TypeContext) -> (r: Result<Type, CompileError>)
        ensures
            match (r, output_spec(*token, children_view(typed_args@), context.context())) {
                (Ok(t), Ok(u)) => t == u,
                (Err(e), Err(f)) => fails_as(e, f),
                _ => false,
            },
    {
        proof {
            reveal_strlit("array");
            reveal_strlit("transform");
        }
        match token {
            StructuredTokenInput::Element => match context.current_context() {
                Some(Type::Vec(elem_type)) => Ok((**elem_type).duplicate()),
                Some(ty) => Ok(ty.duplicate()),
                None => {
                    let e = CompileError::new(TypeError::UnresolvedType {
                        context: owned("Element used outside of list context"),
                    });
                    assert(e.path@.map_values(|s: String| s@) =~= Seq::<Seq<char>>::empty());
                    Err(e)
                },
            },
            StructuredTokenInput::FilterList { .. } => Ok(match child_type(typed_args, "array") {
                Some(t) => t,
                None => Type::Vec(Box::new(Type::Any)),
            }),
            StructuredTokenInput::MapList { .. } => Ok(match child_type(typed_args, "transform") {
                Some(t) => Type::Vec(Box::new(t)),
                None => Type::Vec(Box::new(Type::Any)),
            }),
            StructuredTokenInput::RandomPick { .. } => Ok(match child_type(typed_args, "array") {
                Some(Type::Vec(e)) => *e,
                _ => Type::Any,
            }),
            StructuredTokenInput::NumericMax { .. } | StructuredTokenInput::NumericMin { .. } =>
                Ok(match child_type(typed_args, "array") {
                    Some(Type::Vec(e)) => match *e {
                        Type::I32 => Type::I32,
                        Type::CharacterHP => Type::CharacterHP,
                        _ => Type::Numeric,
                    },
                    _ => Type::Numeric,
                }),
            _ => Ok(token.output_type()),
        }
    }

    /// Whether `token` binds a value (no token does).
    fn is_value_binding(&self, _token: &StructuredTokenInput) -> (r: bool)
        ensures
            !r,
    {
        false
    }

    /// The name that `token` binds (no token binds one).
    fn get_binding_name(&self, _token: &StructuredTokenInput) -> (r: Option<String>)
        ensures
            r is None,
    {
        None
    }
}

impl Default for AdvancedTypeChecker {
    fn default() -> (r: Self)
        ensures
            r.wf(),
            r.pending_types() == Seq::<(Type, Type)>::empty(),
    {
        Self::new()
    }
}

} // verus!
