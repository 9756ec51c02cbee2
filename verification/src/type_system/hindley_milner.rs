//! Hindley–Milner style inference over polymorphic types: type variables,
//! type schemes, substitution, unification with an occurs check, and
//! generalization against an environment.

use vstd::prelude::*;
use vstd::string::StringExecFns;
use std::collections::HashMap;
use crate::name_map::{NameMap, lemma_entries_are_view};
use crate::type_system::types::{Type, type_debug_text};
use crate::util::{owned, str_eq, decimal, usize_to_string, tuple1_text, tuple2_text, tuple1_string, tuple2_string,
    string_debug_text, string_debug_string};

verus! {

broadcast use vstd::std_specs::hash::group_hash_axioms;

/// The identifier of a type variable.
#[derive(Debug, Clone, Copy, PartialEq, Eq, Hash, Structural)]
pub struct TypeVarId(pub usize);

impl TypeVarId {
    /// The variable's number.
    pub open spec fn id(self) -> usize {
        self.0
    }

    /// The variable with number `id`.
    pub fn new(id: usize) -> (r: Self)
        ensures
            r.id() == id,
    {
        TypeVarId(id)
    }

    /// The variable's number.
    pub fn index(&self) -> (r: usize)
        ensures
            r == self.id(),
    {
        self.0
    }
}

/// A polymorphic type: a concrete type, a type variable, a function type, or a
/// named generic type applied to arguments.
#[derive(Debug)]
pub enum PolyType {
    Concrete(Type),
    Var(TypeVarId),
    Function(Box<PolyType>, Box<PolyType>),
    Generic(String, Vec<PolyType>),
}

/// The mathematical value of a polymorphic type.
pub enum PolyTerm {
    Concrete(Type),
    Var(usize),
    Function(Box<PolyTerm>, Box<PolyTerm>),
    Generic(Seq<char>, Seq<PolyTerm>),
}

/// The value of a polymorphic type.
pub open spec fn term_of(p: PolyType) -> PolyTerm
    decreases p,
{
    match p {
        PolyType::Concrete(t) => PolyTerm::Concrete(t),
        PolyType::Var(v) => PolyTerm::Var(v.0),
        PolyType::Function(a, r) => PolyTerm::Function(Box::new(term_of(*a)), Box::new(term_of(*r))),
        PolyType::Generic(n, args) => PolyTerm::Generic(n@, terms_of(args@)),
    }
}

/// The values of a sequence of polymorphic types.
pub open spec fn terms_of(s: Seq<PolyType>) -> Seq<PolyTerm>
    decreases s,
{
    if s.len() == 0 {
        seq![]
    } else {
        seq![term_of(s[0])] + terms_of(s.drop_first())
    }
}

impl View for PolyType {
    type V = PolyTerm;

    open spec fn view(&self) -> PolyTerm {
        term_of(*self)
    }
}

/// A substitution: type variables mapped to terms.
pub type Subst = Map<usize, PolyTerm>;

/// One application of a substitution: each variable in its domain is replaced
/// by its image once (the image itself is not substituted again).
pub open spec fn apply(s: Subst, t: PolyTerm) -> PolyTerm
    decreases t,
{
    match t {
        PolyTerm::Concrete(_) => t,
        PolyTerm::Var(v) => if s.contains_key(v) { s[v] } else { t },
        PolyTerm::Function(a, r) => PolyTerm::Function(Box::new(apply(s, *a)), Box::new(apply(s, *r))),
        PolyTerm::Generic(n, args) => PolyTerm::Generic(n, apply_all(s, args)),
    }
}

/// `apply` on each term of a sequence.
pub open spec fn apply_all(s: Subst, ts: Seq<PolyTerm>) -> Seq<PolyTerm>
    decreases ts,
{
    if ts.len() == 0 {
        seq![]
    } else {
        seq![apply(s, ts[0])] + apply_all(s, ts.drop_first())
    }
}

/// The type variables that occur in a term.
pub open spec fn free_vars(t: PolyTerm) -> Set<usize>
    decreases t,
{
    match t {
        PolyTerm::Concrete(_) => Set::empty(),
        PolyTerm::Var(v) => set![v],
        PolyTerm::Function(a, r) => free_vars(*a).union(free_vars(*r)),
        PolyTerm::Generic(_, args) => free_vars_all(args),
    }
}

/// The type variables that occur in a sequence of terms.
pub open spec fn free_vars_all(ts: Seq<PolyTerm>) -> Set<usize>
    decreases ts,
{
    if ts.len() == 0 {
        Set::empty()
    } else {
        free_vars(ts[0]).union(free_vars_all(ts.drop_first()))
    }
}

/// What `{:?}` renders a polymorphic type as: the variant's name with its
/// fields in parentheses; a generic type's name is quoted and its arguments
/// are listed in brackets.
pub open spec fn poly_debug_text(t: PolyTerm) -> Seq<char>
    decreases t,
{
    match t {
        PolyTerm::Concrete(ty) => tuple1_text("Concrete"@, type_debug_text(ty)),
        PolyTerm::Var(v) => tuple1_text("Var"@, var_debug_text(v)),
        PolyTerm::Function(a, r) => tuple2_text("Function"@, poly_debug_text(*a), poly_debug_text(*r)),
        PolyTerm::Generic(n, args) =>
            tuple2_text("Generic"@, string_debug_text(n), "["@ + poly_list_debug_text(args) + "]"@),
    }
}

/// The renderings of `ts`, separated by commas.
pub open spec fn poly_list_debug_text(ts: Seq<PolyTerm>) -> Seq<char>
    decreases ts,
{
    if ts.len() == 0 {
        seq![]
    } else if ts.len() == 1 {
        poly_debug_text(ts[0])
    } else {
        poly_list_debug_text(ts.drop_last()) + ", "@ + poly_debug_text(ts.last())
    }
}

/// The text of `poly_debug_text`.
fn poly_debug_string(t: &PolyType) -> (r: String)
    ensures
        r@ == poly_debug_text(t@),
    decreases t,
{
    match t {
        PolyType::Concrete(ty) => {
            let d = ty.debug_string();
            tuple1_string("Concrete", &d)
        },
        PolyType::Var(v) => {
            let d = var_debug_string(v);
            tuple1_string("Var", &d)
        },
        PolyType::Function(a, r) => {
            let x = poly_debug_string(a);
            let y = poly_debug_string(r);
            tuple2_string("Function", &x, &y)
        },
        PolyType::Generic(n, args) => {
            let name = string_debug_string(n.as_str());
            let mut body = owned("");
            proof { reveal_strlit(""); }
            let mut i: usize = 0;
            while i < args.len()
                invariant
                    i <= args@.len(),
                    *t == PolyType::Generic(*n, *args),
                    body@ == poly_list_debug_text(terms_of(args@.take(i as int))),
                decreases args@.len() - i,
            {
                proof {
                    lemma_terms_of_take_step(args@, i as int);
                    lemma_terms_of_len(args@.take(i as int));
                    lemma_generic_arg_smaller(*t, i as int);
                }
                let d = poly_debug_string(&args[i]);
                let ghost ts = terms_of(args@.take(i + 1));
                if i == 0 {
                    body = d;
                    assert(ts.len() == 1);
                } else {
                    body = body.concat(", ").concat(d.as_str());
                    assert(ts.drop_last() =~= terms_of(args@.take(i as int)));
                }
                i += 1;
            }
            assert(args@.take(args@.len() as int) =~= args@);
            let list = owned("[").concat(body.as_str()).concat("]");
            tuple2_string("Generic", &name, &list)
        },
    }
}

/// What `{:?}` renders a type variable as.
pub open spec fn var_debug_text(v: usize) -> Seq<char> {
    "TypeVarId("@ + decimal(v as nat) + ")"@
}

fn var_debug_string(v: &TypeVarId) -> (r: String)
    ensures
        r@ == var_debug_text(v.0),
{
    let n = usize_to_string(v.0);
    owned("TypeVarId(").concat(n.as_str()).concat(")")
}

/// The outcome of turning a term into a concrete type.
pub open spec fn concrete_outcome(t: PolyTerm) -> Result<Type, Seq<char>>
    decreases t,
{
    match t {
        PolyTerm::Concrete(ty) => Ok(ty),
        PolyTerm::Var(v) => Err("Unresolved type variable: "@ + var_debug_text(v)),
        PolyTerm::Function(_, _) => Err("Function types not supported in concrete types"@),
        PolyTerm::Generic(name, args) =>
            if name == "Vec"@ {
                if args.len() == 1 {
                    match concrete_outcome(args[0]) {
                        Ok(e) => Ok(Type::Vec(Box::new(e))),
                        Err(m) => Err(m),
                    }
                } else {
                    Err("Vec expects 1 type argument, got "@ + decimal(args.len()))
                }
            } else if name == "Option"@ {
                if args.len() == 1 {
                    match concrete_outcome(args[0]) {
                        Ok(e) => Ok(Type::Option(Box::new(e))),
                        Err(m) => Err(m),
                    }
                } else {
                    Err("Option expects 1 type argument, got "@ + decimal(args.len()))
                }
            } else {
                Err("Unknown generic type: "@ + name)
            },
    }
}

proof fn lemma_terms_of_index(s: Seq<PolyType>, i: int)
    requires
        0 <= i < s.len(),
    ensures
        terms_of(s).len() == s.len(),
        terms_of(s)[i] == term_of(s[i]),
    decreases s.len(),
{
    lemma_terms_of_len(s);
    if i > 0 {
        lemma_terms_of_index(s.drop_first(), i - 1);
    }
}

proof fn lemma_terms_of_len(s: Seq<PolyType>)
    ensures
        terms_of(s).len() == s.len(),
    decreases s.len(),
{
    if s.len() > 0 {
        lemma_terms_of_len(s.drop_first());
    }
}

proof fn lemma_terms_of_push(s: Seq<PolyType>, p: PolyType)
    ensures
        terms_of(s.push(p)) == terms_of(s).push(term_of(p)),
    decreases s.len(),
{
    if s.len() == 0 {
        assert(s.push(p).drop_first() =~= Seq::<PolyType>::empty());
        assert(s.push(p)[0] == p);
        assert(terms_of(Seq::<PolyType>::empty()) =~= Seq::<PolyTerm>::empty());
        assert(terms_of(s.push(p)) =~= seq![term_of(p)]);
    } else {
        assert(s.push(p).drop_first() =~= s.drop_first().push(p));
        lemma_terms_of_push(s.drop_first(), p);
        assert(terms_of(s.push(p)) =~= terms_of(s).push(term_of(p)));
    }
}

proof fn lemma_generic_arg_smaller(p: PolyType, i: int)
    requires
        p is Generic,
        0 <= i < p->Generic_1@.len(),
    ensures
        decreases_to!(p => p->Generic_1@[i]),
{
    let args = p->Generic_1;
    assert(decreases_to!(p => args));
    assert(decreases_to!(args => args@));
    assert(decreases_to!(args@ => args@[i]));
}

impl PolyType {
    /// A copy of this type.
    pub fn duplicate(&self) -> (r: PolyType)
        ensures
            r@ == self@,
        decreases self,
    {
        match self {
            PolyType::Concrete(t) => PolyType::Concrete(t.duplicate()),
            PolyType::Var(v) => PolyType::Var(*v),
            PolyType::Function(a, r) => PolyType::Function(Box::new(a.duplicate()), Box::new(r.duplicate())),
            PolyType::Generic(n, args) => {
                let mut out: Vec<PolyType> = Vec::new();
                let mut i: usize = 0;
                while i < args.len()
                    invariant
                        *self == PolyType::Generic(*n, *args),
                        i <= args@.len(),
                        terms_of(out@) == terms_of(args@.take(i as int)),
                    decreases args@.len() - i,
                {
                    proof { lemma_generic_arg_smaller(*self, i as int); }
                    let c = args[i].duplicate();
                    proof {
                        lemma_terms_of_push(out@, c);
                        lemma_terms_of_push(args@.take(i as int), args@[i as int]);
                        assert(args@.take(i as int).push(args@[i as int]) =~= args@.take(i + 1));
                    }
                    out.push(c);
                    i += 1;
                }
                assert(args@.take(args@.len() as int) =~= args@);
                PolyType::Generic(n.clone(), out)
            },
        }
    }

    /// Structural equality of two polymorphic types.
    pub fn equals(&self, other: &PolyType) -> (r: bool)
        ensures
            r == (self@ == other@),
        decreases self,
    {
        match (self, other) {
            (PolyType::Concrete(a), PolyType::Concrete(b)) => a.equals(b),
            (PolyType::Var(a), PolyType::Var(b)) => a.0 == b.0,
            (PolyType::Function(a1, r1), PolyType::Function(a2, r2)) => a1.equals(a2) && r1.equals(r2),
            (PolyType::Generic(n1, args1), PolyType::Generic(n2, args2)) => {
                if !str_eq(n1.as_str(), n2.as_str()) || args1.len() != args2.len() {
                    proof {
                        lemma_terms_of_len(args1@);
                        lemma_terms_of_len(args2@);
                    }
                    return false;
                }
                let mut i: usize = 0;
                while i < args1.len()
                    invariant
                        *self == PolyType::Generic(*n1, *args1),
                        *other == PolyType::Generic(*n2, *args2),
                        i <= args1@.len(),
                        args1@.len() == args2@.len(),
                        forall|j: int| 0 <= j < i ==> term_of(args1@[j]) == term_of(args2@[j]),
                    decreases args1@.len() - i,
                {
                    proof { lemma_generic_arg_smaller(*self, i as int); }
                    if !args1[i].equals(&args2[i]) {
                        proof {
                            lemma_terms_of_index(args1@, i as int);
                            lemma_terms_of_index(args2@, i as int);
                            assert(terms_of(args1@)[i as int] != terms_of(args2@)[i as int]);
                        }
                        return false;
                    }
                    i += 1;
                }
                proof {
                    lemma_terms_of_len(args1@);
                    lemma_terms_of_len(args2@);
                    assert forall|j: int| 0 <= j < args1@.len() implies terms_of(args1@)[j] == terms_of(args2@)[j] by {
                        lemma_terms_of_index(args1@, j);
                        lemma_terms_of_index(args2@, j);
                    }
                    assert(terms_of(args1@) =~= terms_of(args2@));
                }
                true
            },
            _ => false,
        }
    }

    /// Converts to a concrete type; fails while a type variable or a function
    /// type remains, or for an unknown generic type.
    pub fn to_concrete(&self) -> (r: Result<Type, String>)
        ensures
            match (r, concrete_outcome(self@)) {
                (Ok(t), Ok(u)) => t == u,
                (Err(m), Err(n)) => m@ == n,
                _ => false,
            },
        decreases self,
    {
        match self {
            PolyType::Concrete(ty) => Ok(ty.duplicate()),
            PolyType::Var(id) => {
                let d = var_debug_string(id);
                Err(owned("Unresolved type variable: ").concat(d.as_str()))
            },
            PolyType::Function(_, _) => Err(owned("Function types not supported in concrete types")),
            PolyType::Generic(name, args) => {
                proof { lemma_terms_of_len(args@); }
                if str_eq(name.as_str(), "Vec") {
                    if args.len() == 1 {
                        proof { lemma_terms_of_index(args@, 0); }
                        proof { lemma_generic_arg_smaller(*self, 0); }
                        let elem_type = args[0].to_concrete()?;
                        Ok(Type::Vec(Box::new(elem_type)))
                    } else {
                        let n = usize_to_string(args.len());
                        Err(owned("Vec expects 1 type argument, got ").concat(n.as_str()))
                    }
                } else if str_eq(name.as_str(), "Option") {
                    if args.len() == 1 {
                        proof { lemma_terms_of_index(args@, 0); }
                        proof { lemma_generic_arg_smaller(*self, 0); }
                        let inner_type = args[0].to_concrete()?;
                        Ok(Type::Option(Box::new(inner_type)))
                    } else {
                        let n = usize_to_string(args.len());
                        Err(owned("Option expects 1 type argument, got ").concat(n.as_str()))
                    }
                } else {
                    Err(owned("Unknown generic type: ").concat(name.as_str()))
                }
            },
        }
    }
}

impl Clone for PolyType {
    fn clone(&self) -> (r: Self)
        ensures
            r@ == self@,
    {
        self.duplicate()
    }
}

impl PartialEq for PolyType {
    fn eq(&self, other: &PolyType) -> (r: bool) {
        self.equals(other)
    }
}

impl vstd::std_specs::cmp::PartialEqSpecImpl for PolyType {
    open spec fn obeys_eq_spec() -> bool {
        true
    }

    open spec fn eq_spec(&self, other: &PolyType) -> bool {
        self@ == other@
    }
}


/// A substitution held in a hash map, taken by the values of its types.
pub open spec fn subst_view(m: Map<usize, PolyType>) -> Subst {
    m.map_values(|p: PolyType| p@)
}

/// Why a unification failed.
pub enum UnifyFailure {
    /// The variable occurs in the type it would be bound to.
    Infinite(usize, PolyTerm),
    /// Two generic types whose names or numbers of arguments differ.
    GenericMismatch(Seq<char>, Seq<char>),
    /// A vector type against a generic type that is not a one-argument `Vec`.
    VecMismatch(Seq<char>),
    /// Two types of different shapes.
    Mismatch(PolyTerm, PolyTerm),
}

/// The message reported for a failed unification.
pub open spec fn failure_text(f: UnifyFailure) -> Seq<char> {
    match f {
        UnifyFailure::Infinite(v, t) => "Infinite type: "@ + var_debug_text(v) + " occurs in "@ + poly_debug_text(t),
        UnifyFailure::GenericMismatch(a, b) => "Cannot unify "@ + a + " and "@ + b,
        UnifyFailure::VecMismatch(n) => "Cannot unify Vec with "@ + n,
        UnifyFailure::Mismatch(a, b) => "Cannot unify "@ + poly_debug_text(a) + " and "@ + poly_debug_text(b),
    }
}

/// `Numeric` against `I32` or `CharacterHP`, in either order.
pub open spec fn is_numeric_pair(a: PolyTerm, b: PolyTerm) -> bool {
    match (a, b) {
        (PolyTerm::Concrete(Type::Numeric), PolyTerm::Concrete(Type::I32)) => true,
        (PolyTerm::Concrete(Type::I32), PolyTerm::Concrete(Type::Numeric)) => true,
        (PolyTerm::Concrete(Type::Numeric), PolyTerm::Concrete(Type::CharacterHP)) => true,
        (PolyTerm::Concrete(Type::CharacterHP), PolyTerm::Concrete(Type::Numeric)) => true,
        _ => false,
    }
}

/// Two types that unify at once: equal concrete types or a numeric pair.
pub open spec fn unifies_at_once(a: PolyTerm, b: PolyTerm) -> bool {
    (a is Concrete && b is Concrete && a == b) || is_numeric_pair(a, b)
}

/// Binding variable `id` to `other`: nothing to do when `other` is the
/// variable itself, a failure when the variable occurs in `other`.
pub open spec fn bind_var(s: Subst, id: usize, other: PolyTerm) -> (Subst, Result<(), UnifyFailure>) {
    if other == PolyTerm::Var(id) {
        (s, Ok(()))
    } else if free_vars(other).contains(id) {
        (s, Err(UnifyFailure::Infinite(id, other)))
    } else {
        (s.insert(id, other), Ok(()))
    }
}

/// Unification of `t1` and `t2` under substitution `s`, with at most `fuel`
/// nested steps: `None` when the fuel runs out, else the new substitution and
/// the outcome.
pub open spec fn unify_step(s: Subst, t1: PolyTerm, t2: PolyTerm, fuel: nat) -> Option<(Subst, Result<(), UnifyFailure>)>
    decreases fuel, 0nat,
{
    if fuel == 0 {
        None
    } else {
        let a = apply(s, t1);
        let b = apply(s, t2);
        let f = (fuel - 1) as nat;
        if unifies_at_once(a, b) {
            Some((s, Ok(())))
        } else if a is Var {
            Some(bind_var(s, a->Var_0, b))
        } else if b is Var {
            Some(bind_var(s, b->Var_0, a))
        } else {
            match (a, b) {
                (PolyTerm::Function(a1, r1), PolyTerm::Function(a2, r2)) => match unify_step(s, *a1, *a2, f) {
                    Some((s1, Ok(()))) => unify_step(s1, *r1, *r2, f),
                    other => other,
                },
                (PolyTerm::Generic(n1, xs), PolyTerm::Generic(n2, ys)) =>
                    if n1 != n2 || xs.len() != ys.len() {
                        Some((s, Err(UnifyFailure::GenericMismatch(n1, n2))))
                    } else {
                        unify_all(s, xs, ys, f)
                    },
                (PolyTerm::Concrete(Type::Vec(e)), PolyTerm::Generic(n, xs)) =>
                    if n == "Vec"@ && xs.len() == 1 {
                        unify_step(s, xs[0], PolyTerm::Concrete(*e), f)
                    } else {
                        Some((s, Err(UnifyFailure::VecMismatch(n))))
                    },
                (PolyTerm::Generic(n, xs), PolyTerm::Concrete(Type::Vec(e))) =>
                    if n == "Vec"@ && xs.len() == 1 {
                        unify_step(s, xs[0], PolyTerm::Concrete(*e), f)
                    } else {
                        Some((s, Err(UnifyFailure::VecMismatch(n))))
                    },
                (PolyTerm::Concrete(Type::Vec(e1)), PolyTerm::Concrete(Type::Vec(e2))) =>
                    unify_step(s, PolyTerm::Concrete(*e1), PolyTerm::Concrete(*e2), f),
                _ => Some((s, Err(UnifyFailure::Mismatch(a, b)))),
            }
        }
    }
}

/// Pairwise unification of two sequences of terms, stopping at the first
/// failure.
pub open spec fn unify_all(s: Subst, xs: Seq<PolyTerm>, ys: Seq<PolyTerm>, fuel: nat) -> Option<(Subst, Result<(), UnifyFailure>)>
    decreases fuel, xs.len() + 1,
{
    if xs.len() == 0 || ys.len() == 0 {
        Some((s, Ok(())))
    } else {
        match unify_step(s, xs[0], ys[0], fuel) {
            Some((s1, Ok(()))) => unify_all(s1, xs.drop_first(), ys.drop_first(), fuel),
            other => other,
        }
    }
}

/// Unification of `t1` and `t2` under `s` comes to an end. (It need not:
/// the substitution is applied one step at a time, so bindings can form a
/// cycle that unification then follows forever.)
pub open spec fn unify_terminates(s: Subst, t1: PolyTerm, t2: PolyTerm) -> bool {
    exists|f: nat| #[trigger] unify_step(s, t1, t2, f) is Some
}

/// The substitution and outcome that unification of `t1` and `t2` under `s`
/// ends with (meaningful when it terminates).
pub open spec fn unify_outcome(s: Subst, t1: PolyTerm, t2: PolyTerm) -> (Subst, Result<(), UnifyFailure>) {
    unify_step(s, t1, t2, choose|f: nat| #[trigger] unify_step(s, t1, t2, f) is Some).unwrap()
}

/// Solving constraints in order under `s`, stopping at the first failure;
/// `None` when some unification on the way does not terminate.
pub open spec fn solve_from(s: Subst, cs: Seq<(PolyTerm, PolyTerm)>) -> Option<(Subst, Result<(), UnifyFailure>)>
    decreases cs.len(),
{
    if cs.len() == 0 {
        Some((s, Ok(())))
    } else if !unify_terminates(s, cs[0].0, cs[0].1) {
        None
    } else {
        let (s1, r) = unify_outcome(s, cs[0].0, cs[0].1);
        match r {
            Ok(()) => solve_from(s1, cs.drop_first()),
            Err(e) => Some((s1, Err(e))),
        }
    }
}

/// Whether two concrete types unify: equal, a numeric pair, or vectors whose
/// elements unify.
pub open spec fn concrete_unify(a: Type, b: Type) -> Result<(), UnifyFailure>
    decreases a,
{
    if unifies_at_once(PolyTerm::Concrete(a), PolyTerm::Concrete(b)) {
        Ok(())
    } else {
        match (a, b) {
            (Type::Vec(x), Type::Vec(y)) => concrete_unify(*x, *y),
            _ => Err(UnifyFailure::Mismatch(PolyTerm::Concrete(a), PolyTerm::Concrete(b))),
        }
    }
}

/// The nesting depth of a type.
pub open spec fn type_depth(t: Type) -> nat
    decreases t,
{
    match t {
        Type::Vec(e) => 1 + type_depth(*e),
        Type::Option(e) => 1 + type_depth(*e),
        _ => 0,
    }
}

proof fn lemma_concrete_step(s: Subst, a: Type, b: Type, f: nat)
    ensures
        f > type_depth(a) ==> unify_step(s, PolyTerm::Concrete(a), PolyTerm::Concrete(b), f) is Some,
        unify_step(s, PolyTerm::Concrete(a), PolyTerm::Concrete(b), f) is Some
            ==> unify_step(s, PolyTerm::Concrete(a), PolyTerm::Concrete(b), f) == Some((s, concrete_unify(a, b))),
    decreases a,
{
    if f > 0 {
        match (a, b) {
            (Type::Vec(x), Type::Vec(y)) => {
                lemma_concrete_step(s, *x, *y, (f - 1) as nat);
            },
            _ => {},
        }
    }
}

/// Unifying two concrete types always comes to an end, leaves the
/// substitution as it was, and succeeds exactly when the types unify as
/// concrete types.
pub proof fn lemma_unify_concrete(s: Subst, a: Type, b: Type)
    ensures
        unify_terminates(s, PolyTerm::Concrete(a), PolyTerm::Concrete(b)),
        unify_outcome(s, PolyTerm::Concrete(a), PolyTerm::Concrete(b)) == (s, concrete_unify(a, b)),
{
    lemma_concrete_step(s, a, b, type_depth(a) + 1);
    let f = choose|f: nat| #[trigger] unify_step(s, PolyTerm::Concrete(a), PolyTerm::Concrete(b), f) is Some;
    lemma_concrete_step(s, a, b, f);
}

proof fn lemma_unify_self_step(s: Subst, t: PolyTerm, f: nat)
    ensures
        unify_step(s, t, t, f) is Some ==> unify_step(s, t, t, f) == Some((s, Ok::<(), UnifyFailure>(()))),
    decreases f, 0nat,
{
    if f > 0 {
        let a = apply(s, t);
        let g = (f - 1) as nat;
        if !unifies_at_once(a, a) && !(a is Var) {
            match a {
                PolyTerm::Function(a1, r1) => {
                    lemma_unify_self_step(s, *a1, g);
                    lemma_unify_self_step(s, *r1, g);
                },
                PolyTerm::Generic(n, xs) => {
                    lemma_unify_self_all(s, xs, g);
                },
                PolyTerm::Concrete(Type::Vec(e)) => {
                    lemma_unify_self_step(s, PolyTerm::Concrete(*e), g);
                },
                _ => {},
            }
        }
    }
}

proof fn lemma_unify_self_all(s: Subst, xs: Seq<PolyTerm>, f: nat)
    ensures
        unify_all(s, xs, xs, f) is Some ==> unify_all(s, xs, xs, f) == Some((s, Ok::<(), UnifyFailure>(()))),
    decreases f, xs.len() + 1,
{
    if xs.len() > 0 {
        lemma_unify_self_step(s, xs[0], f);
        lemma_unify_self_all(s, xs.drop_first(), f);
    }
}

/// Unifying a type with itself, when it comes to an end, succeeds and leaves
/// the substitution as it was.
pub proof fn lemma_unify_self(s: Subst, t: PolyTerm)
    requires
        unify_terminates(s, t, t),
    ensures
        unify_outcome(s, t, t) == (s, Ok::<(), UnifyFailure>(())),
{
    let f = choose|f: nat| #[trigger] unify_step(s, t, t, f) is Some;
    lemma_unify_self_step(s, t, f);
}


proof fn lemma_apply_all_push(s: Subst, ts: Seq<PolyTerm>, t: PolyTerm)
    ensures
        apply_all(s, ts.push(t)) == apply_all(s, ts).push(apply(s, t)),
    decreases ts.len(),
{
    if ts.len() == 0 {
        assert(ts.push(t).drop_first() =~= Seq::<PolyTerm>::empty());
        assert(ts.push(t)[0] == t);
        assert(apply_all(s, Seq::<PolyTerm>::empty()) =~= Seq::<PolyTerm>::empty());
        assert(apply_all(s, ts.push(t)) =~= seq![apply(s, t)]);
    } else {
        assert(ts.push(t).drop_first() =~= ts.drop_first().push(t));
        lemma_apply_all_push(s, ts.drop_first(), t);
        assert(apply_all(s, ts.push(t)) =~= apply_all(s, ts).push(apply(s, t)));
    }
}

proof fn lemma_free_vars_all_push(ts: Seq<PolyTerm>, t: PolyTerm)
    ensures
        free_vars_all(ts.push(t)) == free_vars_all(ts).union(free_vars(t)),
    decreases ts.len(),
{
    if ts.len() == 0 {
        assert(ts.push(t).drop_first() =~= Seq::<PolyTerm>::empty());
        assert(ts.push(t)[0] == t);
        assert(free_vars_all(Seq::<PolyTerm>::empty()) =~= Set::<usize>::empty());
        assert(free_vars_all(ts) =~= Set::<usize>::empty());
        assert(free_vars_all(ts.push(t)) =~= free_vars_all(ts).union(free_vars(t)));
    } else {
        assert(ts.push(t).drop_first() =~= ts.drop_first().push(t));
        lemma_free_vars_all_push(ts.drop_first(), t);
        assert(free_vars_all(ts.push(t)) =~= free_vars_all(ts).union(free_vars(t)));
    }
}

proof fn lemma_terms_of_take_step(s: Seq<PolyType>, i: int)
    requires
        0 <= i < s.len(),
    ensures
        terms_of(s.take(i + 1)) == terms_of(s.take(i)).push(term_of(s[i])),
{
    assert(s.take(i).push(s[i]) =~= s.take(i + 1));
    lemma_terms_of_push(s.take(i), s[i]);
}

proof fn lemma_subst_view_insert(m: Map<usize, PolyType>, k: usize, p: PolyType)
    ensures
        subst_view(m.insert(k, p)) == subst_view(m).insert(k, p@),
{
    assert(subst_view(m.insert(k, p)) =~= subst_view(m).insert(k, p@));
}

impl PolyType {
    /// This type with each variable bound in `subst` replaced, once, by its
    /// binding.
    fn apply_substitution(&self, subst: &HashMap<usize, PolyType>) -> (r: PolyType)
        ensures
            r@ == apply(subst_view(subst@), self@),
        decreases self,
    {
        match self {
            PolyType::Concrete(t) => PolyType::Concrete(t.duplicate()),
            PolyType::Var(id) => match subst.get(&id.0) {
                Some(p) => p.duplicate(),
                None => PolyType::Var(*id),
            },
            PolyType::Function(a, r) => PolyType::Function(
                Box::new(a.apply_substitution(subst)),
                Box::new(r.apply_substitution(subst)),
            ),
            PolyType::Generic(n, args) => {
                let ghost sv = subst_view(subst@);
                let mut out: Vec<PolyType> = Vec::new();
                let mut i: usize = 0;
                while i < args.len()
                    invariant
                        *self == PolyType::Generic(*n, *args),
                        sv == subst_view(subst@),
                        i <= args@.len(),
                        terms_of(out@) == apply_all(sv, terms_of(args@.take(i as int))),
                    decreases args@.len() - i,
                {
                    proof { lemma_generic_arg_smaller(*self, i as int); }
                    let c = args[i].apply_substitution(subst);
                    proof {
                        lemma_terms_of_push(out@, c);
                        lemma_terms_of_take_step(args@, i as int);
                        lemma_apply_all_push(sv, terms_of(args@.take(i as int)), term_of(args@[i as int]));
                    }
                    out.push(c);
                    i += 1;
                }
                assert(args@.take(args@.len() as int) =~= args@);
                PolyType::Generic(n.clone(), out)
            },
        }
    }

    /// Adds to `acc` each type variable of this type that it does not hold yet.
    fn collect_free_vars(&self, acc: &mut Vec<usize>)
        ensures
            final(acc)@.to_set() == old(acc)@.to_set().union(free_vars(self@)),
            old(acc)@.no_duplicates() ==> final(acc)@.no_duplicates(),
        decreases self,
    {
        match self {
            PolyType::Concrete(_) => {
                assert(acc@.to_set() =~= old(acc)@.to_set().union(free_vars(self@)));
            },
            PolyType::Var(id) => {
                if !vec_has(acc, id.0) {
                    proof { vstd::seq_lib::seq_to_set_distributes_over_add(acc@, seq![id.0]); }
                    acc.push(id.0);
                    assert(acc@.to_set() =~= old(acc)@.to_set().union(free_vars(self@))) by {
                        assert(acc@ =~= old(acc)@ + seq![id.0]);
                        assert(seq![id.0][0] == id.0);
                        assert(seq![id.0].to_set() =~= set![id.0]) by {
                            assert forall|x: usize| seq![id.0].to_set().contains(x) implies x == id.0 by {
                                let k = choose|k: int| 0 <= k < seq![id.0].len() && seq![id.0][k] == x;
                            }
                            assert(seq![id.0].contains(id.0));
                        }
                    }
                    proof {
                        assert forall|i: int, j: int| 0 <= i < acc@.len() && 0 <= j < acc@.len() && i != j
                            && old(acc)@.no_duplicates() implies acc@[i] != acc@[j] by {
                            if i == acc@.len() - 1 {
                                assert(!old(acc)@.contains(id.0));
                            } else if j == acc@.len() - 1 {
                                assert(!old(acc)@.contains(id.0));
                            }
                        }
                    }
                } else {
                    assert(acc@.to_set() =~= old(acc)@.to_set().union(free_vars(self@)));
                }
            },
            PolyType::Function(a, r) => {
                a.collect_free_vars(acc);
                r.collect_free_vars(acc);
                assert(acc@.to_set() =~= old(acc)@.to_set().union(free_vars(self@)));
            },
            PolyType::Generic(_n, args) => {
                let mut i: usize = 0;
                assert(free_vars_all(terms_of(args@.take(0))) =~= Set::<usize>::empty()) by {
                    assert(args@.take(0) =~= Seq::<PolyType>::empty());
                }
                while i < args.len()
                    invariant
                        *self == PolyType::Generic(*_n, *args),
                        i <= args@.len(),
                        acc@.to_set() == old(acc)@.to_set().union(free_vars_all(terms_of(args@.take(i as int)))),
                        old(acc)@.no_duplicates() ==> acc@.no_duplicates(),
                    decreases args@.len() - i,
                {
                    proof { lemma_generic_arg_smaller(*self, i as int); }
                    args[i].collect_free_vars(acc);
                    proof {
                        lemma_terms_of_take_step(args@, i as int);
                        lemma_free_vars_all_push(terms_of(args@.take(i as int)), term_of(args@[i as int]));
                    }
                    assert(acc@.to_set() =~= old(acc)@.to_set().union(free_vars_all(terms_of(args@.take(i + 1)))));
                    i += 1;
                }
                assert(args@.take(args@.len() as int) =~= args@);
            },
        }
    }

    /// Whether type variable `v` occurs in this type.
    fn occurs(&self, v: usize) -> (r: bool)
        ensures
            r == free_vars(self@).contains(v),
    {
        let mut acc: Vec<usize> = Vec::new();
        self.collect_free_vars(&mut acc);
        proof {
            assert(Seq::<usize>::empty().to_set() =~= Set::<usize>::empty());
        }
        vec_has(&acc, v)
    }
}

/// Whether `v` holds `x`.
fn vec_has(v: &Vec<usize>, x: usize) -> (r: bool)
    ensures
        r == v@.contains(x),
        r == v@.to_set().contains(x),
{
    let mut i: usize = 0;
    while i < v.len()
        invariant
            i <= v@.len(),
            forall|j: int| 0 <= j < i ==> v@[j] != x,
        decreases v@.len() - i,
    {
        if v[i] == x {
            return true;
        }
        i += 1;
    }
    false
}


/// A `Result` reports an outcome: `Ok` for success, and for a failure an
/// `Err` holding the failure's message.
pub open spec fn reports(r: Result<(), String>, o: Result<(), UnifyFailure>) -> bool {
    match (r, o) {
        (Ok(()), Ok(())) => true,
        (Err(m), Err(f)) => m@ == failure_text(f),
        _ => false,
    }
}

/// The bindings that instantiation makes: the `k`-th quantified variable to a
/// fresh variable numbered `base + k`.
pub open spec fn instance_subst(q: Seq<usize>, base: usize) -> Subst
    decreases q.len(),
{
    if q.len() == 0 {
        Map::empty()
    } else {
        instance_subst(q.drop_last(), base).insert(q.last(), PolyTerm::Var((base + q.len() - 1) as usize))
    }
}

/// Instantiation renames one to one: with no variable quantified twice, the
/// `k`-th quantified variable goes to the fresh variable `base + k`, and no
/// other variable is touched.
pub proof fn lemma_instance_subst_renames(q: Seq<usize>, base: usize)
    requires
        q.no_duplicates(),
        base + q.len() <= usize::MAX,
    ensures
        instance_subst(q, base).dom() == q.to_set(),
        forall|k: int| 0 <= k < q.len() ==> #[trigger] instance_subst(q, base)[q[k]] == PolyTerm::Var((base + k) as usize),
    decreases q.len(),
{
    if q.len() > 0 {
        let p = q.drop_last();
        assert(p.no_duplicates()) by {
            assert forall|i: int, j: int| 0 <= i < p.len() && 0 <= j < p.len() && i != j implies p[i] != p[j] by {
                assert(p[i] == q[i] && p[j] == q[j]);
            }
        }
        lemma_instance_subst_renames(p, base);
        assert(q.to_set() =~= p.to_set().insert(q.last())) by {
            assert forall|x: usize| q.to_set().contains(x) implies p.to_set().insert(q.last()).contains(x) by {
                let k = choose|k: int| 0 <= k < q.len() && q[k] == x;
                if k < p.len() {
                    assert(p[k] == x);
                }
            }
            assert forall|x: usize| p.to_set().insert(q.last()).contains(x) implies q.to_set().contains(x) by {
                if x != q.last() {
                    let k = choose|k: int| 0 <= k < p.len() && p[k] == x;
                    assert(q[k] == x);
                } else {
                    assert(q[q.len() - 1] == x);
                }
            }
        }
        assert forall|k: int| 0 <= k < q.len() implies #[trigger] instance_subst(q, base)[q[k]] == PolyTerm::Var((base + k) as usize) by {
            if k < p.len() {
                assert(q[k] == p[k]);
                assert(q[k] != q.last());
            }
        }
    }
}

/// A fresh variable is new: when every variable handed out so far lies below
/// the engine's next number, the next one is none of them, and all of them
/// still lie below the number that follows.
pub proof fn lemma_fresh_var_is_new(engine: HindleyMilner, handed_out: Seq<TypeVarId>)
    requires
        forall|i: int| 0 <= i < handed_out.len() ==> (#[trigger] handed_out[i]).0 < engine.next_var(),
    ensures
        !handed_out.contains(TypeVarId(engine.next_var())),
        forall|i: int| 0 <= i < handed_out.len() ==> (#[trigger] handed_out[i]).0 < engine.next_var() + 1,
{
}

/// A type scheme: a polymorphic type with some of its variables quantified.
#[derive(Debug)]
pub struct TypeScheme {
    quantified_vars: Vec<TypeVarId>,
    ty: PolyType,
}

/// The variables of a scheme's type that it does not quantify.
pub open spec fn scheme_free_vars(sc: TypeScheme) -> Set<usize> {
    free_vars(sc.body()).difference(sc.quantified())
}

impl TypeScheme {
    /// The quantified variables, in order.
    pub closed spec fn quantified_seq(self) -> Seq<usize> {
        self.quantified_vars@.map_values(|v: TypeVarId| v.0)
    }

    /// The set of quantified variables.
    pub open spec fn quantified(self) -> Set<usize> {
        self.quantified_seq().to_set()
    }

    /// The scheme's type.
    pub closed spec fn body(self) -> PolyTerm {
        self.ty@
    }

    /// No variable is quantified twice.
    pub open spec fn wf(self) -> bool {
        self.quantified_seq().no_duplicates()
    }

    /// A scheme that quantifies nothing.
    pub fn monomorphic(ty: PolyType) -> (r: Self)
        ensures
            r.wf(),
            r.quantified_seq() == Seq::<usize>::empty(),
            r.body() == ty@,
    {
        let r = TypeScheme { quantified_vars: Vec::new(), ty };
        assert(r.quantified_seq() =~= Seq::<usize>::empty());
        r
    }

    /// A scheme that quantifies the given variables (each once).
    pub fn polymorphic(vars: Vec<TypeVarId>, ty: PolyType) -> (r: Self)
        ensures
            r.wf(),
            r.quantified() == vars@.map_values(|v: TypeVarId| v.0).to_set(),
            r.body() == ty@,
    {
        let ghost ids = vars@.map_values(|v: TypeVarId| v.0);
        let mut q: Vec<TypeVarId> = Vec::new();
        let mut i: usize = 0;
        while i < vars.len()
            invariant
                i <= vars@.len(),
                ids == vars@.map_values(|v: TypeVarId| v.0),
                q@.map_values(|v: TypeVarId| v.0).no_duplicates(),
                q@.map_values(|v: TypeVarId| v.0).to_set() == ids.take(i as int).to_set(),
            decreases vars@.len() - i,
        {
            let v = vars[i];
            let ghost before = q@.map_values(|w: TypeVarId| w.0);
            let mut found = false;
            let mut j: usize = 0;
            while j < q.len()
                invariant
                    j <= q@.len(),
                    before == q@.map_values(|w: TypeVarId| w.0),
                    found == (exists|k: int| 0 <= k < j && before[k] == v.0),
                decreases q@.len() - j,
            {
                assert(before[j as int] == q@[j as int].0);
                if q[j].0 == v.0 {
                    found = true;
                }
                j += 1;
            }
            if !found {
                q.push(v);
                proof {
                    assert(q@.map_values(|w: TypeVarId| w.0) =~= before.push(v.0));
                    assert(!before.contains(v.0));
                }
            }
            proof {
                let now = q@.map_values(|w: TypeVarId| w.0);
                let nxt = ids.take(i + 1);
                let prv = ids.take(i as int);
                assert(nxt =~= prv.push(v.0));
                assert forall|x: usize| now.to_set().contains(x) <==> nxt.to_set().contains(x) by {
                    if now.to_set().contains(x) {
                        let k = choose|k: int| 0 <= k < now.len() && now[k] == x;
                        if k < before.len() {
                            assert(before.contains(x));
                            assert(before.to_set().contains(x));
                            assert(prv.contains(x));
                            let m = choose|m: int| 0 <= m < prv.len() && prv[m] == x;
                            assert(nxt[m] == x);
                        } else {
                            assert(nxt[i as int] == x);
                        }
                    }
                    if nxt.to_set().contains(x) {
                        let m = choose|m: int| 0 <= m < nxt.len() && nxt[m] == x;
                        if m < i {
                            assert(prv[m] == x);
                            assert(prv.to_set().contains(x));
                            assert(before.to_set().contains(x));
                            let k = choose|k: int| 0 <= k < before.len() && before[k] == x;
                            assert(now[k] == x);
                        } else if found {
                            let k = choose|k: int| 0 <= k < before.len() && before[k] == v.0;
                            assert(now[k] == x);
                        } else {
                            assert(now[now.len() - 1] == x);
                        }
                    }
                }
                assert(now.to_set() =~= nxt.to_set());
            }
            i += 1;
        }
        assert(ids.take(vars@.len() as int) =~= ids);
        TypeScheme { quantified_vars: q, ty }
    }

    /// The quantified variables, in order.
    pub fn quantified_vars(&self) -> (r: &Vec<TypeVarId>)
        ensures
            r@.map_values(|v: TypeVarId| v.0) == self.quantified_seq(),
    {
        &self.quantified_vars
    }

    /// The scheme's type.
    pub fn body_type(&self) -> (r: &PolyType)
        ensures
            r@ == self.body(),
    {
        &self.ty
    }

    /// Whether the scheme quantifies variable `v`.
    fn quantifies(&self, v: usize) -> (r: bool)
        ensures
            r == self.quantified().contains(v),
    {
        let mut i: usize = 0;
        while i < self.quantified_vars.len()
            invariant
                i <= self.quantified_vars@.len(),
                forall|j: int| 0 <= j < i ==> self.quantified_seq()[j] != v,
            decreases self.quantified_vars@.len() - i,
        {
            if self.quantified_vars[i].0 == v {
                assert(self.quantified_seq()[i as int] == v);
                return true;
            }
            i += 1;
        }
        false
    }

    /// A copy of this scheme.
    pub fn duplicate(&self) -> (r: Self)
        ensures
            r.quantified_seq() == self.quantified_seq(),
            r.body() == self.body(),
    {
        TypeScheme { quantified_vars: self.quantified_vars.clone(), ty: self.ty.duplicate() }
    }

    /// The scheme's type with each quantified variable replaced by a fresh
    /// variable of `engine`, in order.
    pub fn instantiate(&self, engine: &mut HindleyMilner) -> (r: PolyType)
        requires
            old(engine).next_var() + self.quantified_seq().len() <= usize::MAX,
        ensures
            r@ == apply(instance_subst(self.quantified_seq(), old(engine).next_var()), self.body()),
            final(engine).next_var() == old(engine).next_var() + self.quantified_seq().len(),
            final(engine).subst() == old(engine).subst(),
            final(engine).pending() == old(engine).pending(),
    {
        let ghost q = self.quantified_seq();
        let ghost base = engine.next_var();
        let mut subst: HashMap<usize, PolyType> = HashMap::new();
        let mut i: usize = 0;
        assert(q.take(0) =~= Seq::<usize>::empty());
        while i < self.quantified_vars.len()
            invariant
                q == self.quantified_seq(),
                q.len() == self.quantified_vars@.len(),
                base + q.len() <= usize::MAX,
                i <= q.len(),
                engine.next_var() == base + i,
                engine.subst() == old(engine).subst(),
                engine.pending() == old(engine).pending(),
                subst_view(subst@) == instance_subst(q.take(i as int), base),
            decreases q.len() - i,
        {
            let var = self.quantified_vars[i];
            let fresh = engine.fresh_type_var();
            let ghost before = subst@;
            subst.insert(var.0, PolyType::Var(fresh));
            proof {
                lemma_subst_view_insert(before, var.0, PolyType::Var(fresh));
                assert(q.take(i + 1).drop_last() =~= q.take(i as int));
                assert(q.take(i + 1).last() == var.0);
            }
            i += 1;
        }
        assert(q.take(q.len() as int) =~= q);
        self.ty.apply_substitution(&subst)
    }
}

impl Clone for TypeScheme {
    fn clone(&self) -> (r: Self)
        ensures
            r.quantified_seq() == self.quantified_seq(),
            r.body() == self.body(),
    {
        self.duplicate()
    }
}

/// A typing environment: names bound to type schemes.
#[derive(Debug)]
pub struct TypeEnv {
    bindings: NameMap<TypeScheme>,
}

impl TypeEnv {
    /// The bindings.
    pub closed spec fn view(self) -> Map<Seq<char>, TypeScheme> {
        self.bindings.view()
    }

    /// The environment's internal invariant.
    pub closed spec fn wf(self) -> bool {
        self.bindings.wf()
    }

    /// The variables free in some binding's scheme.
    pub open spec fn free_vars(self) -> Set<usize> {
        Set::new(|v: usize| exists|k: Seq<char>| #[trigger] self.view().contains_key(k) && scheme_free_vars(self.view()[k]).contains(v))
    }

    pub fn new() -> (r: Self)
        ensures
            r.wf(),
            r.view() == Map::<Seq<char>, TypeScheme>::empty(),
    {
        TypeEnv { bindings: NameMap::new() }
    }

    /// Binds `name` to `scheme`, replacing an earlier binding of it.
    pub fn bind(&mut self, name: String, scheme: TypeScheme)
        requires
            old(self).wf(),
        ensures
            final(self).wf(),
            final(self).view() == old(self).view().insert(name@, scheme),
    {
        self.bindings.insert(name, scheme);
    }

    /// The scheme bound to `name`, if any.
    pub fn lookup(&self, name: &str) -> (r: Option<&TypeScheme>)
        requires
            self.wf(),
        ensures
            match r {
                Some(sc) => self.view().contains_key(name@) && *sc == self.view()[name@],
                None => !self.view().contains_key(name@),
            },
    {
        self.bindings.get(name)
    }

    /// Whether `v` is free in some binding's scheme.
    fn has_free(&self, v: usize) -> (r: bool)
        requires
            self.wf(),
        ensures
            r == self.free_vars().contains(v),
    {
        proof { lemma_entries_are_view(self.bindings); }
        let mut i: usize = 0;
        while i < self.bindings.len()
            invariant
                self.wf(),
                i <= self.bindings.size(),
                forall|j: int| 0 <= j < i ==> !scheme_free_vars(#[trigger] self.bindings.entry_seq()[j].1).contains(v),
            decreases self.bindings.size() - i,
        {
            let (_name, sc) = self.bindings.entry(i);
            if sc.ty.occurs(v) && !sc.quantifies(v) {
                proof {
                    let k = self.bindings.entry_seq()[i as int].0;
                    assert(self.view().contains_key(k) && scheme_free_vars(self.view()[k]).contains(v));
                }
                return true;
            }
            i += 1;
        }
        proof {
            assert forall|k: Seq<char>| #[trigger] self.view().contains_key(k) implies !scheme_free_vars(self.view()[k]).contains(v) by {
                let j = choose|j: int| 0 <= j < self.bindings.size() && self.bindings.entry_seq()[j].0 == k
                    && self.bindings.view()[k] == self.bindings.entry_seq()[j].1;
                assert(!scheme_free_vars(self.bindings.entry_seq()[j].1).contains(v));
            }
        }
        false
    }
}

/// A Hindley–Milner inference engine: a counter for fresh type variables, the
/// substitution found so far, and constraints waiting to be solved.
pub struct HindleyMilner {
    next_var_id: usize,
    substitution: HashMap<usize, PolyType>,
    constraints: Vec<(PolyType, PolyType)>,
}

impl HindleyMilner {
    /// The number of the next fresh variable.
    pub closed spec fn next_var(self) -> usize {
        self.next_var_id
    }

    /// The substitution found so far.
    pub closed spec fn subst(self) -> Subst {
        subst_view(self.substitution@)
    }

    /// The constraints waiting to be solved, in order.
    pub closed spec fn pending(self) -> Seq<(PolyTerm, PolyTerm)> {
        self.constraints@.map_values(|c: (PolyType, PolyType)| (c.0@, c.1@))
    }

    pub fn new() -> (r: Self)
        ensures
            r.next_var() == 0,
            r.subst() == Map::<usize, PolyTerm>::empty(),
            r.pending() == Seq::<(PolyTerm, PolyTerm)>::empty(),
    {
        let r = HindleyMilner { next_var_id: 0, substitution: HashMap::new(), constraints: Vec::new() };
        assert(r.subst() =~= Map::<usize, PolyTerm>::empty());
        assert(r.pending() =~= Seq::<(PolyTerm, PolyTerm)>::empty());
        r
    }

    /// A variable that no earlier call has returned.
    pub fn fresh_type_var(&mut self) -> (r: TypeVarId)
        requires
            old(self).next_var() < usize::MAX,
        ensures
            r.0 == old(self).next_var(),
            final(self).next_var() == old(self).next_var() + 1,
            final(self).subst() == old(self).subst(),
            final(self).pending() == old(self).pending(),
    {
        let id = TypeVarId(self.next_var_id);
        self.next_var_id = self.next_var_id + 1;
        id
    }

    /// The scheme that quantifies the variables of `ty` that are not free in
    /// `env`.
    pub fn generalize(&self, env: &TypeEnv, ty: &PolyType) -> (r: TypeScheme)
        requires
            env.wf(),
        ensures
            r.wf(),
            r.quantified() == free_vars(ty@).difference(env.free_vars()),
            r.body() == ty@,
    {
        let mut fv: Vec<usize> = Vec::new();
        ty.collect_free_vars(&mut fv);
        assert(Seq::<usize>::empty().to_set() =~= Set::<usize>::empty());
        let ghost envfree = env.free_vars();
        let mut q: Vec<TypeVarId> = Vec::new();
        let mut i: usize = 0;
        while i < fv.len()
            invariant
                i <= fv@.len(),
                fv@.no_duplicates(),
                fv@.to_set() == free_vars(ty@),
                envfree == env.free_vars(),
                env.wf(),
                q@.map_values(|v: TypeVarId| v.0).no_duplicates(),
                forall|k: int| #![trigger q@[k]] 0 <= k < q@.len() ==> exists|m: int| 0 <= m < i && #[trigger] fv@[m] == q@[k].0,
                q@.map_values(|v: TypeVarId| v.0).to_set() == fv@.take(i as int).to_set().difference(envfree),
            decreases fv@.len() - i,
        {
            let v = fv[i];
            let ghost before = q@.map_values(|w: TypeVarId| w.0);
            if !env.has_free(v) {
                q.push(TypeVarId(v));
                proof {
                    assert(q@.map_values(|w: TypeVarId| w.0) =~= before.push(v));
                    assert(!before.contains(v)) by {
                        if before.contains(v) {
                            let k = choose|k: int| 0 <= k < before.len() && before[k] == v;
                            let m = choose|m: int| 0 <= m < i && #[trigger] fv@[m] == q@[k].0;
                        }
                    }
                }
            }
            proof {
                let now = q@.map_values(|w: TypeVarId| w.0);
                let nxt = fv@.take(i + 1);
                let prv = fv@.take(i as int);
                assert(nxt =~= prv.push(v));
                assert forall|x: usize| now.to_set().contains(x) <==> nxt.to_set().difference(envfree).contains(x) by {
                    if now.to_set().contains(x) {
                        let k = choose|k: int| 0 <= k < now.len() && now[k] == x;
                        if k < before.len() {
                            assert(before.to_set().contains(x));
                            let m = choose|m: int| 0 <= m < prv.len() && prv[m] == x;
                            assert(nxt[m] == x);
                        } else {
                            assert(nxt[i as int] == x);
                        }
                    }
                    if nxt.to_set().difference(envfree).contains(x) {
                        let m = choose|m: int| 0 <= m < nxt.len() && nxt[m] == x;
                        if m < i {
                            assert(prv[m] == x);
                            assert(prv.to_set().contains(x));
                            assert(before.to_set().contains(x));
                            let k = choose|k: int| 0 <= k < before.len() && before[k] == x;
                            assert(now[k] == x);
                        } else {
                            assert(now[now.len() - 1] == x);
                        }
                    }
                }
                assert(now.to_set() =~= nxt.to_set().difference(envfree));
                assert forall|k: int| #![trigger q@[k]] 0 <= k < q@.len() implies exists|m: int| 0 <= m < i + 1 && #[trigger] fv@[m] == q@[k].0 by {
                    if k < before.len() {
                        let m = choose|m: int| 0 <= m < i && #[trigger] fv@[m] == q@[k].0;
                    } else {
                        assert(fv@[i as int] == q@[k].0);
                    }
                }
            }
            i += 1;
        }
        assert(fv@.take(fv@.len() as int) =~= fv@);
        if q.len() == 0 {
            let r = TypeScheme::monomorphic(ty.duplicate());
            assert(r.quantified() =~= free_vars(ty@).difference(env.free_vars()));
            r
        } else {
            TypeScheme { quantified_vars: q, ty: ty.duplicate() }
        }
    }

    /// `ty` with the substitution found so far applied once.
    pub fn apply_current_substitution(&self, ty: &PolyType) -> (r: PolyType)
        ensures
            r@ == apply(self.subst(), ty@),
    {
        ty.apply_substitution(&self.substitution)
    }

    /// Binds variable `id` to `other` unless that is the variable itself;
    /// fails when the variable occurs in `other`.
    fn bind_variable(&mut self, id: usize, other: &PolyType) -> (r: Result<(), String>)
        ensures
            final(self).subst() == bind_var(old(self).subst(), id, other@).0,
            reports(r, bind_var(old(self).subst(), id, other@).1),
            final(self).next_var() == old(self).next_var(),
            final(self).pending() == old(self).pending(),
    {
        let same = match other {
            PolyType::Var(o) => o.0 == id,
            _ => false,
        };
        if same {
            return Ok(());
        }
        if other.occurs(id) {
            let a = var_debug_string(&TypeVarId(id));
            let b = poly_debug_string(other);
            return Err(owned("Infinite type: ").concat(a.as_str()).concat(" occurs in ").concat(b.as_str()));
        }
        let ghost before = self.substitution@;
        let copy = other.duplicate();
        let ghost cp = copy;
        self.substitution.insert(id, copy);
        proof { lemma_subst_view_insert(before, id, cp); }
        Ok(())
    }

    /// Unification with at most `fuel` nested steps, which are enough.
    fn unify_fuel(&mut self, t1: &PolyType, t2: &PolyType, Ghost(fuel): Ghost<nat>) -> (r: Result<(), String>)
        requires
            unify_step(old(self).subst(), t1@, t2@, fuel) is Some,
        ensures
            match unify_step(old(self).subst(), t1@, t2@, fuel) {
                Some((s, o)) => final(self).subst() == s && reports(r, o),
                None => false,
            },
            final(self).next_var() == old(self).next_var(),
            final(self).pending() == old(self).pending(),
        decreases fuel,
    {
        let ghost f = (fuel - 1) as nat;
        let a = self.apply_current_substitution(t1);
        let b = self.apply_current_substitution(t2);
        if unifies_at_once_exec(&a, &b) {
            return Ok(());
        }
        match &a {
            PolyType::Var(id) => {
                return self.bind_variable(id.0, &b);
            },
            _ => {},
        }
        match &b {
            PolyType::Var(id) => {
                return self.bind_variable(id.0, &a);
            },
            _ => {},
        }
        match (&a, &b) {
            (PolyType::Function(a1, r1), PolyType::Function(a2, r2)) => {
                match self.unify_fuel(a1, a2, Ghost(f)) {
                    Err(e) => Err(e),
                    Ok(()) => self.unify_fuel(r1, r2, Ghost(f)),
                }
            },
            (PolyType::Generic(n1, xs), PolyType::Generic(n2, ys)) => {
                proof {
                    lemma_terms_of_len(xs@);
                    lemma_terms_of_len(ys@);
                }
                if !str_eq(n1.as_str(), n2.as_str()) || xs.len() != ys.len() {
                    return Err(owned("Cannot unify ").concat(n1.as_str()).concat(" and ").concat(n2.as_str()));
                }
                let ghost txs = terms_of(xs@);
                let ghost tys = terms_of(ys@);
                let ghost target = unify_step(old(self).subst(), t1@, t2@, fuel);
                assert(txs.skip(0) =~= txs);
                assert(tys.skip(0) =~= tys);
                let mut i: usize = 0;
                while i < xs.len()
                    invariant
                        xs@.len() == ys@.len(),
                        i <= xs@.len(),
                        txs == terms_of(xs@),
                        tys == terms_of(ys@),
                        txs.len() == xs@.len(),
                        tys.len() == ys@.len(),
                        target == unify_step(old(self).subst(), t1@, t2@, fuel),
                        target is Some,
                        fuel > 0,
                        f == fuel - 1,
                        target == unify_all(self.subst(), txs.skip(i as int), tys.skip(i as int), f),
                        self.next_var() == old(self).next_var(),
                        self.pending() == old(self).pending(),
                    decreases xs@.len() - i,
                {
                    proof {
                        lemma_terms_of_index(xs@, i as int);
                        lemma_terms_of_index(ys@, i as int);
                        assert(txs.skip(i as int)[0] == txs[i as int]);
                        assert(tys.skip(i as int)[0] == tys[i as int]);
                        assert(txs.skip(i as int).drop_first() =~= txs.skip(i + 1));
                        assert(tys.skip(i as int).drop_first() =~= tys.skip(i + 1));
                    }
                    match self.unify_fuel(&xs[i], &ys[i], Ghost(f)) {
                        Err(e) => {
                            return Err(e);
                        },
                        Ok(()) => {},
                    }
                    i += 1;
                }
                Ok(())
            },
            (PolyType::Concrete(Type::Vec(e)), PolyType::Generic(n, xs)) => {
                proof { lemma_terms_of_len(xs@); }
                if str_eq(n.as_str(), "Vec") && xs.len() == 1 {
                    proof { lemma_terms_of_index(xs@, 0); }
                    let c = PolyType::Concrete((**e).duplicate());
                    self.unify_fuel(&xs[0], &c, Ghost(f))
                } else {
                    Err(owned("Cannot unify Vec with ").concat(n.as_str()))
                }
            },
            (PolyType::Generic(n, xs), PolyType::Concrete(Type::Vec(e))) => {
                proof { lemma_terms_of_len(xs@); }
                if str_eq(n.as_str(), "Vec") && xs.len() == 1 {
                    proof { lemma_terms_of_index(xs@, 0); }
                    let c = PolyType::Concrete((**e).duplicate());
                    self.unify_fuel(&xs[0], &c, Ghost(f))
                } else {
                    Err(owned("Cannot unify Vec with ").concat(n.as_str()))
                }
            },
            (PolyType::Concrete(Type::Vec(e1)), PolyType::Concrete(Type::Vec(e2))) => {
                let c1 = PolyType::Concrete((**e1).duplicate());
                let c2 = PolyType::Concrete((**e2).duplicate());
                self.unify_fuel(&c1, &c2, Ghost(f))
            },
            _ => {
                let da = poly_debug_string(&a);
                let db = poly_debug_string(&b);
                Err(owned("Cannot unify ").concat(da.as_str()).concat(" and ").concat(db.as_str()))
            },
        }
    }

    /// Unifies `t1` and `t2` under the substitution found so far, extending
    /// it; fails on an occurs check or on types of different shapes.
    pub fn unify(&mut self, t1: &PolyType, t2: &PolyType) -> (r: Result<(), String>)
        requires
            unify_terminates(old(self).subst(), t1@, t2@),
        ensures
            final(self).subst() == unify_outcome(old(self).subst(), t1@, t2@).0,
            reports(r, unify_outcome(old(self).subst(), t1@, t2@).1),
            final(self).next_var() == old(self).next_var(),
            final(self).pending() == old(self).pending(),
    {
        let ghost fuel = choose|f: nat| #[trigger] unify_step(self.subst(), t1@, t2@, f) is Some;
        self.unify_fuel(t1, t2, Ghost(fuel))
    }

    /// Solves the waiting constraints in order, stopping at the first that
    /// fails; the constraints are gone afterwards either way.
    pub fn solve_constraints(&mut self) -> (r: Result<(), String>)
        requires
            solve_from(old(self).subst(), old(self).pending()) is Some,
        ensures
            match solve_from(old(self).subst(), old(self).pending()) {
                Some((s, o)) => final(self).subst() == s && reports(r, o),
                None => false,
            },
            final(self).pending() == Seq::<(PolyTerm, PolyTerm)>::empty(),
            final(self).next_var() == old(self).next_var(),
    {
        let mut cs: Vec<(PolyType, PolyType)> = Vec::new();
        std::mem::swap(&mut cs, &mut self.constraints);
        let ghost pcs = cs@.map_values(|c: (PolyType, PolyType)| (c.0@, c.1@));
        let ghost target = solve_from(old(self).subst(), old(self).pending());
        assert(self.pending() =~= Seq::<(PolyTerm, PolyTerm)>::empty());
        assert(pcs.skip(0) =~= pcs);
        let mut i: usize = 0;
        while i < cs.len()
            invariant
                i <= cs@.len(),
                pcs == cs@.map_values(|c: (PolyType, PolyType)| (c.0@, c.1@)),
                pcs == old(self).pending(),
                target == solve_from(old(self).subst(), old(self).pending()),
                target is Some,
                target == solve_from(self.subst(), pcs.skip(i as int)),
                self.pending() == Seq::<(PolyTerm, PolyTerm)>::empty(),
                self.next_var() == old(self).next_var(),
            decreases cs@.len() - i,
        {
            proof {
                assert(pcs.skip(i as int)[0] == pcs[i as int]);
                assert(pcs.skip(i as int).drop_first() =~= pcs.skip(i + 1));
            }
            match self.unify(&cs[i].0, &cs[i].1) {
                Err(e) => {
                    return Err(e);
                },
                Ok(()) => {},
            }
            i += 1;
        }
        Ok(())
    }

    /// Adds a constraint to be solved later.
    pub fn add_constraint(&mut self, t1: PolyType, t2: PolyType)
        ensures
            final(self).pending() == old(self).pending().push((t1@, t2@)),
            final(self).subst() == old(self).subst(),
            final(self).next_var() == old(self).next_var(),
    {
        let ghost a = t1@;
        let ghost b = t2@;
        self.constraints.push((t1, t2));
        assert(self.pending() =~= old(self).pending().push((a, b)));
    }
}

impl Default for HindleyMilner {
    fn default() -> (r: Self)
        ensures
            r.next_var() == 0,
            r.subst() == Map::<usize, PolyTerm>::empty(),
            r.pending() == Seq::<(PolyTerm, PolyTerm)>::empty(),
    {
        Self::new()
    }
}

/// Whether two types unify at once: equal concrete types or a numeric pair.
fn unifies_at_once_exec(a: &PolyType, b: &PolyType) -> (r: bool)
    ensures
        r == unifies_at_once(a@, b@),
{
    match (a, b) {
        (PolyType::Concrete(x), PolyType::Concrete(y)) => {
            if x.equals(y) {
                true
            } else {
                match (x, y) {
                    (Type::Numeric, Type::I32) => true,
                    (Type::I32, Type::Numeric) => true,
                    (Type::Numeric, Type::CharacterHP) => true,
                    (Type::CharacterHP, Type::Numeric) => true,
                    _ => false,
                }
            }
        },
        _ => false,
    }
}


/// Constraints between concrete types, as pairs of terms.
pub open spec fn concrete_terms(cs: Seq<(Type, Type)>) -> Seq<(PolyTerm, PolyTerm)> {
    cs.map_values(|c: (Type, Type)| (PolyTerm::Concrete(c.0), PolyTerm::Concrete(c.1)))
}

/// Solving constraints between concrete types: the first that does not unify
/// fails.
pub open spec fn solve_concrete(cs: Seq<(Type, Type)>) -> Result<(), UnifyFailure>
    decreases cs.len(),
{
    if cs.len() == 0 {
        Ok(())
    } else {
        match concrete_unify(cs[0].0, cs[0].1) {
            Ok(()) => solve_concrete(cs.drop_first()),
            Err(f) => Err(f),
        }
    }
}

/// Solving constraints between concrete types always comes to an end, leaves
/// the substitution as it was, and fails exactly at the first constraint
/// whose types do not unify.
pub proof fn lemma_solve_concrete(s: Subst, cs: Seq<(Type, Type)>)
    ensures
        solve_from(s, concrete_terms(cs)) == Some((s, solve_concrete(cs))),
    decreases cs.len(),
{
    let ts = concrete_terms(cs);
    if cs.len() > 0 {
        lemma_unify_concrete(s, cs[0].0, cs[0].1);
        assert(ts[0] == (PolyTerm::Concrete(cs[0].0), PolyTerm::Concrete(cs[0].1)));
        assert(ts.drop_first() =~= concrete_terms(cs.drop_first()));
        lemma_solve_concrete(s, cs.drop_first());
    }
}

/// Generic types with different names never unify, whatever their
/// arguments: unification ends at once with a mismatch of the two names and
/// binds nothing.
pub proof fn lemma_generic_names_must_match(s: Subst, n1: Seq<char>, xs: Seq<PolyTerm>, n2: Seq<char>, ys: Seq<PolyTerm>)
    requires
        n1 != n2,
    ensures
        unify_terminates(s, PolyTerm::Generic(n1, xs), PolyTerm::Generic(n2, ys)),
        unify_outcome(s, PolyTerm::Generic(n1, xs), PolyTerm::Generic(n2, ys))
            == (s, Err::<(), UnifyFailure>(UnifyFailure::GenericMismatch(n1, n2))),
{
    let t1 = PolyTerm::Generic(n1, xs);
    let t2 = PolyTerm::Generic(n2, ys);
    assert(unify_step(s, t1, t2, 1) is Some);
    let f = choose|f: nat| #[trigger] unify_step(s, t1, t2, f) is Some;
    assert(f > 0);
}

} // verus!
