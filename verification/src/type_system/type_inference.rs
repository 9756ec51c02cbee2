//! An inference engine for the token language: unification of types, solving
//! of constraints, and the output types of context-dependent and array
//! operations.

use vstd::prelude::*;
use vstd::string::StringExecFns;
use std::collections::HashMap;
use crate::name_map::{NameMap, lemma_same_entries_same_view};
use crate::type_system::types::{Type, TypeContext, compatible, type_text};
use crate::util::{owned, str_eq};

verus! {

/// A named type variable.
#[derive(Debug, Clone, PartialEq, Eq, Hash)]
pub struct TypeVariable(String);

impl TypeVariable {
    /// The variable's name.
    pub closed spec fn name(self) -> Seq<char> {
        self.0@
    }

    pub fn new(name: &str) -> (r: Self)
        ensures
            r.name() == name@,
    {
        Self(owned(name))
    }
}

/// A constraint between two types.
#[derive(Debug, Clone)]
pub enum TypeConstraint {
    /// The two types unify.
    Equal(Type, Type),
    /// The first type is compatible with the second.
    Compatible(Type, Type),
    /// The first type is the element type of the second, a collection.
    ElementOf(Type, Type),
}

/// The outcome of unifying two types: the unified type, or the message of the
/// first pair that does not unify.
pub open spec fn unify_outcome(t1: Type, t2: Type) -> Result<Type, Seq<char>>
    decreases t1,
{
    if t1 == t2 {
        Ok(t1)
    } else {
        match (t1, t2) {
            (Type::Any, other) => Ok(other),
            (other, Type::Any) => Ok(other),
            (Type::Numeric, Type::I32) => Ok(Type::I32),
            (Type::I32, Type::Numeric) => Ok(Type::I32),
            (Type::Numeric, Type::CharacterHP) => Ok(Type::CharacterHP),
            (Type::CharacterHP, Type::Numeric) => Ok(Type::CharacterHP),
            (Type::Vec(a), Type::Vec(b)) => match unify_outcome(*a, *b) {
                Ok(e) => Ok(Type::Vec(Box::new(e))),
                Err(m) => Err(m),
            },
            (Type::Option(a), Type::Option(b)) => match unify_outcome(*a, *b) {
                Ok(e) => Ok(Type::Option(Box::new(e))),
                Err(m) => Err(m),
            },
            _ => Err("Cannot unify types "@ + type_text(t1) + " and "@ + type_text(t2)),
        }
    }
}

/// The outcome of solving a list of constraints: success, or the message of
/// the first constraint that fails.
pub open spec fn solve_outcome(cs: Seq<TypeConstraint>) -> Result<(), Seq<char>>
    decreases cs.len(),
{
    if cs.len() == 0 {
        Ok(())
    } else {
        let first = match cs[0] {
            TypeConstraint::Equal(t1, t2) => match unify_outcome(t1, t2) {
                Ok(_) => Ok(()),
                Err(m) => Err(m),
            },
            TypeConstraint::Compatible(t1, t2) =>
                if compatible(t1, t2) {
                    Ok(())
                } else {
                    Err("Type "@ + type_text(t1) + " is not compatible with "@ + type_text(t2))
                },
            TypeConstraint::ElementOf(elem, collection) => match collection {
                Type::Vec(expected) => match unify_outcome(elem, *expected) {
                    Ok(_) => Ok(()),
                    Err(m) => Err(m),
                },
                _ => Err("Type "@ + type_text(collection) + " is not a collection"@),
            },
        };
        match first {
            Ok(_) => solve_outcome(cs.drop_first()),
            Err(m) => Err(m),
        }
    }
}

/// The output type of an array operation.
pub open spec fn array_operation_output(op: Seq<char>, input: Type, transform: Option<Type>) -> Type {
    if op == "FilterList"@ {
        input
    } else if op == "Map"@ {
        match transform {
            Some(t) => Type::Vec(Box::new(t)),
            None => input,
        }
    } else if op == "RandomPick"@ {
        match input {
            Type::Vec(e) => *e,
            _ => Type::Any,
        }
    } else {
        input
    }
}

/// The output type of a numeric operation.
pub open spec fn numeric_operation_output(op: Seq<char>, left: Type) -> Type {
    if op == "Max"@ || op == "Min"@ {
        match left {
            Type::Vec(e) => match *e {
                Type::I32 => Type::I32,
                Type::CharacterHP => Type::CharacterHP,
                Type::Character => Type::Character,
                Type::Numeric => Type::Numeric,
                _ => Type::Any,
            },
            _ => Type::Any,
        }
    } else if op == "NumericMax"@ || op == "NumericMin"@ {
        Type::Numeric
    } else {
        Type::Any
    }
}

/// An engine that unifies types and solves a list of constraints.
pub struct TypeInferenceEngine {
    substitutions: HashMap<TypeVariable, Type>,
    constraints: Vec<TypeConstraint>,
}

impl TypeInferenceEngine {
    /// The constraints not yet solved.
    pub closed spec fn pending(self) -> Seq<TypeConstraint> {
        self.constraints@
    }

    /// The substitutions found so far.
    pub closed spec fn substitution(self) -> Map<TypeVariable, Type> {
        self.substitutions@
    }

    /// An engine with no substitution and no constraint.
    pub fn new() -> (r: Self)
        ensures
            r.pending() == Seq::<TypeConstraint>::empty(),
            r.substitution() == Map::<TypeVariable, Type>::empty(),
    {
        Self { substitutions: HashMap::new(), constraints: Vec::new() }
    }

    /// Adds a constraint to the pending ones.
    pub fn add_constraint(&mut self, constraint: TypeConstraint)
        ensures
            final(self).pending() == old(self).pending().push(constraint),
    {
        self.constraints.push(constraint);
    }

    /// Unifies two types: equal types, `Any` with anything, `Numeric` with a
    /// numeric type, and element-wise for `Vec` and `Option`.
    pub fn unify(&mut self, t1: &Type, t2: &Type) -> (r: Result<Type, String>)
        ensures
            final(self).pending() == old(self).pending(),
            match (r, unify_outcome(*t1, *t2)) {
                (Ok(t), Ok(u)) => t == u,
                (Err(m), Err(n)) => m@ == n,
                _ => false,
            },
        decreases t1,
    {
        if t1.equals(t2) {
            return Ok(t1.duplicate());
        }
        match (t1, t2) {
            (Type::Any, other) => Ok(other.duplicate()),
            (other, Type::Any) => Ok(other.duplicate()),
            (Type::Numeric, Type::I32) | (Type::I32, Type::Numeric) => Ok(Type::I32),
            (Type::Numeric, Type::CharacterHP) | (Type::CharacterHP, Type::Numeric) => Ok(Type::CharacterHP),
            (Type::Vec(a), Type::Vec(b)) => {
                let elem = self.unify(a, b)?;
                Ok(Type::Vec(Box::new(elem)))
            },
            (Type::Option(a), Type::Option(b)) => {
                let inner = self.unify(a, b)?;
                Ok(Type::Option(Box::new(inner)))
            },
            _ => {
                let a = t1.to_display_string();
                let b = t2.to_display_string();
                Err(owned("Cannot unify types ").concat(a.as_str()).concat(" and ").concat(b.as_str()))
            },
        }
    }

    /// Solves the pending constraints in order; they are gone afterwards,
    /// whether solving succeeds or not.
    pub fn solve(&mut self) -> (r: Result<(), String>)
        ensures
            final(self).pending().len() == 0,
            match (r, solve_outcome(old(self).pending())) {
                (Ok(_), Ok(_)) => true,
                (Err(m), Err(n)) => m@ == n,
                _ => false,
            },
    {
        let mut constraints: Vec<TypeConstraint> = Vec::new();
        std::mem::swap(&mut constraints, &mut self.constraints);
        let ghost cs = constraints@;
        proof { assert(self.pending() =~= Seq::<TypeConstraint>::empty()); }
        proof { assert(cs.subrange(0, cs.len() as int) =~= cs); }
        let mut i: usize = 0;
        while i < constraints.len()
            invariant
                i <= cs.len(),
                constraints@ == cs,
                cs == old(self).pending(),
                self.pending().len() == 0,
                solve_outcome(cs) == solve_outcome(cs.subrange(i as int, cs.len() as int)),
            decreases cs.len() - i,
        {
            let ghost rest = cs.subrange(i as int, cs.len() as int);
            proof {
                assert(rest.drop_first() =~= cs.subrange(i + 1, cs.len() as int));
            }
            match &constraints[i] {
                TypeConstraint::Equal(t1, t2) => {
                    self.unify(t1, t2)?;
                },
                TypeConstraint::Compatible(t1, t2) => {
                    if !t1.is_compatible_with(t2) {
                        let a = t1.to_display_string();
                        let b = t2.to_display_string();
                        return Err(owned("Type ").concat(a.as_str()).concat(" is not compatible with ")
                            .concat(b.as_str()));
                    }
                },
                TypeConstraint::ElementOf(elem, collection) => {
                    match collection {
                        Type::Vec(expected_elem) => {
                            self.unify(elem, expected_elem)?;
                        },
                        _ => {
                            let c = collection.to_display_string();
                            return Err(owned("Type ").concat(c.as_str()).concat(" is not a collection"));
                        },
                    }
                },
            }
            i += 1;
        }
        Ok(())
    }

    /// The type that a token stands for in the given context: `Element` stands
    /// for the context's type; other tokens have no context-given type.
    pub fn infer_from_context(context: &TypeContext, token_type: &str) -> (r: Option<Type>)
        ensures
            r == (if token_type@ == "Element"@ { context.context() } else { None }),
    {
        if str_eq(token_type, "Element") {
            match context.current_context() {
                Some(t) => Some(t.duplicate()),
                None => None,
            }
        } else {
            None
        }
    }

    /// The output type of an array operation: `FilterList` keeps the input
    /// type, `Map` gives a `Vec` of the transform's type, `RandomPick` gives
    /// the element type.
    pub fn infer_array_operation_type(
        operation: &str,
        input_type: &Type,
        transform_type: Option<&Type>,
    ) -> (r: Type)
        ensures
            r == array_operation_output(
                operation@,
                *input_type,
                match transform_type { Some(t) => Some(*t), None => None },
            ),
    {
        if str_eq(operation, "FilterList") {
            input_type.duplicate()
        } else if str_eq(operation, "Map") {
            match transform_type {
                Some(t) => Type::Vec(Box::new(t.duplicate())),
                None => input_type.duplicate(),
            }
        } else if str_eq(operation, "RandomPick") {
            match input_type {
                Type::Vec(e) => e.duplicate(),
                _ => Type::Any,
            }
        } else {
            input_type.duplicate()
        }
    }

    /// The output type of a numeric operation.
    pub fn infer_numeric_operation_type(
        operation: &str,
        left_type: &Type,
        _right_type: Option<&Type>,
    ) -> (r: Type)
        ensures
            r == numeric_operation_output(operation@, *left_type),
    {
        if str_eq(operation, "Max") || str_eq(operation, "Min") {
            match left_type {
                Type::Vec(e) => match &**e {
                    Type::I32 => Type::I32,
                    Type::CharacterHP => Type::CharacterHP,
                    Type::Character => Type::Character,
                    Type::Numeric => Type::Numeric,
                    _ => Type::Any,
                },
                _ => Type::Any,
            }
        } else if str_eq(operation, "NumericMax") || str_eq(operation, "NumericMin") {
            Type::Numeric
        } else {
            Type::Any
        }
    }
}

impl Default for TypeInferenceEngine {
    fn default() -> (r: Self)
        ensures
            r.pending().len() == 0,
    {
        Self::new()
    }
}

/// Unification succeeds exactly on compatible types.
pub proof fn lemma_unify_ok_iff_compatible(t1: Type, t2: Type)
    ensures
        unify_outcome(t1, t2) is Ok <==> compatible(t1, t2),
    decreases t1,
{
    match (t1, t2) {
        (Type::Vec(a), Type::Vec(b)) => lemma_unify_ok_iff_compatible(*a, *b),
        (Type::Option(a), Type::Option(b)) => lemma_unify_ok_iff_compatible(*a, *b),
        _ => {},
    }
}

/// Unifying two types in either order gives the same type.
pub proof fn lemma_unify_symmetric(t1: Type, t2: Type)
    ensures
        unify_outcome(t1, t2) is Ok <==> unify_outcome(t2, t1) is Ok,
        unify_outcome(t1, t2) is Ok ==> unify_outcome(t1, t2) == unify_outcome(t2, t1),
    decreases t1,
{
    match (t1, t2) {
        (Type::Vec(a), Type::Vec(b)) => lemma_unify_symmetric(*a, *b),
        (Type::Option(a), Type::Option(b)) => lemma_unify_symmetric(*a, *b),
        _ => {},
    }
}

/// A type unifies with itself and gives itself.
pub proof fn lemma_unify_reflexive(t: Type)
    ensures
        unify_outcome(t, t) == Ok::<Type, Seq<char>>(t),
{
}

/// The unified type is compatible with both types it came from.
pub proof fn lemma_unified_compatible(t1: Type, t2: Type)
    ensures
        unify_outcome(t1, t2) matches Ok(u) ==> compatible(u, t1) && compatible(u, t2),
    decreases t1,
{
    match (t1, t2) {
        (Type::Vec(a), Type::Vec(b)) => lemma_unified_compatible(*a, *b),
        (Type::Option(a), Type::Option(b)) => lemma_unified_compatible(*a, *b),
        _ => {},
    }
}

/// A map from variable names to types.
pub struct TypeEnvironment {
    bindings: NameMap<Type>,
}

impl TypeEnvironment {
    /// The bindings, by name.
    pub closed spec fn view(self) -> Map<Seq<char>, Type> {
        self.bindings.view()
    }

    /// The environment's internal consistency.
    pub closed spec fn wf(self) -> bool {
        self.bindings.wf()
    }

    pub fn new() -> (r: Self)
        ensures
            r.wf(),
            r@ == Map::<Seq<char>, Type>::empty(),
    {
        Self { bindings: NameMap::new() }
    }

    /// Binds `name` to `ty`, replacing an earlier binding.
    pub fn bind(&mut self, name: String, ty: Type)
        requires
            old(self).wf(),
        ensures
            final(self).wf(),
            final(self)@ == old(self)@.insert(name@, ty),
    {
        self.bindings.insert(name, ty);
    }

    /// The type bound to `name`, if any.
    pub fn lookup(&self, name: &str) -> (r: Option<&Type>)
        requires
            self.wf(),
        ensures
            match r {
                Some(t) => self@.contains_key(name@) && *t == self@[name@],
                None => !self@.contains_key(name@),
            },
    {
        self.bindings.get(name)
    }

    /// A copy of this environment.
    pub fn duplicate(&self) -> (r: Self)
        requires
            self.wf(),
        ensures
            r.wf(),
            r@ == self@,
    {
        let b = self.bindings.duplicate();
        proof {
            assert(b.entry_seq() =~= self.bindings.entry_seq());
            lemma_same_entries_same_view(b, self.bindings);
        }
        Self { bindings: b }
    }

    /// Runs `f` on a copy of this environment, so that what `f` binds stays in
    /// its own scope; returns what `f` returns.
    pub fn with_scope<F, R>(&self, f: F) -> (r: R)
        where F: FnOnce(&mut TypeEnvironment) -> R,
        requires
            self.wf(),
            forall|e: &mut TypeEnvironment| #[trigger] f.requires((e,)),
        ensures
            exists|e: &mut TypeEnvironment| e@ == self@ && f.ensures((e,), r),
    {
        let mut new_env = self.duplicate();
        f(&mut new_env)
    }
}

} // verus!
