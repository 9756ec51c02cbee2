//! Types of the token language: primitive, game-specific, collection and
//! abstract types, token signatures, typed syntax trees and checking contexts.

use vstd::prelude::*;
use vstd::string::StringExecFns;
use crate::structured_token::StructuredTokenInput;
use crate::util::{owned, tuple1_text, tuple1_string};

verus! {

/// A type of the token language.
#[derive(Debug, Eq, Hash)]
pub enum Type {
    I32,
    Bool,
    String,
    Character,
    Team,
    CharacterHP,
    TeamSide,
    Vec(Box<Type>),
    Option(Box<Type>),
    /// Accepts `I32` and `CharacterHP`.
    Numeric,
    Action,
    Condition,
    Void,
    /// Any type (before inference has fixed it).
    Any,
}

/// Compatibility of two types: equal types, a numeric type against
/// `Numeric`, anything against `Any`, and element-wise for `Vec` and `Option`.
pub open spec fn compatible(a: Type, b: Type) -> bool
    decreases a,
{
    if a == b {
        true
    } else {
        match (a, b) {
            (Type::I32, Type::Numeric) => true,
            (Type::CharacterHP, Type::Numeric) => true,
            (Type::Numeric, Type::I32) => true,
            (Type::Numeric, Type::CharacterHP) => true,
            (Type::Any, _) => true,
            (_, Type::Any) => true,
            (Type::Vec(x), Type::Vec(y)) => compatible(*x, *y),
            (Type::Option(x), Type::Option(y)) => compatible(*x, *y),
            _ => false,
        }
    }
}

/// The concrete type that `t` resolves to under an optional hint.
pub open spec fn resolved(t: Type, hint: Option<Type>) -> Type {
    match t {
        Type::Numeric => match hint {
            Some(Type::CharacterHP) => Type::CharacterHP,
            _ => Type::I32,
        },
        Type::Any => match hint {
            Some(h) => h,
            None => Type::Void,
        },
        _ => t,
    }
}

/// The textual name of a type, as it appears in messages.
pub open spec fn type_text(t: Type) -> Seq<char>
    decreases t,
{
    match t {
        Type::I32 => "i32"@,
        Type::Bool => "bool"@,
        Type::String => "String"@,
        Type::Character => "Character"@,
        Type::Team => "Team"@,
        Type::CharacterHP => "CharacterHP"@,
        Type::TeamSide => "TeamSide"@,
        Type::Vec(e) => "Vec<"@ + type_text(*e) + ">"@,
        Type::Option(e) => "Option<"@ + type_text(*e) + ">"@,
        Type::Numeric => "Numeric"@,
        Type::Action => "Action"@,
        Type::Condition => "Condition"@,
        Type::Void => "void"@,
        Type::Any => "any"@,
    }
}

impl Type {
    /// Structural equality of two types.
    pub fn equals(&self, other: &Type) -> (r: bool)
        ensures
            r == (*self == *other),
        decreases self,
    {
        match (self, other) {
            (Type::I32, Type::I32) => true,
            (Type::Bool, Type::Bool) => true,
            (Type::String, Type::String) => true,
            (Type::Character, Type::Character) => true,
            (Type::Team, Type::Team) => true,
            (Type::CharacterHP, Type::CharacterHP) => true,
            (Type::TeamSide, Type::TeamSide) => true,
            (Type::Vec(a), Type::Vec(b)) => a.equals(b),
            (Type::Option(a), Type::Option(b)) => a.equals(b),
            (Type::Numeric, Type::Numeric) => true,
            (Type::Action, Type::Action) => true,
            (Type::Condition, Type::Condition) => true,
            (Type::Void, Type::Void) => true,
            (Type::Any, Type::Any) => true,
            _ => false,
        }
    }

    /// A copy of this type.
    pub fn duplicate(&self) -> (r: Type)
        ensures
            r == *self,
        decreases self,
    {
        match self {
            Type::I32 => Type::I32,
            Type::Bool => Type::Bool,
            Type::String => Type::String,
            Type::Character => Type::Character,
            Type::Team => Type::Team,
            Type::CharacterHP => Type::CharacterHP,
            Type::TeamSide => Type::TeamSide,
            Type::Vec(a) => Type::Vec(Box::new(a.duplicate())),
            Type::Option(a) => Type::Option(Box::new(a.duplicate())),
            Type::Numeric => Type::Numeric,
            Type::Action => Type::Action,
            Type::Condition => Type::Condition,
            Type::Void => Type::Void,
            Type::Any => Type::Any,
        }
    }

    /// Whether this type is compatible with `other`.
    pub fn is_compatible_with(&self, other: &Type) -> (r: bool)
        ensures
            r == compatible(*self, *other),
        decreases self,
    {
        if self.equals(other) {
            return true;
        }
        match (self, other) {
            (Type::I32, Type::Numeric) => true,
            (Type::CharacterHP, Type::Numeric) => true,
            (Type::Numeric, Type::I32) => true,
            (Type::Numeric, Type::CharacterHP) => true,
            (Type::Any, _) => true,
            (_, Type::Any) => true,
            (Type::Vec(a), Type::Vec(b)) => a.is_compatible_with(b),
            (Type::Option(a), Type::Option(b)) => a.is_compatible_with(b),
            _ => false,
        }
    }

    /// The concrete type this type resolves to: `Numeric` becomes `CharacterHP`
    /// under a `CharacterHP` hint and `I32` otherwise; `Any` becomes the hint,
    /// or `Void` without one; other types stay as they are.
    pub fn resolve_to_concrete(&self, hint: Option<&Type>) -> (r: Type)
        ensures
            r == resolved(*self, match hint { Some(h) => Some(*h), None => None }),
    {
        match self {
            Type::Numeric => match hint {
                Some(Type::CharacterHP) => Type::CharacterHP,
                _ => Type::I32,
            },
            Type::Any => match hint {
                Some(h) => h.duplicate(),
                None => Type::Void,
            },
            _ => self.duplicate(),
        }
    }

    /// Whether this is a numeric type (`I32`, `CharacterHP` or `Numeric`).
    pub fn is_numeric(&self) -> (r: bool)
        ensures
            r == (*self is I32 || *self is CharacterHP || *self is Numeric),
    {
        match self {
            Type::I32 | Type::CharacterHP | Type::Numeric => true,
            _ => false,
        }
    }

    /// The textual name of this type.
    pub fn to_display_string(&self) -> (r: String)
        ensures
            r@ == type_text(*self),
        decreases self,
    {
        match self {
            Type::I32 => owned("i32"),
            Type::Bool => owned("bool"),
            Type::String => owned("String"),
            Type::Character => owned("Character"),
            Type::Team => owned("Team"),
            Type::CharacterHP => owned("CharacterHP"),
            Type::TeamSide => owned("TeamSide"),
            Type::Vec(e) => {
                let inner = e.to_display_string();
                owned("Vec<").concat(inner.as_str()).concat(">")
            },
            Type::Option(e) => {
                let inner = e.to_display_string();
                owned("Option<").concat(inner.as_str()).concat(">")
            },
            Type::Numeric => owned("Numeric"),
            Type::Action => owned("Action"),
            Type::Condition => owned("Condition"),
            Type::Void => owned("void"),
            Type::Any => owned("any"),
        }
    }
}

/// What `{:?}` renders a type as: the variant's name, with the element type
/// in parentheses for `Vec` and `Option`.
pub open spec fn type_debug_text(t: Type) -> Seq<char>
    decreases t,
{
    match t {
        Type::I32 => "I32"@,
        Type::Bool => "Bool"@,
        Type::String => "String"@,
        Type::Character => "Character"@,
        Type::Team => "Team"@,
        Type::CharacterHP => "CharacterHP"@,
        Type::TeamSide => "TeamSide"@,
        Type::Numeric => "Numeric"@,
        Type::Action => "Action"@,
        Type::Condition => "Condition"@,
        Type::Void => "Void"@,
        Type::Any => "Any"@,
        Type::Vec(e) => tuple1_text("Vec"@, type_debug_text(*e)),
        Type::Option(e) => tuple1_text("Option"@, type_debug_text(*e)),
    }
}

impl Type {
    /// The text of `type_debug_text`.
    pub fn debug_string(&self) -> (r: String)
        ensures
            r@ == type_debug_text(*self),
        decreases self,
    {
        match self {
            Type::I32 => owned("I32"),
            Type::Bool => owned("Bool"),
            Type::String => owned("String"),
            Type::Character => owned("Character"),
            Type::Team => owned("Team"),
            Type::CharacterHP => owned("CharacterHP"),
            Type::TeamSide => owned("TeamSide"),
            Type::Numeric => owned("Numeric"),
            Type::Action => owned("Action"),
            Type::Condition => owned("Condition"),
            Type::Void => owned("Void"),
            Type::Any => owned("Any"),
            Type::Vec(e) => {
                let inner = e.debug_string();
                tuple1_string("Vec", &inner)
            },
            Type::Option(e) => {
                let inner = e.debug_string();
                tuple1_string("Option", &inner)
            },
        }
    }
}

impl Clone for Type {
    fn clone(&self) -> (r: Self)
        ensures
            r == *self,
    {
        self.duplicate()
    }
}

impl PartialEq for Type {
    fn eq(&self, other: &Type) -> (r: bool) {
        self.equals(other)
    }
}

impl vstd::std_specs::cmp::PartialEqSpecImpl for Type {
    open spec fn obeys_eq_spec() -> bool {
        true
    }

    open spec fn eq_spec(&self, other: &Type) -> bool {
        *self == *other
    }
}

/// Compatibility is reflexive.
pub proof fn lemma_compatible_reflexive(a: Type)
    ensures
        compatible(a, a),
{
}

/// Compatibility is symmetric.
pub proof fn lemma_compatible_symmetric(a: Type, b: Type)
    ensures
        compatible(a, b) == compatible(b, a),
    decreases a,
{
    match (a, b) {
        (Type::Vec(x), Type::Vec(y)) => lemma_compatible_symmetric(*x, *y),
        (Type::Option(x), Type::Option(y)) => lemma_compatible_symmetric(*x, *y),
        _ => {},
    }
}

/// The signature of a token: named, typed inputs and an output type.
#[derive(Debug, Clone)]
pub struct TypeSignature {
    pub inputs: Vec<(String, Type)>,
    pub output: Type,
}

impl TypeSignature {
    pub fn new(inputs: Vec<(String, Type)>, output: Type) -> (r: Self)
        ensures
            r.inputs@ == inputs@,
            r.output == output,
    {
        Self { inputs, output }
    }

    /// A signature without inputs.
    pub fn nullary(output: Type) -> (r: Self)
        ensures
            r.inputs@.len() == 0,
            r.output == output,
    {
        Self { inputs: Vec::new(), output }
    }

    /// A signature with one input.
    pub fn unary(input_name: &str, input_type: Type, output: Type) -> (r: Self)
        ensures
            r.inputs@.len() == 1,
            r.inputs@[0].0@ == input_name@,
            r.inputs@[0].1 == input_type,
            r.output == output,
    {
        let mut inputs = Vec::new();
        inputs.push((owned(input_name), input_type));
        Self { inputs, output }
    }

    /// A signature with two inputs.
    pub fn binary(
        input1_name: &str,
        input1_type: Type,
        input2_name: &str,
        input2_type: Type,
        output: Type,
    ) -> (r: Self)
        ensures
            r.inputs@.len() == 2,
            r.inputs@[0].0@ == input1_name@,
            r.inputs@[0].1 == input1_type,
            r.inputs@[1].0@ == input2_name@,
            r.inputs@[1].1 == input2_type,
            r.output == output,
    {
        let mut inputs = Vec::new();
        inputs.push((owned(input1_name), input1_type));
        inputs.push((owned(input2_name), input2_type));
        Self { inputs, output }
    }
}

/// A type-checked token: the token, its inferred type and its typed arguments,
/// each under the argument's name.
#[derive(Debug)]
pub struct TypedAst {
    pub token: StructuredTokenInput,
    pub ty: Type,
    pub children: Vec<(String, TypedAst)>,
}

impl TypedAst {
    pub fn new(token: StructuredTokenInput, ty: Type) -> (r: Self)
        ensures
            r.token == token,
            r.ty == ty,
            r.children@.len() == 0,
    {
        Self { token, ty, children: Vec::new() }
    }

    /// The names of the typed arguments.
    pub open spec fn child_names(self) -> Seq<Seq<char>> {
        self.children@.map_values(|c: (String, TypedAst)| c.0@)
    }

    /// The typed argument named `name`, if there is one.
    pub fn child(&self, name: &str) -> (r: Option<&TypedAst>)
        ensures
            match r {
                Some(c) => exists|i: int|
                    0 <= i < self.children@.len() && self.children@[i].0@ == name@
                        && self.children@[i].1 == *c,
                None => forall|i: int|
                    0 <= i < self.children@.len() ==> self.children@[i].0@ != name@,
            },
    {
        let mut i: usize = 0;
        while i < self.children.len()
            invariant
                i <= self.children@.len(),
                forall|j: int| 0 <= j < i ==> self.children@[j].0@ != name@,
            decreases self.children@.len() - i,
        {
            if crate::util::str_eq(self.children[i].0.as_str(), name) {
                return Some(&self.children[i].1);
            }
            i += 1;
        }
        None
    }
}


/// The value of a typed syntax tree: the token, its type, and the values of
/// its typed arguments under their names.
pub struct AstView {
    pub token: StructuredTokenInput,
    pub ty: Type,
    pub children: Seq<(Seq<char>, AstView)>,
}

/// The value of a typed syntax tree.
pub open spec fn ast_view(a: TypedAst) -> AstView
    decreases a,
{
    AstView { token: a.token, ty: a.ty, children: children_view(a.children@) }
}

/// The values of a list of named typed syntax trees.
pub open spec fn children_view(cs: Seq<(String, TypedAst)>) -> Seq<(Seq<char>, AstView)>
    decreases cs,
{
    if cs.len() == 0 {
        seq![]
    } else {
        seq![(cs[0].0@, ast_view(cs[0].1))] + children_view(cs.drop_first())
    }
}

/// `cs` with the entry named `name` set to `v`: the first entry of that name
/// is replaced, or else a new entry is appended.
pub open spec fn put_entry<V>(cs: Seq<(Seq<char>, V)>, name: Seq<char>, v: V) -> Seq<(Seq<char>, V)>
    decreases cs.len(),
{
    if cs.len() == 0 {
        seq![(name, v)]
    } else if cs[0].0 == name {
        seq![(name, v)] + cs.drop_first()
    } else {
        seq![cs[0]] + put_entry(cs.drop_first(), name, v)
    }
}

/// The value of the first entry named `name`, if there is one.
pub open spec fn find_entry<V>(cs: Seq<(Seq<char>, V)>, name: Seq<char>) -> Option<V>
    decreases cs.len(),
{
    if cs.len() == 0 {
        None
    } else if cs[0].0 == name {
        Some(cs[0].1)
    } else {
        find_entry(cs.drop_first(), name)
    }
}

proof fn lemma_children_view_index(cs: Seq<(String, TypedAst)>, i: int)
    requires
        0 <= i < cs.len(),
    ensures
        children_view(cs).len() == cs.len(),
        children_view(cs)[i] == (cs[i].0@, ast_view(cs[i].1)),
    decreases cs.len(),
{
    lemma_children_view_len(cs);
    if i > 0 {
        lemma_children_view_index(cs.drop_first(), i - 1);
    }
}

proof fn lemma_children_view_len(cs: Seq<(String, TypedAst)>)
    ensures
        children_view(cs).len() == cs.len(),
    decreases cs.len(),
{
    if cs.len() > 0 {
        lemma_children_view_len(cs.drop_first());
    }
}

proof fn lemma_children_view_ext(a: Seq<(String, TypedAst)>, b: Seq<(Seq<char>, AstView)>)
    requires
        a.len() == b.len(),
        forall|i: int| 0 <= i < a.len() ==> (a[i].0@, ast_view(a[i].1)) == #[trigger] b[i],
    ensures
        children_view(a) == b,
{
    lemma_children_view_len(a);
    assert forall|i: int| 0 <= i < a.len() implies children_view(a)[i] == b[i] by {
        lemma_children_view_index(a, i);
    }
    assert(children_view(a) =~= b);
}

proof fn lemma_put_entry_found<V>(cs: Seq<(Seq<char>, V)>, name: Seq<char>, v: V, j: int)
    requires
        0 <= j < cs.len(),
        cs[j].0 == name,
        forall|k: int| 0 <= k < j ==> cs[k].0 != name,
    ensures
        put_entry(cs, name, v) == cs.update(j, (name, v)),
    decreases cs.len(),
{
    if j == 0 {
        assert(put_entry(cs, name, v) =~= cs.update(j, (name, v)));
    } else {
        lemma_put_entry_found(cs.drop_first(), name, v, j - 1);
        assert(put_entry(cs, name, v) =~= cs.update(j, (name, v)));
    }
}

proof fn lemma_put_entry_absent<V>(cs: Seq<(Seq<char>, V)>, name: Seq<char>, v: V)
    requires
        forall|k: int| 0 <= k < cs.len() ==> cs[k].0 != name,
    ensures
        put_entry(cs, name, v) == cs.push((name, v)),
    decreases cs.len(),
{
    if cs.len() == 0 {
        assert(put_entry(cs, name, v) =~= cs.push((name, v)));
    } else {
        lemma_put_entry_absent(cs.drop_first(), name, v);
        assert(put_entry(cs, name, v) =~= cs.push((name, v)));
    }
}

proof fn lemma_find_entry_first<V>(cs: Seq<(Seq<char>, V)>, name: Seq<char>, j: int)
    requires
        0 <= j <= cs.len(),
        forall|k: int| 0 <= k < j ==> cs[k].0 != name,
    ensures
        j < cs.len() && cs[j].0 == name ==> find_entry(cs, name) == Some(cs[j].1),
        j == cs.len() ==> find_entry(cs, name) is None,
    decreases cs.len(),
{
    if cs.len() > 0 && j > 0 {
        lemma_find_entry_first(cs.drop_first(), name, j - 1);
    }
}

/// Sets the child named `name` to `child`: replaces the first child of that
/// name, or appends a new one.
pub fn put_child(children: &mut Vec<(String, TypedAst)>, name: String, child: TypedAst)
    ensures
        children_view(final(children)@) == put_entry(children_view(old(children)@), name@, ast_view(child)),
{
    let ghost n = name@;
    let ghost cv = ast_view(child);
    let ghost before = children@;
    proof { lemma_children_view_len(before); }
    let mut i: usize = 0;
    while i < children.len()
        invariant
            children@ == before,
            before == old(children)@,
            n == name@,
            cv == ast_view(child),
            i <= before.len(),
            forall|k: int| 0 <= k < i ==> before[k].0@ != n,
        decreases before.len() - i,
    {
        if crate::util::str_eq(children[i].0.as_str(), name.as_str()) {
            children.set(i, (name, child));
            proof {
                let bv = children_view(before);
                assert forall|k: int| 0 <= k < i implies bv[k].0 != n by {
                    lemma_children_view_index(before, k);
                }
                lemma_children_view_index(before, i as int);
                lemma_put_entry_found(bv, n, cv, i as int);
                assert forall|k: int| 0 <= k < children@.len() implies (children@[k].0@, ast_view(children@[k].1))
                    == #[trigger] bv.update(i as int, (n, cv))[k] by {
                    lemma_children_view_index(before, k);
                }
                lemma_children_view_ext(children@, bv.update(i as int, (n, cv)));
            }
            return;
        }
        i += 1;
    }
    children.push((name, child));
    proof {
        let bv = children_view(before);
        assert forall|k: int| 0 <= k < bv.len() implies bv[k].0 != n by {
            lemma_children_view_index(before, k);
        }
        lemma_put_entry_absent(bv, n, cv);
        assert forall|k: int| 0 <= k < children@.len() implies (children@[k].0@, ast_view(children@[k].1))
            == #[trigger] bv.push((n, cv))[k] by {
            if k < before.len() {
                lemma_children_view_index(before, k);
            }
        }
        lemma_children_view_ext(children@, bv.push((n, cv)));
    }
}

/// The type of the first child named `name`, if there is one.
pub fn child_type(children: &Vec<(String, TypedAst)>, name: &str) -> (r: Option<Type>)
    ensures
        r == (match find_entry(children_view(children@), name@) {
            Some(v) => Some(v.ty),
            None => None,
        }),
{
    let ghost cv = children_view(children@);
    proof { lemma_children_view_len(children@); }
    let mut i: usize = 0;
    while i < children.len()
        invariant
            cv == children_view(children@),
            cv.len() == children@.len(),
            i <= children@.len(),
            forall|k: int| 0 <= k < i ==> cv[k].0 != name@,
        decreases children@.len() - i,
    {
        proof { lemma_children_view_index(children@, i as int); }
        if crate::util::str_eq(children[i].0.as_str(), name) {
            proof { lemma_find_entry_first(cv, name@, i as int); }
            return Some(children[i].1.ty.duplicate());
        }
        i += 1;
    }
    proof { lemma_find_entry_first(cv, name@, i as int); }
    None
}

/// The context of a check: inside `FilterList` or `Map`, the type that
/// `Element` stands for.
#[derive(Debug, Clone)]
pub struct TypeContext {
    current_context: Option<Type>,
}

impl TypeContext {
    /// The current context, readable in specifications.
    pub closed spec fn context(self) -> Option<Type> {
        self.current_context
    }

    pub fn new() -> (r: Self)
        ensures
            r.context() is None,
    {
        Self { current_context: None }
    }

    pub fn current_context(&self) -> (r: Option<&Type>)
        ensures
            match r {
                Some(t) => self.context() == Some(*t),
                None => self.context() is None,
            },
    {
        self.current_context.as_ref()
    }

    pub fn set_current_context(&mut self, ty: Option<Type>)
        ensures
            final(self).context() == ty,
    {
        self.current_context = ty;
    }

    /// A copy of this context.
    pub fn duplicate(&self) -> (r: Self)
        ensures
            r.context() == self.context(),
    {
        match &self.current_context {
            Some(t) => TypeContext { current_context: Some(t.duplicate()) },
            None => TypeContext { current_context: None },
        }
    }
}

} // verus!
