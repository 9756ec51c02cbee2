//! User-defined generic types: type parameters with kinds, generic type
//! expressions with substitution of their parameters, a registry of generic
//! type definitions, and kind inference.

use vstd::prelude::*;
use vstd::string::StringExecFns;
use crate::name_map::NameMap;
use crate::type_system::types::Type;
use crate::util::{owned, str_eq, decimal, usize_to_string};

verus! {

/// The kind of a type: a plain type, or a constructor from one kind to another.
#[derive(Debug, Eq, Hash)]
pub enum Kind {
    Type,
    TypeConstructor(Box<Kind>, Box<Kind>),
    HigherKinded(Box<Kind>, Box<Kind>),
}

/// The kind `* -> * -> ... -> *` with `arity` arrows.
pub open spec fn multi_kind(arity: nat) -> Kind
    decreases arity,
{
    if arity == 0 {
        Kind::Type
    } else {
        Kind::TypeConstructor(Box::new(Kind::Type), Box::new(multi_kind((arity - 1) as nat)))
    }
}

/// What `{:?}` renders a kind as.
pub open spec fn kind_debug_text(k: Kind) -> Seq<char>
    decreases k,
{
    match k {
        Kind::Type => "Type"@,
        Kind::TypeConstructor(a, b) => "TypeConstructor("@ + kind_debug_text(*a) + ", "@ + kind_debug_text(*b) + ")"@,
        Kind::HigherKinded(a, b) => "HigherKinded("@ + kind_debug_text(*a) + ", "@ + kind_debug_text(*b) + ")"@,
    }
}

impl Kind {
    /// The kind with `arity` type arguments before a plain type.
    pub fn multi_param_constructor(arity: usize) -> (r: Self)
        ensures
            r == multi_kind(arity as nat),
    {
        let mut kind = Kind::Type;
        let mut i: usize = 0;
        while i < arity
            invariant
                i <= arity,
                kind == multi_kind(i as nat),
            decreases arity - i,
        {
            kind = Kind::TypeConstructor(Box::new(Kind::Type), Box::new(kind));
            i += 1;
        }
        kind
    }

    /// A copy of this kind.
    pub fn duplicate(&self) -> (r: Self)
        ensures
            r == *self,
        decreases self,
    {
        match self {
            Kind::Type => Kind::Type,
            Kind::TypeConstructor(a, b) => Kind::TypeConstructor(Box::new(a.duplicate()), Box::new(b.duplicate())),
            Kind::HigherKinded(a, b) => Kind::HigherKinded(Box::new(a.duplicate()), Box::new(b.duplicate())),
        }
    }

    /// Structural equality of kinds.
    pub fn equals(&self, other: &Kind) -> (r: bool)
        ensures
            r == (*self == *other),
        decreases self,
    {
        match (self, other) {
            (Kind::Type, Kind::Type) => true,
            (Kind::TypeConstructor(a1, b1), Kind::TypeConstructor(a2, b2)) => a1.equals(a2) && b1.equals(b2),
            (Kind::HigherKinded(a1, b1), Kind::HigherKinded(a2, b2)) => a1.equals(a2) && b1.equals(b2),
            _ => false,
        }
    }

    /// What `{:?}` renders this kind as.
    pub fn debug_string(&self) -> (r: String)
        ensures
            r@ == kind_debug_text(*self),
        decreases self,
    {
        match self {
            Kind::Type => owned("Type"),
            Kind::TypeConstructor(a, b) => {
                let x = a.debug_string();
                let y = b.debug_string();
                owned("TypeConstructor(").concat(x.as_str()).concat(", ").concat(y.as_str()).concat(")")
            },
            Kind::HigherKinded(a, b) => {
                let x = a.debug_string();
                let y = b.debug_string();
                owned("HigherKinded(").concat(x.as_str()).concat(", ").concat(y.as_str()).concat(")")
            },
        }
    }
}

impl Clone for Kind {
    fn clone(&self) -> (r: Self)
        ensures
            r == *self,
    {
        self.duplicate()
    }
}

impl PartialEq for Kind {
    fn eq(&self, other: &Kind) -> (r: bool) {
        self.equals(other)
    }
}

impl vstd::std_specs::cmp::PartialEqSpecImpl for Kind {
    open spec fn obeys_eq_spec() -> bool {
        true
    }

    open spec fn eq_spec(&self, other: &Kind) -> bool {
        *self == *other
    }
}

/// A type parameter with its kind and trait bounds.
#[derive(Debug, Clone)]
pub struct TypeParam {
    pub name: String,
    pub kind: Kind,
    pub bounds: Vec<String>,
}

/// A generic type expression.
#[derive(Debug)]
pub enum GenericType {
    Concrete(Type),
    Param(String),
    App(Box<GenericType>, Box<GenericType>),
    Named(String, Vec<GenericType>),
    Function(Box<GenericType>, Box<GenericType>),
    Tuple(Vec<GenericType>),
}

/// The mathematical value of a generic type expression.
pub enum GTerm {
    Concrete(Type),
    Param(Seq<char>),
    App(Box<GTerm>, Box<GTerm>),
    Named(Seq<char>, Seq<GTerm>),
    Function(Box<GTerm>, Box<GTerm>),
    Tuple(Seq<GTerm>),
}

/// The value of a generic type expression.
pub open spec fn gterm_of(g: GenericType) -> GTerm
    decreases g,
{
    match g {
        GenericType::Concrete(t) => GTerm::Concrete(t),
        GenericType::Param(n) => GTerm::Param(n@),
        GenericType::App(f, a) => GTerm::App(Box::new(gterm_of(*f)), Box::new(gterm_of(*a))),
        GenericType::Named(n, args) => GTerm::Named(n@, gterms_of(args@)),
        GenericType::Function(a, r) => GTerm::Function(Box::new(gterm_of(*a)), Box::new(gterm_of(*r))),
        GenericType::Tuple(es) => GTerm::Tuple(gterms_of(es@)),
    }
}

/// The values of a sequence of generic type expressions.
pub open spec fn gterms_of(s: Seq<GenericType>) -> Seq<GTerm>
    decreases s,
{
    if s.len() == 0 {
        seq![]
    } else {
        seq![gterm_of(s[0])] + gterms_of(s.drop_first())
    }
}

impl View for GenericType {
    type V = GTerm;

    open spec fn view(&self) -> GTerm {
        gterm_of(*self)
    }
}

/// `t` with each parameter bound in `m` replaced by its binding.
pub open spec fn gsubst(m: Map<Seq<char>, GTerm>, t: GTerm) -> GTerm
    decreases t,
{
    match t {
        GTerm::Concrete(_) => t,
        GTerm::Param(n) => if m.contains_key(n) { m[n] } else { t },
        GTerm::App(f, a) => GTerm::App(Box::new(gsubst(m, *f)), Box::new(gsubst(m, *a))),
        GTerm::Named(n, args) => GTerm::Named(n, gsubst_all(m, args)),
        GTerm::Function(a, r) => GTerm::Function(Box::new(gsubst(m, *a)), Box::new(gsubst(m, *r))),
        GTerm::Tuple(es) => GTerm::Tuple(gsubst_all(m, es)),
    }
}

/// `gsubst` on each term of a sequence.
pub open spec fn gsubst_all(m: Map<Seq<char>, GTerm>, ts: Seq<GTerm>) -> Seq<GTerm>
    decreases ts,
{
    if ts.len() == 0 {
        seq![]
    } else {
        seq![gsubst(m, ts[0])] + gsubst_all(m, ts.drop_first())
    }
}

/// A substitution held in a name map, taken by the values of its types.
pub open spec fn gsubst_view(m: Map<Seq<char>, GenericType>) -> Map<Seq<char>, GTerm> {
    m.map_values(|g: GenericType| g@)
}

/// The outcome of turning a generic type into a concrete type.
pub open spec fn gconcrete_outcome(t: GTerm) -> Result<Type, Seq<char>>
    decreases t,
{
    match t {
        GTerm::Concrete(ty) => Ok(ty),
        GTerm::Param(n) => Err("Unresolved type parameter: "@ + n),
        GTerm::Named(name, args) =>
            if name == "Vec"@ {
                if args.len() == 1 {
                    match gconcrete_outcome(args[0]) {
                        Ok(e) => Ok(Type::Vec(Box::new(e))),
                        Err(m) => Err(m),
                    }
                } else {
                    Err("Vec expects 1 type argument, got "@ + decimal(args.len()))
                }
            } else if name == "Option"@ {
                if args.len() == 1 {
                    match gconcrete_outcome(args[0]) {
                        Ok(e) => Ok(Type::Option(Box::new(e))),
                        Err(m) => Err(m),
                    }
                } else {
                    Err("Option expects 1 type argument, got "@ + decimal(args.len()))
                }
            } else {
                Err("Unknown generic type: "@ + name)
            },
        _ => Err("Complex generic types cannot be converted to concrete types"@),
    }
}

/// The kind that a generic type has, or why it has none.
pub open spec fn kind_outcome(t: GTerm) -> Result<Kind, Seq<char>>
    decreases t,
{
    match t {
        GTerm::App(f, _) => match kind_outcome(*f) {
            Ok(Kind::TypeConstructor(_, result)) => Ok(*result),
            Ok(_) => Err("Type application to non-constructor"@),
            Err(m) => Err(m),
        },
        _ => Ok(Kind::Type),
    }
}

proof fn lemma_gterms_of_len(s: Seq<GenericType>)
    ensures
        gterms_of(s).len() == s.len(),
    decreases s.len(),
{
    if s.len() > 0 {
        lemma_gterms_of_len(s.drop_first());
    }
}

proof fn lemma_gterms_of_index(s: Seq<GenericType>, i: int)
    requires
        0 <= i < s.len(),
    ensures
        gterms_of(s).len() == s.len(),
        gterms_of(s)[i] == gterm_of(s[i]),
    decreases s.len(),
{
    lemma_gterms_of_len(s);
    if i > 0 {
        lemma_gterms_of_index(s.drop_first(), i - 1);
    }
}

proof fn lemma_gterms_of_push(s: Seq<GenericType>, g: GenericType)
    ensures
        gterms_of(s.push(g)) == gterms_of(s).push(gterm_of(g)),
    decreases s.len(),
{
    if s.len() == 0 {
        assert(s.push(g).drop_first() =~= Seq::<GenericType>::empty());
        assert(s.push(g)[0] == g);
        assert(gterms_of(Seq::<GenericType>::empty()) =~= Seq::<GTerm>::empty());
        assert(gterms_of(s.push(g)) =~= seq![gterm_of(g)]);
    } else {
        assert(s.push(g).drop_first() =~= s.drop_first().push(g));
        lemma_gterms_of_push(s.drop_first(), g);
        assert(gterms_of(s.push(g)) =~= gterms_of(s).push(gterm_of(g)));
    }
}

proof fn lemma_gterms_of_take_step(s: Seq<GenericType>, i: int)
    requires
        0 <= i < s.len(),
    ensures
        gterms_of(s.take(i + 1)) == gterms_of(s.take(i)).push(gterm_of(s[i])),
{
    assert(s.take(i).push(s[i]) =~= s.take(i + 1));
    lemma_gterms_of_push(s.take(i), s[i]);
}

proof fn lemma_gsubst_all_push(m: Map<Seq<char>, GTerm>, ts: Seq<GTerm>, t: GTerm)
    ensures
        gsubst_all(m, ts.push(t)) == gsubst_all(m, ts).push(gsubst(m, t)),
    decreases ts.len(),
{
    if ts.len() == 0 {
        assert(ts.push(t).drop_first() =~= Seq::<GTerm>::empty());
        assert(ts.push(t)[0] == t);
        assert(gsubst_all(m, Seq::<GTerm>::empty()) =~= Seq::<GTerm>::empty());
        assert(gsubst_all(m, ts.push(t)) =~= seq![gsubst(m, t)]);
    } else {
        assert(ts.push(t).drop_first() =~= ts.drop_first().push(t));
        lemma_gsubst_all_push(m, ts.drop_first(), t);
        assert(gsubst_all(m, ts.push(t)) =~= gsubst_all(m, ts).push(gsubst(m, t)));
    }
}

proof fn lemma_list_arg_smaller(g: GenericType, i: int)
    requires
        g is Named || g is Tuple,
        g is Named ==> 0 <= i < g->Named_1@.len(),
        g is Tuple ==> 0 <= i < g->Tuple_0@.len(),
    ensures
        g is Named ==> decreases_to!(g => g->Named_1@[i]),
        g is Tuple ==> decreases_to!(g => g->Tuple_0@[i]),
{
    if g is Named {
        let args = g->Named_1;
        assert(decreases_to!(g => args));
        assert(decreases_to!(args => args@));
        assert(decreases_to!(args@ => args@[i]));
    } else {
        let args = g->Tuple_0;
        assert(decreases_to!(g => args));
        assert(decreases_to!(args => args@));
        assert(decreases_to!(args@ => args@[i]));
    }
}

/// Substituting with the empty map changes nothing.
pub proof fn lemma_gsubst_empty(t: GTerm)
    ensures
        gsubst(Map::empty(), t) == t,
    decreases t,
{
    match t {
        GTerm::App(f, a) => {
            lemma_gsubst_empty(*f);
            lemma_gsubst_empty(*a);
        },
        GTerm::Function(a, r) => {
            lemma_gsubst_empty(*a);
            lemma_gsubst_empty(*r);
        },
        GTerm::Named(n, args) => {
            lemma_gsubst_all_empty(args);
        },
        GTerm::Tuple(es) => {
            lemma_gsubst_all_empty(es);
        },
        _ => {},
    }
}

proof fn lemma_gsubst_all_empty(ts: Seq<GTerm>)
    ensures
        gsubst_all(Map::empty(), ts) == ts,
    decreases ts,
{
    if ts.len() > 0 {
        lemma_gsubst_empty(ts[0]);
        lemma_gsubst_all_empty(ts.drop_first());
        assert(gsubst_all(Map::empty(), ts) =~= ts);
    } else {
        assert(gsubst_all(Map::empty(), ts) =~= ts);
    }
}

/// Copies of a list of generic types.
fn duplicate_list(args: &Vec<GenericType>) -> (r: Vec<GenericType>)
    ensures
        gterms_of(r@) == gterms_of(args@),
    decreases args@,
{
    let mut out: Vec<GenericType> = Vec::new();
    let mut i: usize = 0;
    while i < args.len()
        invariant
            i <= args@.len(),
            gterms_of(out@) == gterms_of(args@.take(i as int)),
        decreases args@.len() - i,
    {
        assert(decreases_to!(args@ => args@[i as int]));
        let c = args[i].duplicate();
        proof {
            lemma_gterms_of_push(out@, c);
            lemma_gterms_of_take_step(args@, i as int);
        }
        out.push(c);
        i += 1;
    }
    assert(args@.take(args@.len() as int) =~= args@);
    out
}

/// Structural equality of two lists of generic types.
fn equal_lists(a: &Vec<GenericType>, b: &Vec<GenericType>) -> (r: bool)
    ensures
        r == (gterms_of(a@) == gterms_of(b@)),
    decreases a@,
{
    proof {
        lemma_gterms_of_len(a@);
        lemma_gterms_of_len(b@);
    }
    if a.len() != b.len() {
        return false;
    }
    let mut i: usize = 0;
    while i < a.len()
        invariant
            i <= a@.len(),
            a@.len() == b@.len(),
            forall|j: int| 0 <= j < i ==> gterm_of(a@[j]) == gterm_of(b@[j]),
        decreases a@.len() - i,
    {
        assert(decreases_to!(a@ => a@[i as int]));
        if !a[i].equals(&b[i]) {
            proof {
                lemma_gterms_of_index(a@, i as int);
                lemma_gterms_of_index(b@, i as int);
                assert(gterms_of(a@)[i as int] != gterms_of(b@)[i as int]);
            }
            return false;
        }
        i += 1;
    }
    proof {
        assert forall|j: int| 0 <= j < a@.len() implies gterms_of(a@)[j] == gterms_of(b@)[j] by {
            lemma_gterms_of_index(a@, j);
            lemma_gterms_of_index(b@, j);
        }
        assert(gterms_of(a@) =~= gterms_of(b@));
    }
    true
}

impl GenericType {
    /// A copy of this generic type.
    pub fn duplicate(&self) -> (r: GenericType)
        ensures
            r@ == self@,
        decreases self,
    {
        match self {
            GenericType::Concrete(t) => GenericType::Concrete(t.duplicate()),
            GenericType::Param(n) => GenericType::Param(n.clone()),
            GenericType::App(f, a) => GenericType::App(Box::new(f.duplicate()), Box::new(a.duplicate())),
            GenericType::Named(n, args) => {
                assert(decreases_to!(*self => *args));
                GenericType::Named(n.clone(), duplicate_list(args))
            },
            GenericType::Function(a, r) => GenericType::Function(Box::new(a.duplicate()), Box::new(r.duplicate())),
            GenericType::Tuple(es) => {
                assert(decreases_to!(*self => *es));
                GenericType::Tuple(duplicate_list(es))
            },
        }
    }

    /// Structural equality of two generic types.
    pub fn equals(&self, other: &GenericType) -> (r: bool)
        ensures
            r == (self@ == other@),
        decreases self,
    {
        match (self, other) {
            (GenericType::Concrete(a), GenericType::Concrete(b)) => a.equals(b),
            (GenericType::Param(a), GenericType::Param(b)) => str_eq(a.as_str(), b.as_str()),
            (GenericType::App(f1, a1), GenericType::App(f2, a2)) => f1.equals(f2) && a1.equals(a2),
            (GenericType::Named(n1, args1), GenericType::Named(n2, args2)) => {
                assert(decreases_to!(*self => *args1));
                str_eq(n1.as_str(), n2.as_str()) && equal_lists(args1, args2)
            },
            (GenericType::Function(a1, r1), GenericType::Function(a2, r2)) => a1.equals(a2) && r1.equals(r2),
            (GenericType::Tuple(e1), GenericType::Tuple(e2)) => {
                assert(decreases_to!(*self => *e1));
                equal_lists(e1, e2)
            },
            _ => false,
        }
    }

    /// This type with each parameter bound in `subst` replaced by its binding.
    pub fn substitute(&self, subst: &NameMap<GenericType>) -> (r: GenericType)
        requires
            subst.wf(),
        ensures
            r@ == gsubst(gsubst_view(subst.view()), self@),
        decreases self,
    {
        match self {
            GenericType::Concrete(t) => GenericType::Concrete(t.duplicate()),
            GenericType::Param(name) => match subst.get(name.as_str()) {
                Some(g) => g.duplicate(),
                None => GenericType::Param(name.clone()),
            },
            GenericType::App(f, a) => GenericType::App(Box::new(f.substitute(subst)), Box::new(a.substitute(subst))),
            GenericType::Named(name, args) => {
                assert(decreases_to!(*self => *args));
                GenericType::Named(name.clone(), substitute_list(args, subst))
            },
            GenericType::Function(a, r) => GenericType::Function(Box::new(a.substitute(subst)), Box::new(r.substitute(subst))),
            GenericType::Tuple(es) => {
                assert(decreases_to!(*self => *es));
                GenericType::Tuple(substitute_list(es, subst))
            },
        }
    }

    /// Converts to a concrete type; fails while a parameter remains, for an
    /// unknown generic type, and for applications, functions and tuples.
    pub fn to_concrete(&self) -> (r: Result<Type, String>)
        ensures
            match (r, gconcrete_outcome(self@)) {
                (Ok(t), Ok(u)) => t == u,
                (Err(m), Err(n)) => m@ == n,
                _ => false,
            },
        decreases self,
    {
        match self {
            GenericType::Concrete(ty) => Ok(ty.duplicate()),
            GenericType::Param(name) => Err(owned("Unresolved type parameter: ").concat(name.as_str())),
            GenericType::Named(name, args) => {
                proof { lemma_gterms_of_len(args@); }
                if str_eq(name.as_str(), "Vec") {
                    if args.len() == 1 {
                        proof {
                            lemma_gterms_of_index(args@, 0);
                            lemma_list_arg_smaller(*self, 0);
                        }
                        let elem_type = args[0].to_concrete()?;
                        Ok(Type::Vec(Box::new(elem_type)))
                    } else {
                        let n = usize_to_string(args.len());
                        Err(owned("Vec expects 1 type argument, got ").concat(n.as_str()))
                    }
                } else if str_eq(name.as_str(), "Option") {
                    if args.len() == 1 {
                        proof {
                            lemma_gterms_of_index(args@, 0);
                            lemma_list_arg_smaller(*self, 0);
                        }
                        let inner_type = args[0].to_concrete()?;
                        Ok(Type::Option(Box::new(inner_type)))
                    } else {
                        let n = usize_to_string(args.len());
                        Err(owned("Option expects 1 type argument, got ").concat(n.as_str()))
                    }
                } else {
                    Err(owned("Unknown generic type: ").concat(name.as_str()))
                }
            },
            _ => Err(owned("Complex generic types cannot be converted to concrete types")),
        }
    }
}

/// Each type of a list with the parameters bound in `subst` replaced.
fn substitute_list(args: &Vec<GenericType>, subst: &NameMap<GenericType>) -> (r: Vec<GenericType>)
    requires
        subst.wf(),
    ensures
        gterms_of(r@) == gsubst_all(gsubst_view(subst.view()), gterms_of(args@)),
    decreases args@,
{
    let ghost m = gsubst_view(subst.view());
    let mut out: Vec<GenericType> = Vec::new();
    let mut i: usize = 0;
    assert(gterms_of(args@.take(0)) =~= Seq::<GTerm>::empty()) by {
        assert(args@.take(0) =~= Seq::<GenericType>::empty());
    }
    assert(gsubst_all(m, Seq::<GTerm>::empty()) =~= Seq::<GTerm>::empty());
    while i < args.len()
        invariant
            subst.wf(),
            m == gsubst_view(subst.view()),
            i <= args@.len(),
            gterms_of(out@) == gsubst_all(m, gterms_of(args@.take(i as int))),
        decreases args@.len() - i,
    {
        assert(decreases_to!(args@ => args@[i as int]));
        let c = args[i].substitute(subst);
        proof {
            lemma_gterms_of_push(out@, c);
            lemma_gterms_of_take_step(args@, i as int);
            lemma_gsubst_all_push(m, gterms_of(args@.take(i as int)), gterm_of(args@[i as int]));
        }
        out.push(c);
        i += 1;
    }
    assert(args@.take(args@.len() as int) =~= args@);
    out
}

impl Clone for GenericType {
    fn clone(&self) -> (r: Self)
        ensures
            r@ == self@,
    {
        self.duplicate()
    }
}

impl PartialEq for GenericType {
    fn eq(&self, other: &GenericType) -> (r: bool) {
        self.equals(other)
    }
}

impl vstd::std_specs::cmp::PartialEqSpecImpl for GenericType {
    open spec fn obeys_eq_spec() -> bool {
        true
    }

    open spec fn eq_spec(&self, other: &GenericType) -> bool {
        self@ == other@
    }
}

/// The body of a generic type definition.
#[derive(Debug, Clone)]
pub enum GenericTypeBody {
    Struct { fields: Vec<(String, GenericType)> },
    Enum { variants: Vec<(String, Vec<GenericType>)> },
    Alias(GenericType),
    Newtype(GenericType),
}

/// A generic type definition.
#[derive(Debug, Clone)]
pub struct GenericTypeDef {
    pub name: String,
    pub type_params: Vec<TypeParam>,
    pub body: GenericTypeBody,
}

/// The variants of an enum body, each name with the values of its fields;
/// empty for any other body.
pub open spec fn enum_variants(b: GenericTypeBody) -> Seq<(Seq<char>, Seq<GTerm>)> {
    match b {
        GenericTypeBody::Enum { variants } =>
            variants@.map_values(|v: (String, Vec<GenericType>)| (v.0@, gterms_of(v.1@))),
        _ => Seq::empty(),
    }
}

/// The kinds of a definition's type parameters, in order.
pub open spec fn param_kinds(d: GenericTypeDef) -> Seq<Kind> {
    d.type_params@.map_values(|p: TypeParam| p.kind)
}

/// The built-in definitions, each under its own name: `Result<T, E>` with `Ok(T)` and `Err(E)`,
/// `List<T>` with `Nil` and `Cons(T, List<T>)`, and `Functor<F>`, an alias of
/// its constructor parameter; no parameter has bounds.
pub open spec fn builtin_generic_defs(m: Map<Seq<char>, GenericTypeDef>) -> bool {
    &&& m.dom() == builtin_generic_names()
    &&& forall|n: Seq<char>| #[trigger] m.contains_key(n) ==> m[n].name@ == n
    &&& param_names(m["Result"@]) == seq!["T"@, "E"@]
    &&& param_kinds(m["Result"@]) == seq![Kind::Type, Kind::Type]
    &&& enum_variants(m["Result"@].body)
        == seq![("Ok"@, seq![GTerm::Param("T"@)]), ("Err"@, seq![GTerm::Param("E"@)])]
    &&& m["Result"@].body is Enum
    &&& param_names(m["List"@]) == seq!["T"@]
    &&& param_kinds(m["List"@]) == seq![Kind::Type]
    &&& enum_variants(m["List"@].body) == seq![
        ("Nil"@, Seq::<GTerm>::empty()),
        ("Cons"@, seq![GTerm::Param("T"@), GTerm::Named("List"@, seq![GTerm::Param("T"@)])]),
    ]
    &&& m["List"@].body is Enum
    &&& param_names(m["Functor"@]) == seq!["F"@]
    &&& param_kinds(m["Functor"@]) == seq![Kind::TypeConstructor(Box::new(Kind::Type), Box::new(Kind::Type))]
    &&& m["Functor"@].body matches GenericTypeBody::Alias(t) && t@ == GTerm::Param("F"@)
    &&& forall|n: Seq<char>, i: int| #![trigger m[n].type_params@[i]]
        m.contains_key(n) && 0 <= i < m[n].type_params@.len() ==> m[n].type_params@[i].bounds@.len() == 0
}

/// The names of a definition's type parameters, in order.
pub open spec fn param_names(d: GenericTypeDef) -> Seq<Seq<char>> {
    d.type_params@.map_values(|p: TypeParam| p.name@)
}

/// The bindings that instantiation makes: each parameter to the argument at
/// its position, a later parameter of the same name winning.
pub open spec fn zip_subst(params: Seq<Seq<char>>, args: Seq<GTerm>) -> Map<Seq<char>, GTerm>
    decreases params.len(),
{
    if params.len() == 0 || args.len() == 0 {
        Map::empty()
    } else {
        zip_subst(params.drop_last(), args.drop_last()).insert(params.last(), args.last())
    }
}

/// The outcome of instantiating definition `def` (if any) named `name`.
pub open spec fn instantiate_outcome(name: Seq<char>, def: Option<GenericTypeDef>, args: Seq<GTerm>) -> Result<GTerm, Seq<char>> {
    match def {
        None => Err("Unknown generic type: "@ + name),
        Some(d) =>
            if d.type_params@.len() != args.len() {
                Err(name + " expects "@ + decimal(d.type_params@.len()) + " type arguments, got "@ + decimal(args.len()))
            } else {
                match d.body {
                    GenericTypeBody::Alias(t) => Ok(gsubst(zip_subst(param_names(d), args), t@)),
                    _ => Ok(GTerm::Named(name, args)),
                }
            },
    }
}

/// The names of the built-in generic types.
pub open spec fn builtin_generic_names() -> Set<Seq<char>> {
    set!["Result"@, "List"@, "Functor"@]
}

/// A registry of generic type definitions by name.
pub struct GenericTypeRegistry {
    types: NameMap<GenericTypeDef>,
}

impl GenericTypeRegistry {
    /// The definitions by name.
    pub closed spec fn view(self) -> Map<Seq<char>, GenericTypeDef> {
        self.types.view()
    }

    /// The registry's internal invariant.
    pub closed spec fn wf(self) -> bool {
        self.types.wf()
    }

    /// A registry holding the built-in generic types.
    pub fn new() -> (r: Self)
        ensures
            r.wf(),
            builtin_generic_defs(r.view()),
    {
        let mut registry = GenericTypeRegistry { types: NameMap::new() };
        registry.register_builtin_types();
        registry
    }

    fn register_builtin_types(&mut self)
        requires
            old(self).wf(),
            old(self).view() == Map::<Seq<char>, GenericTypeDef>::empty(),
        ensures
            final(self).wf(),
            builtin_generic_defs(final(self).view()),
    {
        proof {
            reveal_strlit("Result");
            reveal_strlit("List");
            reveal_strlit("Functor");
        }
        let result = GenericTypeDef {
            name: owned("Result"),
            type_params: vec![
                TypeParam { name: owned("T"), kind: Kind::Type, bounds: Vec::new() },
                TypeParam { name: owned("E"), kind: Kind::Type, bounds: Vec::new() },
            ],
            body: GenericTypeBody::Enum {
                variants: vec![
                    (owned("Ok"), vec![GenericType::Param(owned("T"))]),
                    (owned("Err"), vec![GenericType::Param(owned("E"))]),
                ],
            },
        };
        assert(param_names(result) =~= seq!["T"@, "E"@]);
        assert(param_kinds(result) =~= seq![Kind::Type, Kind::Type]);
        proof {
            reveal_with_fuel(gterms_of, 2);
            assert(enum_variants(result.body)
                =~= seq![("Ok"@, seq![GTerm::Param("T"@)]), ("Err"@, seq![GTerm::Param("E"@)])]);
        }
        let ghost result_def = result;
        self.register(result);
        let list_args = vec![GenericType::Param(owned("T"))];
        proof {
            reveal_with_fuel(gterms_of, 2);
            assert(gterms_of(list_args@) =~= seq![GTerm::Param("T"@)]);
        }
        let list_of_t = GenericType::Named(owned("List"), list_args);
        assert(list_of_t@ == GTerm::Named("List"@, seq![GTerm::Param("T"@)]));
        let nil_fields: Vec<GenericType> = Vec::new();
        let cons_fields = vec![GenericType::Param(owned("T")), list_of_t];
        proof {
            reveal_with_fuel(gterms_of, 3);
            assert(gterms_of(nil_fields@) =~= Seq::<GTerm>::empty());
            assert(gterms_of(cons_fields@)
                =~= seq![GTerm::Param("T"@), GTerm::Named("List"@, seq![GTerm::Param("T"@)])]);
        }
        let list = GenericTypeDef {
            name: owned("List"),
            type_params: vec![TypeParam { name: owned("T"), kind: Kind::Type, bounds: Vec::new() }],
            body: GenericTypeBody::Enum { variants: vec![(owned("Nil"), nil_fields), (owned("Cons"), cons_fields)] },
        };
        assert(param_names(list) =~= seq!["T"@]);
        assert(param_kinds(list) =~= seq![Kind::Type]);
        assert(enum_variants(list.body) =~= seq![
            ("Nil"@, Seq::<GTerm>::empty()),
            ("Cons"@, seq![GTerm::Param("T"@), GTerm::Named("List"@, seq![GTerm::Param("T"@)])]),
        ]);
        let ghost list_def = list;
        self.register(list);
        let functor = GenericTypeDef {
            name: owned("Functor"),
            type_params: vec![TypeParam {
                name: owned("F"),
                kind: Kind::TypeConstructor(Box::new(Kind::Type), Box::new(Kind::Type)),
                bounds: Vec::new(),
            }],
            body: GenericTypeBody::Alias(GenericType::Param(owned("F"))),
        };
        assert(param_names(functor) =~= seq!["F"@]);
        assert(param_kinds(functor) =~= seq![Kind::TypeConstructor(Box::new(Kind::Type), Box::new(Kind::Type))]);
        let ghost functor_def = functor;
        self.register(functor);
        proof {
            assert("Result"@.len() == 6 && "List"@.len() == 4 && "Functor"@.len() == 7);
            assert("Result"@ != "List"@ && "Result"@ != "Functor"@ && "List"@ != "Functor"@);
            assert(self.view().dom() =~= builtin_generic_names());
            assert(self.view()["Result"@] == result_def);
            assert(self.view()["List"@] == list_def);
            assert(self.view()["Functor"@] == functor_def);
        }
    }

    /// Registers a definition under its name, replacing an earlier one.
    pub fn register(&mut self, def: GenericTypeDef)
        requires
            old(self).wf(),
        ensures
            final(self).wf(),
            final(self).view() == old(self).view().insert(def.name@, def),
    {
        let name = def.name.clone();
        self.types.insert(name, def);
    }

    /// The definition named `name`, if there is one.
    pub fn get(&self, name: &str) -> (r: Option<&GenericTypeDef>)
        requires
            self.wf(),
        ensures
            match r {
                Some(d) => self.view().contains_key(name@) && *d == self.view()[name@],
                None => !self.view().contains_key(name@),
            },
    {
        self.types.get(name)
    }

    /// Instantiates generic type `name` with `type_args`: an alias is
    /// expanded, any other definition gives the named type applied to the
    /// arguments.
    pub fn instantiate(&self, name: &str, type_args: Vec<GenericType>) -> (r: Result<GenericType, String>)
        requires
            self.wf(),
        ensures
            match (r, instantiate_outcome(name@,
                if self.view().contains_key(name@) { Some(self.view()[name@]) } else { None },
                gterms_of(type_args@))) {
                (Ok(g), Ok(t)) => g@ == t,
                (Err(m), Err(n)) => m@ == n,
                _ => false,
            },
    {
        let def = match self.get(name) {
            Some(d) => d,
            None => {
                return Err(owned("Unknown generic type: ").concat(name));
            },
        };
        proof { lemma_gterms_of_len(type_args@); }
        if def.type_params.len() != type_args.len() {
            let a = usize_to_string(def.type_params.len());
            let b = usize_to_string(type_args.len());
            return Err(owned(name).concat(" expects ").concat(a.as_str()).concat(" type arguments, got ").concat(b.as_str()));
        }
        let ghost params = param_names(*def);
        let ghost targs = gterms_of(type_args@);
        let mut subst: NameMap<GenericType> = NameMap::new();
        let mut i: usize = 0;
        assert(gsubst_view(subst.view()) =~= zip_subst(params.take(0), targs.take(0)));
        while i < def.type_params.len()
            invariant
                i <= def.type_params@.len(),
                def.type_params@.len() == type_args@.len(),
                params == param_names(*def),
                targs == gterms_of(type_args@),
                targs.len() == type_args@.len(),
                subst.wf(),
                gsubst_view(subst.view()) == zip_subst(params.take(i as int), targs.take(i as int)),
            decreases def.type_params@.len() - i,
        {
            let pname = def.type_params[i].name.clone();
            let arg = type_args[i].duplicate();
            let ghost before = subst.view();
            let ghost argv = arg@;
            subst.insert(pname, arg);
            proof {
                lemma_gterms_of_index(type_args@, i as int);
                assert(params.take(i + 1).drop_last() =~= params.take(i as int));
                assert(targs.take(i + 1).drop_last() =~= targs.take(i as int));
                assert(params.take(i + 1).last() == params[i as int]);
                assert(targs.take(i + 1).last() == targs[i as int]);
                assert(gsubst_view(subst.view()) =~= gsubst_view(before).insert(params[i as int], argv));
            }
            i += 1;
        }
        proof {
            assert(params.take(params.len() as int) =~= params);
            assert(targs.take(targs.len() as int) =~= targs);
        }
        match &def.body {
            GenericTypeBody::Alias(ty) => Ok(ty.substitute(&subst)),
            _ => Ok(GenericType::Named(owned(name), type_args)),
        }
    }
}

impl Default for GenericTypeRegistry {
    fn default() -> (r: Self)
        ensures
            r.wf(),
            r.view().dom() == builtin_generic_names(),
    {
        Self::new()
    }
}

/// Checks that `ty` has kind `expected`.
pub fn check_kind(ty: &GenericType, expected: &Kind) -> (r: Result<(), String>)
    ensures
        match (r, kind_outcome(ty@)) {
            (Ok(()), Ok(k)) => k == *expected,
            (Err(m), Ok(k)) => k != *expected
                && m@ == "Kind mismatch: expected "@ + kind_debug_text(*expected) + ", got "@ + kind_debug_text(k),
            (Err(m), Err(n)) => m@ == n,
            _ => false,
        },
{
    let actual = infer_kind(ty)?;
    if !actual.equals(expected) {
        let e = expected.debug_string();
        let a = actual.debug_string();
        return Err(owned("Kind mismatch: expected ").concat(e.as_str()).concat(", got ").concat(a.as_str()));
    }
    Ok(())
}

/// The kind of `ty`: a plain type, except that an application takes the
/// result kind of its constructor, and fails when that is no constructor.
pub fn infer_kind(ty: &GenericType) -> (r: Result<Kind, String>)
    ensures
        match (r, kind_outcome(ty@)) {
            (Ok(k), Ok(j)) => k == j,
            (Err(m), Err(n)) => m@ == n,
            _ => false,
        },
    decreases ty,
{
    match ty {
        GenericType::App(f, _) => {
            match infer_kind(f)? {
                Kind::TypeConstructor(_, result) => Ok(*result),
                _ => Err(owned("Type application to non-constructor")),
            }
        },
        _ => Ok(Kind::Type),
    }
}

/// Every generic type other than an application has the plain kind.
pub proof fn lemma_non_application_kind(t: GTerm)
    requires
        !(t is App),
    ensures
        kind_outcome(t) == Ok::<Kind, Seq<char>>(Kind::Type),
{
}

/// Turning `Vec<x>` or `Option<x>` into a concrete type keeps the
/// constructor: it gives a vector or an option of the concrete type of `x`,
/// and fails exactly when `x` does.
pub proof fn lemma_concrete_keeps_constructor(x: GTerm)
    ensures
        gconcrete_outcome(x) matches Ok(e) ==> gconcrete_outcome(GTerm::Named("Vec"@, seq![x]))
            == Ok::<Type, Seq<char>>(Type::Vec(Box::new(e))),
        gconcrete_outcome(x) matches Ok(e) ==> gconcrete_outcome(GTerm::Named("Option"@, seq![x]))
            == Ok::<Type, Seq<char>>(Type::Option(Box::new(e))),
        gconcrete_outcome(x) is Err ==> gconcrete_outcome(GTerm::Named("Vec"@, seq![x])) == gconcrete_outcome(x),
        gconcrete_outcome(x) is Err ==> gconcrete_outcome(GTerm::Named("Option"@, seq![x])) == gconcrete_outcome(x),
{
    reveal_strlit("Vec");
    reveal_strlit("Option");
    assert("Option"@.len() == 6 && "Vec"@.len() == 3);
    assert(seq![x][0] == x);
}

} // verus!
