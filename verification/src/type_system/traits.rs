//! Traits (type classes) of the token language: trait definitions with
//! supertraits, implementations for types, and the checks built on them.

use vstd::prelude::*;
use vstd::string::StringExecFns;
use std::collections::HashMap;
use crate::name_map::{NameMap, lemma_entries_are_view};
use crate::type_system::types::{Type, type_text};
use crate::util::{owned, str_eq};

verus! {

/// A method that a trait requires.
#[derive(Debug, Clone)]
pub struct MethodSignature {
    pub name: String,
    pub arg_types: Vec<Type>,
    pub return_type: Type,
}

/// A trait definition.
#[derive(Debug, Clone)]
pub struct TraitDef {
    pub name: String,
    pub type_params: Vec<String>,
    pub methods: Vec<MethodSignature>,
    pub supertraits: Vec<String>,
}

/// An implementation of a trait for a type.
#[derive(Debug, Clone)]
pub struct TraitImpl {
    pub trait_name: String,
    pub for_type: Type,
    pub type_args: HashMap<String, Type>,
}

/// The texts of a sequence of strings.
pub open spec fn names_of(v: Seq<String>) -> Seq<Seq<char>> {
    v.map_values(|s: String| s@)
}

/// What a trait definition says, by value: its name, type parameters, methods
/// (name, argument types, return type) and supertraits.
pub open spec fn trait_view(d: TraitDef) -> (Seq<char>, Seq<Seq<char>>, Seq<(Seq<char>, Seq<Type>, Type)>, Seq<Seq<char>>) {
    (
        d.name@,
        names_of(d.type_params@),
        d.methods@.map_values(|m: MethodSignature| (m.name@, m.arg_types@, m.return_type)),
        names_of(d.supertraits@),
    )
}

/// The built-in traits.
pub open spec fn builtin_trait_names() -> Set<Seq<char>> {
    set!["Numeric"@, "Eq"@, "Ord"@, "Collection"@, "Show"@]
}

/// The definition of each built-in trait.
pub open spec fn builtin_trait(n: Seq<char>) -> (Seq<char>, Seq<Seq<char>>, Seq<(Seq<char>, Seq<Type>, Type)>, Seq<Seq<char>>) {
    if n == "Numeric"@ {
        (n, seq![], seq![("to_i32"@, Seq::<Type>::empty(), Type::I32)], seq![])
    } else if n == "Ord"@ {
        (n, seq![], seq![], seq!["Eq"@])
    } else if n == "Collection"@ {
        (n, seq!["T"@], seq![("len"@, Seq::<Type>::empty(), Type::I32)], seq![])
    } else if n == "Show"@ {
        (n, seq![], seq![("to_string"@, Seq::<Type>::empty(), Type::String)], seq![])
    } else {
        (n, seq![], seq![], seq![])
    }
}

/// The built-in implementations, in the order they are made.
pub open spec fn builtin_impls() -> Seq<(Type, Seq<char>)> {
    seq![
        (Type::I32, "Numeric"@),
        (Type::CharacterHP, "Numeric"@),
        (Type::I32, "Eq"@),
        (Type::Bool, "Eq"@),
        (Type::String, "Eq"@),
        (Type::Character, "Eq"@),
        (Type::Team, "Eq"@),
        (Type::CharacterHP, "Eq"@),
        (Type::TeamSide, "Eq"@),
        (Type::I32, "Ord"@),
        (Type::CharacterHP, "Ord"@),
    ]
}

/// The supertraits that definition `n` in `defs` names.
pub open spec fn supers_of(defs: Map<Seq<char>, TraitDef>, n: Seq<char>) -> Seq<Seq<char>> {
    names_of(defs[n].supertraits@)
}

/// `p` is a chain of traits: each but the last is defined and names the next
/// as a supertrait.
pub open spec fn is_chain(defs: Map<Seq<char>, TraitDef>, p: Seq<Seq<char>>) -> bool {
    forall|i: int| 0 <= i < p.len() - 1 ==> defs.contains_key(#[trigger] p[i]) && supers_of(defs, p[i]).contains(p[i + 1])
}

/// `x` ends a chain that starts in `start`.
pub open spec fn reached(defs: Map<Seq<char>, TraitDef>, start: Set<Seq<char>>, x: Seq<char>) -> bool {
    exists|p: Seq<Seq<char>>| #[trigger] is_chain(defs, p) && p.len() > 0 && start.contains(p[0]) && p.last() == x
}

proof fn lemma_reached_start(defs: Map<Seq<char>, TraitDef>, start: Set<Seq<char>>, x: Seq<char>)
    requires
        start.contains(x),
    ensures
        reached(defs, start, x),
{
    let p = seq![x];
    assert(is_chain(defs, p));
}

proof fn lemma_reached_step(defs: Map<Seq<char>, TraitDef>, start: Set<Seq<char>>, mid: Seq<char>, x: Seq<char>)
    requires
        reached(defs, start, mid),
        defs.contains_key(mid),
        supers_of(defs, mid).contains(x),
    ensures
        reached(defs, start, x),
{
    let p = choose|p: Seq<Seq<char>>| #[trigger] is_chain(defs, p) && p.len() > 0 && start.contains(p[0]) && p.last() == mid;
    let q = p.push(x);
    assert forall|i: int| 0 <= i < q.len() - 1 implies defs.contains_key(#[trigger] q[i]) && supers_of(defs, q[i]).contains(q[i + 1]) by {
        if i < p.len() - 1 {
            assert(q[i] == p[i] && q[i + 1] == p[i + 1]);
        } else {
            assert(q[i] == mid && q[i + 1] == x);
        }
    }
    assert(is_chain(defs, q));
    assert(q[0] == p[0]);
}

/// The texts of the first `n` names in `v`, as a set.
spec fn name_set(v: Seq<String>) -> Set<Seq<char>> {
    names_of(v).to_set()
}

/// The trait system: trait definitions, the implementations made, and an
/// index from each type to the traits implemented for it.
pub struct TraitSystem {
    traits: NameMap<TraitDef>,
    implementations: Vec<TraitImpl>,
    type_to_traits: Vec<(Type, Vec<String>)>,
}

impl TraitSystem {
    /// The trait definitions by name.
    pub closed spec fn defs(self) -> Map<Seq<char>, TraitDef> {
        self.traits.view()
    }

    /// The implementations made, as (type, trait name), in order.
    pub closed spec fn impls(self) -> Seq<(Type, Seq<char>)> {
        self.implementations@.map_values(|ti: TraitImpl| (ti.for_type, ti.trait_name@))
    }

    /// Trait `name` was implemented for `ty`.
    pub open spec fn implemented_directly(self, ty: Type, name: Seq<char>) -> bool {
        self.impls().contains((ty, name))
    }

    /// `ty` implements `name`: directly, or `Numeric` as itself, or a vector
    /// as a `Collection`.
    pub open spec fn implements_spec(self, ty: Type, name: Seq<char>) -> bool {
        ||| self.implemented_directly(ty, name)
        ||| (ty == Type::Numeric && name == "Numeric"@)
        ||| (ty is Vec && name == "Collection"@)
    }

    /// The traits that `ty` has before supertraits are added.
    pub open spec fn start_traits(self, ty: Type) -> Set<Seq<char>> {
        Set::new(|n: Seq<char>| self.implemented_directly(ty, n)
            || (ty == Type::Numeric && n == "Numeric"@)
            || (ty is Vec && n == "Collection"@))
    }

    /// The traits of `ty` with all their supertraits, transitively: the ends
    /// of the chains that start at a trait `ty` starts with.
    pub open spec fn traits_with_supertraits(self, ty: Type) -> Set<Seq<char>> {
        Set::new(|n: Seq<char>| reached(self.defs(), self.start_traits(ty), n))
    }

    /// The index agrees with the implementations, and names are unique.
    pub closed spec fn wf(self) -> bool {
        &&& self.traits.wf()
        &&& forall|i: int, j: int| 0 <= i < j < self.type_to_traits@.len()
                ==> self.type_to_traits@[i].0 != self.type_to_traits@[j].0
        &&& forall|i: int| 0 <= i < self.type_to_traits@.len()
                ==> names_of(#[trigger] self.type_to_traits@[i].1@).no_duplicates()
        &&& forall|t: Type, n: Seq<char>| #[trigger] self.impls().contains((t, n)) <==> exists|i: int|
                0 <= i < self.type_to_traits@.len() && self.type_to_traits@[i].0 == t
                && names_of(#[trigger] self.type_to_traits@[i].1@).contains(n)
    }

    /// A trait system with the built-in traits and implementations.
    pub fn new() -> (r: Self)
        ensures
            r.wf(),
            r.impls() == builtin_impls(),
            r.defs().dom() == builtin_trait_names(),
            forall|n: Seq<char>| #[trigger] r.defs().contains_key(n) ==> trait_view(r.defs()[n]) == builtin_trait(n),
    {
        let mut system = TraitSystem { traits: NameMap::new(), implementations: Vec::new(), type_to_traits: Vec::new() };
        proof {
            assert(system.impls() =~= Seq::<(Type, Seq<char>)>::empty());
        }
        system.register_builtin_traits();
        system
    }

    fn register_builtin_traits(&mut self)
        requires
            old(self).wf(),
            old(self).impls() == Seq::<(Type, Seq<char>)>::empty(),
            old(self).defs() == Map::<Seq<char>, TraitDef>::empty(),
        ensures
            final(self).wf(),
            final(self).impls() == builtin_impls(),
            final(self).defs().dom() == builtin_trait_names(),
            forall|n: Seq<char>| #[trigger] final(self).defs().contains_key(n) ==> trait_view(final(self).defs()[n]) == builtin_trait(n),
    {
        proof {
            reveal_strlit("Numeric");
            reveal_strlit("Eq");
            reveal_strlit("Ord");
            reveal_strlit("Collection");
            reveal_strlit("Show");
        }
        let numeric = TraitDef {
            name: owned("Numeric"),
            type_params: Vec::new(),
            methods: vec![MethodSignature { name: owned("to_i32"), arg_types: Vec::new(), return_type: Type::I32 }],
            supertraits: Vec::new(),
        };
        proof { assert(trait_view(numeric) =~~= builtin_trait("Numeric"@)); }
        self.define_trait(numeric);
        self.implement_trait(TraitImpl { trait_name: owned("Numeric"), for_type: Type::I32, type_args: HashMap::new() });
        self.implement_trait(TraitImpl { trait_name: owned("Numeric"), for_type: Type::CharacterHP, type_args: HashMap::new() });

        let eq = TraitDef { name: owned("Eq"), type_params: Vec::new(), methods: Vec::new(), supertraits: Vec::new() };
        proof {
            assert("Eq"@.len() == 2 && "Numeric"@.len() == 7 && "Collection"@.len() == 10 && "Show"@.len() == 4);
            assert("Eq"@ != "Numeric"@ && "Eq"@ != "Collection"@ && "Eq"@ != "Show"@ && "Eq"@ != "Ord"@);
            assert(names_of(eq.type_params@) =~= Seq::<Seq<char>>::empty());
            assert(names_of(eq.supertraits@) =~= builtin_trait("Eq"@).3);
            assert(trait_view(eq).2 =~= builtin_trait("Eq"@).2);
            assert(trait_view(eq) =~~= builtin_trait("Eq"@));
        }
        self.define_trait(eq);
        let eq_types = vec![Type::I32, Type::Bool, Type::String, Type::Character, Type::Team, Type::CharacterHP, Type::TeamSide];
        let ghost base = self.impls();
        let mut i: usize = 0;
        while i < eq_types.len()
            invariant
                self.wf(),
                eq_types@ == seq![Type::I32, Type::Bool, Type::String, Type::Character, Type::Team, Type::CharacterHP, Type::TeamSide],
                i <= eq_types@.len(),
                self.impls() == base + eq_types@.take(i as int).map_values(|t: Type| (t, "Eq"@)),
                self.defs() == old(self).defs().insert("Numeric"@, numeric).insert("Eq"@, eq),
            decreases eq_types@.len() - i,
        {
            let ty = eq_types[i].duplicate();
            self.implement_trait(TraitImpl { trait_name: owned("Eq"), for_type: ty, type_args: HashMap::new() });
            assert(eq_types@.take(i + 1).map_values(|t: Type| (t, "Eq"@))
                =~= eq_types@.take(i as int).map_values(|t: Type| (t, "Eq"@)).push((eq_types@[i as int], "Eq"@)));
            i += 1;
        }
        assert(eq_types@.take(7) =~= eq_types@);

        let ord = TraitDef { name: owned("Ord"), type_params: Vec::new(), methods: Vec::new(), supertraits: vec![owned("Eq")] };
        proof {
            assert("Ord"@.len() == 3 && "Numeric"@.len() == 7 && "Collection"@.len() == 10 && "Show"@.len() == 4);
            assert("Ord"@ != "Numeric"@ && "Ord"@ != "Collection"@ && "Ord"@ != "Show"@);
            assert(names_of(ord.type_params@) =~= Seq::<Seq<char>>::empty());
            assert(names_of(ord.supertraits@) =~= builtin_trait("Ord"@).3);
            assert(trait_view(ord).2 =~= builtin_trait("Ord"@).2);
            assert(trait_view(ord) =~~= builtin_trait("Ord"@));
        }
        self.define_trait(ord);
        self.implement_trait(TraitImpl { trait_name: owned("Ord"), for_type: Type::I32, type_args: HashMap::new() });
        self.implement_trait(TraitImpl { trait_name: owned("Ord"), for_type: Type::CharacterHP, type_args: HashMap::new() });

        let collection = TraitDef {
            name: owned("Collection"),
            type_params: vec![owned("T")],
            methods: vec![MethodSignature { name: owned("len"), arg_types: Vec::new(), return_type: Type::I32 }],
            supertraits: Vec::new(),
        };
        proof { assert(trait_view(collection) =~~= builtin_trait("Collection"@)); }
        self.define_trait(collection);

        let show = TraitDef {
            name: owned("Show"),
            type_params: Vec::new(),
            methods: vec![MethodSignature { name: owned("to_string"), arg_types: Vec::new(), return_type: Type::String }],
            supertraits: Vec::new(),
        };
        proof { assert(trait_view(show) =~~= builtin_trait("Show"@)); }
        self.define_trait(show);
        proof {
            assert(self.impls() =~= builtin_impls());
            assert(self.defs().dom() =~= builtin_trait_names());
        }
    }

    /// Defines a trait, replacing an earlier definition of the same name.
    pub fn define_trait(&mut self, trait_def: TraitDef)
        requires
            old(self).wf(),
        ensures
            final(self).wf(),
            final(self).defs() == old(self).defs().insert(trait_def.name@, trait_def),
            final(self).impls() == old(self).impls(),
    {
        let name = trait_def.name.clone();
        self.traits.insert(name, trait_def);
        assert(self.impls() == old(self).impls());
        assert(self.type_to_traits@ == old(self).type_to_traits@);
    }

    /// The position in the index of the entry for `ty`, if there is one.
    fn index_position(&self, ty: &Type) -> (r: Option<usize>)
        ensures
            match r {
                Some(i) => i < self.type_to_traits@.len() && self.type_to_traits@[i as int].0 == *ty,
                None => forall|i: int| 0 <= i < self.type_to_traits@.len() ==> self.type_to_traits@[i].0 != *ty,
            },
    {
        let mut i: usize = 0;
        while i < self.type_to_traits.len()
            invariant
                i <= self.type_to_traits@.len(),
                forall|j: int| 0 <= j < i ==> self.type_to_traits@[j].0 != *ty,
            decreases self.type_to_traits@.len() - i,
        {
            if self.type_to_traits[i].0.equals(ty) {
                return Some(i);
            }
            i += 1;
        }
        None
    }

    /// Records an implementation of a trait for a type.
    pub fn implement_trait(&mut self, trait_impl: TraitImpl)
        requires
            old(self).wf(),
        ensures
            final(self).wf(),
            final(self).impls() == old(self).impls().push((trait_impl.for_type, trait_impl.trait_name@)),
            final(self).defs() == old(self).defs(),
    {
        let ty = trait_impl.for_type.duplicate();
        let name = trait_impl.trait_name.clone();
        let ghost t0 = trait_impl.for_type;
        let ghost n0 = trait_impl.trait_name@;
        let ghost old_idx = self.type_to_traits@;
        match self.index_position(&ty) {
            Some(p) => {
                let present = name_list_has(&self.type_to_traits[p].1, name.as_str());
                if !present {
                    let mut names = clone_names(&self.type_to_traits[p].1);
                    let ghost before = self.type_to_traits@[p as int].1@;
                    names.push(name);
                    let entry = (ty, names);
                    self.type_to_traits.set(p, entry);
                    proof {
                        assert(names_of(self.type_to_traits@[p as int].1@) =~= names_of(before).push(n0));
                    }
                }
                self.implementations.push(trait_impl);
                proof {
                    let idx = self.type_to_traits@;
                    assert(self.impls() =~= old(self).impls().push((t0, n0)));
                    assert forall|i: int| 0 <= i < idx.len() implies names_of(#[trigger] idx[i].1@).no_duplicates() by {
                        if i != p {
                            assert(idx[i] == old_idx[i]);
                        }
                    }
                    assert forall|t: Type, n: Seq<char>| #[trigger] self.impls().contains((t, n)) <==> exists|i: int|
                        0 <= i < idx.len() && idx[i].0 == t && names_of(#[trigger] idx[i].1@).contains(n) by {
                        if self.impls().contains((t, n)) {
                            if t == t0 && n == n0 {
                                if present {
                                    assert(names_of(idx[p as int].1@).contains(n));
                                } else {
                                    assert(names_of(idx[p as int].1@).last() == n);
                                }
                            } else {
                                let k = choose|k: int| 0 <= k < self.impls().len() && self.impls()[k] == (t, n);
                                assert(old(self).impls()[k] == (t, n));
                                assert(old(self).impls().contains((t, n)));
                                let i = choose|i: int| 0 <= i < old_idx.len() && old_idx[i].0 == t && names_of(#[trigger] old_idx[i].1@).contains(n);
                                if i == p && !present {
                                    let m = choose|m: int| 0 <= m < names_of(old_idx[i].1@).len() && names_of(old_idx[i].1@)[m] == n;
                                    assert(names_of(idx[i].1@)[m] == n);
                                }
                                assert(names_of(idx[i].1@).contains(n));
                            }
                        } else {
                            if exists|i: int| 0 <= i < idx.len() && idx[i].0 == t && names_of(#[trigger] idx[i].1@).contains(n) {
                                let i = choose|i: int| 0 <= i < idx.len() && idx[i].0 == t && names_of(#[trigger] idx[i].1@).contains(n);
                                if i == p && !present {
                                    let m = choose|m: int| 0 <= m < names_of(idx[i].1@).len() && names_of(idx[i].1@)[m] == n;
                                    if m < names_of(old_idx[i].1@).len() {
                                        assert(names_of(old_idx[i].1@)[m] == n);
                                        assert(names_of(old_idx[i].1@).contains(n));
                                        assert(old(self).impls().contains((t, n)));
                                        let k = choose|k: int| 0 <= k < old(self).impls().len() && old(self).impls()[k] == (t, n);
                                        assert(self.impls()[k] == (t, n));
                                    } else {
                                        assert(self.impls()[self.impls().len() - 1] == (t, n));
                                    }
                                } else {
                                    assert(idx[i] == old_idx[i]);
                                    assert(old(self).impls().contains((t, n)));
                                    let k = choose|k: int| 0 <= k < old(self).impls().len() && old(self).impls()[k] == (t, n);
                                    assert(self.impls()[k] == (t, n));
                                }
                            }
                        }
                    }
                }
            },
            None => {
                let names = vec![name];
                self.type_to_traits.push((ty, names));
                self.implementations.push(trait_impl);
                proof {
                    let idx = self.type_to_traits@;
                    let last = idx.len() - 1;
                    assert(names_of(idx[last].1@) =~= seq![n0]);
                    assert(self.impls() =~= old(self).impls().push((t0, n0)));
                    assert forall|i: int| 0 <= i < idx.len() implies names_of(#[trigger] idx[i].1@).no_duplicates() by {
                        if i != last {
                            assert(idx[i] == old_idx[i]);
                        }
                    }
                    assert forall|t: Type, n: Seq<char>| #[trigger] self.impls().contains((t, n)) <==> exists|i: int|
                        0 <= i < idx.len() && idx[i].0 == t && names_of(#[trigger] idx[i].1@).contains(n) by {
                        if self.impls().contains((t, n)) {
                            if t == t0 && n == n0 {
                                assert(names_of(idx[last].1@)[0] == n);
                            } else {
                                let k = choose|k: int| 0 <= k < self.impls().len() && self.impls()[k] == (t, n);
                                assert(old(self).impls()[k] == (t, n));
                                assert(old(self).impls().contains((t, n)));
                                let i = choose|i: int| 0 <= i < old_idx.len() && old_idx[i].0 == t && names_of(#[trigger] old_idx[i].1@).contains(n);
                                assert(idx[i] == old_idx[i]);
                            }
                        } else {
                            if exists|i: int| 0 <= i < idx.len() && idx[i].0 == t && names_of(#[trigger] idx[i].1@).contains(n) {
                                let i = choose|i: int| 0 <= i < idx.len() && idx[i].0 == t && names_of(#[trigger] idx[i].1@).contains(n);
                                if i == last {
                                    assert(self.impls()[self.impls().len() - 1] == (t, n));
                                } else {
                                    assert(idx[i] == old_idx[i]);
                                    assert(old(self).impls().contains((t, n)));
                                    let k = choose|k: int| 0 <= k < old(self).impls().len() && old(self).impls()[k] == (t, n);
                                    assert(self.impls()[k] == (t, n));
                                }
                            }
                        }
                    }
                }
            },
        }
    }

    /// Whether `ty` implements trait `trait_name`.
    pub fn implements(&self, ty: &Type, trait_name: &str) -> (r: bool)
        requires
            self.wf(),
        ensures
            r == self.implements_spec(*ty, trait_name@),
    {
        proof {
            reveal_strlit("Numeric");
            reveal_strlit("Collection");
        }
        match self.index_position(ty) {
            Some(p) => {
                if name_list_has(&self.type_to_traits[p].1, trait_name) {
                    return true;
                }
                proof {
                    assert forall|i: int| 0 <= i < self.type_to_traits@.len() && self.type_to_traits@[i].0 == *ty
                        implies !names_of(self.type_to_traits@[i].1@).contains(trait_name@) by {
                        if i != p {
                            assert(self.type_to_traits@[i].0 != self.type_to_traits@[p as int].0);
                        }
                    }
                    assert(!self.impls().contains((*ty, trait_name@)));
                }
            },
            None => {
                assert(!self.impls().contains((*ty, trait_name@)));
            },
        }
        match ty {
            Type::Numeric => str_eq(trait_name, "Numeric"),
            Type::Vec(_) => str_eq(trait_name, "Collection"),
            _ => false,
        }
    }

    /// The definition of trait `name`, if there is one.
    pub fn get_trait(&self, name: &str) -> (r: Option<&TraitDef>)
        requires
            self.wf(),
        ensures
            match r {
                Some(d) => self.defs().contains_key(name@) && *d == self.defs()[name@],
                None => !self.defs().contains_key(name@),
            },
    {
        self.traits.get(name)
    }

    /// The traits that `ty` has, each once, with their supertraits.
    pub fn traits_for_type(&self, ty: &Type) -> (r: Vec<String>)
        requires
            self.wf(),
        ensures
            names_of(r@).no_duplicates(),
            names_of(r@).to_set() == self.traits_with_supertraits(*ty),
    {
        proof {
            reveal_strlit("Numeric");
            reveal_strlit("Collection");
            lemma_entries_are_view(self.traits);
        }
        let ghost defs = self.defs();
        let mut all: Vec<String> = Vec::new();
        match self.index_position(ty) {
            Some(p) => {
                all = clone_names(&self.type_to_traits[p].1);
                proof {
                    assert forall|n: Seq<char>| #![auto] names_of(all@).contains(n) <==> self.implemented_directly(*ty, n) by {
                        if names_of(all@).contains(n) {
                            assert(names_of(self.type_to_traits@[p as int].1@).contains(n));
                        }
                        if self.impls().contains((*ty, n)) {
                            let i = choose|i: int| 0 <= i < self.type_to_traits@.len() && self.type_to_traits@[i].0 == *ty
                                && names_of(#[trigger] self.type_to_traits@[i].1@).contains(n);
                            if i != p {
                                assert(self.type_to_traits@[i].0 != self.type_to_traits@[p as int].0);
                            }
                        }
                    }
                }
            },
            None => {
                proof {
                    assert forall|n: Seq<char>| #![auto] names_of(all@).contains(n) <==> self.implemented_directly(*ty, n) by {
                        if self.impls().contains((*ty, n)) {
                            let i = choose|i: int| 0 <= i < self.type_to_traits@.len() && self.type_to_traits@[i].0 == *ty
                                && names_of(#[trigger] self.type_to_traits@[i].1@).contains(n);
                        }
                    }
                }
            },
        }
        match ty {
            Type::Numeric => push_unique(&mut all, owned("Numeric")),
            Type::Vec(_) => push_unique(&mut all, owned("Collection")),
            _ => {},
        }
        let ghost start = self.start_traits(*ty);
        assert(names_of(all@).to_set() =~= start) by {
            assert forall|n: Seq<char>| names_of(all@).to_set().contains(n) <==> start.contains(n) by {
                assert(names_of(all@).to_set().contains(n) <==> names_of(all@).contains(n));
            }
        }
        // Every name that can ever be added: the starting names and the
        // supertraits named by any definition.
        let mut universe: Vec<String> = clone_names(&all);
        let mut e: usize = 0;
        while e < self.traits.len()
            invariant
                self.wf(),
                defs == self.defs(),
                e <= self.traits.size(),
                names_of(all@).to_set() == start,
                forall|x: Seq<char>| names_of(all@).contains(x) ==> #[trigger] names_of(universe@).contains(x),
                forall|j: int, x: Seq<char>| 0 <= j < e && #[trigger] names_of(self.traits.entry_seq()[j].1.supertraits@).contains(x)
                    ==> names_of(universe@).contains(x),
            decreases self.traits.size() - e,
        {
            let (_name, def) = self.traits.entry(e);
            let ghost before = universe@;
            append_names(&mut universe, &def.supertraits);
            proof {
                assert forall|x: Seq<char>| names_of(before).contains(x) implies names_of(universe@).contains(x) by {
                    let m = choose|m: int| 0 <= m < names_of(before).len() && names_of(before)[m] == x;
                    assert(names_of(universe@)[m] == x);
                }
                assert forall|x: Seq<char>| names_of(all@).contains(x) implies #[trigger] names_of(universe@).contains(x) by {
                    assert(names_of(before).contains(x));
                }
                assert forall|j: int, x: Seq<char>| 0 <= j < e + 1 && #[trigger] names_of(self.traits.entry_seq()[j].1.supertraits@).contains(x)
                    implies names_of(universe@).contains(x) by {
                    if j < e {
                        assert(names_of(before).contains(x));
                    } else {
                        let m = choose|m: int| 0 <= m < names_of(def.supertraits@).len() && names_of(def.supertraits@)[m] == x;
                        assert(names_of(universe@)[names_of(before).len() + m] == x);
                    }
                }
            }
            e += 1;
        }
        proof {
            assert forall|x: Seq<char>| #[trigger] names_of(all@).contains(x) implies reached(defs, start, x) by {
                assert(names_of(all@).to_set().contains(x));
                lemma_reached_start(defs, start, x);
            }
        }
        let mut done: usize = 0;
        while done < all.len()
            invariant
                self.wf(),
                defs == self.defs(),
                done <= all@.len(),
                names_of(all@).no_duplicates(),
                forall|x: Seq<char>| names_of(all@).contains(x) ==> #[trigger] names_of(universe@).contains(x),
                forall|j: int, x: Seq<char>| 0 <= j < self.traits.size() && #[trigger] names_of(self.traits.entry_seq()[j].1.supertraits@).contains(x)
                    ==> names_of(universe@).contains(x),
                start.subset_of(names_of(all@).to_set()),
                forall|x: Seq<char>| #[trigger] names_of(all@).contains(x) ==> reached(defs, start, x),
                forall|j: int, x: Seq<char>| 0 <= j < done && defs.contains_key(names_of(all@)[j])
                    && #[trigger] supers_of(defs, names_of(all@)[j]).contains(x) ==> names_of(all@).contains(x),
            decreases universe@.len() - done,
        {
            proof {
                assert(names_of(all@).to_set().subset_of(names_of(universe@).to_set()));
                names_of(all@).unique_seq_to_set();
                names_of(universe@).lemma_cardinality_of_set();
                vstd::set_lib::lemma_len_subset(names_of(all@).to_set(), names_of(universe@).to_set());
            }
            let ghost cur = names_of(all@)[done as int];
            let current = all[done].clone();
            match self.traits.get(current.as_str()) {
                Some(def) => {
                    let ghost before = all@;
                    proof {
                        let j = choose|j: int| 0 <= j < self.traits.size() && self.traits.entry_seq()[j].0 == cur
                            && self.traits.view()[cur] == self.traits.entry_seq()[j].1;
                    }
                    let mut s: usize = 0;
                    while s < def.supertraits.len()
                        invariant
                            self.wf(),
                            defs == self.defs(),
                            defs.contains_key(cur),
                            *def == defs[cur],
                            done < all@.len(),
                            names_of(all@)[done as int] == cur,
                            s <= def.supertraits@.len(),
                            names_of(all@).no_duplicates(),
                            forall|x: Seq<char>| names_of(all@).contains(x) ==> #[trigger] names_of(universe@).contains(x),
                            forall|j: int, x: Seq<char>| 0 <= j < self.traits.size() && #[trigger] names_of(self.traits.entry_seq()[j].1.supertraits@).contains(x)
                                ==> names_of(universe@).contains(x),
                            forall|m: int| 0 <= m < before.len() ==> all@[m] == #[trigger] before[m],
                            before.len() <= all@.len(),
                            start.subset_of(names_of(all@).to_set()),
                            forall|x: Seq<char>| #[trigger] names_of(all@).contains(x) ==> reached(defs, start, x),
                            forall|m: int| 0 <= m < s ==> names_of(all@).contains(#[trigger] names_of(def.supertraits@)[m]),
                        decreases def.supertraits@.len() - s,
                    {
                        let ghost prev = all@;
                        let ghost x = def.supertraits@[s as int]@;
                        proof {
                            let j = choose|j: int| 0 <= j < self.traits.size() && self.traits.entry_seq()[j].0 == cur
                                && self.traits.view()[cur] == self.traits.entry_seq()[j].1;
                            assert(names_of(def.supertraits@)[s as int] == x);
                            assert(names_of(self.traits.entry_seq()[j].1.supertraits@).contains(x));
                            assert(names_of(all@)[done as int] == cur);
                            assert(names_of(all@).contains(cur));
                            assert(supers_of(defs, cur)[s as int] == x);
                            lemma_reached_step(defs, start, cur, x);
                        }
                        push_unique(&mut all, def.supertraits[s].clone());
                        proof {
                            assert forall|m: int| 0 <= m < prev.len() implies all@[m] == prev[m] by {}
                            assert forall|y: Seq<char>| #[trigger] names_of(all@).contains(y) implies reached(defs, start, y) by {
                                if y != x {
                                    let m = choose|m: int| 0 <= m < names_of(all@).len() && names_of(all@)[m] == y;
                                    if m < prev.len() {
                                        assert(names_of(prev)[m] == y);
                                        assert(names_of(prev).contains(y));
                                    }
                                }
                            }
                            assert(start.subset_of(names_of(all@).to_set())) by {
                                assert forall|y: Seq<char>| start.contains(y) implies names_of(all@).to_set().contains(y) by {
                                    assert(names_of(prev).to_set().contains(y));
                                    let m = choose|m: int| 0 <= m < names_of(prev).len() && names_of(prev)[m] == y;
                                    assert(names_of(all@)[m] == y);
                                }
                            }
                            assert forall|m: int| 0 <= m < s + 1 implies names_of(all@).contains(#[trigger] names_of(def.supertraits@)[m]) by {
                                if m < s {
                                    let y = names_of(def.supertraits@)[m];
                                    assert(names_of(prev).contains(y));
                                    let q = choose|q: int| 0 <= q < names_of(prev).len() && names_of(prev)[q] == y;
                                    assert(names_of(all@)[q] == y);
                                }
                            }
                            assert forall|y: Seq<char>| names_of(all@).contains(y) implies #[trigger] names_of(universe@).contains(y) by {
                                if y != x {
                                    let m = choose|m: int| 0 <= m < names_of(all@).len() && names_of(all@)[m] == y;
                                    assert(names_of(prev)[m] == y);
                                    assert(names_of(prev).contains(y));
                                }
                            }
                        }
                        s += 1;
                    }
                    proof {
                        assert forall|j: int, x: Seq<char>| 0 <= j < done + 1 && defs.contains_key(names_of(all@)[j])
                            && #[trigger] supers_of(defs, names_of(all@)[j]).contains(x) implies names_of(all@).contains(x) by {
                            assert(names_of(all@)[j] == names_of(before)[j]);
                            if j < done {
                                assert(names_of(before).contains(x));
                                let q = choose|q: int| 0 <= q < names_of(before).len() && names_of(before)[q] == x;
                                assert(names_of(all@)[q] == x);
                            } else {
                                let m = choose|m: int| 0 <= m < supers_of(defs, cur).len() && supers_of(defs, cur)[m] == x;
                                assert(names_of(def.supertraits@)[m] == x);
                            }
                        }
                    }
                },
                None => {
                    proof {
                        assert forall|j: int, x: Seq<char>| 0 <= j < done + 1 && defs.contains_key(names_of(all@)[j])
                            && #[trigger] supers_of(defs, names_of(all@)[j]).contains(x) implies names_of(all@).contains(x) by {
                            if j == done {
                                assert(!defs.contains_key(cur));
                            }
                        }
                    }
                },
            }
            done += 1;
        }
        proof {
            let res = names_of(all@);
            assert forall|n: Seq<char>| res.to_set().contains(n) <==> self.traits_with_supertraits(*ty).contains(n) by {
                if res.to_set().contains(n) {
                    assert(res.contains(n));
                }
                if self.traits_with_supertraits(*ty).contains(n) {
                    let p = choose|p: Seq<Seq<char>>| #[trigger] is_chain(defs, p) && p.len() > 0 && start.contains(p[0]) && p.last() == n;
                    lemma_reached_in_closed(defs, res, start, p);
                }
            }
            assert(res.to_set() =~= self.traits_with_supertraits(*ty));
        }
        all
    }

    /// Checks that `ty` implements each required trait; fails with the first
    /// that it does not implement.
    pub fn check_bounds(&self, ty: &Type, required_traits: &[String]) -> (r: Result<(), String>)
        requires
            self.wf(),
        ensures
            r is Ok <==> forall|i: int| 0 <= i < required_traits@.len() ==> self.implements_spec(*ty, #[trigger] required_traits@[i]@),
            r matches Err(m) ==> exists|i: int| 0 <= i < required_traits@.len()
                && !self.implements_spec(*ty, #[trigger] required_traits@[i]@)
                && (forall|j: int| 0 <= j < i ==> self.implements_spec(*ty, required_traits@[j]@))
                && m@ == "Type "@ + type_text(*ty) + " does not implement trait "@ + required_traits@[i]@,
    {
        let mut i: usize = 0;
        while i < required_traits.len()
            invariant
                self.wf(),
                i <= required_traits@.len(),
                forall|j: int| 0 <= j < i ==> self.implements_spec(*ty, #[trigger] required_traits@[j]@),
            decreases required_traits@.len() - i,
        {
            if !self.implements(ty, required_traits[i].as_str()) {
                let t = ty.to_display_string();
                return Err(owned("Type ").concat(t.as_str()).concat(" does not implement trait ").concat(required_traits[i].as_str()));
            }
            i += 1;
        }
        Ok(())
    }
}

impl Default for TraitSystem {
    fn default() -> (r: Self)
        ensures
            r.wf(),
            r.impls() == builtin_impls(),
            r.defs().dom() == builtin_trait_names(),
    {
        Self::new()
    }
}

/// Whether `names` holds a string equal to `name`.
fn name_list_has(names: &Vec<String>, name: &str) -> (r: bool)
    ensures
        r == names_of(names@).contains(name@),
{
    let mut i: usize = 0;
    while i < names.len()
        invariant
            i <= names@.len(),
            forall|j: int| 0 <= j < i ==> names_of(names@)[j] != name@,
        decreases names@.len() - i,
    {
        if str_eq(names[i].as_str(), name) {
            assert(names_of(names@)[i as int] == name@);
            return true;
        }
        i += 1;
    }
    false
}

/// Copies of the strings of `names`, in order.
fn clone_names(names: &Vec<String>) -> (r: Vec<String>)
    ensures
        names_of(r@) == names_of(names@),
{
    let mut out: Vec<String> = Vec::new();
    let mut i: usize = 0;
    while i < names.len()
        invariant
            i <= names@.len(),
            names_of(out@) == names_of(names@.take(i as int)),
        decreases names@.len() - i,
    {
        let c = names[i].clone();
        let ghost before = out@;
        out.push(c);
        proof {
            assert(names@.take(i + 1) =~= names@.take(i as int).push(names@[i as int]));
            assert(out@ =~= before.push(names@[i as int]));
            assert(names_of(out@) =~= names_of(before).push(names@[i as int]@));
            assert(names_of(names@.take(i + 1)) =~= names_of(names@.take(i as int)).push(names@[i as int]@));
        }
        i += 1;
    }
    assert(names@.take(names@.len() as int) =~= names@);
    out
}

/// Appends copies of the strings of `names` to `acc`.
fn append_names(acc: &mut Vec<String>, names: &Vec<String>)
    ensures
        names_of(final(acc)@) == names_of(old(acc)@) + names_of(names@),
{
    let mut i: usize = 0;
    while i < names.len()
        invariant
            i <= names@.len(),
            names_of(acc@) == names_of(old(acc)@) + names_of(names@.take(i as int)),
        decreases names@.len() - i,
    {
        let c = names[i].clone();
        let ghost before = acc@;
        acc.push(c);
        proof {
            assert(names@.take(i + 1) =~= names@.take(i as int).push(names@[i as int]));
            assert(acc@ =~= before.push(names@[i as int]));
            assert(names_of(acc@) =~= names_of(before).push(names@[i as int]@));
            assert(names_of(names@.take(i + 1)) =~= names_of(names@.take(i as int)).push(names@[i as int]@));
            assert(names_of(acc@) =~= names_of(old(acc)@) + names_of(names@.take(i + 1)));
        }
        i += 1;
    }
    assert(names@.take(names@.len() as int) =~= names@);
}

/// Appends `name` to `acc` unless `acc` holds it already.
fn push_unique(acc: &mut Vec<String>, name: String)
    ensures
        names_of(old(acc)@).contains(name@) ==> final(acc)@ == old(acc)@,
        !names_of(old(acc)@).contains(name@) ==> final(acc)@ == old(acc)@.push(name),
        names_of(old(acc)@).no_duplicates() ==> names_of(final(acc)@).no_duplicates(),
        names_of(final(acc)@).contains(name@),
        forall|x: Seq<char>| names_of(final(acc)@).contains(x) <==> (names_of(old(acc)@).contains(x) || x == name@),
{
    let ghost n = name@;
    if !name_list_has(acc, name.as_str()) {
        acc.push(name);
        proof {
            assert(names_of(acc@) =~= names_of(old(acc)@).push(n));
            assert(names_of(acc@)[names_of(acc@).len() - 1] == n);
            assert forall|x: Seq<char>| names_of(acc@).contains(x) <==> (names_of(old(acc)@).contains(x) || x == n) by {
                if names_of(old(acc)@).contains(x) {
                    let m = choose|m: int| 0 <= m < names_of(old(acc)@).len() && names_of(old(acc)@)[m] == x;
                    assert(names_of(acc@)[m] == x);
                }
            }
        }
    }
}

/// The end of a chain from a starting name lies in any list that holds the
/// starting names and the supertraits of each defined name it holds.
proof fn lemma_reached_in_closed(defs: Map<Seq<char>, TraitDef>, res: Seq<Seq<char>>, start: Set<Seq<char>>, p: Seq<Seq<char>>)
    requires
        start.subset_of(res.to_set()),
        is_chain(defs, p),
        p.len() > 0,
        start.contains(p[0]),
        forall|j: int, x: Seq<char>| 0 <= j < res.len() && defs.contains_key(res[j])
            && #[trigger] supers_of(defs, res[j]).contains(x) ==> res.contains(x),
    ensures
        res.contains(p.last()),
    decreases p.len(),
{
    if p.len() == 1 {
        assert(res.to_set().contains(p[0]));
    } else {
        let q = p.drop_last();
        assert(is_chain(defs, q)) by {
            assert forall|i: int| 0 <= i < q.len() - 1 implies defs.contains_key(#[trigger] q[i]) && supers_of(defs, q[i]).contains(q[i + 1]) by {
                assert(q[i] == p[i] && q[i + 1] == p[i + 1]);
            }
        }
        lemma_reached_in_closed(defs, res, start, q);
        let mid = q.last();
        assert(mid == p[p.len() - 2]);
        assert(defs.contains_key(p[p.len() - 2]) && supers_of(defs, p[p.len() - 2]).contains(p[p.len() - 1]));
        let j = choose|j: int| 0 <= j < res.len() && res[j] == mid;
        assert(supers_of(defs, res[j]).contains(p.last()));
    }
}

/// Implementing a trait for a type makes the type implement it, and every
/// trait that a type implemented before stays implemented.
pub proof fn lemma_implement_then_implements(before: TraitSystem, after: TraitSystem, ty: Type, name: Seq<char>)
    requires
        after.impls() == before.impls().push((ty, name)),
    ensures
        after.implements_spec(ty, name),
        forall|t: Type, n: Seq<char>| before.implements_spec(t, n) ==> #[trigger] after.implements_spec(t, n),
{
    assert(after.impls()[after.impls().len() - 1] == (ty, name));
    assert forall|t: Type, n: Seq<char>| before.implements_spec(t, n) implies #[trigger] after.implements_spec(t, n) by {
        if before.implemented_directly(t, n) {
            let k = choose|k: int| 0 <= k < before.impls().len() && before.impls()[k] == (t, n);
            assert(after.impls()[k] == (t, n));
        }
    }
}

/// The traits of a type with their supertraits hold every trait the type
/// starts with, and with each defined trait they hold its supertraits.
pub proof fn lemma_supertraits_closed(sys: TraitSystem, ty: Type)
    ensures
        sys.start_traits(ty).subset_of(sys.traits_with_supertraits(ty)),
        forall|n: Seq<char>, s: Seq<char>| #[trigger] sys.traits_with_supertraits(ty).contains(n) && sys.defs().contains_key(n)
            && #[trigger] supers_of(sys.defs(), n).contains(s) ==> sys.traits_with_supertraits(ty).contains(s),
{
    assert forall|n: Seq<char>| sys.start_traits(ty).contains(n) implies sys.traits_with_supertraits(ty).contains(n) by {
        lemma_reached_start(sys.defs(), sys.start_traits(ty), n);
    }
    assert forall|n: Seq<char>, s: Seq<char>| #[trigger] sys.traits_with_supertraits(ty).contains(n) && sys.defs().contains_key(n)
        && #[trigger] supers_of(sys.defs(), n).contains(s) implies sys.traits_with_supertraits(ty).contains(s) by {
        lemma_reached_step(sys.defs(), sys.start_traits(ty), n, s);
    }
}

/// A bound that a type parameter must meet.
#[derive(Debug, Clone)]
pub struct TraitBound {
    pub type_param: String,
    pub trait_name: String,
}

/// A generic type definition with trait bounds on its parameters.
#[derive(Debug, Clone)]
pub struct GenericTypeDef {
    pub name: String,
    pub type_params: Vec<String>,
    pub bounds: Vec<TraitBound>,
    pub structure: TypeStructure,
}

/// The shape of a defined type.
#[derive(Debug, Clone)]
pub enum TypeStructure {
    Struct { fields: Vec<(String, Type)> },
    Enum { variants: Vec<(String, Vec<Type>)> },
    Alias(Type),
}

/// Every trait a type implements is among its traits with supertraits.
pub proof fn lemma_implemented_traits_listed(sys: TraitSystem, ty: Type, name: Seq<char>)
    ensures
        sys.implements_spec(ty, name) ==> sys.traits_with_supertraits(ty).contains(name),
{
    lemma_supertraits_closed(sys, ty);
    if sys.implements_spec(ty, name) {
        assert(sys.start_traits(ty).contains(name));
    }
}

/// Every vector type is a collection, in any trait system: it implements
/// `Collection`, and `Collection` is among its traits.
pub proof fn lemma_vectors_are_collections(sys: TraitSystem, e: Type)
    ensures
        sys.implements_spec(Type::Vec(Box::new(e)), "Collection"@),
        sys.traits_with_supertraits(Type::Vec(Box::new(e))).contains("Collection"@),
{
    lemma_implemented_traits_listed(sys, Type::Vec(Box::new(e)), "Collection"@);
}

} // verus!
