//! Errors of type checking and compilation, with their messages.

use vstd::prelude::*;
use vstd::string::StringExecFns;
use crate::structured_token::StructuredTokenInput;
use crate::type_system::types::{Type, type_text, type_debug_text};
use crate::util::{owned, decimal, usize_to_string, tuple1_text, tuple1_string, string_debug_text, string_debug_string};

verus! {

/// What went wrong while checking types.
#[derive(Debug, Clone)]
pub enum TypeError {
    /// The types do not match.
    TypeMismatch { expected: Type, actual: Type, context: String },
    /// No token of this kind is known.
    UndefinedToken { token_type: String },
    /// The number of arguments does not match.
    ArgumentCountMismatch { token_type: String, expected: usize, actual: usize },
    /// A required argument is missing.
    MissingField { token_type: String, field_name: String },
    /// A type could not be resolved.
    UnresolvedType { context: String },
    /// A token refers to itself.
    CyclicReference { token_type: String },
    /// Type inference failed.
    InferenceError { kind: InferenceErrorKind, types: Vec<InferredType>, location: Vec<String> },
    /// A type lacks a required trait.
    TraitBoundError { ty: Type, trait_name: String, available_traits: Vec<String> },
}

/// The kind of an inference failure.
#[derive(Debug, Clone, PartialEq, Eq)]
pub enum InferenceErrorKind {
    UnificationFailure,
    InfiniteType,
    InstantiationFailure,
    ConstraintViolation,
}

/// A type found by inference, with where it came from.
#[derive(Debug, Clone)]
pub struct InferredType {
    pub var_name: Option<String>,
    pub ty: Type,
    pub origin: String,
}

/// What `{:?}` renders an inference failure's kind as: the variant's name.
pub open spec fn inference_kind_text(kind: InferenceErrorKind) -> Seq<char> {
    match kind {
        InferenceErrorKind::UnificationFailure => "UnificationFailure"@,
        InferenceErrorKind::InfiniteType => "InfiniteType"@,
        InferenceErrorKind::InstantiationFailure => "InstantiationFailure"@,
        InferenceErrorKind::ConstraintViolation => "ConstraintViolation"@,
    }
}

/// The name of an inference failure's kind, as `{:?}` renders it.
fn inference_kind_string(kind: &InferenceErrorKind) -> (r: String)
    ensures
        r@ == inference_kind_text(*kind),
{
    match kind {
        InferenceErrorKind::UnificationFailure => owned("UnificationFailure"),
        InferenceErrorKind::InfiniteType => owned("InfiniteType"),
        InferenceErrorKind::InstantiationFailure => owned("InstantiationFailure"),
        InferenceErrorKind::ConstraintViolation => owned("ConstraintViolation"),
    }
}

/// What `{:?}` renders a list as, given the renderings of its items: the
/// items in brackets, separated by commas.
pub open spec fn list_debug_text(items: Seq<Seq<char>>) -> Seq<char> {
    "["@ + joined(items, ", "@) + "]"@
}

/// What `{:?}` renders a list of strings as.
pub open spec fn strings_debug_text(location: Seq<Seq<char>>) -> Seq<char> {
    list_debug_text(location.map_values(|s: Seq<char>| string_debug_text(s)))
}

/// What `{:?}` renders an inferred type as.
pub open spec fn inferred_debug_text(t: InferredType) -> Seq<char> {
    "InferredType { var_name: "@
        + match t.var_name {
            Some(n) => tuple1_text("Some"@, string_debug_text(n@)),
            None => "None"@,
        }
        + ", ty: "@ + type_debug_text(t.ty) + ", origin: "@ + string_debug_text(t.origin@) + " }"@
}

/// What `{:?}` renders a list of inferred types as.
pub open spec fn inferred_types_debug_text(types: Seq<InferredType>) -> Seq<char> {
    list_debug_text(types.map_values(|t: InferredType| inferred_debug_text(t)))
}

/// The text of `list_debug_text`.
fn list_debug_string(items: &Vec<String>) -> (r: String)
    ensures
        r@ == list_debug_text(items@.map_values(|s: String| s@)),
{
    let body = join_strings(items, ", ");
    owned("[").concat(body.as_str()).concat("]")
}

/// The text of `strings_debug_text`.
fn strings_debug_string(location: &Vec<String>) -> (r: String)
    ensures
        r@ == strings_debug_text(location@.map_values(|s: String| s@)),
{
    let ghost want = location@.map_values(|s: String| s@).map_values(|s: Seq<char>| string_debug_text(s));
    let mut items: Vec<String> = Vec::new();
    let mut i: usize = 0;
    while i < location.len()
        invariant
            i <= location@.len(),
            want == location@.map_values(|s: String| s@).map_values(|s: Seq<char>| string_debug_text(s)),
            items@.len() == i,
            forall|j: int| 0 <= j < i ==> (#[trigger] items@[j])@ == want[j],
        decreases location@.len() - i,
    {
        let d = string_debug_string(location[i].as_str());
        items.push(d);
        i += 1;
    }
    assert(items@.map_values(|s: String| s@) =~= want);
    list_debug_string(&items)
}

/// The text of `inferred_debug_text`.
fn inferred_debug_string(t: &InferredType) -> (r: String)
    ensures
        r@ == inferred_debug_text(*t),
{
    let name = match &t.var_name {
        Some(n) => {
            let d = string_debug_string(n.as_str());
            tuple1_string("Some", &d)
        },
        None => owned("None"),
    };
    let ty = t.ty.debug_string();
    let origin = string_debug_string(t.origin.as_str());
    owned("InferredType { var_name: ").concat(name.as_str()).concat(", ty: ").concat(ty.as_str())
        .concat(", origin: ").concat(origin.as_str()).concat(" }")
}

/// The text of `inferred_types_debug_text`.
fn inferred_types_debug_string(types: &Vec<InferredType>) -> (r: String)
    ensures
        r@ == inferred_types_debug_text(types@),
{
    let ghost want = types@.map_values(|t: InferredType| inferred_debug_text(t));
    let mut items: Vec<String> = Vec::new();
    let mut i: usize = 0;
    while i < types.len()
        invariant
            i <= types@.len(),
            want == types@.map_values(|t: InferredType| inferred_debug_text(t)),
            items@.len() == i,
            forall|j: int| 0 <= j < i ==> (#[trigger] items@[j])@ == want[j],
        decreases types@.len() - i,
    {
        let d = inferred_debug_string(&types[i]);
        items.push(d);
        i += 1;
    }
    assert(items@.map_values(|s: String| s@) =~= want);
    list_debug_string(&items)
}

/// The message of a type error.
pub open spec fn type_error_text(e: TypeError) -> Seq<char> {
    match e {
        TypeError::TypeMismatch { expected, actual, context } =>
            "Type mismatch in "@ + context@ + ": expected "@ + type_text(expected) + ", but got "@
                + type_text(actual),
        TypeError::UndefinedToken { token_type } => "Undefined token type: "@ + token_type@,
        TypeError::ArgumentCountMismatch { token_type, expected, actual } =>
            "Token '"@ + token_type@ + "' expects "@ + decimal(expected as nat) + " arguments, but got "@
                + decimal(actual as nat),
        TypeError::MissingField { token_type, field_name } =>
            "Token '"@ + token_type@ + "' is missing required field '"@ + field_name@ + "'"@,
        TypeError::UnresolvedType { context } => "Cannot resolve type in context: "@ + context@,
        TypeError::CyclicReference { token_type } =>
            "Cyclic reference detected in token '"@ + token_type@ + "'"@,
        TypeError::InferenceError { kind, types, location } =>
            "Type inference error ("@ + inference_kind_text(kind) + ") at "@
                + strings_debug_text(location@.map_values(|s: String| s@)) + " with types: "@
                + inferred_types_debug_text(types@),
        TypeError::TraitBoundError { ty, trait_name, .. } =>
            "Type "@ + type_text(ty) + " does not implement trait "@ + trait_name@,
    }
}

/// The strings of `parts` joined by `sep`.
pub open spec fn joined(parts: Seq<Seq<char>>, sep: Seq<char>) -> Seq<char>
    decreases parts.len(),
{
    if parts.len() == 0 {
        seq![]
    } else if parts.len() == 1 {
        parts[0]
    } else {
        joined(parts.drop_last(), sep) + sep + parts.last()
    }
}

/// `parts` joined by `sep`.
pub fn join_strings(parts: &Vec<String>, sep: &str) -> (r: String)
    ensures
        r@ == joined(parts@.map_values(|s: String| s@), sep@),
{
    let ghost views = parts@.map_values(|s: String| s@);
    let mut r = owned("");
    proof { reveal_strlit(""); }
    let mut i: usize = 0;
    while i < parts.len()
        invariant
            i <= parts@.len(),
            views == parts@.map_values(|s: String| s@),
            r@ == joined(views.take(i as int), sep@),
        decreases parts@.len() - i,
    {
        if i == 0 {
            r = r.concat(parts[i].as_str());
            assert(views.take(1) =~= seq![views[0]]);
        } else {
            r = r.concat(sep).concat(parts[i].as_str());
            assert(views.take(i + 1).drop_last() =~= views.take(i as int));
        }
        assert(r@ =~= joined(views.take(i + 1), sep@));
        i += 1;
    }
    assert(views.take(parts@.len() as int) =~= views);
    r
}

impl TypeError {
    /// The message of this error.
    pub fn to_display_string(&self) -> (r: String)
        ensures
            r@ == type_error_text(*self),
    {
        match self {
            TypeError::TypeMismatch { expected, actual, context } => {
                let e = expected.to_display_string();
                let a = actual.to_display_string();
                owned("Type mismatch in ").concat(context.as_str()).concat(": expected ")
                    .concat(e.as_str()).concat(", but got ").concat(a.as_str())
            },
            TypeError::UndefinedToken { token_type } =>
                owned("Undefined token type: ").concat(token_type.as_str()),
            TypeError::ArgumentCountMismatch { token_type, expected, actual } => {
                let e = usize_to_string(*expected);
                let a = usize_to_string(*actual);
                owned("Token '").concat(token_type.as_str()).concat("' expects ").concat(e.as_str())
                    .concat(" arguments, but got ").concat(a.as_str())
            },
            TypeError::MissingField { token_type, field_name } =>
                owned("Token '").concat(token_type.as_str()).concat("' is missing required field '")
                    .concat(field_name.as_str()).concat("'"),
            TypeError::UnresolvedType { context } =>
                owned("Cannot resolve type in context: ").concat(context.as_str()),
            TypeError::CyclicReference { token_type } =>
                owned("Cyclic reference detected in token '").concat(token_type.as_str()).concat("'"),
            TypeError::InferenceError { kind, types, location } => {
                let k = inference_kind_string(kind);
                let l = strings_debug_string(location);
                let t = inferred_types_debug_string(types);
                owned("Type inference error (").concat(k.as_str()).concat(") at ").concat(l.as_str())
                    .concat(" with types: ").concat(t.as_str())
            },
            TypeError::TraitBoundError { ty, trait_name, .. } => {
                let t = ty.to_display_string();
                owned("Type ").concat(t.as_str()).concat(" does not implement trait ")
                    .concat(trait_name.as_str())
            },
        }
    }
}

/// A compilation error: the type error, the path of arguments that leads to
/// the failing token, and the token itself when it is known.
#[derive(Debug)]
pub struct CompileError {
    pub error: TypeError,
    pub path: Vec<String>,
    pub token: Option<StructuredTokenInput>,
}

/// The message of a compilation error.
pub open spec fn compile_error_text(e: CompileError) -> Seq<char> {
    if e.path@.len() == 0 {
        type_error_text(e.error)
    } else {
        type_error_text(e.error) + " at "@ + joined(e.path@.map_values(|s: String| s@), " -> "@)
    }
}

impl CompileError {
    pub fn new(error: TypeError) -> (r: Self)
        ensures
            r.error == error,
            r.path@.len() == 0,
            r.token is None,
    {
        Self { error, path: Vec::new(), token: None }
    }

    /// The same error under another path.
    pub fn with_path(self, path: Vec<String>) -> (r: Self)
        ensures
            r.error == self.error,
            r.path@ == path@,
            r.token == self.token,
    {
        let mut s = self;
        s.path = path;
        s
    }

    /// The same error, recording the token it concerns.
    pub fn with_token(self, token: StructuredTokenInput) -> (r: Self)
        ensures
            r.error == self.error,
            r.path@ == self.path@,
            r.token == Some(token),
    {
        let mut s = self;
        s.token = Some(token);
        s
    }

    /// The same error with `context` put in front of its path.
    pub fn add_context(self, context: String) -> (r: Self)
        ensures
            r.error == self.error,
            r.path@ == seq![context].add(self.path@),
            r.token == self.token,
    {
        let mut s = self;
        s.path.insert(0, context);
        proof {
            assert(s.path@ =~= seq![context].add(self.path@));
        }
        s
    }

    /// The message of this error.
    pub fn to_display_string(&self) -> (r: String)
        ensures
            r@ == compile_error_text(*self),
    {
        let e = self.error.to_display_string();
        if self.path.len() == 0 {
            e
        } else {
            let p = join_strings(&self.path, " -> ");
            e.concat(" at ").concat(p.as_str())
        }
    }
}

/// The result of a compilation step.
pub type CompileResult<T> = Result<T, CompileError>;

} // verus!
