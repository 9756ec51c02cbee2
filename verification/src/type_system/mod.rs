//! The type system of the token language: types, errors, inference engines,
//! traits, generics, token metadata and the two type checkers.

pub mod types;
pub mod errors;
pub mod type_inference;
pub mod hindley_milner;
pub mod traits;
pub mod generics;
pub mod token_metadata;
pub mod type_checker;
pub mod advanced_type_checker;
