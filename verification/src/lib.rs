//! A turn-based battle game whose characters act by rules built from tokens:
//! the token language with its type system, the rules that choose actions,
//! and the battles they drive.

pub mod util;
pub mod name_map;
pub mod structured_token;
pub mod type_system;
pub mod random;
pub mod action_system;
pub mod battle_system;
pub mod rule_input_model;
pub mod rule_loader;
pub mod token_converter;
pub mod ui_core;
pub mod game_core;
pub mod game_logic;
