//! A turn-order battle between characters with stats and skills.

pub mod battle;
pub mod character;
pub mod skill;
