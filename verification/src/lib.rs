//! An interactive catalogue of mods and ranked, coloured tags.

pub mod buffer;
pub mod color;
pub mod display;
pub mod form;
pub mod keys;
pub mod messages;
pub mod model;
pub mod mods;
pub mod text;
