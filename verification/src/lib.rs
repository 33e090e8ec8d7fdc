//! Teletext page decoding and rendering: packet address decoding, page selection,
//! the session state machine and a character-grid render engine that emits
//! terminal commands.

pub mod chargen;
pub mod coding;
pub mod decoder;
pub mod display;
pub mod keymap;
pub mod pageinput;
pub mod render;
pub mod session;
pub mod term;
pub mod transport;
