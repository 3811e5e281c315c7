//! The editing core of a modal terminal text editor: a text buffer, a cursor,
//! a viewport, and the Normal / Insert / Command state machine.

pub mod strings;
pub mod text;
pub mod cursor;
pub mod viewport;
pub mod command;
pub mod editor;
