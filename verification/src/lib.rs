//! A modal, keyboard-driven text editing engine: a rope-backed text buffer
//! with undo and redo, cursor navigation, the mode state machine and the
//! colon-command interpreter.

pub mod buffer;
pub mod commands;
pub mod cursor;
pub mod editor;
pub mod keys;
pub mod model;
pub mod modes;
pub mod rope;
pub mod search;
pub mod session;
pub mod strings;
pub mod substitute;
pub mod syntax;
pub mod text;
pub mod viewport;
pub mod words;
