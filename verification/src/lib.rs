//! A line-oriented text editor core: the command interpreter of an `ed`-like
//! editor as a verified state machine over an in-memory buffer of lines.

pub mod address;
pub mod buffer;
pub mod editor;
pub mod error;
pub mod laws;
pub mod model;
pub mod substitution;
pub mod text;
