//! The playback engine: the document, its markers, and the interpreter that
//! types a compiled script into it.

pub mod compile;
pub mod context;
pub mod document;
pub mod editor;
pub mod error;
pub mod geometry;
pub mod instructions;
pub mod markers;
pub mod random;
pub mod textbuffer;
pub mod time;
