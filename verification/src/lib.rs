//! Scripted typing sessions.
//!
//! A script tells what is typed into a document, where the cursor goes, what
//! is selected and deleted, and how long each step takes. The front end
//! ([`parser`], and [`ui::compile`]) turns the text of a script into the
//! instructions that are played; the interpreter ([`ui::editor`]) plays
//! them, one step for each tick that is due, into a document
//! ([`ui::document`]) whose named rows ([`ui::markers`]) stay in step with
//! the text.
//!
//! What the library does is stated in contracts over sequences of
//! characters, and proved. It reads no file, draws nothing and plays no
//! sound: it is handed the texts of files, and hands out what is to be done.

pub mod frontend;
pub mod parser;
pub mod text;
pub mod ui;
pub mod width;
