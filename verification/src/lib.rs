//! A runtime for branching stories written in the Ink markup language.
//!
//! The story itself is read and followed by the `inkling` interpreter. This
//! library owns one running story as a session with an explicit phase, reads
//! the control tags and the assignment lines that a story hands out, and
//! says what a presentation layer is to show and which requests are to be
//! sent on to the rest of a game.
//!
//! Two calls of the interpreter are the caller's to make, because the
//! interpreter may fail to return from them: reading a script, and taking a
//! step of the story. The library says when a step is due and takes in what
//! came of it.

pub mod entity_fields;
pub mod error;
pub mod ink;
pub mod interactive_narrative;
pub mod level;
pub mod mailbox;
pub mod states;
pub mod tags;
pub mod text;
pub mod variable_bridge;
