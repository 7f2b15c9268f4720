//! An interactive, UTF-8 aware line reader.
//!
//! The reader draws a prompt, consumes key events, and maintains an editable
//! [`Buffer`] whose cursor always sits on a Unicode scalar boundary. Hooks for
//! inline completion and for a cycleable drop-down suggestion list can be
//! supplied, and every key can be rebound through an override. A read ends in
//! an [`Outcome`]: the accepted text, or the buffer as it stood on cancel.
//!
//! The terminal itself stays behind small interfaces — a sink of cursor moves
//! and styled runs, and a blocking source of key events — so the editing
//! rules, the buffer arithmetic, and the renderer's accounting live here and
//! carry their specifications with them.

pub mod actions;
pub mod buffer;
pub mod builder;
pub mod completion;
pub mod navigation;
pub mod prompt;
pub mod render;

pub use buffer::Buffer;
pub use builder::Prompt;
pub use prompt::Outcome;
pub use render::Error;
