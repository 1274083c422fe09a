//! The reading of a shell's input lines.
//!
//! The core is the tokenizer: one line of text in, its argument tokens out,
//! with single quotes, double quotes and backslash escapes honoured. Around
//! it stands the reading of a whole line as a command: which builtin it
//! names, or which program it asks to run.

pub mod command;
pub mod executable;
pub mod laws;
pub mod model;
pub mod number;
pub mod text;
pub mod tokenizer;
pub mod words;

pub use command::{parse_command, Action};
pub use tokenizer::split_quoted_line;
