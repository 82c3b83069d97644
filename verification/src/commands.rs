//! Editor commands: their definitions, parsing command-bar text into
//! invocations, keyboard shortcuts, and command arguments.

pub mod arguments;
pub mod complete;
pub mod definition;
pub mod parse;
pub mod shortcuts;
pub mod table;
pub mod utility;
