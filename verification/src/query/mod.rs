pub mod candidates;
pub mod format;
pub mod handler;
pub mod render;
pub mod repl;
