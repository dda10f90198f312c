pub mod errors;
pub mod repo_registry;
pub mod server;
pub mod tool_impls;
pub mod tools;
