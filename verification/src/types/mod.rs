pub mod ast;
pub mod db;
pub mod query;
