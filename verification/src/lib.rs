pub mod agent;
pub mod client;
pub mod commands;
pub mod config;
pub mod file_ref;
pub mod message;
pub mod repl;
pub mod session;
pub mod sort;
pub mod text;
pub mod tools;
