pub mod command;
pub mod config;
pub mod search;
pub mod text;
