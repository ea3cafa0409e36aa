//! A small interactive shell core: parsing a line of input into commands
//! joined by pipe and redirection operators, rewriting them through an alias
//! table, and planning how the resulting pipeline is wired together.

pub mod bindings;
pub mod command;
pub mod command_list;
pub mod config;
pub mod config_parser;
pub mod expand;
pub mod fesh;
pub mod input_parser;
pub mod logger;
pub mod plan;
pub mod prompt;
pub mod text;
