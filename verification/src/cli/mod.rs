//! The command-line client's own rules: its command surface, the parsing of
//! structured arguments, and how answers are laid out for a person.

pub mod commands;
pub mod render;
pub mod request;
pub mod rows;
pub mod client;
