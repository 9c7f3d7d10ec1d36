//! Reads the weekly activities out of an operations order in plain text.
pub mod activity;
pub mod announce;
pub mod countdown;
pub mod grammar;
pub mod opord_parser;
pub mod parser_error;
pub mod text;
pub mod theory;
pub mod week_msg;
