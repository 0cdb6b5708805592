//! A tiered command-line argument parser: a schema of positional tiers, each
//! with keyed options governed by validators, read from the raw argument
//! tokens into a queryable result or a located error. Parsing can resume
//! after the schema grows, for subcommand dispatch.

pub mod arg_key;
pub mod parse_error;
pub mod parsed_arg;
pub mod raw_args;
pub mod decimal;
pub mod arg;
pub mod arg_parser;
pub mod error;
pub mod argument;
pub mod argument_parser;
pub mod terminal;
pub mod tui;
pub mod app_version;
pub mod app_identity;
pub mod help_page;

pub use terminal::{Color, TerminalNode, TerminalNodes, TextEffect, TextFormat};
