//! A schema-driven formatter and analyzer for CMake source, built on a
//! lossless syntax tree.
pub mod lexer;
pub mod syntax;
pub mod text;
pub mod cst;
pub mod parser;
pub mod builtin_schemas;
pub mod schema;
pub mod layout_spec;
pub mod pack;
pub mod layout;
pub mod config;
pub mod format_spec;
pub mod content;
pub mod order;
pub mod formatter;
pub mod analyzer_spec;
pub mod analyzer;
pub mod discovery;
pub mod diff;
pub mod cmtkrc;
