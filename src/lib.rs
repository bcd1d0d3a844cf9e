//! Themer: a small configuration language for colour palettes, its resolver
//! and a template language that renders the resolved colours.
pub mod text;
pub mod map;
pub mod token;
pub mod lexer;
pub mod digits;
pub mod config;
pub mod parser;
pub mod color;
pub mod resolve;
pub mod x11;
pub mod template;
pub mod template_parser;
pub mod laws;
pub mod builder;
