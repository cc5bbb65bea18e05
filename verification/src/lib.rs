//! Concatenation of byte sources and their line-by-line rewriting into a
//! display-safe form: line numbers, squeezed blank lines, visible line ends
//! and tabs, caret and meta notation for bytes that do not print.

pub mod args;
pub mod counter;
pub mod engine;
pub mod errors;
pub mod fixtures;
pub mod lines;
pub mod mapping;
pub mod pipeline;
pub mod reader;
pub mod theorems;
pub mod writer;
