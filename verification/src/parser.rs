//! What is read from the syntax tree of a document.

pub mod methodmap_parser;
