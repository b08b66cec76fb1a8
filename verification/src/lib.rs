//! Layout engine of a source-code beautifier for a markup-plus-scripting
//! language: a width-aware document algebra, a tree-to-document converter
//! driven by precomputed per-node attributes, a fold-style engine for
//! comma-separated lists, and an alignment-grid subsystem for tabular math.

pub mod width;
pub mod doc;
pub mod mode;
pub mod config;
pub mod util;
pub mod attr;
pub mod strutil;
pub mod syntax;
pub mod printer;
pub mod text;
pub mod convert;
pub mod math_align;

pub mod format_api;
