//! Token-bounded transcript splitter.
//!
//! The library turns a transcript document into a sequence of output
//! artifacts: it filters annotation lines, flattens the surviving lines into
//! one text, partitions the text's whitespace-delimited tokens into bounded
//! segments, wraps each segment with configurable header and footer strings,
//! and names each artifact deterministically from the input file's stem and
//! extension.

pub mod document;
pub mod filter;
pub mod naming;
pub mod segment;
pub mod text;
pub mod tokenize;
