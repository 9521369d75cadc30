//! A-normal form: the program with every intermediate result named, and
//! its top-level declarations ordered by their dependencies.

pub mod anf;
pub mod anf_parser;
pub mod anf_text;
pub mod dependencies;
pub mod scc;
