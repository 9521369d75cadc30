//! The types the interpreter gives to values.

pub mod eval;
pub mod io;
pub mod kind;
pub mod value;
pub mod type_text;
pub mod types;
