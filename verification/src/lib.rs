//! Generates a serialization companion object for a textual "case class"
//! declaration: a parser that extracts the class name, type parameters and
//! field names, and a renderer that emits the encoder/decoder bindings.

pub mod decl;
pub mod laws;
pub mod parse;
pub mod render;
pub mod text;

pub use decl::CaseClass;
pub use decl::ParseError;
pub use text::snake_case;
