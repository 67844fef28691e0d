//! A parser for the KeyValues (VDF) text format: quoted keys and values,
//! brace-delimited nested blocks, and `//` line comments that stay attached to
//! the attribute they annotate.
pub mod error;
pub mod grammar;
pub mod laws;
pub mod lexer;
pub mod model;
pub mod parser;
pub mod text;

pub use error::VdfError;
pub use lexer::{comment, key, vdf_value_string};
pub use model::{VdfAttribute, VdfValue};
pub use parser::{attribute, block_content, parse_vdf_text, vdf_value_block};

