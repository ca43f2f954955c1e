//! Content streams: building them, and extracting text from them.
pub mod builder;
pub mod analysis;
pub mod structure_detection;
pub mod lexer;
pub mod text;
