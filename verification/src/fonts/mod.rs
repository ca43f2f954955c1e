//! Font handling for text extraction: encodings, ToUnicode CMaps, fonts
//! and the standard 14 font metrics.
pub mod cmap;
pub mod encoding;
pub mod font;
pub mod glyph_list;
pub mod standard14;
pub mod common;
pub mod graphics_state;
