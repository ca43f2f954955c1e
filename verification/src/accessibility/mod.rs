//! Accessibility: the structure tree of tagged PDFs and checks against
//! the PDF/UA rules.
pub mod structure_tree;
pub mod validation;
pub mod auto_tag;
pub mod structure_builder;
