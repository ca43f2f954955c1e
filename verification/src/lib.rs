//! A PDF library whose text, filter, font-encoding, encryption and
//! accessibility logic is stated in contracts and proved with Verus.
use vstd::prelude::*;

pub mod accessibility;
pub mod content;
pub mod document;
pub mod encryption;
pub mod error;
pub mod filters;
pub mod fonts;
pub mod objects;
pub mod predictors;
pub mod seqs;
pub mod unicode;

verus! {

} // verus!
