use vstd::prelude::*;

pub mod blob;
pub mod encoding;
pub mod store;
pub mod tokenizer;
pub mod word_model;

verus! {

} // verus!
