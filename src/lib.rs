use vstd::prelude::*;

pub mod text;
pub mod search;
pub mod index;
pub mod json;
pub mod summary;
pub mod builder;
pub mod scan;
pub mod credential;
pub mod command;

verus! {

} // verus!
