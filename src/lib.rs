use vstd::prelude::*;

pub mod text;
pub mod classify;
pub mod dataset;
pub mod inventory;
pub mod sorting;
pub mod device;
pub mod laws;
pub mod batch;

verus! {

} // verus!
