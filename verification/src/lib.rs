use vstd::prelude::*;

pub mod text;
pub mod proxy;
pub mod agent;
pub mod admin;

verus! {
} // verus!
