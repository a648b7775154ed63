use vstd::prelude::*;

pub mod grouping;
pub mod monitoring;
pub mod ordering;
pub mod rows;
pub mod runner;
pub mod store_rules;
pub mod text;
pub mod transactions;
pub mod types;
pub mod windows;

verus! {
} // verus!
