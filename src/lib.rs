//! A small self-hosted test harness: named one-shot checks (a fixed value, agreement with an
//! oracle over a testbench, a verifier over a testbench), a registry that keeps them by name
//! in lexicographic order, and the command-line decisions that list them or run one.

use vstd::prelude::*;

pub mod text;
pub mod check;
pub mod demo;
pub mod order;
pub mod registry;
pub mod runner;

verus! {

} // verus!
