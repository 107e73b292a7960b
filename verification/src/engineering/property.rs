//! Deterministic property harness: its report rows and generator.

use vstd::prelude::*;
use crate::engineering::validation_100k::xorshift_step;

verus! {

/// Result of one property harness.
#[derive(Debug, Clone)]
pub struct PropertyRow {
    pub harness: String,
    pub cases: u64,
    pub failures: u64,
    pub kind: String,
    pub notes: String,
}

impl PropertyRow {
    /// A MEASURED row for `harness`.
    pub fn new(harness: &str, cases: u64, failures: u64, notes: &str) -> (r: Self)
        ensures
            r.harness@ == harness@,
            r.cases == cases,
            r.failures == failures,
            r.kind@ == "MEASURED"@,
            r.notes@ == notes@,
    {
        PropertyRow {
            harness: harness.to_owned(),
            cases,
            failures,
            kind: String::from_str("MEASURED"),
            notes: notes.to_owned(),
        }
    }
}

/// One xorshift64 step on `state`, returning the new state.
pub fn xorshift(state: &mut u64) -> (x: u64)
    ensures
        x == xorshift_step(*old(state)),
        *final(state) == x,
{
    crate::engineering::production_correctness::xorshift(state)
}

} // verus!
