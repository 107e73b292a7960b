//! Practical side-channel checks: their report rows.

use vstd::prelude::*;

verus! {

/// One side-channel finding.
#[derive(Debug, Clone)]
pub struct SideChannelRow {
    pub test_id: String,
    pub finding: String,
    pub severity: String,
    pub kind: String,
    pub notes: String,
}

} // verus!
