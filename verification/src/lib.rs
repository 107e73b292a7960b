//! Reference implementation of the Antech compute-memory KDF (CombinedFrontier
//! graph) together with the bookkeeping used by the research validation
//! campaigns, specified and proved with Verus.

use vstd::prelude::*;

pub mod config;
pub mod digest;
pub mod engineering;
pub mod graph;
pub mod kdf;
pub mod keyed;
pub mod mix;
pub mod multitarget;
pub mod scan;
pub mod text;
pub mod words;
