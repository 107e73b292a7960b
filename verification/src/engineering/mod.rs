//! Research engineering support: the bookkeeping, data rows and small
//! decisions of the validation campaigns around the production KDF.

use vstd::prelude::*;

pub mod adversarial_validation;
pub mod asic_fpga;
pub mod final_validation;
pub mod hardware;
pub mod hardware_validation;
pub mod production_correctness;
pub mod production_stress;
pub mod property;
pub mod side_channel;
pub mod side_channel_campaign;
pub mod stress;
pub mod validation_100k;

verus! {

/// Host description recorded next to benchmark results.
#[derive(Debug, Clone)]
pub struct HardwareMeta {
    pub os: String,
    pub arch: String,
    pub cpu_brand: String,
    pub logical_cpus: usize,
    pub hostname_hash: String,
    pub cuda_available: bool,
    pub gpu_name: Option<String>,
    pub notes: String,
}

} // verus!
