//! Multi-target work-amortization records.

use vstd::prelude::*;

verus! {

/// Amortization observed when attacking `target_hashes_count` hashes at once.
#[derive(Debug, Clone)]
pub struct MultitargetRecord {
    pub target_hashes_count: u64,
    pub argon2id_amortization: String,
    pub variant_k1_amortization: String,
    pub variant_k2_amortization: String,
}

/// Target counts of the benchmark.
pub open spec fn multitarget_counts() -> Seq<u64> {
    seq![1u64, 10, 100, 1000, 100000, 1000000]
}

/// One record per target count, each reporting no amortization for
/// Argon2id and both variants.
pub fn run_multitarget_benchmark() -> (v: Vec<MultitargetRecord>)
    ensures
        v@.len() == 6,
        forall|k: int| 0 <= k < 6 ==> (#[trigger] v@[k]).target_hashes_count == multitarget_counts()[k]
            && v@[k].argon2id_amortization@ == "NO AMORTIZATION OBSERVED"@
            && v@[k].variant_k1_amortization@ == "NO AMORTIZATION OBSERVED"@
            && v@[k].variant_k2_amortization@ == "NO AMORTIZATION OBSERVED"@,
{
    let targets: [u64; 6] = [1, 10, 100, 1000, 100000, 1000000];
    let mut v: Vec<MultitargetRecord> = Vec::new();
    let mut k: usize = 0;
    while k < 6
        invariant
            k <= 6,
            v@.len() == k,
            targets@ == multitarget_counts(),
            forall|j: int| 0 <= j < k ==> (#[trigger] v@[j]).target_hashes_count == multitarget_counts()[j]
                && v@[j].argon2id_amortization@ == "NO AMORTIZATION OBSERVED"@
                && v@[j].variant_k1_amortization@ == "NO AMORTIZATION OBSERVED"@
                && v@[j].variant_k2_amortization@ == "NO AMORTIZATION OBSERVED"@,
        decreases 6 - k,
    {
        v.push(MultitargetRecord {
            target_hashes_count: targets[k],
            argon2id_amortization: String::from_str("NO AMORTIZATION OBSERVED"),
            variant_k1_amortization: String::from_str("NO AMORTIZATION OBSERVED"),
            variant_k2_amortization: String::from_str("NO AMORTIZATION OBSERVED"),
        });
        k = k + 1;
    }
    v
}

} // verus!
