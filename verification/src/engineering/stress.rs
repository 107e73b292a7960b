//! Scheduler stress runs: the durations and concurrency levels they use.

use vstd::prelude::*;
use crate::scan::{comma_u64s, comma_usizes, parsed_u64s, parsed_usizes, pieces_from};

verus! {

/// Durations (seconds): the numbers of the `ANTECH_STRESS_SECS` list when it
/// is set, otherwise 10 and 30 s.
pub fn stress_durations_from_env(env_secs: Option<&str>) -> (v: Vec<u64>)
    ensures
        env_secs matches Some(s) ==> v@ == parsed_u64s(pieces_from(s@, ',', 0)),
        env_secs is None ==> v@ == seq![10u64, 30],
{
    match env_secs {
        Some(s) => comma_u64s(s),
        None => {
            let v = vec![10u64, 30];
            assert(v@ =~= seq![10u64, 30]);
            v
        },
    }
}

/// The default levels for `n` logical CPUs: 1, `min(n, 10)` and
/// `min(n, 32)`, in ascending order without repeats.
pub open spec fn default_conc_levels(n: usize) -> Seq<usize> {
    if n == 0 {
        seq![0usize, 1]
    } else if n == 1 {
        seq![1usize]
    } else if n <= 10 {
        seq![1usize, n]
    } else if n < 32 {
        seq![1usize, 10, n]
    } else {
        seq![1usize, 10, 32]
    }
}

/// Concurrency levels: the sizes of the `ANTECH_STRESS_CONC` list when it is
/// set, otherwise the default levels for the logical CPU count (4 when that
/// is unknown).
pub fn stress_conc_from_env(env_conc: Option<&str>, logical_cpus: Option<usize>) -> (v: Vec<usize>)
    ensures
        env_conc matches Some(s) ==> v@ == parsed_usizes(pieces_from(s@, ',', 0)),
        env_conc is None ==> v@ == default_conc_levels(
            match logical_cpus {
                Some(n) => n,
                None => 4,
            },
        ),
{
    match env_conc {
        Some(s) => comma_usizes(s),
        None => {
            let n = match logical_cpus {
                Some(n) => n,
                None => 4,
            };
            let v = if n == 0 {
                vec![0usize, 1]
            } else if n == 1 {
                vec![1usize]
            } else if n <= 10 {
                vec![1usize, n]
            } else if n < 32 {
                vec![1usize, 10, n]
            } else {
                vec![1usize, 10, 32]
            };
            assert(v@ =~= default_conc_levels(n));
            v
        },
    }
}

} // verus!
