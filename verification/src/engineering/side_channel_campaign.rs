//! Side-channel campaign: run profiles, the documented control-flow
//! surfaces, and the rows of its reports.

use vstd::prelude::*;
use crate::text::{eq_ascii_case, eq_ignore_ascii_case};

verus! {

/// Sample counts of a campaign run.
#[derive(Debug, Clone, Copy)]
pub struct CampaignProfile {
    pub derive_samples: usize,
    pub fast_samples: usize,
    pub include_16mib: bool,
    pub contention_iters: usize,
}

impl CampaignProfile {
    /// The profile named `name`: `ci` (in any ASCII case) is the short run,
    /// anything else the full run. (No non-ASCII character lower-cases to a
    /// lone `c` or `i`, so this agrees with comparing the lower-cased name.)
    pub fn from_profile(name: &str) -> (p: Self)
        ensures
            eq_ascii_case(name@, "ci"@) ==> p.derive_samples == 40 && p.fast_samples == 400
                && !p.include_16mib && p.contention_iters == 20,
            !eq_ascii_case(name@, "ci"@) ==> p.derive_samples == 80 && p.fast_samples == 800
                && p.include_16mib && p.contention_iters == 40,
    {
        if eq_ignore_ascii_case(name, "ci") {
            CampaignProfile {
                derive_samples: 40,
                fast_samples: 400,
                include_16mib: false,
                contention_iters: 20,
            }
        } else {
            CampaignProfile {
                derive_samples: 80,
                fast_samples: 800,
                include_16mib: true,
                contention_iters: 40,
            }
        }
    }
}

/// A documented control-flow surface.
#[derive(Debug, Clone)]
pub struct BranchRow {
    pub location: String,
    pub construct: String,
    pub input_dependent: String,
    pub scope: String,
    pub kind: String,
    pub risk: String,
    pub notes: String,
}

/// Hardware-counter measurements of one scenario.
#[derive(Debug, Clone)]
pub struct CacheRow {
    pub test_id: String,
    pub scenario: String,
    pub instructions: String,
    pub cycles: String,
    pub ipc: String,
    pub cache_misses: String,
    pub llc_loads: String,
    pub kind: String,
    pub notes: String,
}

/// A timing regression tracked by the campaign.
#[derive(Debug, Clone)]
pub struct RegressionRow {
    pub id: String,
    pub description: String,
    pub status: String,
    pub notes: String,
}

/// `r` holds exactly the seven texts of `t`, in field order.
pub open spec fn branch_row_is(r: BranchRow, t: Seq<Seq<char>>) -> bool {
    &&& t.len() == 7
    &&& r.location@ == t[0]
    &&& r.construct@ == t[1]
    &&& r.input_dependent@ == t[2]
    &&& r.scope@ == t[3]
    &&& r.kind@ == t[4]
    &&& r.risk@ == t[5]
    &&& r.notes@ == t[6]
}

/// The documented control-flow surfaces (location, construct, input
/// dependence, scope, kind, risk, notes).
pub open spec fn branch_table() -> Seq<Seq<Seq<char>>> {
    seq![
        seq!["antech-kdf-core/src/lib.rs:169"@, "subtle::ConstantTimeEq::ct_eq digest"@, "digest bytes only (post-derive)"@, "final compare"@, "MEASURED"@, "low"@, "Constant-time compare on equal-length digests after full derive."@],
        seq!["antech-kdf-core/src/lib.rs:165-167"@, "digest length mismatch => Ok(false)"@, "encoded hash params (public)"@, "post-derive"@, "MODELED"@, "negligible"@, "Skips ct_eq when lengths differ; derive already ran; config-bound lengths normally match."@],
        seq!["antech-kdf-core/src/lib.rs:74-90"@, "check_verify_inputs early Err"@, "caller supplied secret/AD presence"@, "pre-derive"@, "MODELED"@, "api_oracle"@, "MissingSecret/MissingAD/AD length mismatch returns before derive — distinguishes API misuse from wrong password, not password byte content."@],
        seq!["antech-kdf-format/src/parser.rs"@, "parse_hash validation branches"@, "public encoded string"@, "pre-derive"@, "MEASURED"@, "parse_oracle"@, "Malformed/truncated hashes fail fast; attacker observes parse vs derive latency on public blob."@],
        seq!["antech-kdf-core/src/engine.rs:gather_mix_words"@, "_mm_prefetch parent indices"@, "state-derived parent addresses"@, "derive"@, "MODELED"@, "cache_theoretical"@, "Prefetch hints on password-dependent indices; may affect cache residency on shared cores."@],
        seq!["antech-kdf-core/src/graph.rs"@, "combined_local/remote_parents, scatter_dests"@, "rolling state from seed(password,salt,secret,ad)"@, "derive"@, "MODELED"@, "accepted_design"@, "Memory-hard data-dependent addressing by construction; offline attacker knows salt/hash."@],
        seq!["antech-kdf-core/src/state.rs:bind_seed_with_inputs"@, "SHA-256 over password/secret/AD"@, "password length and bytes"@, "seed"@, "MODELED"@, "length_leak_minor"@, "Password length encoded in hash input; SHA-256 not constant-time w.r.t. password; dominated by derive for typical lengths."@],
        seq!["antech-kdf-core/src/resource.rs:acquire"@, "scheduler queue / Condvar wait"@, "global load not password"@, "admission"@, "MODELED"@, "contention_noise"@, "Wall-clock varies with concurrent jobs; not a password-content oracle."@],
        seq!["antech-kdf-ffi/src/lib.rs:map_err"@, "status mapping MissingSecret => InvalidInput"@, "API inputs"@, "ffi"@, "MODELED"@, "api_oracle"@, "FFI maps pre-derive input errors to InvalidInput; same timing class as Rust Err."@]
    ]
}

/// Builds one surface row.
fn branch_row(
    location: &str,
    construct: &str,
    input_dependent: &str,
    scope: &str,
    kind: &str,
    risk: &str,
    notes: &str,
) -> (r: BranchRow)
    ensures
        branch_row_is(r, seq![location@, construct@, input_dependent@, scope@, kind@, risk@, notes@]),
{
    BranchRow {
        location: location.to_owned(),
        construct: construct.to_owned(),
        input_dependent: input_dependent.to_owned(),
        scope: scope.to_owned(),
        kind: kind.to_owned(),
        risk: risk.to_owned(),
        notes: notes.to_owned(),
    }
}

/// The control-flow surfaces of hash/verify that the campaign documents.
pub fn branch_analysis_rows() -> (rows: Vec<BranchRow>)
    ensures
        rows@.len() == branch_table().len(),
        forall|k: int| 0 <= k < rows@.len() ==> branch_row_is(#[trigger] rows@[k], branch_table()[k]),
{
    let mut rows: Vec<BranchRow> = Vec::new();
    rows.push(branch_row(
        "antech-kdf-core/src/lib.rs:169",
        "subtle::ConstantTimeEq::ct_eq digest",
        "digest bytes only (post-derive)",
        "final compare",
        "MEASURED",
        "low",
        "Constant-time compare on equal-length digests after full derive.",
    ));
    rows.push(branch_row(
        "antech-kdf-core/src/lib.rs:165-167",
        "digest length mismatch => Ok(false)",
        "encoded hash params (public)",
        "post-derive",
        "MODELED",
        "negligible",
        "Skips ct_eq when lengths differ; derive already ran; config-bound lengths normally match.",
    ));
    rows.push(branch_row(
        "antech-kdf-core/src/lib.rs:74-90",
        "check_verify_inputs early Err",
        "caller supplied secret/AD presence",
        "pre-derive",
        "MODELED",
        "api_oracle",
        "MissingSecret/MissingAD/AD length mismatch returns before derive — distinguishes API misuse from wrong password, not password byte content.",
    ));
    rows.push(branch_row(
        "antech-kdf-format/src/parser.rs",
        "parse_hash validation branches",
        "public encoded string",
        "pre-derive",
        "MEASURED",
        "parse_oracle",
        "Malformed/truncated hashes fail fast; attacker observes parse vs derive latency on public blob.",
    ));
    rows.push(branch_row(
        "antech-kdf-core/src/engine.rs:gather_mix_words",
        "_mm_prefetch parent indices",
        "state-derived parent addresses",
        "derive",
        "MODELED",
        "cache_theoretical",
        "Prefetch hints on password-dependent indices; may affect cache residency on shared cores.",
    ));
    rows.push(branch_row(
        "antech-kdf-core/src/graph.rs",
        "combined_local/remote_parents, scatter_dests",
        "rolling state from seed(password,salt,secret,ad)",
        "derive",
        "MODELED",
        "accepted_design",
        "Memory-hard data-dependent addressing by construction; offline attacker knows salt/hash.",
    ));
    rows.push(branch_row(
        "antech-kdf-core/src/state.rs:bind_seed_with_inputs",
        "SHA-256 over password/secret/AD",
        "password length and bytes",
        "seed",
        "MODELED",
        "length_leak_minor",
        "Password length encoded in hash input; SHA-256 not constant-time w.r.t. password; dominated by derive for typical lengths.",
    ));
    rows.push(branch_row(
        "antech-kdf-core/src/resource.rs:acquire",
        "scheduler queue / Condvar wait",
        "global load not password",
        "admission",
        "MODELED",
        "contention_noise",
        "Wall-clock varies with concurrent jobs; not a password-content oracle.",
    ));
    rows.push(branch_row(
        "antech-kdf-ffi/src/lib.rs:map_err",
        "status mapping MissingSecret => InvalidInput",
        "API inputs",
        "ffi",
        "MODELED",
        "api_oracle",
        "FFI maps pre-derive input errors to InvalidInput; same timing class as Rust Err.",
    ));
    rows
}

/// The hardware-counter row: BLOCKED here, the counters come from Linux
/// `perf` in CI.
pub fn cache_blocked_row(host_os: &str) -> (r: CacheRow)
    ensures
        r.test_id@ == "perf-cache-counters"@,
        r.scenario@ == "verify loop PMU (cache-misses, LLC)"@,
        r.instructions@ == "n/a"@,
        r.cycles@ == "n/a"@,
        r.ipc@ == "n/a"@,
        r.cache_misses@ == "n/a"@,
        r.llc_loads@ == "n/a"@,
        r.kind@ == "BLOCKED"@,
        r.notes@ == "Hardware counters require Linux perf; run scripts/side_channel_perf_linux.sh on Ubuntu CI (host="@
            + host_os@ + ")."@,
{
    let mut notes = String::from_str(
        "Hardware counters require Linux perf; run scripts/side_channel_perf_linux.sh on Ubuntu CI (host=",
    );
    notes.append(host_os);
    notes.append(").");
    CacheRow {
        test_id: String::from_str("perf-cache-counters"),
        scenario: String::from_str("verify loop PMU (cache-misses, LLC)"),
        instructions: String::from_str("n/a"),
        cycles: String::from_str("n/a"),
        ipc: String::from_str("n/a"),
        cache_misses: String::from_str("n/a"),
        llc_loads: String::from_str("n/a"),
        kind: String::from_str("BLOCKED"),
        notes,
    }
}

/// The regression list of a clean run: one row saying that no exploitable
/// timing shortcut was found.
pub fn no_regression_rows() -> (v: Vec<RegressionRow>)
    ensures
        v@.len() == 1,
        v@[0].id@ == "(none)"@,
        v@[0].description@ == "no exploitable password-verification timing shortcut found"@,
        v@[0].status@ == "N/A"@,
        v@[0].notes@ == "Digest compare uses subtle::ct_eq; wrong password runs full derive."@,
{
    let mut v: Vec<RegressionRow> = Vec::new();
    v.push(RegressionRow {
        id: String::from_str("(none)"),
        description: String::from_str("no exploitable password-verification timing shortcut found"),
        status: String::from_str("N/A"),
        notes: String::from_str("Digest compare uses subtle::ct_eq; wrong password runs full derive."),
    });
    v
}

/// Where the side-channel campaign writes its results: under
/// `research/results` when that directory exists (run from the repository
/// root), otherwise relative to the research crate.
pub fn default_out_dir(results_dir_exists: bool) -> (p: &'static str)
    ensures
        results_dir_exists ==> p@ == "research/results/side-channel"@,
        !results_dir_exists ==> p@ == "../../results/side-channel"@,
{
    if results_dir_exists {
        "research/results/side-channel"
    } else {
        "../../results/side-channel"
    }
}

} // verus!
