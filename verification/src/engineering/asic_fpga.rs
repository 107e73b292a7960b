//! ASIC/FPGA cost-model inputs for the CombinedFrontier construction: its
//! structural facts, per-guess operation counts and the documented
//! comparison with Argon2id.

use vstd::prelude::*;
use crate::config::{RefConfig, FRONTIER_WIDTH, GRAPH_COMBINED_FRONTIER, MIX_ROUNDS};

verus! {

/// MEASURED `mix_pair` calls for one 16 MiB guess.
pub const MEASURED_MIX_PAIRS_16MIB: u64 = 1_171_024;
/// Nodes of the 16 MiB graph.
pub const MEASURED_NODES_16MIB: u64 = 524_288;

/// Operation counts for one password guess.
#[derive(Debug, Clone)]
pub struct OperationCount {
    pub memory_mib: usize,
    pub num_blocks: u64,
    pub mix_pairs: u64,
    pub parent_block_reads: u64,
    pub block_writes: u64,
    pub scatter_rmw: u64,
    pub bytes_read: u64,
    pub bytes_written: u64,
    pub arx_rounds_total: u64,
    pub evidence: String,
    pub kind: String,
}

/// Structural facts of a configuration that the cost model builds on.
#[derive(Debug, Clone)]
pub struct ConstructionFacts {
    pub label: String,
    pub construction: String,
    pub graph: String,
    pub memory_bytes: usize,
    pub memory_mib: usize,
    pub block_bytes: usize,
    pub num_blocks: usize,
    pub fan_in: u32,
    pub mix_rounds: u32,
    pub state_bytes: usize,
    pub frontier_width: usize,
    pub tile_blocks: usize,
    pub dual_far_scatter: bool,
    pub sequential_within_guess: bool,
    pub independent_across_guesses: bool,
    pub evidence: String,
}

/// The facts of a CombinedFrontier configuration: its memory, block and
/// node counts, fan-in, the four mix rounds over a 32-byte state, the
/// 64-node frontier and the tile length; its nodes scatter to two far
/// destinations, are computed one after another within a guess, and share
/// nothing across guesses.
pub fn construction_facts(cfg: &RefConfig) -> (f: ConstructionFacts)
    requires
        cfg.graph_tag == GRAPH_COMBINED_FRONTIER,
        cfg.memory_fits(),
    ensures
        f.label@ == "MEASURED"@,
        f.construction@ == "compute-memory-v4 / $antech$v2$"@,
        f.graph@ == "CombinedFrontier"@,
        f.memory_bytes == cfg.spec_memory_bytes(),
        f.memory_mib == cfg.memory_kib / 1024,
        f.block_bytes == cfg.block_size,
        f.num_blocks == cfg.spec_num_blocks(),
        f.fan_in == cfg.fan_in,
        f.mix_rounds == MIX_ROUNDS,
        f.state_bytes == 32,
        f.frontier_width == FRONTIER_WIDTH,
        f.tile_blocks == cfg.spec_tile_len(),
        f.dual_far_scatter,
        f.sequential_within_guess,
        f.independent_across_guesses,
        f.evidence@ == "crates/antech-kdf-core engine+graph; multitarget.csv (no DAG reuse)"@,
{
    ConstructionFacts {
        label: String::from_str("MEASURED"),
        construction: String::from_str("compute-memory-v4 / $antech$v2$"),
        graph: String::from_str("CombinedFrontier"),
        memory_bytes: cfg.memory_bytes(),
        memory_mib: cfg.memory_kib / 1024,
        block_bytes: cfg.block_size,
        num_blocks: cfg.num_blocks(),
        fan_in: cfg.fan_in,
        mix_rounds: MIX_ROUNDS,
        state_bytes: 32,
        frontier_width: FRONTIER_WIDTH,
        tile_blocks: cfg.tile_len(),
        dual_far_scatter: true,
        sequential_within_guess: true,
        independent_across_guesses: true,
        evidence: String::from_str("crates/antech-kdf-core engine+graph; multitarget.csv (no DAG reuse)"),
    }
}

/// `a * b`, or `u64::MAX` when that overflows.
pub open spec fn sat_mul_spec(a: u64, b: u64) -> u64 {
    if a * b > u64::MAX { u64::MAX } else { (a * b) as u64 }
}

/// Saturating multiplication.
fn sat_mul(a: u64, b: u64) -> (r: u64)
    ensures
        r == sat_mul_spec(a, b),
{
    match a.checked_mul(b) {
        Some(x) => x,
        None => u64::MAX,
    }
}

/// `n` nodes scaled by the measured mix-pair density
/// `MEASURED_MIX_PAIRS_16MIB / MEASURED_NODES_16MIB`, rounded to nearest.
pub open spec fn scaled_mix_pairs(n: u64) -> int {
    (n * 1_171_024 + 262_144) / 524_288
}

/// Mix pairs of a guess: the measured count at 16 MiB with 32-byte blocks,
/// the density-scaled count otherwise.
pub open spec fn spec_mix_pairs(cfg: RefConfig) -> int {
    if cfg.memory_kib / 1024 == 16 && cfg.block_size == 32 {
        MEASURED_MIX_PAIRS_16MIB as int
    } else {
        scaled_mix_pairs(cfg.spec_num_blocks() as u64)
    }
}

/// Mix pairs follow the measured density: for every configuration, the mix
/// pairs of a guess are its node count times `1_171_024 / 524_288` (the
/// pairs and nodes measured at 16 MiB with 32-byte blocks), rounded to the
/// nearest integer, halves up. At the measured configuration the scaled count
/// is the measured count itself. Left out are the 16 MiB configurations with
/// 32-byte blocks whose memory is not a whole number of MiB: they take the
/// measured count, though their node count differs.
pub proof fn lemma_mix_pairs_follow_density(cfg: RefConfig)
    requires
        cfg.spec_num_blocks() * 1_171_024 < 0x20_0000_0000_0000,
        cfg.memory_kib / 1024 == 16 && cfg.block_size == 32 ==> cfg.memory_kib == 16384,
    ensures
        spec_mix_pairs(cfg) * 524_288 <= cfg.spec_num_blocks() * 1_171_024 + 262_144,
        cfg.spec_num_blocks() * 1_171_024 + 262_144 < (spec_mix_pairs(cfg) + 1) * 524_288,
{
    let n = cfg.spec_num_blocks();
    if cfg.memory_kib / 1024 == 16 && cfg.block_size == 32 {
        assert(n == 524_288) by {
            assert(16384int * 1024 / 32 == 524_288);
        }
    } else {
        assert(n >= 0) by {
            assert(cfg.memory_kib * 1024 >= 0);
            assert(crate::config::max_usize(cfg.block_size, 1) >= 1);
            vstd::arithmetic::div_mod::lemma_div_pos_is_pos(
                cfg.memory_kib * 1024,
                crate::config::max_usize(cfg.block_size, 1) as int,
            );
        }
        let x = n * 1_171_024 + 262_144;
        assert((n as u64) as int == n);
        vstd::arithmetic::div_mod::lemma_fundamental_div_mod(x, 524_288);
        assert(0 <= x % 524_288 < 524_288) by {
            vstd::arithmetic::div_mod::lemma_mod_bound(x, 524_288);
        }
    }
}

/// Counts for one guess under `cfg`: the mix pairs, `fan_in` parent reads
/// and one write per node, two scatter read-modify-writes per node past the
/// frontier, the bytes those move, and four ARX rounds per mix pair.
pub fn operation_count(cfg: &RefConfig) -> (oc: OperationCount)
    requires
        cfg.memory_fits(),
        cfg.spec_num_blocks() * 1_171_024 < 0x20_0000_0000_0000,
        ({
            let n = cfg.spec_num_blocks();
            let s = sat_mul_spec(if n >= 64 { (n - 64) as u64 } else { 0 }, 2);
            let p = sat_mul_spec(n as u64, cfg.fan_in as u64);
            &&& p + s <= u64::MAX
            &&& (p + s) * cfg.block_size <= u64::MAX
            &&& (n + s) * cfg.block_size <= u64::MAX
        }),
    ensures
        oc.memory_mib == cfg.memory_kib / 1024,
        oc.num_blocks == cfg.spec_num_blocks(),
        oc.mix_pairs == spec_mix_pairs(*cfg),
        oc.scatter_rmw == sat_mul_spec(
            if cfg.spec_num_blocks() >= 64 { (cfg.spec_num_blocks() - 64) as u64 } else { 0 },
            2,
        ),
        oc.parent_block_reads == sat_mul_spec(oc.num_blocks, cfg.fan_in as u64),
        oc.block_writes == oc.num_blocks,
        oc.bytes_read == (oc.parent_block_reads + oc.scatter_rmw) * cfg.block_size,
        oc.bytes_written == (oc.block_writes + oc.scatter_rmw) * cfg.block_size,
        oc.arx_rounds_total == sat_mul_spec(oc.mix_pairs, 4),
        oc.evidence@ == "mix_pairs MEASURED@16MiB tmto-advanced; scatters from CombinedFrontier dual dest"@,
        oc.kind@ == (if cfg.memory_kib / 1024 == 16 { "MEASURED+MODELED"@ } else { "MODELED"@ }),
{
    let n = cfg.num_blocks() as u64;
    let b = cfg.block_size as u64;
    let mib = cfg.memory_kib / 1024;
    let mix_pairs = if mib == 16 && b == 32 {
        MEASURED_MIX_PAIRS_16MIB
    } else {
        (n * 1_171_024 + 262_144) / 524_288
    };
    let scatter_rmw = sat_mul(n.saturating_sub(FRONTIER_WIDTH as u64), 2);
    let parent_reads = sat_mul(n, cfg.fan_in as u64);
    let block_writes = n;
    let bytes_read = (parent_reads + scatter_rmw) * b;
    let bytes_written = (block_writes + scatter_rmw) * b;
    let arx_rounds = sat_mul(mix_pairs, MIX_ROUNDS as u64);
    OperationCount {
        memory_mib: mib,
        num_blocks: n,
        mix_pairs,
        parent_block_reads: parent_reads,
        block_writes,
        scatter_rmw,
        bytes_read,
        bytes_written,
        arx_rounds_total: arx_rounds,
        evidence: String::from_str(
            "mix_pairs MEASURED@16MiB tmto-advanced; scatters from CombinedFrontier dual dest",
        ),
        kind: if mib == 16 {
            String::from_str("MEASURED+MODELED")
        } else {
            String::from_str("MODELED")
        },
    }
}

/// Operation counts of the canonical 16 MiB configuration.
pub fn default_canonical_model() -> (oc: OperationCount)
    ensures
        oc.memory_mib == 16,
        oc.num_blocks == 524_288,
        oc.mix_pairs == 1_171_024,
        oc.scatter_rmw == 1_048_448,
        oc.parent_block_reads == 1_048_576,
        oc.block_writes == 524_288,
        oc.bytes_read == 67_104_768,
        oc.bytes_written == 50_327_552,
        oc.arx_rounds_total == 4_684_096,
        oc.kind@ == "MEASURED+MODELED"@,
{
    let cfg = RefConfig::canonical_default();
    assert(cfg.memory_kib * 1024 == 16_777_216);
    assert(cfg.spec_num_blocks() == 524_288) by {
        assert(16_777_216int / 32int == 524_288);
    }
    operation_count(&cfg)
}

/// Memory architecture of a modeled attacker.
#[derive(Debug, Clone, Copy, PartialEq, Eq, Structural)]
pub enum MemArch {
    OnChipSram,
    FpgaBramUram,
    ExternalDdr,
    Hbm,
}

impl MemArch {
    /// Report spelling of the architecture.
    pub fn as_str(self) -> (s: &'static str)
        ensures
            self == MemArch::OnChipSram ==> s@ == "on_chip_sram"@,
            self == MemArch::FpgaBramUram ==> s@ == "fpga_bram_uram"@,
            self == MemArch::ExternalDdr ==> s@ == "external_ddr"@,
            self == MemArch::Hbm ==> s@ == "hbm"@,
    {
        match self {
            MemArch::OnChipSram => "on_chip_sram",
            MemArch::FpgaBramUram => "fpga_bram_uram",
            MemArch::ExternalDdr => "external_ddr",
            MemArch::Hbm => "hbm",
        }
    }
}

/// Replication counts used by the cost model.
pub fn replication_counts() -> (r: &'static [u64])
    ensures
        r@ == seq![1u64, 10, 100, 1_000, 10_000],
{
    let r: &'static [u64] = &[1, 10, 100, 1_000, 10_000];
    assert(r@ =~= seq![1u64, 10, 100, 1_000, 10_000]);
    r
}

/// One line of the Antech vs Argon2id comparison.
#[derive(Debug, Clone)]
pub struct VsArgon2Row {
    pub metric: String,
    pub antech: String,
    pub argon2id: String,
    pub kind: String,
    pub notes: String,
}

/// `r` holds exactly the five texts of `t`.
pub open spec fn vs_row_is(r: VsArgon2Row, t: (Seq<char>, Seq<char>, Seq<char>, Seq<char>, Seq<char>)) -> bool {
    &&& r.metric@ == t.0
    &&& r.antech@ == t.1
    &&& r.argon2id@ == t.2
    &&& r.kind@ == t.3
    &&& r.notes@ == t.4
}

/// The documented comparison table (metric, Antech, Argon2id, kind, notes).
pub open spec fn vs_argon2_table() -> Seq<(Seq<char>, Seq<char>, Seq<char>, Seq<char>, Seq<char>)> {
    seq![
        ("defender_p50_ms_16mib_cpu"@, "96.3"@, "n/a_at_16mib_in_table"@, "MEASURED"@, "compute-memory-v4/report.md CombinedFrontier"@),
        ("attacker_16t_gps_cpu"@, "40.56"@, "22.94 (64 MiB campaign row)"@, "MEASURED"@, "comparison.csv; Argon2id row is 64 MiB in that campaign"@),
        ("gpu_gps_rtx3050"@, "32.96"@, "435.56"@, "MEASURED"@, "gpu/report.md — Argon2id much faster on GPU; Antech scatter hurts occupancy"@),
        ("asic_full_sram_1pipe_gps"@, "modeled_in_asic-model.csv"@, "similar_order_if_equal_mem; fewer random RMWs"@, "MODELED"@, "Both memory-hard; Antech dual far-scatter adds irregular RMW vs Argon2 fill"@),
        ("tmto_50pct_memory"@, "wall ~15069× / abort"@, "known_TMTO_exists_but_costly"@, "MEASURED"@, "Antech sparse_checkpoint MEASURED wall; do not claim ASIC-proof"@),
        ("claim_asic_resistant"@, "NOT_CLAIMED"@, "NOT_CLAIMED"@, "ASSUMED"@, "Custom silicon removes CPU/GPU overhead; memory+sequential path remain"@)
    ]
}

/// Builds one comparison row.
fn vs_row(metric: &str, antech: &str, argon2id: &str, kind: &str, notes: &str) -> (r: VsArgon2Row)
    ensures
        vs_row_is(r, (metric@, antech@, argon2id@, kind@, notes@)),
{
    VsArgon2Row {
        metric: metric.to_owned(),
        antech: antech.to_owned(),
        argon2id: argon2id.to_owned(),
        kind: kind.to_owned(),
        notes: notes.to_owned(),
    }
}

/// The Antech vs Argon2id comparison: measured CPU, GPU and TMTO figures,
/// the modeled ASIC line, and the fact that neither claims ASIC resistance.
pub fn antech_vs_argon2() -> (rows: Vec<VsArgon2Row>)
    ensures
        rows@.len() == vs_argon2_table().len(),
        forall|k: int| 0 <= k < rows@.len() ==> vs_row_is(#[trigger] rows@[k], vs_argon2_table()[k]),
{
    let mut rows: Vec<VsArgon2Row> = Vec::new();
    rows.push(vs_row("defender_p50_ms_16mib_cpu", "96.3", "n/a_at_16mib_in_table", "MEASURED", "compute-memory-v4/report.md CombinedFrontier"));
    rows.push(vs_row("attacker_16t_gps_cpu", "40.56", "22.94 (64 MiB campaign row)", "MEASURED", "comparison.csv; Argon2id row is 64 MiB in that campaign"));
    rows.push(vs_row("gpu_gps_rtx3050", "32.96", "435.56", "MEASURED", "gpu/report.md — Argon2id much faster on GPU; Antech scatter hurts occupancy"));
    rows.push(vs_row("asic_full_sram_1pipe_gps", "modeled_in_asic-model.csv", "similar_order_if_equal_mem; fewer random RMWs", "MODELED", "Both memory-hard; Antech dual far-scatter adds irregular RMW vs Argon2 fill"));
    rows.push(vs_row("tmto_50pct_memory", "wall ~15069× / abort", "known_TMTO_exists_but_costly", "MEASURED", "Antech sparse_checkpoint MEASURED wall; do not claim ASIC-proof"));
    rows.push(vs_row("claim_asic_resistant", "NOT_CLAIMED", "NOT_CLAIMED", "ASSUMED", "Custom silicon removes CPU/GPU overhead; memory+sequential path remain"));
    rows
}

} // verus!
