//! Construction constants and the reference configuration.

use vstd::prelude::*;

verus! {

/// Version number bound into the seed and the final hash.
pub const CONSTRUCTION_VERSION: u32 = 4;
/// ARX rounds per `mix_pair`.
pub const MIX_ROUNDS: u32 = 4;
/// Width of the local frontier from which recent parents are drawn.
pub const FRONTIER_WIDTH: usize = 64;
/// Nominal tile length (blocks) for tile-local parents.
pub const TILE_BLOCKS: usize = 512;

/// Domain separator of the seed hash.
pub const DOMAIN_SEED: &'static str = "antech-compute-memory-v4-seed";
/// Domain separator of the final hash.
pub const DOMAIN_FINAL: &'static str = "antech-compute-memory-v4-final";
/// Domain separator of the phantom (node-0 parent) blocks.
pub const DOMAIN_NODE0: &'static str = "antech-compute-memory-v2-node0";

/// Multiplier of the second state word.
pub const C1: u64 = 0xBF58476D1CE4E5B9;
/// Multiplier of the third block word.
pub const C2: u64 = 0x94D049BB133111EB;
/// Golden-ratio constant used for round and index mixing.
pub const GOLDEN: u64 = 0x9E3779B97F4A7C15;

/// Graph tag of the CombinedFrontier construction.
pub const GRAPH_COMBINED_FRONTIER: u32 = 3;

/// Parameters of one derivation.
#[derive(Debug, Clone, Copy)]
pub struct RefConfig {
    pub memory_kib: usize,
    pub block_size: usize,
    pub fan_in: u32,
    pub graph_tag: u32,
    pub output_length: usize,
}

/// The larger of two sizes.
pub open spec fn max_usize(a: usize, b: usize) -> usize {
    if a >= b { a } else { b }
}

/// The smaller of two sizes.
pub open spec fn min_usize(a: usize, b: usize) -> usize {
    if a <= b { a } else { b }
}

impl RefConfig {
    /// The memory is expressible in bytes without overflow.
    pub open spec fn memory_fits(&self) -> bool {
        self.memory_kib * 1024 <= usize::MAX
    }

    /// Working memory in bytes.
    pub open spec fn spec_memory_bytes(&self) -> int {
        self.memory_kib * 1024
    }

    /// Number of blocks: the memory divided by the block size (a block size of
    /// 0 counts as 1).
    pub open spec fn spec_num_blocks(&self) -> int {
        (self.memory_kib * 1024) / (max_usize(self.block_size, 1) as int)
    }

    /// Period of critical (dual far-parent) nodes: `max(FRONTIER_WIDTH / 16, 2)`.
    pub open spec fn spec_critical_period(&self) -> int {
        4
    }

    /// Tile length: `min(TILE_BLOCKS, max(num_blocks, 1))`.
    pub open spec fn spec_tile_len(&self) -> int {
        if self.spec_num_blocks() >= 512 {
            512
        } else if self.spec_num_blocks() >= 1 {
            self.spec_num_blocks()
        } else {
            1
        }
    }

    /// The canonical configuration: 16 MiB, 32-byte blocks, fan-in 2,
    /// CombinedFrontier, 32-byte output.
    pub fn canonical_default() -> (cfg: Self)
        ensures
            cfg.memory_kib == 16 * 1024,
            cfg.block_size == 32,
            cfg.fan_in == 2,
            cfg.graph_tag == GRAPH_COMBINED_FRONTIER,
            cfg.output_length == 32,
    {
        RefConfig {
            memory_kib: 16 * 1024,
            block_size: 32,
            fan_in: 2,
            graph_tag: GRAPH_COMBINED_FRONTIER,
            output_length: 32,
        }
    }

    /// Number of blocks in the working memory.
    pub fn num_blocks(&self) -> (n: usize)
        requires
            self.memory_fits(),
        ensures
            n == self.spec_num_blocks(),
    {
        let b = if self.block_size >= 1 { self.block_size } else { 1 };
        (self.memory_kib * 1024) / b
    }

    /// Period of critical nodes.
    pub fn critical_period(&self) -> (p: usize)
        ensures
            p == self.spec_critical_period(),
    {
        let q = FRONTIER_WIDTH / 16;
        if q >= 2 { q } else { 2 }
    }

    /// Tile length.
    pub fn tile_len(&self) -> (t: usize)
        requires
            self.memory_fits(),
        ensures
            t == self.spec_tile_len(),
    {
        let n = self.num_blocks();
        let m = if n >= 1 { n } else { 1 };
        if TILE_BLOCKS <= m { TILE_BLOCKS } else { m }
    }

    /// Working memory in bytes.
    pub fn memory_bytes(&self) -> (m: usize)
        requires
            self.memory_fits(),
        ensures
            m == self.spec_memory_bytes(),
    {
        self.memory_kib * 1024
    }
}

} // verus!
