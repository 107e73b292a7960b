//! Seed binding, phantom blocks, finalization and the full Derive.

use vstd::prelude::*;
use vstd::bytes::{spec_u32_to_le_bytes, spec_u64_to_le_bytes, u32_to_le_bytes, u64_to_le_bytes};
use vstd::string::StringSliceAdditionalSpecFns;
use vstd::wrapping::u64_specs::{wrapping_add, wrapping_mul};
use crate::config::{
    C1, C2, CONSTRUCTION_VERSION, DOMAIN_FINAL, DOMAIN_NODE0, DOMAIN_SEED, GOLDEN, MIX_ROUNDS,
    GRAPH_COMBINED_FRONTIER, RefConfig,
};
use crate::digest::{sha256, sha256_spec};
use crate::words::{
    rotate_left, rotl, spec_state_from_seed, spec_state_to_block, spec_xor_state_into_block,
    state_bytes, state_from_seed, state_to_block, word_byte, xor_state_into_block,
};
use crate::graph::{parents_combined_frontier, spec_parents, ParentSet};
use crate::mix::{mix_views, spec_mix_views, view_seqs};

verus! {

/// Little-endian bytes of a 32-bit value.
pub open spec fn le32(x: u32) -> Seq<u8> {
    spec_u32_to_le_bytes(x)
}

/// Appends the little-endian bytes of `x` to `out`.
fn push_le32(out: &mut Vec<u8>, x: u32)
    ensures
        final(out)@ == old(out)@ + le32(x),
{
    let b = u32_to_le_bytes(x);
    out.extend_from_slice(b.as_slice());
}

/// The byte string whose SHA-256 digest is the seed: the seed domain, the
/// construction version and graph tag, the length-prefixed password and salt,
/// and the memory, block size, fan-in, round count, critical period and tile
/// length (each as a little-endian `u32`).
pub open spec fn seed_message(password: Seq<u8>, salt: Seq<u8>, cfg: RefConfig) -> Seq<u8> {
    DOMAIN_SEED.spec_bytes() + le32(CONSTRUCTION_VERSION) + le32(cfg.graph_tag) + le32(
        password.len() as u32,
    ) + password + le32(salt.len() as u32) + salt + le32(cfg.memory_kib as u32) + le32(
        cfg.block_size as u32,
    ) + le32(cfg.fan_in) + le32(MIX_ROUNDS) + le32(cfg.spec_critical_period() as u32) + le32(
        cfg.spec_tile_len() as u32,
    )
}

/// The 32-byte seed bound to password, salt and parameters.
pub open spec fn spec_bind_seed(password: Seq<u8>, salt: Seq<u8>, cfg: RefConfig) -> Seq<u8> {
    sha256_spec(seed_message(password, salt, cfg))
}

/// Builds the seed message.
pub fn seed_message_bytes(password: &[u8], salt: &[u8], cfg: &RefConfig) -> (m: Vec<u8>)
    requires
        cfg.memory_fits(),
    ensures
        m@ == seed_message(password@, salt@, *cfg),
{
    let mut m: Vec<u8> = Vec::new();
    m.extend_from_slice(DOMAIN_SEED.as_bytes());
    push_le32(&mut m, CONSTRUCTION_VERSION);
    push_le32(&mut m, cfg.graph_tag);
    push_le32(&mut m, password.len() as u32);
    m.extend_from_slice(password);
    push_le32(&mut m, salt.len() as u32);
    m.extend_from_slice(salt);
    push_le32(&mut m, cfg.memory_kib as u32);
    push_le32(&mut m, cfg.block_size as u32);
    push_le32(&mut m, cfg.fan_in);
    push_le32(&mut m, MIX_ROUNDS);
    push_le32(&mut m, cfg.critical_period() as u32);
    push_le32(&mut m, cfg.tile_len() as u32);
    m
}

/// Binds password, salt and parameters into the 32-byte seed.
pub fn bind_seed(password: &[u8], salt: &[u8], cfg: &RefConfig) -> (seed: [u8; 32])
    requires
        cfg.memory_fits(),
    ensures
        seed@ == spec_bind_seed(password@, salt@, *cfg),
{
    let m = seed_message_bytes(password, salt, cfg);
    sha256(m.as_slice())
}

/// One step of the generator that extends a phantom block past 32 bytes.
pub open spec fn phantom_step(s: Seq<u64>) -> Seq<u64> {
    let s0 = wrapping_mul(wrapping_add(s[0], GOLDEN), C1);
    let s1 = s[1] ^ rotl(s0, 17);
    let s2 = wrapping_mul(wrapping_add(s[2], s1), C2);
    let s3 = s[3] ^ rotl(s2, 41);
    seq![s0, s1, s2, s3]
}

/// The generator state after `c` steps.
pub open spec fn phantom_state(s: Seq<u64>, c: nat) -> Seq<u64>
    decreases c,
{
    if c == 0 {
        s
    } else {
        phantom_step(phantom_state(s, (c - 1) as nat))
    }
}

/// A phantom block of `len` bytes grown from a 32-byte digest: the digest's
/// first bytes, then, for each further 32-byte chunk `c`, the bytes of the
/// generator state after `c + 1` steps (started from the digest's words).
pub open spec fn spec_phantom_from_digest(digest: Seq<u8>, len: nat) -> Seq<u8> {
    Seq::new(
        len,
        |j: int|
            if j < 32 {
                digest[j]
            } else {
                state_bytes(
                    phantom_state(spec_state_from_seed(digest), ((j - 32) / 32 + 1) as nat),
                )[j % 32]
            },
    )
}

/// The byte string hashed for phantom block `slot`.
pub open spec fn phantom_message(seed: Seq<u8>, slot: u32) -> Seq<u8> {
    DOMAIN_NODE0.spec_bytes() + seed + le32(slot)
}

/// Phantom block `slot` of `block_size` bytes, the virtual parents of node 0.
pub open spec fn spec_phantom_block(seed: Seq<u8>, slot: u32, block_size: nat) -> Seq<u8> {
    spec_phantom_from_digest(sha256_spec(phantom_message(seed, slot)), block_size)
}

/// Grows a phantom block of `block_size` bytes from its 32-byte digest.
pub fn phantom_from_digest(digest: &[u8; 32], block_size: usize) -> (out: Vec<u8>)
    ensures
        out@ == spec_phantom_from_digest(digest@, block_size as nat),
{
    let ghost target = spec_phantom_from_digest(digest@, block_size as nat);
    let mut out: Vec<u8> = Vec::new();
    let copy = if block_size <= 32 { block_size } else { 32 };
    let mut j: usize = 0;
    while j < copy
        invariant
            j <= copy <= 32,
            copy <= block_size,
            out@.len() == j,
            target == spec_phantom_from_digest(digest@, block_size as nat),
            forall|t: int| 0 <= t < j ==> out@[t] == target[t],
        decreases copy - j,
    {
        out.push(digest[j]);
        j = j + 1;
    }
    if block_size > 32 {
        let mut s = state_from_seed(digest);
        let ghost s0 = s@;
        let ghost mut c: nat = 0;
        let mut off: usize = 32;
        while off < block_size
            invariant
                32 <= off <= block_size,
                off == 32 + 32 * c || off == block_size,
                off < block_size ==> off == 32 + 32 * c,
                s@ == phantom_state(s0, c),
                s0 == spec_state_from_seed(digest@),
                out@.len() == off,
                target == spec_phantom_from_digest(digest@, block_size as nat),
                forall|t: int| 0 <= t < off ==> out@[t] == target[t],
            decreases block_size - off,
        {
            let ghost before = s@;
            s[0] = s[0].wrapping_add(GOLDEN).wrapping_mul(C1);
            s[1] = s[1] ^ rotate_left(s[0], 17);
            s[2] = s[2].wrapping_add(s[1]).wrapping_mul(C2);
            s[3] = s[3] ^ rotate_left(s[2], 41);
            proof {
                assert(s@ =~= phantom_step(before));
                c = c + 1;
                assert(s@ == phantom_state(s0, c));
            }
            let mut k: usize = 0;
            while k < 32 && off + k < block_size
                invariant
                    k <= 32,
                    off + k <= block_size,
                    off == 32 + 32 * (c - 1),
                    c >= 1,
                    s@ == phantom_state(s0, c),
                    s0 == spec_state_from_seed(digest@),
                    out@.len() == off + k,
                    target == spec_phantom_from_digest(digest@, block_size as nat),
                    forall|t: int| 0 <= t < off + k ==> out@[t] == target[t],
                decreases 32 - k,
            {
                let b = word_byte(s[k / 8], k % 8);
                proof {
                    let j = off + k;
                    assert((j - 32) / 32 + 1 == c) by (nonlinear_arith)
                        requires
                            j == off + k,
                            off == 32 + 32 * (c - 1),
                            k < 32,
                            c >= 1,
                    ;
                    assert(j % 32 == k) by (nonlinear_arith)
                        requires
                            j == off + k,
                            off == 32 + 32 * (c - 1),
                            k < 32,
                            c >= 1,
                    ;
                }
                out.push(b);
                k = k + 1;
            }
            off = off + k;
        }
    }
    assert(out@ =~= target);
    out
}

/// Builds the phantom block `slot`.
pub fn phantom_block(seed: &[u8; 32], slot: u32, block_size: usize) -> (out: Vec<u8>)
    ensures
        out@ == spec_phantom_block(seed@, slot, block_size as nat),
{
    let mut m: Vec<u8> = Vec::new();
    m.extend_from_slice(DOMAIN_NODE0.as_bytes());
    m.extend_from_slice(seed.as_slice());
    push_le32(&mut m, slot);
    assert(m@ =~= phantom_message(seed@, slot));
    let d = sha256(m.as_slice());
    phantom_from_digest(&d, block_size)
}

/// Appends the little-endian bytes of `x` to `out`.
fn push_le64(out: &mut Vec<u8>, x: u64)
    ensures
        final(out)@ == old(out)@ + spec_u64_to_le_bytes(x),
{
    let b = u64_to_le_bytes(x);
    out.extend_from_slice(b.as_slice());
}

/// The byte string hashed at the end: the final domain, the construction
/// version and graph tag, the seed, the final state words and the last block.
pub open spec fn final_message(seed: Seq<u8>, state: Seq<u64>, last_block: Seq<u8>, graph_tag: u32) -> Seq<u8> {
    DOMAIN_FINAL.spec_bytes() + le32(CONSTRUCTION_VERSION) + le32(graph_tag) + seed + state_bytes(state)
        + last_block
}

/// A 32-byte digest `d` cut or zero-padded to exactly `len` bytes: its
/// first `min(len, 32)` bytes, then zeros.
pub open spec fn spec_fit_length(d: Seq<u8>, len: nat) -> Seq<u8> {
    Seq::new(len, |j: int| if j < 32 { d[j] } else { 0u8 })
}

/// The output digest.
pub open spec fn spec_finalize(
    seed: Seq<u8>,
    state: Seq<u64>,
    last_block: Seq<u8>,
    graph_tag: u32,
    output_length: nat,
) -> Seq<u8> {
    spec_fit_length(sha256_spec(final_message(seed, state, last_block, graph_tag)), output_length)
}

/// Truncates or zero-pads a digest to `output_length` bytes.
pub fn fit_output(digest: &[u8; 32], output_length: usize) -> (out: Vec<u8>)
    ensures
        out@ == spec_fit_length(digest@, output_length as nat),
{
    let mut out: Vec<u8> = Vec::new();
    let mut j: usize = 0;
    while j < output_length
        invariant
            j <= output_length,
            out@ =~= spec_fit_length(digest@, j as nat),
        decreases output_length - j,
    {
        if j < 32 {
            out.push(digest[j]);
        } else {
            out.push(0);
        }
        j = j + 1;
    }
    out
}

/// Hashes seed, state and last block and fits the digest to the output length.
pub fn finalize(
    seed: &[u8; 32],
    state: &[u64; 4],
    last_block: &[u8],
    graph_tag: u32,
    output_length: usize,
) -> (out: Vec<u8>)
    ensures
        out@ == spec_finalize(seed@, state@, last_block@, graph_tag, output_length as nat),
{
    let mut m: Vec<u8> = Vec::new();
    m.extend_from_slice(DOMAIN_FINAL.as_bytes());
    push_le32(&mut m, CONSTRUCTION_VERSION);
    push_le32(&mut m, graph_tag);
    m.extend_from_slice(seed.as_slice());
    push_le64(&mut m, state[0]);
    push_le64(&mut m, state[1]);
    push_le64(&mut m, state[2]);
    push_le64(&mut m, state[3]);
    m.extend_from_slice(last_block);
    assert(state_bytes(state@) =~= spec_u64_to_le_bytes(state[0]) + spec_u64_to_le_bytes(state[1])
        + spec_u64_to_le_bytes(state[2]) + spec_u64_to_le_bytes(state[3])) by {
        vstd::bytes::lemma_auto_spec_u64_to_from_le_bytes();
    }
    assert(m@ =~= final_message(seed@, state@, last_block@, graph_tag));
    let d = sha256(m.as_slice());
    fit_output(&d, output_length)
}

/// The contents of the block memory.
pub open spec fn mem_view(memory: Seq<Vec<u8>>) -> Seq<Seq<u8>> {
    memory.map_values(|b: Vec<u8>| b@)
}

/// The blocks named by a parent list, in order.
pub open spec fn parent_views(memory: Seq<Seq<u8>>, indices: Seq<usize>) -> Seq<Seq<u8>> {
    indices.map_values(|p: usize| memory[p as int])
}

/// XORs the state into block `dest` when there is one, it exists and it is
/// not the node being written.
pub open spec fn spec_scatter(
    memory: Seq<Seq<u8>>,
    state: Seq<u64>,
    dest: Option<usize>,
    i: usize,
) -> Seq<Seq<u8>> {
    match dest {
        Some(d) => if d < memory.len() && d != i {
            memory.update(d as int, spec_xor_state_into_block(state, memory[d as int]))
        } else {
            memory
        },
        None => memory,
    }
}

/// The phantom blocks: one per unit of fan-in.
pub open spec fn spec_phantoms(seed: Seq<u8>, cfg: RefConfig) -> Seq<Seq<u8>> {
    Seq::new(
        cfg.fan_in as nat,
        |t: int| spec_phantom_block(seed, t as u32, cfg.block_size as nat),
    )
}

/// Node `i`: select parents, mix them into the state (node 0 mixes the
/// phantom blocks), write the state as block `i`, then XOR it into the two
/// scatter destinations.
pub open spec fn derive_step(
    cfg: RefConfig,
    phantoms: Seq<Seq<u8>>,
    state: Seq<u64>,
    memory: Seq<Seq<u8>>,
    i: usize,
) -> (Seq<u64>, Seq<Seq<u8>>) {
    let p = spec_parents(
        state,
        i,
        cfg.fan_in,
        cfg.spec_critical_period() as usize,
        cfg.spec_tile_len() as usize,
    );
    let views = if i == 0 { phantoms } else { parent_views(memory, p.indices) };
    let st = spec_mix_views(state, views);
    let m1 = memory.update(i as int, spec_state_to_block(st, memory[i as int]));
    let m2 = spec_scatter(m1, st, p.scatter_dest, i);
    let m3 = spec_scatter(m2, st, p.scatter_dest2, i);
    (st, m3)
}

/// State and memory after nodes `0 .. k` have been processed.
pub open spec fn derive_run(
    cfg: RefConfig,
    phantoms: Seq<Seq<u8>>,
    state0: Seq<u64>,
    memory0: Seq<Seq<u8>>,
    k: nat,
) -> (Seq<u64>, Seq<Seq<u8>>)
    decreases k,
{
    if k == 0 {
        (state0, memory0)
    } else {
        let prev = derive_run(cfg, phantoms, state0, memory0, (k - 1) as nat);
        derive_step(cfg, phantoms, prev.0, prev.1, (k - 1) as usize)
    }
}

/// The Derive output for password, salt and configuration.
pub open spec fn spec_derive(password: Seq<u8>, salt: Seq<u8>, cfg: RefConfig) -> Seq<u8> {
    let seed = spec_bind_seed(password, salt, cfg);
    let n = cfg.spec_num_blocks();
    let memory0 = Seq::new(n as nat, |k: int| Seq::new(cfg.block_size as nat, |j: int| 0u8));
    let run = derive_run(
        cfg,
        spec_phantoms(seed, cfg),
        spec_state_from_seed(seed),
        memory0,
        n as nat,
    );
    spec_finalize(seed, run.0, run.1[n - 1], cfg.graph_tag, cfg.output_length as nat)
}

/// Normative Derive for the CombinedFrontier graph.
pub fn derive(password: &[u8], salt: &[u8], cfg: &RefConfig) -> (out: Vec<u8>)
    requires
        cfg.graph_tag == GRAPH_COMBINED_FRONTIER,
        cfg.memory_fits(),
        cfg.spec_num_blocks() >= 64,
    ensures
        out@ == spec_derive(password@, salt@, *cfg),
{
    let n = cfg.num_blocks();
    let seed = bind_seed(password, salt, cfg);
    let mut state = state_from_seed(&seed);
    let b = cfg.block_size;
    let ghost state0 = state@;

    let mut memory: Vec<Vec<u8>> = Vec::new();
    let mut k: usize = 0;
    while k < n
        invariant
            k <= n,
            memory@.len() == k,
            forall|t: int| 0 <= t < k ==> (#[trigger] memory@[t])@ == Seq::new(b as nat, |j: int| 0u8),
        decreases n - k,
    {
        let blk: Vec<u8> = vec![0u8; b];
        memory.push(blk);
        k = k + 1;
    }
    let ghost memory0 = Seq::new(n as nat, |t: int| Seq::new(b as nat, |j: int| 0u8));
    assert(mem_view(memory@) =~= memory0);

    let fan = cfg.fan_in as usize;
    let mut phantoms: Vec<Vec<u8>> = Vec::new();
    let mut t: usize = 0;
    while t < fan
        invariant
            t <= fan,
            fan == cfg.fan_in,
            phantoms@.len() == t,
            forall|u: int| 0 <= u < t ==> (#[trigger] phantoms@[u])@ == spec_phantom_block(seed@, u as u32, b as nat),
        decreases fan - t,
    {
        let ph = phantom_block(&seed, t as u32, b);
        phantoms.push(ph);
        t = t + 1;
    }
    let ghost ph_spec = spec_phantoms(seed@, *cfg);
    assert(mem_view(phantoms@) =~= ph_spec);

    let period = cfg.critical_period();
    let tile_len = cfg.tile_len();

    let mut i: usize = 0;
    while i < n
        invariant
            i <= n,
            n == cfg.spec_num_blocks(),
            n >= 64,
            period == cfg.spec_critical_period(),
            tile_len == cfg.spec_tile_len(),
            mem_view(phantoms@) == ph_spec,
            memory@.len() == n,
            (state@, mem_view(memory@)) == derive_run(*cfg, ph_spec, state0, memory0, i as nat),
        decreases n - i,
    {
        let ghost st_before = state@;
        let ghost mem_before = mem_view(memory@);
        let parents = if i == 0 {
            ParentSet { indices: Vec::new(), scatter_dest: None, scatter_dest2: None }
        } else {
            parents_combined_frontier(&state, i, cfg.fan_in, period, tile_len)
        };
        let ghost p = spec_parents(st_before, i, cfg.fan_in, period, tile_len);
        assert(parents@.indices == p.indices);
        assert(parents@.scatter_dest == p.scatter_dest);
        assert(parents@.scatter_dest2 == p.scatter_dest2);
        proof {
            crate::graph::lemma_parents_form_dag(st_before, i, cfg.fan_in, period, tile_len);
        }

        let mut views: Vec<&[u8]> = Vec::new();
        if i == 0 {
            let mut u: usize = 0;
            while u < phantoms.len()
                invariant
                    u <= phantoms@.len(),
                    views@.len() == u,
                    forall|v: int| 0 <= v < u ==> (#[trigger] views@[v])@ == phantoms@[v]@,
                decreases phantoms@.len() - u,
            {
                views.push(phantoms[u].as_slice());
                u = u + 1;
            }
            assert(view_seqs(views@) =~= ph_spec);
        } else {
            let mut u: usize = 0;
            while u < parents.indices.len()
                invariant
                    u <= parents.indices@.len(),
                    views@.len() == u,
                    memory@.len() == n,
                    i < n,
                    forall|v: int| 0 <= v < parents.indices@.len() ==> #[trigger] parents.indices@[v] < i,
                    forall|v: int| 0 <= v < u ==> (#[trigger] views@[v])@ == memory@[parents.indices@[v] as int]@,
                decreases parents.indices@.len() - u,
            {
                let p_idx = parents.indices[u];
                views.push(memory[p_idx].as_slice());
                u = u + 1;
            }
            assert(view_seqs(views@) =~= parent_views(mem_before, p.indices));
        }
        mix_views(&mut state, views.as_slice());
        let ghost st = state@;

        state_to_block(&state, memory[i].as_mut_slice());
        let ghost m1 = mem_before.update(i as int, spec_state_to_block(st, mem_before[i as int]));
        assert(mem_view(memory@) =~= m1);

        if let Some(dest) = parents.scatter_dest {
            if dest < n && dest != i {
                xor_state_into_block(&state, memory[dest].as_mut_slice());
            }
        }
        let ghost m2 = spec_scatter(m1, st, p.scatter_dest, i);
        assert(mem_view(memory@) =~= m2);
        if let Some(dest) = parents.scatter_dest2 {
            if dest < n && dest != i {
                xor_state_into_block(&state, memory[dest].as_mut_slice());
            }
        }
        let ghost m3 = spec_scatter(m2, st, p.scatter_dest2, i);
        assert(mem_view(memory@) =~= m3);
        i = i + 1;
    }

    let last = memory[n - 1].as_slice();
    finalize(&seed, &state, last, cfg.graph_tag, cfg.output_length)
}

/// The digest always has exactly the configured output length: its first
/// `min(32, output_length)` bytes are the final hash's, and every byte past
/// the 32nd is zero.
pub proof fn lemma_derive_output_length(password: Seq<u8>, salt: Seq<u8>, cfg: RefConfig)
    ensures
        spec_derive(password, salt, cfg).len() == cfg.output_length,
        ({
            let seed = spec_bind_seed(password, salt, cfg);
            let n = cfg.spec_num_blocks();
            let run = derive_run(
                cfg,
                spec_phantoms(seed, cfg),
                spec_state_from_seed(seed),
                Seq::new(n as nat, |k: int| Seq::new(cfg.block_size as nat, |j: int| 0u8)),
                n as nat,
            );
            let d = sha256_spec(final_message(seed, run.0, run.1[n - 1], cfg.graph_tag));
            forall|j: int| 0 <= j < cfg.output_length && j < 32 ==> #[trigger] spec_derive(password, salt, cfg)[j] == d[j]
        }),
        forall|j: int| 32 <= j < cfg.output_length ==> #[trigger] spec_derive(password, salt, cfg)[j] == 0,
{
}

/// Configurations that differ only in output length run the same graph.
proof fn lemma_run_ignores_output_length(
    a: RefConfig,
    b: RefConfig,
    phantoms: Seq<Seq<u8>>,
    state0: Seq<u64>,
    memory0: Seq<Seq<u8>>,
    k: nat,
)
    requires
        a.memory_kib == b.memory_kib,
        a.block_size == b.block_size,
        a.fan_in == b.fan_in,
        a.graph_tag == b.graph_tag,
    ensures
        derive_run(a, phantoms, state0, memory0, k) == derive_run(b, phantoms, state0, memory0, k),
    decreases k,
{
    if k > 0 {
        lemma_run_ignores_output_length(a, b, phantoms, state0, memory0, (k - 1) as nat);
    }
}

/// The output length only cuts or pads: the digest for any output length is
/// the 32-byte digest of the same configuration, truncated, or followed by
/// zeros.
pub proof fn lemma_output_length_only_fits(password: Seq<u8>, salt: Seq<u8>, cfg: RefConfig)
    ensures
        ({
            let c32 = RefConfig { output_length: 32, ..cfg };
            &&& spec_derive(password, salt, c32).len() == 32
            &&& forall|j: int| 0 <= j < cfg.output_length ==> #[trigger] spec_derive(password, salt, cfg)[j]
                == (if j < 32 { spec_derive(password, salt, c32)[j] } else { 0u8 })
        }),
{
    let c32 = RefConfig { output_length: 32, ..cfg };
    assert(seed_message(password, salt, cfg) == seed_message(password, salt, c32));
    let seed = spec_bind_seed(password, salt, cfg);
    assert(spec_bind_seed(password, salt, c32) == seed);
    assert(spec_phantoms(seed, cfg) =~= spec_phantoms(seed, c32));
    let n = cfg.spec_num_blocks();
    let memory0 = Seq::new(n as nat, |k: int| Seq::new(cfg.block_size as nat, |j: int| 0u8));
    assert(c32.spec_num_blocks() == n);
    lemma_run_ignores_output_length(
        cfg,
        c32,
        spec_phantoms(seed, cfg),
        spec_state_from_seed(seed),
        memory0,
        n as nat,
    );
}

} // verus!
