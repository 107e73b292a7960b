//! CombinedFrontier parent selection: which earlier blocks feed block `i`,
//! and which earlier blocks it scatters its state into.

use vstd::prelude::*;
use vstd::wrapping::u64_specs::{wrapping_add, wrapping_mul};
use crate::config::{FRONTIER_WIDTH, GOLDEN, TILE_BLOCKS};
use crate::words::{rotate_left, rotl};

verus! {

/// Parents of one node and its (up to two) scatter destinations.
#[derive(Debug, Clone)]
pub struct ParentSet {
    pub indices: Vec<usize>,
    pub scatter_dest: Option<usize>,
    pub scatter_dest2: Option<usize>,
}

/// Mathematical view of a [`ParentSet`].
pub struct ParentSetView {
    pub indices: Seq<usize>,
    pub scatter_dest: Option<usize>,
    pub scatter_dest2: Option<usize>,
}

impl View for ParentSet {
    type V = ParentSetView;

    open spec fn view(&self) -> ParentSetView {
        ParentSetView {
            indices: self.indices@,
            scatter_dest: self.scatter_dest,
            scatter_dest2: self.scatter_dest2,
        }
    }
}

/// Appends `addr` unless it is not earlier than `i`, the list already holds
/// 8 parents, or `addr` is already present.
pub open spec fn spec_push_unique(ix: Seq<usize>, addr: usize, i: usize) -> Seq<usize> {
    if addr >= i || ix.len() >= 8 || ix.contains(addr) {
        ix
    } else {
        ix.push(addr)
    }
}

/// A valid parent list for node `i`: at most 8 distinct nodes, all earlier
/// than `i`.
pub open spec fn parents_wf(ix: Seq<usize>, i: usize) -> bool {
    &&& ix.len() <= 8
    &&& forall|k: int| 0 <= k < ix.len() ==> #[trigger] ix[k] < i
    &&& forall|k: int, l: int| 0 <= k < l < ix.len() ==> ix[k] != ix[l]
}

/// Executable `spec_push_unique`.
pub fn push_unique(indices: &mut Vec<usize>, addr: usize, i: usize)
    ensures
        final(indices)@ == spec_push_unique(old(indices)@, addr, i),
{
    if addr >= i || indices.len() >= 8 {
        return;
    }
    let mut k: usize = 0;
    while k < indices.len()
        invariant
            k <= indices@.len(),
            indices@ == old(indices)@,
            forall|t: int| 0 <= t < k ==> indices@[t] != addr,
        decreases indices@.len() - k,
    {
        if indices[k] == addr {
            assert(indices@.contains(addr));
            return;
        }
        k = k + 1;
    }
    assert(!indices@.contains(addr));
    indices.push(addr);
}

/// `spec_push_unique` keeps a parent list valid.
pub proof fn lemma_push_unique_wf(ix: Seq<usize>, addr: usize, i: usize)
    requires
        parents_wf(ix, i),
    ensures
        parents_wf(spec_push_unique(ix, addr, i), i),
        spec_push_unique(ix, addr, i).len() >= ix.len(),
        spec_push_unique(ix, addr, i).subrange(0, ix.len() as int) == ix,
{
    let r = spec_push_unique(ix, addr, i);
    assert(r.subrange(0, ix.len() as int) =~= ix);
    if !(addr >= i || ix.len() >= 8 || ix.contains(addr)) {
        assert forall|k: int, l: int| 0 <= k < l < r.len() implies r[k] != r[l] by {
            if l == ix.len() {
                assert(r[k] == ix[k]);
            }
        }
    }
}

/// Local-frontier top-up: retry (at most 6 times) until two parents exist.
pub open spec fn spec_local_fill(s: Seq<u64>, i: usize, fw: usize, ix: Seq<usize>, guard: nat) -> Seq<usize>
    decreases 6 - guard,
{
    if ix.len() < 2 && guard < 6 && fw > 0 && i > 0 {
        let g = guard + 1;
        let mix = s[(ix.len() % 4) as int] ^ wrapping_mul(i as u64, GOLDEN);
        let slot = (mix as usize) % fw;
        let ix1 = spec_push_unique(ix, (i - 1 - slot) as usize, i);
        if ix1.len() == ix.len() {
            let slot2 = (wrapping_add(s[2], g as u64) as usize) % fw;
            let ix2 = spec_push_unique(ix, (i - 1 - slot2) as usize, i);
            if ix2.len() == ix.len() {
                ix2
            } else {
                spec_local_fill(s, i, fw, ix2, g)
            }
        } else {
            spec_local_fill(s, i, fw, ix1, g)
        }
    } else {
        ix
    }
}

/// Fan-in top-up: retry (at most 4 times) until `fan` parents exist, drawing
/// from the current tile (or from all earlier nodes at a tile boundary).
pub open spec fn spec_fan_fill(
    s: Seq<u64>,
    i: usize,
    tile_start: usize,
    fan: int,
    ix: Seq<usize>,
    guard: nat,
) -> Seq<usize>
    decreases 4 - guard,
{
    if ix.len() < fan && guard < 4 && i > 0 && tile_start <= i {
        let mix = s[(ix.len() % 4) as int] ^ wrapping_mul(i as u64, GOLDEN);
        let addr = if i > tile_start {
            (tile_start + (mix as usize) % ((i - tile_start) as usize)) as usize
        } else {
            (mix as usize) % i
        };
        let ix1 = spec_push_unique(ix, addr, i);
        if ix1.len() == ix.len() {
            ix1
        } else {
            spec_fan_fill(s, i, tile_start, fan, ix1, guard + 1)
        }
    } else {
        ix
    }
}

/// Effective tile length: at least `TILE_BLOCKS`.
pub open spec fn spec_tile(tile_len: usize) -> usize {
    if tile_len >= 512 { tile_len } else { 512 }
}

/// First node of the tile holding `i`.
pub open spec fn spec_tile_start(i: usize, tile_len: usize) -> usize {
    ((i / spec_tile(tile_len)) * spec_tile(tile_len)) as usize
}

/// Critical nodes take a second far parent.
pub open spec fn spec_critical(i: usize, critical_period: usize) -> bool {
    (critical_period > 0 && i % critical_period == 0) || (i > 0 && i % 64 == 0)
}

/// Width of the local frontier at node `i`.
pub open spec fn spec_fw(i: usize) -> usize {
    if i <= 64 { i } else { 64 }
}

/// Parent list after the local frontier, tile-local and far parents.
pub open spec fn spec_structural_parents(
    s: Seq<u64>,
    i: usize,
    critical_period: usize,
    tile_len: usize,
) -> Seq<usize> {
    let fw = spec_fw(i);
    let tile_start = spec_tile_start(i, tile_len);
    let critical = spec_critical(i, critical_period);
    let ix0 = seq![(i - 1) as usize];
    let slot = (s[0] as usize) % fw;
    let ix1 = spec_push_unique(ix0, (i - 1 - slot) as usize, i);
    let ix2 = spec_local_fill(s, i, fw, ix1, 0);
    let ix3 = if i - tile_start > 1 {
        let span = (i - tile_start) as usize;
        spec_push_unique(ix2, (tile_start + (s[1] as usize) % span) as usize, i)
    } else {
        ix2
    };
    let remote_span = (i - fw) as usize;
    let ix4 = if i > fw + 1 && (critical || i % 2 == 0) {
        spec_push_unique(ix3, ((s[1] ^ rotl(s[3], 11)) as usize) % remote_span, i)
    } else {
        ix3
    };
    if i > fw + 1 && critical {
        spec_push_unique(ix4, ((s[0] ^ GOLDEN) as usize) % remote_span, i)
    } else {
        ix4
    }
}

/// CombinedFrontier parent selection for node `i` with rolling state `s`.
pub open spec fn spec_parents(
    s: Seq<u64>,
    i: usize,
    fan_in: u32,
    critical_period: usize,
    tile_len: usize,
) -> ParentSetView {
    if i == 0 {
        ParentSetView { indices: Seq::empty(), scatter_dest: None, scatter_dest2: None }
    } else {
        let fw = spec_fw(i);
        let tile_start = spec_tile_start(i, tile_len);
        let ix = spec_fan_fill(
            s,
            i,
            tile_start,
            fan_in as int,
            spec_structural_parents(s, i, critical_period, tile_len),
            0,
        );
        if i > fw {
            let span = (i - fw) as usize;
            ParentSetView {
                indices: ix,
                scatter_dest: Some(((s[2] ^ GOLDEN) as usize) % span),
                scatter_dest2: Some(((s[3] ^ rotl(s[0], 7)) as usize) % span),
            }
        } else {
            ParentSetView { indices: ix, scatter_dest: None, scatter_dest2: None }
        }
    }
}

/// The local-frontier top-up keeps a parent list valid and only appends.
pub proof fn lemma_local_fill_wf(s: Seq<u64>, i: usize, fw: usize, ix: Seq<usize>, guard: nat)
    requires
        parents_wf(ix, i),
    ensures
        parents_wf(spec_local_fill(s, i, fw, ix, guard), i),
        spec_local_fill(s, i, fw, ix, guard).len() >= ix.len(),
        spec_local_fill(s, i, fw, ix, guard).subrange(0, ix.len() as int) == ix,
    decreases 6 - guard,
{
    if ix.len() < 2 && guard < 6 && fw > 0 && i > 0 {
        let g = guard + 1;
        let mix = s[(ix.len() % 4) as int] ^ wrapping_mul(i as u64, GOLDEN);
        let slot = (mix as usize) % fw;
        let ix1 = spec_push_unique(ix, (i - 1 - slot) as usize, i);
        lemma_push_unique_wf(ix, (i - 1 - slot) as usize, i);
        if ix1.len() == ix.len() {
            let slot2 = (wrapping_add(s[2], g as u64) as usize) % fw;
            let ix2 = spec_push_unique(ix, (i - 1 - slot2) as usize, i);
            lemma_push_unique_wf(ix, (i - 1 - slot2) as usize, i);
            if ix2.len() != ix.len() {
                lemma_local_fill_wf(s, i, fw, ix2, g);
                let r = spec_local_fill(s, i, fw, ix2, g);
                assert(r.subrange(0, ix.len() as int) =~= r.subrange(0, ix2.len() as int).subrange(0, ix.len() as int));
            }
        } else {
            lemma_local_fill_wf(s, i, fw, ix1, g);
            let r = spec_local_fill(s, i, fw, ix1, g);
            assert(r.subrange(0, ix.len() as int) =~= r.subrange(0, ix1.len() as int).subrange(0, ix.len() as int));
        }
    } else {
        assert(ix.subrange(0, ix.len() as int) =~= ix);
    }
}

/// The fan-in top-up keeps a parent list valid and only appends.
pub proof fn lemma_fan_fill_wf(
    s: Seq<u64>,
    i: usize,
    tile_start: usize,
    fan: int,
    ix: Seq<usize>,
    guard: nat,
)
    requires
        parents_wf(ix, i),
    ensures
        parents_wf(spec_fan_fill(s, i, tile_start, fan, ix, guard), i),
        spec_fan_fill(s, i, tile_start, fan, ix, guard).len() >= ix.len(),
        spec_fan_fill(s, i, tile_start, fan, ix, guard).subrange(0, ix.len() as int) == ix,
    decreases 4 - guard,
{
    if ix.len() < fan && guard < 4 && i > 0 && tile_start <= i {
        let mix = s[(ix.len() % 4) as int] ^ wrapping_mul(i as u64, GOLDEN);
        let addr = if i > tile_start {
            (tile_start + (mix as usize) % ((i - tile_start) as usize)) as usize
        } else {
            (mix as usize) % i
        };
        let ix1 = spec_push_unique(ix, addr, i);
        lemma_push_unique_wf(ix, addr, i);
        if ix1.len() != ix.len() {
            lemma_fan_fill_wf(s, i, tile_start, fan, ix1, guard + 1);
            let r = spec_fan_fill(s, i, tile_start, fan, ix1, guard + 1);
            assert(r.subrange(0, ix.len() as int) =~= r.subrange(0, ix1.len() as int).subrange(0, ix.len() as int));
        }
    } else {
        assert(ix.subrange(0, ix.len() as int) =~= ix);
    }
}

/// Parent selection builds a DAG: every node after the first gets between one
/// and eight distinct parents, all earlier than itself, the first of them
/// always its predecessor; node 0 gets none. Nodes past the local frontier
/// scatter into two nodes that lie before that frontier; the others scatter
/// nowhere.
pub proof fn lemma_parents_form_dag(
    s: Seq<u64>,
    i: usize,
    fan_in: u32,
    critical_period: usize,
    tile_len: usize,
)
    requires
        s.len() == 4,
    ensures
        ({
            let p = spec_parents(s, i, fan_in, critical_period, tile_len);
            &&& parents_wf(p.indices, i)
            &&& (i == 0 ==> p.indices.len() == 0)
            &&& (i > 0 ==> p.indices.len() >= 1 && p.indices[0] == i - 1)
            &&& (p.scatter_dest is Some <==> i > spec_fw(i))
            &&& (p.scatter_dest2 is Some <==> i > spec_fw(i))
            &&& (p.scatter_dest matches Some(d) ==> d < i - spec_fw(i))
            &&& (p.scatter_dest2 matches Some(d) ==> d < i - spec_fw(i))
        }),
{
    if i > 0 {
        let fw = spec_fw(i);
        let tile_start = spec_tile_start(i, tile_len);
        let ix0 = seq![(i - 1) as usize];
        assert(parents_wf(ix0, i));
        let slot = (s[0] as usize) % fw;
        let ix1 = spec_push_unique(ix0, (i - 1 - slot) as usize, i);
        lemma_push_unique_wf(ix0, (i - 1 - slot) as usize, i);
        let ix2 = spec_local_fill(s, i, fw, ix1, 0);
        lemma_local_fill_wf(s, i, fw, ix1, 0);
        assert(ix2[0] == ix2.subrange(0, ix1.len() as int)[0]);
        assert(ix1[0] == ix1.subrange(0, ix0.len() as int)[0]);
        let critical = spec_critical(i, critical_period);
        let ix3 = if i - tile_start > 1 {
            let span = (i - tile_start) as usize;
            let a = (tile_start + (s[1] as usize) % span) as usize;
            lemma_push_unique_wf(ix2, a, i);
            assert(spec_push_unique(ix2, a, i)[0] == spec_push_unique(ix2, a, i).subrange(0, ix2.len() as int)[0]);
            spec_push_unique(ix2, a, i)
        } else {
            ix2
        };
        let remote_span = (i - fw) as usize;
        let ix4 = if i > fw + 1 && (critical || i % 2 == 0) {
            let a = ((s[1] ^ rotl(s[3], 11)) as usize) % remote_span;
            lemma_push_unique_wf(ix3, a, i);
            assert(spec_push_unique(ix3, a, i)[0] == spec_push_unique(ix3, a, i).subrange(0, ix3.len() as int)[0]);
            spec_push_unique(ix3, a, i)
        } else {
            ix3
        };
        let ix5 = if i > fw + 1 && critical {
            let a = ((s[0] ^ GOLDEN) as usize) % remote_span;
            lemma_push_unique_wf(ix4, a, i);
            assert(spec_push_unique(ix4, a, i)[0] == spec_push_unique(ix4, a, i).subrange(0, ix4.len() as int)[0]);
            spec_push_unique(ix4, a, i)
        } else {
            ix4
        };
        assert(ix5 == spec_structural_parents(s, i, critical_period, tile_len));
        lemma_fan_fill_wf(s, i, tile_start, fan_in as int, ix5, 0);
        let ix6 = spec_fan_fill(s, i, tile_start, fan_in as int, ix5, 0);
        assert(ix6[0] == ix6.subrange(0, ix5.len() as int)[0]);
    }
}

/// The node the fan-in top-up draws while `held` parents are held: a node
/// of the current tile before `i` (any node before `i` when `i` starts its
/// tile), picked by state word `held % 4` mixed with `i`.
pub open spec fn tile_draw(s: Seq<u64>, i: usize, tile_start: usize, held: int) -> usize {
    let mix = s[held % 4] ^ wrapping_mul(i as u64, GOLDEN);
    if i > tile_start {
        (tile_start + (mix as usize) % ((i - tile_start) as usize)) as usize
    } else {
        (mix as usize) % i
    }
}

/// The shape of the top-up from retry `guard` on: it appends `k` draws, at
/// most the retries left, each the draw for the count held at that moment,
/// and never past `fan` parents; when it stops short of both, the next draw
/// was refused (the list was full or already held it).
proof fn lemma_fan_fill_shape(
    s: Seq<u64>,
    i: usize,
    tile_start: usize,
    fan: int,
    ix: Seq<usize>,
    guard: nat,
)
    requires
        0 < i,
        tile_start <= i,
        guard <= 4,
    ensures
        ({
            let r = spec_fan_fill(s, i, tile_start, fan, ix, guard);
            let l = ix.len() as int;
            let k = r.len() - l;
            &&& 0 <= k <= 4 - guard
            &&& r.subrange(0, l) == ix
            &&& forall|j: int| 0 <= j < k ==> #[trigger] r[l + j] == tile_draw(s, i, tile_start, l + j)
            &&& k > 0 ==> l + k <= fan
            &&& k < 4 - guard && l + k < fan ==> r.len() >= 8 || r.contains(tile_draw(s, i, tile_start, l + k))
        }),
    decreases 4 - guard,
{
    let r = spec_fan_fill(s, i, tile_start, fan, ix, guard);
    let l = ix.len() as int;
    if ix.len() < fan && guard < 4 {
        let addr = tile_draw(s, i, tile_start, l);
        let ix1 = spec_push_unique(ix, addr, i);
        assert(addr < i) by {
            let mix = s[l % 4] ^ wrapping_mul(i as u64, GOLDEN);
            if i > tile_start {
                assert((mix as usize) % ((i - tile_start) as usize) < i - tile_start);
            } else {
                assert((mix as usize) % i < i);
            }
        }
        if ix1.len() != ix.len() {
            assert(ix1 == ix.push(addr));
            lemma_fan_fill_shape(s, i, tile_start, fan, ix1, guard + 1);
            assert(r.subrange(0, l) =~= r.subrange(0, l + 1).subrange(0, l));
            assert(r[l] == r.subrange(0, l + 1)[l]);
            assert forall|j: int| 0 <= j < r.len() - l implies #[trigger] r[l + j] == tile_draw(s, i, tile_start, l + j) by {
                if j > 0 {
                    assert(r[(l + 1) + (j - 1)] == tile_draw(s, i, tile_start, (l + 1) + (j - 1)));
                }
            }
        } else {
            assert(ix.subrange(0, l) =~= ix);
        }
    } else {
        assert(ix.subrange(0, l) =~= ix);
    }
}

/// The fan-in top-up of node `i > 0`. After the structural parents it makes
/// up to four draws from the tile while fewer than `fan_in` parents are held,
/// each appended when fresh; it stops early only when a draw is refused,
/// because the list holds 8 parents or already holds the drawn node. So a
/// node whose draws are all fresh ends with `min(structural + 4, fan_in, 8)`
/// parents (and at least its structural ones).
pub proof fn lemma_fan_in_top_up(s: Seq<u64>, i: usize, fan_in: u32, critical_period: usize, tile_len: usize)
    requires
        0 < i,
    ensures
        ({
            let st = spec_structural_parents(s, i, critical_period, tile_len);
            let p = spec_parents(s, i, fan_in, critical_period, tile_len).indices;
            let ts = spec_tile_start(i, tile_len);
            let l = st.len() as int;
            let k = p.len() - l;
            &&& p.subrange(0, l) == st
            &&& 0 <= k <= 4
            &&& forall|j: int| 0 <= j < k ==> #[trigger] p[l + j] == tile_draw(s, i, ts, l + j)
            &&& k > 0 ==> l + k <= fan_in
            &&& k < 4 && l + k < fan_in ==> p.len() >= 8 || p.contains(tile_draw(s, i, ts, l + k))
        }),
{
    let tile = spec_tile(tile_len);
    assert((i / tile) * tile <= i) by (nonlinear_arith)
        requires
            tile > 0,
    ;
    lemma_fan_fill_shape(
        s,
        i,
        spec_tile_start(i, tile_len),
        fan_in as int,
        spec_structural_parents(s, i, critical_period, tile_len),
        0,
    );
}

/// Executable `spec_local_fill` starting from guard 0.
fn local_fill(state: &[u64; 4], i: usize, fw: usize, indices: &mut Vec<usize>)
    requires
        0 < fw <= i,
    ensures
        final(indices)@ == spec_local_fill(state@, i, fw, old(indices)@, 0),
{
    let ghost target = spec_local_fill(state@, i, fw, old(indices)@, 0);
    let mut guard: usize = 0;
    let mut done = false;
    while !done && indices.len() < 2 && guard < 6
        invariant
            guard <= 6,
            0 < fw <= i,
            target == (if done {
                indices@
            } else {
                spec_local_fill(state@, i, fw, indices@, guard as nat)
            }),
        decreases 6 - guard,
    {
        let ghost ix = indices@;
        let ghost g0 = guard as nat;
        guard = guard + 1;
        let mix = state[indices.len() % 4] ^ (i as u64).wrapping_mul(GOLDEN);
        let slot = (mix as usize) % fw;
        let before = indices.len();
        push_unique(indices, i - 1 - slot, i);
        if indices.len() == before {
            let slot2 = (state[2].wrapping_add(guard as u64) as usize) % fw;
            assert(indices@ == ix);
            push_unique(indices, i - 1 - slot2, i);
            if indices.len() == before {
                done = true;
            }
        }
    }
}

/// Executable `spec_fan_fill` starting from guard 0.
fn fan_fill(state: &[u64; 4], i: usize, tile_start: usize, fan_in: u32, indices: &mut Vec<usize>)
    requires
        0 < i,
        tile_start <= i,
    ensures
        final(indices)@ == spec_fan_fill(state@, i, tile_start, fan_in as int, old(indices)@, 0),
{
    let ghost target = spec_fan_fill(state@, i, tile_start, fan_in as int, old(indices)@, 0);
    let mut guard: usize = 0;
    let mut done = false;
    while !done && indices.len() < fan_in as usize && guard < 4
        invariant
            guard <= 4,
            0 < i,
            tile_start <= i,
            target == (if done {
                indices@
            } else {
                spec_fan_fill(state@, i, tile_start, fan_in as int, indices@, guard as nat)
            }),
        decreases 4 - guard,
    {
        let mix = state[indices.len() % 4] ^ (i as u64).wrapping_mul(GOLDEN);
        let before = indices.len();
        let addr = if i > tile_start {
            tile_start + ((mix as usize) % (i - tile_start))
        } else {
            (mix as usize) % i
        };
        push_unique(indices, addr, i);
        guard = guard + 1;
        if indices.len() == before {
            done = true;
        }
    }
}

/// CombinedFrontier parent selection (the canonical graph).
pub fn parents_combined_frontier(
    state: &[u64; 4],
    i: usize,
    fan_in: u32,
    critical_period: usize,
    tile_len: usize,
) -> (ps: ParentSet)
    ensures
        ps@ == spec_parents(state@, i, fan_in, critical_period, tile_len),
{
    if i == 0 {
        let ps = ParentSet { indices: Vec::new(), scatter_dest: None, scatter_dest2: None };
        assert(ps@.indices =~= Seq::<usize>::empty());
        return ps;
    }
    let ghost s = state@;
    let tile = if tile_len >= TILE_BLOCKS { tile_len } else { TILE_BLOCKS };
    assert((i / tile) * tile <= i) by (nonlinear_arith)
        requires
            tile > 0,
    ;
    let tile_start = (i / tile) * tile;
    assert(tile_start == spec_tile_start(i, tile_len));
    let critical = (critical_period > 0 && i % critical_period == 0) || (i > 0 && i
        % FRONTIER_WIDTH == 0);

    let mut indices: Vec<usize> = Vec::new();
    indices.push(i - 1);
    assert(indices@ =~= seq![(i - 1) as usize]);
    let fw = if FRONTIER_WIDTH <= i { FRONTIER_WIDTH } else { i };
    let slot = (state[0] as usize) % fw;
    push_unique(&mut indices, i - 1 - slot, i);

    let ghost ix1 = indices@;
    assert(ix1 == spec_push_unique(seq![(i - 1) as usize], (i - 1 - (s[0] as usize) % fw) as usize, i));
    local_fill(state, i, fw, &mut indices);
    let ghost ix2 = indices@;
    assert(critical == spec_critical(i, critical_period));

    if i - tile_start > 1 {
        let span = i - tile_start;
        let local_remote = tile_start + ((state[1] as usize) % span);
        push_unique(&mut indices, local_remote, i);
    }
    let ghost ix3 = indices@;
    assert(ix3 == (if i - tile_start > 1 {
        spec_push_unique(ix2, (tile_start + (s[1] as usize) % ((i - tile_start) as usize)) as usize, i)
    } else {
        ix2
    }));

    assert((i & 1) == 0 <==> i % 2 == 0) by (bit_vector);
    if i > fw + 1 {
        let remote_span = i - fw;
        if critical || (i & 1) == 0 {
            let far = ((state[1] ^ rotate_left(state[3], 11)) as usize) % remote_span;
            push_unique(&mut indices, far, i);
        }
        if critical {
            let far2 = ((state[0] ^ GOLDEN) as usize) % remote_span;
            push_unique(&mut indices, far2, i);
        }
    }
    let ghost structural = indices@;
    assert(structural == spec_structural_parents(s, i, critical_period, tile_len));

    fan_fill(state, i, tile_start, fan_in, &mut indices);
    assert(indices@ == spec_fan_fill(s, i, tile_start, fan_in as int, structural, 0));

    let (scatter_dest, scatter_dest2) = if i > fw {
        let span = i - fw;
        (
            Some(((state[2] ^ GOLDEN) as usize) % span),
            Some(((state[3] ^ rotate_left(state[0], 7)) as usize) % span),
        )
    } else {
        (None, None)
    };
    ParentSet { indices, scatter_dest, scatter_dest2 }
}

} // verus!
