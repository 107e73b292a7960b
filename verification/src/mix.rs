//! The ARX mixing function that folds parent blocks into the 256-bit state.

use vstd::prelude::*;
use vstd::wrapping::u64_specs::{wrapping_add, wrapping_mul};
use crate::config::{C1, C2, GOLDEN, MIX_ROUNDS};
use crate::words::{load_u64, rotate_left, rotl, spec_load_u64};

verus! {

/// The four words a block contributes to a mix: the little-endian words at
/// offsets 0, 8, 16 and 24, each 0 where the block is too short.
pub open spec fn block_words(block: Seq<u8>) -> Seq<u64> {
    Seq::new(4, |k: int| spec_load_u64(block, 8 * k))
}

/// One ARX round `r` over state `s` with block words `a` and `b`.
pub open spec fn mix_round(s: Seq<u64>, a: Seq<u64>, b: Seq<u64>, r: u64) -> Seq<u64> {
    let s0 = rotl(wrapping_add(s[0], a[0] ^ wrapping_add(b[0], r)), 13) ^ s[3];
    let s1 = rotl(wrapping_add(s[1], wrapping_mul(a[1], C1) ^ b[1]), 17) ^ s0;
    let s2 = rotl(wrapping_add(s[2], a[2] ^ wrapping_mul(b[2], C2)), 19) ^ s1;
    let s3 = rotl(
        wrapping_add(s[3], wrapping_add(a[3], b[3]) ^ wrapping_mul(GOLDEN, (r + 1) as u64)),
        23,
    ) ^ s2;
    seq![s0, s1, s2, s3]
}

/// Rounds `0 .. k` applied in order.
pub open spec fn mix_rounds(s: Seq<u64>, a: Seq<u64>, b: Seq<u64>, k: nat) -> Seq<u64>
    decreases k,
{
    if k == 0 {
        s
    } else {
        mix_round(mix_rounds(s, a, b, (k - 1) as nat), a, b, (k - 1) as u64)
    }
}

/// The state after mixing in two block views.
pub open spec fn spec_mix_pair(s: Seq<u64>, block1: Seq<u8>, block2: Seq<u8>) -> Seq<u64> {
    mix_rounds(s, block_words(block1), block_words(block2), MIX_ROUNDS as nat)
}

/// Multi-round ARX mix of `state` with two block views.
pub fn mix_pair(state: &mut [u64; 4], block1: &[u8], block2: &[u8])
    ensures
        final(state)@ == spec_mix_pair(old(state)@, block1@, block2@),
{
    let b10 = load_u64(block1, 0);
    let b11 = load_u64(block1, 8);
    let b12 = load_u64(block1, 16);
    let b13 = load_u64(block1, 24);
    let b20 = load_u64(block2, 0);
    let b21 = load_u64(block2, 8);
    let b22 = load_u64(block2, 16);
    let b23 = load_u64(block2, 24);
    let ghost a = block_words(block1@);
    let ghost b = block_words(block2@);
    assert(a =~= seq![b10, b11, b12, b13]);
    assert(b =~= seq![b20, b21, b22, b23]);

    let mut r: u32 = 0;
    while r < MIX_ROUNDS
        invariant
            r <= MIX_ROUNDS,
            state@ == mix_rounds(old(state)@, a, b, r as nat),
            a == seq![b10, b11, b12, b13],
            b == seq![b20, b21, b22, b23],
        decreases MIX_ROUNDS - r,
    {
        let ghost before = state@;
        let rr = r as u64;
        state[0] = rotate_left(state[0].wrapping_add(b10 ^ b20.wrapping_add(rr)), 13) ^ state[3];
        state[1] = rotate_left(state[1].wrapping_add(b11.wrapping_mul(C1) ^ b21), 17) ^ state[0];
        state[2] = rotate_left(state[2].wrapping_add(b12 ^ b22.wrapping_mul(C2)), 19) ^ state[1];
        state[3] = rotate_left(
            state[3].wrapping_add(b13.wrapping_add(b23) ^ GOLDEN.wrapping_mul(rr + 1)),
            23,
        ) ^ state[2];
        assert(state@ =~= mix_round(before, a, b, rr));
        r = r + 1;
    }
}

/// The views of a list of borrowed blocks.
pub open spec fn view_seqs(views: Seq<&[u8]>) -> Seq<Seq<u8>> {
    views.map_values(|v: &[u8]| v@)
}

/// Mixing views `i ..` in consecutive pairs; an odd last view is paired with
/// itself.
pub open spec fn mix_views_from(s: Seq<u64>, views: Seq<Seq<u8>>, i: int) -> Seq<u64>
    decreases views.len() - i,
{
    if 0 <= i && i + 1 < views.len() {
        mix_views_from(spec_mix_pair(s, views[i], views[i + 1]), views, i + 2)
    } else if 0 <= i && i < views.len() {
        spec_mix_pair(s, views[i], views[i])
    } else {
        s
    }
}

/// The state after mixing in all views, pairwise in order.
pub open spec fn spec_mix_views(s: Seq<u64>, views: Seq<Seq<u8>>) -> Seq<u64> {
    mix_views_from(s, views, 0)
}

/// Mixes `views` into `state` two at a time; with an odd count the last view
/// is mixed with itself, and no views leave the state unchanged.
pub fn mix_views(state: &mut [u64; 4], views: &[&[u8]])
    ensures
        final(state)@ == spec_mix_views(old(state)@, view_seqs(views@)),
{
    let ghost vs = view_seqs(views@);
    if views.len() == 0 {
        return;
    }
    if views.len() == 1 {
        mix_pair(state, views[0], views[0]);
        return;
    }
    let mut i: usize = 0;
    while i < views.len() - 1
        invariant
            i <= views@.len(),
            views@.len() >= 2,
            vs == view_seqs(views@),
            mix_views_from(state@, vs, i as int) == spec_mix_views(old(state)@, vs),
        decreases views@.len() - i,
    {
        mix_pair(state, views[i], views[i + 1]);
        i = i + 2;
    }
    if i < views.len() {
        mix_pair(state, views[i], views[i]);
    }
}

/// `rotl(x, r) ^ c` determines `x`: rotation and XOR with a fixed word are
/// both one-to-one.
proof fn lemma_rotl_xor_cancel(x: u64, y: u64, r: u64, c: u64)
    requires
        0 < r < 64,
        rotl(x, r) ^ c == rotl(y, r) ^ c,
    ensures
        x == y,
{
    assert((x << r) | (x >> ((64 - r) as u64)) == (y << r) | (y >> ((64 - r) as u64))) by (bit_vector)
        requires
            ((x << r) | (x >> ((64 - r) as u64))) ^ c == ((y << r) | (y >> ((64 - r) as u64))) ^ c;
    assert(x == y) by (bit_vector)
        requires
            0 < r < 64,
            (x << r) | (x >> ((64 - r) as u64)) == (y << r) | (y >> ((64 - r) as u64));
}

/// Adding a fixed word modulo 2^64 is one-to-one.
proof fn lemma_wrapping_add_cancel(x: u64, y: u64, k: u64)
    requires
        wrapping_add(x, k) == wrapping_add(y, k),
    ensures
        x == y,
{
}

/// One round is one-to-one on four-word states: its output determines its
/// input (last word first, from the two last output words, then the others).
proof fn lemma_mix_round_injective(s: Seq<u64>, t: Seq<u64>, a: Seq<u64>, b: Seq<u64>, r: u64)
    requires
        s.len() == 4,
        t.len() == 4,
        mix_round(s, a, b, r) == mix_round(t, a, b, r),
    ensures
        s == t,
{
    let u = mix_round(s, a, b, r);
    let w = mix_round(t, a, b, r);
    assert(u[3] == w[3] && u[2] == w[2] && u[1] == w[1] && u[0] == w[0]);
    let k0 = a[0] ^ wrapping_add(b[0], r);
    let k1 = wrapping_mul(a[1], C1) ^ b[1];
    let k2 = a[2] ^ wrapping_mul(b[2], C2);
    let k3 = wrapping_add(a[3], b[3]) ^ wrapping_mul(GOLDEN, (r + 1) as u64);
    lemma_rotl_xor_cancel(wrapping_add(s[3], k3), wrapping_add(t[3], k3), 23, u[2]);
    lemma_wrapping_add_cancel(s[3], t[3], k3);
    lemma_rotl_xor_cancel(wrapping_add(s[2], k2), wrapping_add(t[2], k2), 19, u[1]);
    lemma_wrapping_add_cancel(s[2], t[2], k2);
    lemma_rotl_xor_cancel(wrapping_add(s[1], k1), wrapping_add(t[1], k1), 17, u[0]);
    lemma_wrapping_add_cancel(s[1], t[1], k1);
    lemma_rotl_xor_cancel(wrapping_add(s[0], k0), wrapping_add(t[0], k0), 13, s[3]);
    lemma_wrapping_add_cancel(s[0], t[0], k0);
    assert(s =~= t);
}

/// Any number of rounds is one-to-one on four-word states.
proof fn lemma_mix_rounds_injective(s: Seq<u64>, t: Seq<u64>, a: Seq<u64>, b: Seq<u64>, k: nat)
    requires
        s.len() == 4,
        t.len() == 4,
        mix_rounds(s, a, b, k) == mix_rounds(t, a, b, k),
    ensures
        s == t,
    decreases k,
{
    if k > 0 {
        let j = (k - 1) as nat;
        lemma_mix_rounds_len(s, a, b, j);
        lemma_mix_rounds_len(t, a, b, j);
        lemma_mix_round_injective(mix_rounds(s, a, b, j), mix_rounds(t, a, b, j), a, b, j as u64);
        lemma_mix_rounds_injective(s, t, a, b, j);
    }
}

/// Rounds keep a four-word state four words long.
proof fn lemma_mix_rounds_len(s: Seq<u64>, a: Seq<u64>, b: Seq<u64>, k: nat)
    requires
        s.len() == 4,
    ensures
        mix_rounds(s, a, b, k).len() == 4,
    decreases k,
{
    if k > 0 {
        lemma_mix_rounds_len(s, a, b, (k - 1) as nat);
    }
}

/// For fixed blocks, mixing is one-to-one on states: two states that mix to
/// the same result were the same state.
pub proof fn lemma_mix_pair_injective(s: Seq<u64>, t: Seq<u64>, block1: Seq<u8>, block2: Seq<u8>)
    requires
        s.len() == 4,
        t.len() == 4,
        spec_mix_pair(s, block1, block2) == spec_mix_pair(t, block1, block2),
    ensures
        s == t,
{
    lemma_mix_rounds_injective(s, t, block_words(block1), block_words(block2), MIX_ROUNDS as nat);
}

/// Pairwise mixing from an even position `i` inside an even-length prefix
/// `p` of `views`: mixing `p` from `i` and then `views` from the end of `p`
/// is mixing `views` from `i`.
proof fn lemma_mix_views_prefix(s: Seq<u64>, views: Seq<Seq<u8>>, m: nat, i: int)
    requires
        2 * m <= views.len(),
        0 <= i <= 2 * m,
        i % 2 == 0,
    ensures
        mix_views_from(s, views, i) == mix_views_from(
            mix_views_from(s, views.subrange(0, 2 * m as int), i),
            views,
            2 * m as int,
        ),
    decreases 2 * m - i,
{
    let p = views.subrange(0, 2 * m as int);
    if i < 2 * m {
        assert(p[i] == views[i] && p[i + 1] == views[i + 1]);
        lemma_mix_views_prefix(spec_mix_pair(s, views[i], views[i + 1]), views, m, i + 2);
    }
}

/// Mixing `views` from `j + d` is mixing the views after the first `d` from `j`.
proof fn lemma_mix_views_shift(x: Seq<u64>, views: Seq<Seq<u8>>, d: int, j: int)
    requires
        0 <= d <= views.len(),
        0 <= j,
    ensures
        mix_views_from(x, views, j + d) == mix_views_from(x, views.subrange(d, views.len() as int), j),
    decreases views.len() - (j + d),
{
    let q = views.subrange(d, views.len() as int);
    if j + d + 1 < views.len() {
        assert(q[j] == views[j + d] && q[j + 1] == views[j + d + 1]);
        lemma_mix_views_shift(spec_mix_pair(x, views[j + d], views[j + d + 1]), views, d, j + 2);
        assert(j + 2 + d == (j + d) + 2);
    } else if j + d < views.len() {
        assert(q[j] == views[j + d]);
    }
}

/// Mixing an even number of leading views in a call of its own and the rest
/// in a second call gives the same state as mixing all views at once.
pub proof fn lemma_mix_views_split_even(s: Seq<u64>, views: Seq<Seq<u8>>, m: nat)
    requires
        2 * m <= views.len(),
    ensures
        spec_mix_views(s, views) == spec_mix_views(
            spec_mix_views(s, views.subrange(0, 2 * m as int)),
            views.subrange(2 * m as int, views.len() as int),
        ),
{
    lemma_mix_views_prefix(s, views, m, 0);
    lemma_mix_views_shift(spec_mix_views(s, views.subrange(0, 2 * m as int)), views, 2 * m as int, 0);
}

} // verus!
