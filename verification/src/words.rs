//! 64-bit word helpers: little-endian loads and stores, left rotation, and
//! the conversion between the 256-bit mixing state and 32-byte blocks.

use vstd::prelude::*;
use vstd::bytes::*;

verus! {

/// Left rotation of a 64-bit word by `r` bits, `0 < r < 64`.
pub open spec fn rotl(x: u64, r: u64) -> u64
    recommends
        0 < r < 64,
{
    (x << r) | (x >> ((64 - r) as u64))
}

/// Executable left rotation.
pub fn rotate_left(x: u64, r: u64) -> (y: u64)
    requires
        0 < r < 64,
    ensures
        y == rotl(x, r),
{
    (x << r) | (x >> (64 - r))
}

/// The little-endian word stored at `offset` in `block`, or 0 when the
/// eight bytes starting there do not all lie inside the block.
pub open spec fn spec_load_u64(block: Seq<u8>, offset: int) -> u64 {
    if 0 <= offset && offset + 8 <= block.len() {
        spec_u64_from_le_bytes(block.subrange(offset, offset + 8))
    } else {
        0
    }
}

/// Reads the little-endian word at `offset`; 0 when it would run past the end.
pub fn load_u64(block: &[u8], offset: usize) -> (w: u64)
    ensures
        w == spec_load_u64(block@, offset as int),
{
    if block.len() >= 8 && offset <= block.len() - 8 {
        u64_from_le_bytes(&block[offset..offset + 8])
    } else {
        0
    }
}

/// The four words read from a 32-byte seed, each little-endian.
pub open spec fn spec_state_from_seed(seed: Seq<u8>) -> Seq<u64> {
    Seq::new(4, |k: int| spec_u64_from_le_bytes(seed.subrange(8 * k, 8 * k + 8)))
}

/// Splits a 32-byte seed into the initial mixing state.
pub fn state_from_seed(seed: &[u8; 32]) -> (state: [u64; 4])
    ensures
        state@ == spec_state_from_seed(seed@),
{
    let s = seed.as_slice();
    let state = [
        u64_from_le_bytes(&s[0..8]),
        u64_from_le_bytes(&s[8..16]),
        u64_from_le_bytes(&s[16..24]),
        u64_from_le_bytes(&s[24..32]),
    ];
    assert(state@ =~= spec_state_from_seed(seed@));
    state
}

/// The 32 bytes of a four-word state, each word little-endian, in order.
pub open spec fn state_bytes(state: Seq<u64>) -> Seq<u8> {
    Seq::new(32, |j: int| spec_u64_to_le_bytes(state[j / 8])[j % 8])
}

/// `block` with its first (at most 32) bytes replaced by the state bytes.
pub open spec fn spec_state_to_block(state: Seq<u64>, block: Seq<u8>) -> Seq<u8> {
    Seq::new(block.len(), |j: int| if j < 32 { state_bytes(state)[j] } else { block[j] })
}

/// `block` with its first (at most 32) bytes XOR-ed with the state bytes.
pub open spec fn spec_xor_state_into_block(state: Seq<u64>, block: Seq<u8>) -> Seq<u8> {
    Seq::new(block.len(), |j: int| if j < 32 { block[j] ^ state_bytes(state)[j] } else { block[j] })
}

/// Byte `k` (little-endian) of word `w`.
pub fn word_byte(w: u64, k: usize) -> (b: u8)
    requires
        k < 8,
    ensures
        b == spec_u64_to_le_bytes(w)[k as int],
{
    proof {
        spec_u64_to_le_bytes_to_open(w);
    }
    if k == 0 {
        (w & 0xff) as u8
    } else if k == 1 {
        ((w >> 8) & 0xff) as u8
    } else if k == 2 {
        ((w >> 16) & 0xff) as u8
    } else if k == 3 {
        ((w >> 24) & 0xff) as u8
    } else if k == 4 {
        ((w >> 32) & 0xff) as u8
    } else if k == 5 {
        ((w >> 40) & 0xff) as u8
    } else if k == 6 {
        ((w >> 48) & 0xff) as u8
    } else {
        ((w >> 56) & 0xff) as u8
    }
}

/// Writes the state bytes over the start of `block` (as many as fit).
pub fn state_to_block(state: &[u64; 4], block: &mut [u8])
    ensures
        final(block)@ == spec_state_to_block(state@, old(block)@),
{
    let len = block.len();
    let mut j: usize = 0;
    while j < 32 && j < len
        invariant
            j <= 32,
            len == block@.len() == old(block)@.len(),
            forall|t: int| 0 <= t < j && t < len ==> block@[t] == state_bytes(state@)[t],
            forall|t: int| j <= t < len ==> block@[t] == old(block)@[t],
        decreases 32 - j,
    {
        let b = word_byte(state[j / 8], j % 8);
        block[j] = b;
        j = j + 1;
    }
    assert(block@ =~= spec_state_to_block(state@, old(block)@));
}

/// XORs the state bytes into the start of `block` (as many as fit).
pub fn xor_state_into_block(state: &[u64; 4], block: &mut [u8])
    ensures
        final(block)@ == spec_xor_state_into_block(state@, old(block)@),
{
    let len = block.len();
    let mut j: usize = 0;
    while j < 32 && j < len
        invariant
            j <= 32,
            len == block@.len() == old(block)@.len(),
            forall|t: int|
                0 <= t < j && t < len ==> block@[t] == old(block)@[t] ^ state_bytes(state@)[t],
            forall|t: int| j <= t < len ==> block@[t] == old(block)@[t],
        decreases 32 - j,
    {
        let b = word_byte(state[j / 8], j % 8);
        block[j] = block[j] ^ b;
        j = j + 1;
    }
    assert(block@ =~= spec_xor_state_into_block(state@, old(block)@));
}

/// Reading the state back from the bytes it was written as gives the state.
pub proof fn lemma_state_bytes_roundtrip(state: Seq<u64>)
    requires
        state.len() == 4,
    ensures
        spec_state_from_seed(state_bytes(state)) == state,
{
    lemma_auto_spec_u64_to_from_le_bytes();
    let b = state_bytes(state);
    assert forall|k: int| 0 <= k < 4 implies #[trigger] spec_state_from_seed(b)[k] == state[k] by {
        assert(b.subrange(8 * k, 8 * k + 8) =~= spec_u64_to_le_bytes(state[k]));
    }
    assert(spec_state_from_seed(b) =~= state);
}

} // verus!
