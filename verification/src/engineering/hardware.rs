//! Host metadata helpers: the anonymised host name and the CUDA probe.

use vstd::prelude::*;
use vstd::string::StringSliceAdditionalSpecFns;
use vstd::wrapping::u64_specs::wrapping_mul;
use crate::scan::{first_line, first_line_text, text_opt, trim, trimmed};
use crate::text::{hex_number, push_hex_number};

verus! {

/// 64-bit FNV-1a of `b`.
pub open spec fn fnv1a(b: Seq<u8>) -> u64
    decreases b.len(),
{
    if b.len() == 0 {
        0xcbf29ce484222325
    } else {
        wrapping_mul(fnv1a(b.drop_last()) ^ (b.last() as u64), 0x100000001b3)
    }
}

/// 64-bit FNV-1a hash, used to anonymise host names.
pub fn simple_hash(b: &[u8]) -> (h: u64)
    ensures
        h == fnv1a(b@),
{
    let mut x: u64 = 0xcbf29ce484222325;
    let mut k: usize = 0;
    while k < b.len()
        invariant
            k <= b@.len(),
            x == fnv1a(b@.subrange(0, k as int)),
        decreases b@.len() - k,
    {
        assert(b@.subrange(0, k + 1).drop_last() =~= b@.subrange(0, k as int));
        x ^= b[k] as u64;
        x = x.wrapping_mul(0x100000001b3);
        k = k + 1;
    }
    assert(b@.subrange(0, b@.len() as int) =~= b@);
    x
}

/// Anonymised host identifier: the hexadecimal FNV-1a hash of the host name
/// (the host name is `unknown` when none is set).
pub fn hostname_hash(host_name: &str) -> (s: String)
    ensures
        s@ == hex_number(fnv1a(host_name.spec_bytes()) as nat),
{
    let mut s = String::new();
    push_hex_number(&mut s, simple_hash(host_name.as_bytes()));
    assert(s@ =~= hex_number(fnv1a(host_name.spec_bytes()) as nat));
    s
}

/// What `nvidia-smi --query-gpu=name --format=csv,noheader` output says:
/// no GPU when it is blank, otherwise a GPU named by its first line (after
/// trimming the whole output).
pub open spec fn spec_cuda_probe(out: Seq<char>) -> (bool, Option<Seq<char>>) {
    let t = trimmed(out);
    if t.len() == 0 {
        (false, None)
    } else {
        (true, Some(first_line_text(t)))
    }
}

/// Reads CUDA availability and the GPU name from `nvidia-smi` output.
pub fn cuda_probe_from_smi(out: &str) -> (r: (bool, Option<String>))
    ensures
        (r.0, text_opt(r.1)) == spec_cuda_probe(out@),
{
    let t = trim(out);
    if t.as_str().unicode_len() == 0 {
        (false, None)
    } else {
        let l = first_line(t.as_str());
        (true, Some(l.to_owned()))
    }
}

} // verus!
