use antech_kdf_reference::config::{RefConfig, GRAPH_COMBINED_FRONTIER};
use antech_kdf_reference::graph::parents_combined_frontier;
use antech_kdf_reference::kdf;
use antech_kdf_reference::kdf::{bind_seed, finalize, fit_output, phantom_block};
use antech_kdf_reference::mix::{mix_pair, mix_views};
use antech_kdf_reference::words::{state_from_seed, state_to_block, xor_state_into_block};

fn cfg(memory_kib: usize, block_size: usize, fan_in: u32, output_length: usize) -> RefConfig {
    RefConfig {
        memory_kib,
        block_size,
        fan_in,
        graph_tag: GRAPH_COMBINED_FRONTIER,
        output_length,
    }
}

fn derive_hex(pw: &[u8], salt: &[u8], c: RefConfig) -> String {
    hex::encode(kdf::derive(pw, salt, &c))
}

#[test]
fn derive_one_mib_default_shape() {
    assert_eq!(
        derive_hex(b"ref_cross_check", b"salt_16_bytes_!!", cfg(1024, 32, 2, 32)),
        "f47a392045bb0ca9d5eb3102082da2669b59c6f95312e7b422bac85d50aebb6c"
    );
}

#[test]
fn derive_block_sizes() {
    assert_eq!(
        derive_hex(b"password", b"saltsaltsaltsalt", cfg(1024, 16, 2, 32)),
        "87737b48b7e37fce986e686cf772cd9716a1aecbae959005fc6c41938dc8c032"
    );
    assert_eq!(
        derive_hex(b"pw", b"0123456789abcdef", cfg(1024, 48, 2, 32)),
        "17e4850483bbf601722afcce1743b8ef52942b43d21f0ccc2530a7e573849f58"
    );
    assert_eq!(
        derive_hex(b"correct_horse_battery_staple", b"0000000000000000", cfg(1024, 64, 3, 32)),
        "ca8c3eb7a4e6c45cb2d6c5f22e9390a273e2fe16b606a45e3ca9d0b9383b75e3"
    );
}

#[test]
fn derive_output_lengths() {
    assert_eq!(
        derive_hex(b"abc", b"salt_16_bytes_!!", cfg(1024, 32, 2, 16)),
        "daa89267f88f2c45187ea95476a22604"
    );
    assert_eq!(
        derive_hex(b"abc", b"salt_16_bytes_!!", cfg(1024, 32, 2, 40)),
        "daa89267f88f2c45187ea95476a2260498e7fdc7ef0f356a66a291fd54fb35610000000000000000"
    );
    assert!(kdf::derive(b"abc", b"s", &cfg(1024, 32, 2, 0)).is_empty());
}

#[test]
fn derive_fan_in_and_small_memory() {
    assert_eq!(
        derive_hex(b"", b"", cfg(1024, 32, 1, 32)),
        "de436dc1cebb3df1e15b41828661c0963bc6bc98dcbc5d8d09420e8b52dc74c1"
    );
    assert_eq!(
        derive_hex(b"p", b"s", cfg(1024, 32, 5, 32)),
        "43b7aa4777f830eb9701f0faa84e4ed4912578ae8ec120d39b0ca615f4857908"
    );
    assert_eq!(
        derive_hex(b"tiny", b"salt", cfg(2, 32, 2, 32)),
        "9cdf6b5fade4be3448f72ebe96da9a3c05e80f3681a43aa51f72f6baeebb0b63"
    );
}

#[test]
fn derive_is_deterministic_and_input_sensitive() {
    let c = cfg(2, 32, 2, 32);
    let a = kdf::derive(b"pw", b"salt", &c);
    assert_eq!(a, kdf::derive(b"pw", b"salt", &c));
    assert_ne!(a, kdf::derive(b"pw2", b"salt", &c));
    assert_ne!(a, kdf::derive(b"pw", b"salt2", &c));
}

#[test]
fn seed_and_state_vectors() {
    let c = cfg(1024, 32, 2, 32);
    let seed = bind_seed(b"password", b"salt_16_bytes_!!", &c);
    assert_eq!(
        hex::encode(seed),
        "42a4423041ab1066f1efae328f23210515ce485f6e35f22c913a2d3fbab0cbee"
    );
    let st = state_from_seed(&seed);
    assert_eq!(
        st,
        [0x6610ab413042a442, 0x521238f32aeeff1, 0x2cf2356e5f48ce15, 0xeecbb0ba3f2d3a91]
    );
}

#[test]
fn phantom_block_vectors() {
    let c = cfg(1024, 32, 2, 32);
    let seed = bind_seed(b"password", b"salt_16_bytes_!!", &c);
    let full = "2c901c14ee8aa6afbceee725ae7ae51698bd30093e4f42d10d138e1a574fa769f9ff51b9bf0f98658c2515da0d089a090ce6206b490c8730db81961436576b281e2c86e82305f4b06444288201d9dd03d0646b1d813e58abe183eba460f6a2fedb2bab0d";
    for bs in [16usize, 32, 40, 72, 100] {
        assert_eq!(hex::encode(phantom_block(&seed, 1, bs)), full[..2 * bs]);
    }
    assert!(phantom_block(&seed, 1, 0).is_empty());
}

#[test]
fn mix_vectors() {
    let b1: Vec<u8> = (0u8..32).collect();
    let b2: Vec<u8> = (100u8..132).collect();
    let mut st = [1u64, 2, 3, 4];
    mix_pair(&mut st, &b1, &b2);
    assert_eq!(st, [0xecd53d23ffd987d9, 0xffcf1e05d84cc650, 0xbeee5a6395a89069, 0x8912d5453a7b9117]);

    let short: Vec<u8> = (0u8..12).collect();
    let mut st = [1u64, 2, 3, 4];
    mix_pair(&mut st, &short, &[]);
    assert_eq!(st, [0x51b52775643ff744, 0x264c53f160d661ab, 0x71a87b92af3b1ec5, 0x77a24008facdba16]);

    let v0: Vec<u8> = (0u8..32).collect();
    let v1: Vec<u8> = (32u8..64).collect();
    let v2: Vec<u8> = (64u8..96).collect();
    let mut st = [5u64, 6, 7, 8];
    mix_views(&mut st, &[&v0, &v1, &v2]);
    assert_eq!(st, [0x4173f586af947727, 0x28f6703e295e199e, 0xce447bdca07eb4d3, 0xa90a3fa844857321]);

    let mut a = [5u64, 6, 7, 8];
    mix_views(&mut a, &[]);
    assert_eq!(a, [5, 6, 7, 8]);
    let mut single = [5u64, 6, 7, 8];
    mix_views(&mut single, &[&v1]);
    let mut pair = [5u64, 6, 7, 8];
    mix_pair(&mut pair, &v1, &v1);
    assert_eq!(single, pair);
}

#[test]
fn mixing_an_even_prefix_separately_gives_the_same_state() {
    let v: Vec<Vec<u8>> = (0u8..5).map(|k| (k * 40..k * 40 + 32).collect()).collect();
    let all: Vec<&[u8]> = v.iter().map(|b| b.as_slice()).collect();
    let mut whole = [9u64, 8, 7, 6];
    mix_views(&mut whole, &all);
    for m in 0..=2 {
        let mut split = [9u64, 8, 7, 6];
        mix_views(&mut split, &all[..2 * m]);
        mix_views(&mut split, &all[2 * m..]);
        assert_eq!(split, whole);
    }
    // An odd split pairs differently and, here, ends elsewhere.
    let mut odd = [9u64, 8, 7, 6];
    mix_views(&mut odd, &all[..1]);
    mix_views(&mut odd, &all[1..]);
    assert_ne!(odd, whole);
}

#[test]
fn distinct_states_mix_to_distinct_states() {
    let b1: Vec<u8> = (0u8..32).collect();
    let b2: Vec<u8> = (100u8..132).collect();
    let mut a = [1u64, 2, 3, 4];
    let mut b = [1u64, 2, 3, 5];
    mix_pair(&mut a, &b1, &b2);
    mix_pair(&mut b, &b1, &b2);
    assert_ne!(a, b);
}

#[test]
fn parent_selection_for_a_fixed_state() {
    let s = [0x0123456789abcdefu64, 0xfedcba9876543210, 0x0f1e2d3c4b5a6978, 0x8877665544332211];
    let p = parents_combined_frontier(&s, 66, 2, 4, 512);
    assert_eq!(p.indices, vec![65, 18, 60, 1]);
    assert_eq!((p.scatter_dest, p.scatter_dest2), (Some(1), Some(1)));
    let p = parents_combined_frontier(&s, 66, 8, 4, 512);
    assert_eq!(p.indices, vec![65, 18, 60, 1, 63]);
    let p = parents_combined_frontier(&s, 128, 2, 4, 512);
    assert_eq!(p.indices, vec![127, 80, 16, 19, 58]);
    assert_eq!((p.scatter_dest, p.scatter_dest2), (Some(45), Some(17)));
}

#[test]
fn parent_selection_vectors() {
    let c = cfg(1024, 32, 2, 32);
    let seed = bind_seed(b"password", b"salt_16_bytes_!!", &c);
    let s = state_from_seed(&seed);
    let cases: [(usize, &[usize], Option<usize>, Option<usize>); 14] = [
        (1, &[0], None, None),
        (2, &[1, 0], None, None),
        (3, &[2, 0], None, None),
        (63, &[62, 45, 50], None, None),
        (64, &[63, 61, 49], None, None),
        (65, &[64, 62, 40], Some(0), Some(0)),
        (128, &[127, 125, 113, 7, 23], Some(0), Some(34)),
        (130, &[129, 127, 105, 3], Some(2), Some(52)),
        (511, &[510, 508, 337], Some(68), Some(319)),
        (512, &[511, 509, 135, 87], Some(128), Some(162)),
        (513, &[512, 510], Some(132), Some(198)),
        (1000, &[999, 997, 697, 807, 871], Some(584), Some(850)),
        (1024, &[1023, 1021, 711, 535], Some(128), Some(34)),
        (4096, &[4095, 4093, 2823, 1879], Some(2816), Some(3298)),
    ];
    for (i, ix, d1, d2) in cases {
        let p = parents_combined_frontier(&s, i, 2, 4, 512);
        assert_eq!(p.indices, ix, "node {i}");
        assert_eq!(p.scatter_dest, d1, "node {i}");
        assert_eq!(p.scatter_dest2, d2, "node {i}");
    }
    let p = parents_combined_frontier(&s, 700, 8, 4, 512);
    assert_eq!(p.indices, vec![699, 697, 513, 375, 31]);
    assert_eq!((p.scatter_dest, p.scatter_dest2), (Some(632), Some(106)));
    let p = parents_combined_frontier(&s, 1536, 3, 4, 1024);
    assert_eq!(p.indices, vec![1535, 1533, 1521, 967, 727]);
    assert_eq!((p.scatter_dest, p.scatter_dest2), (Some(1408), Some(418)));
    let p = parents_combined_frontier(&s, 0, 2, 4, 512);
    assert!(p.indices.is_empty() && p.scatter_dest.is_none() && p.scatter_dest2.is_none());
}

#[test]
fn parents_are_earlier_and_distinct() {
    let s = [0x0123456789abcdefu64, 0xfedcba9876543210, 0x0f0f0f0f0f0f0f0f, 0xf0f0f0f0f0f0f0f0];
    for i in 1..3000usize {
        let p = parents_combined_frontier(&s, i, 8, 4, 512);
        assert!(!p.indices.is_empty() && p.indices.len() <= 8);
        assert_eq!(p.indices[0], i - 1);
        for (k, a) in p.indices.iter().enumerate() {
            assert!(*a < i);
            assert!(!p.indices[k + 1..].contains(a));
        }
        let fw = i.min(64);
        assert_eq!(p.scatter_dest.is_some(), i > fw);
        if let Some(d) = p.scatter_dest2 {
            assert!(d < i - fw);
        }
    }
}

#[test]
fn finalize_vectors() {
    let c = cfg(1024, 32, 2, 32);
    let seed = bind_seed(b"password", b"salt_16_bytes_!!", &c);
    let s = state_from_seed(&seed);
    let last: Vec<u8> = (0u8..32).collect();
    assert_eq!(
        hex::encode(finalize(&seed, &s, &last, 3, 32)),
        "6f96dc86025d77c021b8e0bbb21d687fad65c03f7ea569fa011aa535aa76e9d2"
    );
    let last16: Vec<u8> = (0u8..16).collect();
    assert_eq!(
        hex::encode(finalize(&seed, &s, &last16, 3, 50)),
        "34b2ca7bbb387c394c4573101394b01ca70b8fbc6752a4911bd14b058e604f71000000000000000000000000000000000000"
    );
    let d = [7u8; 32];
    assert_eq!(fit_output(&d, 4), vec![7u8; 4]);
    let mut padded = vec![7u8; 32];
    padded.extend_from_slice(&[0u8; 3]);
    assert_eq!(fit_output(&d, 35), padded);
}

#[test]
fn state_block_roundtrip() {
    let st = [0x1122334455667788u64, 0x99aabbccddeeff00, 1, u64::MAX];
    let mut block = vec![0xAAu8; 40];
    state_to_block(&st, &mut block);
    let mut seed = [0u8; 32];
    seed.copy_from_slice(&block[..32]);
    assert_eq!(state_from_seed(&seed), st);
    assert_eq!(&block[32..], &[0xAA; 8]);
    xor_state_into_block(&st, &mut block);
    assert_eq!(&block[..32], &[0u8; 32]);
    let mut short = vec![0u8; 5];
    state_to_block(&st, &mut short);
    assert_eq!(short, vec![0x88, 0x77, 0x66, 0x55, 0x44]);
}

#[test]
fn config_derived_values() {
    let c = RefConfig::canonical_default();
    assert_eq!(c.memory_kib, 16 * 1024);
    assert_eq!(c.num_blocks(), 524_288);
    assert_eq!(c.critical_period(), 4);
    assert_eq!(c.tile_len(), 512);
    assert_eq!(c.memory_bytes(), 16 * 1024 * 1024);
    let small = cfg(2, 32, 2, 32);
    assert_eq!(small.num_blocks(), 64);
    assert_eq!(small.tile_len(), 64);
    let zero_block = cfg(1, 0, 2, 32);
    assert_eq!(zero_block.num_blocks(), 1024);
    let none = cfg(0, 32, 2, 32);
    assert_eq!(none.num_blocks(), 0);
    assert_eq!(none.tile_len(), 1);
}
