# antech_kdf_reference

A readable implementation of the Antech compute-memory KDF (CombinedFrontier
graph), written in Verus: every function carries a contract over a
mathematical model of what it computes, and Verus proves the code meets it.
SHA-256 comes from the `sha2` crate; its digest is the one thing taken on
trust (`src/digest.rs`).

## Layout

- `src/config.rs`: construction constants and `RefConfig`.
- `src/words.rs`: little-endian word loads/stores, rotation, state/block conversion.
- `src/mix.rs`: the ARX mix of the 256-bit state with parent blocks.
- `src/graph.rs`: CombinedFrontier parent selection, with the proof that it builds a DAG.
- `src/kdf.rs`: seed binding, phantom blocks, finalization and `derive`,
  specified end to end by `spec_derive`.
- `src/digest.rs`: the SHA-256 wrapper.
- `src/keyed.rs`, `src/text.rs`: a sorted string-keyed table and text helpers.
- `src/scan.rs`: reading tool and `/proc` output: Unicode trimming, lines,
  whitespace tokens, comma lists and decimal numbers, as `str` defines them.
- `src/engineering/`: bookkeeping of the validation campaigns (case tallies,
  verdicts, report lines, deterministic generators, cost-model tables, the
  reading of host probes).
- `app/main.rs`: a command-line front end for `derive`; `app/host.rs` holds the
  host probes whose output the library reads.

## Scope

The campaign runners themselves, which drive the production `antech_kdf`
crates (hashing, verification, FFI and CUDA paths), spawn threads, time runs
and write result files, are not part of this crate, and neither are the
cross-checks of `derive` against the production engine: those crates are not
a dependency here. What the runners decide and count (case tallies, verdicts,
report lines, the generators and the parsing of probe output) is in
`src/engineering/` and verified. The probes in `app/host.rs` are the runners'
I/O side; with the runners absent nothing calls them yet.

## Design notes

- Category tallies are a vector of `(name, counts)` pairs kept in ascending
  name order (`src/keyed.rs`) rather than a `BTreeMap<String, _>`. Verus's
  specifications of the std maps give little that can be proved for `String`
  keys, while the sorted table lets the contracts state both the map from
  category to counts and the ascending order in which reports list the
  categories.
- Durations that the runners measure as floating-point seconds are held as
  whole nanoseconds, since the verified library has no floating point.

Run the tests with `cargo test`; verify the library with Verus on `src/lib.rs`.
