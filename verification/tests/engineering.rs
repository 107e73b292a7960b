use antech_kdf_reference::engineering::adversarial_validation::{
    csv_escape as csv_escape_quoted, host_compiler, host_thread_cap, soak_durations_secs,
    is_material_security_finding as material, Acc as AdvAcc, Host as AdvHost, Row as AdvRow,
    Status,
};
use antech_kdf_reference::engineering::asic_fpga::{
    antech_vs_argon2, construction_facts, default_canonical_model, operation_count,
    replication_counts, MemArch,
};
use antech_kdf_reference::engineering::final_validation::{
    asan_ubsan_local_marker, miri_local_marker, CheckStatus,
};
use antech_kdf_reference::engineering::hardware::{hostname_hash, simple_hash};
use antech_kdf_reference::engineering::hardware_validation::{
    build_profile, csv_escape as csv_escape_plain, hex32, HwStatus,
};
use antech_kdf_reference::engineering::production_correctness::{
    self as pc, fill_bytes, hex, hex_to_bytes, xorshift, Acc, CaseRow,
};
use antech_kdf_reference::engineering::production_stress::{
    apply_outcome, policy_snapshot, Counters, OpOutcome,
};
use antech_kdf_reference::engineering::property::{self as prop, PropertyRow};
use antech_kdf_reference::engineering::side_channel_campaign::{
    branch_analysis_rows, cache_blocked_row, no_regression_rows, CampaignProfile,
};
use antech_kdf_reference::engineering::validation_100k::{
    category_stub_rows, coverage_rows, failure_rows, graph_kind, record_environment_gates,
    regression_line, sanitizer_fuzz_rows, Campaign, CaseStatus, GraphKind, Rng, MASTER_SEED,
};
use antech_kdf_reference::config::RefConfig;
use antech_kdf_reference::engineering::{
    final_validation, hardware_validation, production_correctness, production_stress,
    side_channel_campaign,
};
use antech_kdf_reference::multitarget::run_multitarget_benchmark;
use antech_kdf_reference::text::contains_lowered;

fn totals_of(c: &Campaign, cat: &str) -> Option<(u64, u64, u64, u64, u64)> {
    c.by_category
        .iter()
        .find(|(k, _)| k == cat)
        .map(|(_, t)| (t.executed, t.pass, t.fail, t.blocked, t.not_run))
}

#[test]
fn campaign_counts_only_pass_and_fail_as_executed() {
    let mut c = Campaign::new();
    c.pass("parser", 1, "ok".to_string());
    c.pass("parser", 2, "ok".to_string());
    c.fail("parser", 3, "panic".to_string());
    c.blocked("miri", "no miri".to_string());
    c.not_run("cuda", "off".to_string());
    c.pass("config", 4, "ok".to_string());
    assert_eq!(c.totals(), (4, 3, 1, 1, 1));
    assert_eq!(totals_of(&c, "parser"), Some((3, 2, 1, 0, 0)));
    assert_eq!(totals_of(&c, "miri"), Some((0, 0, 0, 1, 0)));
    assert_eq!(totals_of(&c, "cuda"), Some((0, 0, 0, 0, 1)));
    let keys: Vec<&str> = c.by_category.iter().map(|(k, _)| k.as_str()).collect();
    assert_eq!(keys, vec!["config", "cuda", "miri", "parser"]);
    assert_eq!(c.failures.len(), 1);
    assert_eq!(c.failures[0].id, 2);
    assert_eq!(c.failures[0].seed, 3);
    assert_eq!(c.failures[0].status, CaseStatus::Fail);
    assert_eq!(c.records.len(), 6);
    assert_eq!(c.records[3].status, CaseStatus::Blocked);
    assert_eq!(c.records[3].seed, 0);
    assert_eq!(c.next_id, 6);
}

#[test]
fn campaign_keeps_sample_and_all_failures() {
    let mut c = Campaign::new();
    for i in 0..600u64 {
        c.pass("bulk", i, String::new());
    }
    c.fail("bulk", 9, "late failure".to_string());
    assert_eq!(c.records.len(), 513);
    assert_eq!(c.records[512].detail, "late failure");
    assert_eq!(c.failures.len(), 1);
    assert_eq!(c.totals(), (601, 600, 1, 0, 0));
}

#[test]
fn environment_gates_are_never_passes() {
    let mut c = Campaign::new();
    record_environment_gates(&mut c, false, false);
    assert_eq!(c.totals(), (0, 0, 0, 3, 3));
    assert_eq!(totals_of(&c, "cuda"), Some((0, 0, 0, 0, 1)));
    let mut d = Campaign::new();
    record_environment_gates(&mut d, true, true);
    assert_eq!(totals_of(&d, "cuda"), Some((0, 0, 0, 1, 0)));
    assert_eq!(d.totals(), (0, 0, 0, 4, 2));
}

#[test]
fn rng_vectors() {
    let mut r = Rng::new(MASTER_SEED);
    assert_eq!(r.0, 0xa71ec4100cad1001);
    assert_eq!(r.next(), 0x877eb7ee71326a61);
    assert_eq!(r.next(), 0xaf572736c1ecb6f5);
    let mut r = Rng::new(MASTER_SEED);
    assert_eq!(r.usize(5, 9), 8);
    assert_eq!(r.usize(7, 7), 7);
    assert_eq!(r.usize(9, 3), 9);
    let mut r = Rng::new(MASTER_SEED);
    assert_eq!(hex::encode(r.bytes(11)), "616a3271eeb77e87f5b6ec");
    assert_eq!(r.0, 0xaf572736c1ecb6f5);
    let mut z = Rng::new(0);
    assert_eq!(z.0, 1);
    for _ in 0..1000 {
        assert_ne!(z.next(), 0);
    }
    assert!(Rng::new(5).bytes(0).is_empty());
}

#[test]
fn xorshift_and_fill_bytes() {
    let mut s = 0x123456789abcdefu64;
    let v = fill_bytes(&mut s, 5);
    assert_eq!(v, vec![180, 183, 214, 195, 14]);
    assert_eq!(s, 0xacccfee2b873c40e);
    let mut a = 0xa71ec4100cad1001u64;
    assert_eq!(xorshift(&mut a), 0x877eb7ee71326a61);
    let mut b = 0xa71ec4100cad1001u64;
    assert_eq!(prop::xorshift(&mut b), 0x877eb7ee71326a61);
    assert_eq!(a, b);
}

#[test]
fn hex_encoding_and_decoding() {
    assert_eq!(hex(&[0x00, 0xab, 0x7f, 0xff]), "00ab7fff");
    assert_eq!(hex32(&[0xde, 0xad]), "dead");
    assert_eq!(hex(&[]), "");
    assert_eq!(hex_to_bytes("00ab7fff"), vec![0x00, 0xab, 0x7f, 0xff]);
    assert_eq!(hex_to_bytes("ABcd"), vec![0xab, 0xcd]);
    assert_eq!(hex_to_bytes("abc"), vec![0xab]);
    assert_eq!(hex_to_bytes("zz12"), vec![0x12]);
    assert_eq!(hex_to_bytes("+f"), vec![0x0f]);
    assert_eq!(hex_to_bytes("-f"), Vec::<u8>::new());
    assert_eq!(hex_to_bytes("é12"), vec![0x12]);
    let bytes: Vec<u8> = (0u8..=255).collect();
    assert_eq!(hex_to_bytes(&hex(&bytes)), bytes);
}

#[test]
fn correctness_summary_tallies() {
    let mut acc = Acc::new();
    acc.push("salt", "s8", pc::Status::Pass, "ok".to_string());
    acc.expect_ok("memory", "m512", false, "accepted".to_string());
    acc.push("gpu", "cuda", pc::Status::Blocked, "no gpu".to_string());
    acc.push("salt", "s9", pc::Status::NotApplicable, "n/a".to_string());
    acc.expect_ok("salt", "s10", true, "ok".to_string());
    acc.panics = 2;
    let s = pc::finalize(&acc, "linux x86_64 cpus=8".to_string());
    assert_eq!(s.totals.cases, 5);
    assert_eq!(s.totals.pass, 2);
    assert_eq!(s.totals.fail, 1);
    assert_eq!(s.totals.blocked, 1);
    assert_eq!(s.totals.not_applicable, 1);
    assert_eq!(s.totals.panics_caught, 2);
    assert_eq!(s.failures, 1);
    assert_eq!(s.verdict, "FAIL failures=1 panics=2");
    assert_eq!(s.blockers, vec!["gpu:cuda:no gpu".to_string()]);
    let names: Vec<&str> = s.suite_totals.iter().map(|(k, _)| k.as_str()).collect();
    assert_eq!(names, vec!["gpu", "memory", "salt"]);
    let salt = s.suite_totals[2].1;
    assert_eq!((salt.cases, salt.pass, salt.not_applicable), (3, 2, 1));
    assert_eq!(s.bugs_fixed, 2);
    assert_eq!(s.regression_tests_added, 3);
    assert_eq!(s.host, "linux x86_64 cpus=8");

    let mut ok = Acc::new();
    ok.push("x", "1", pc::Status::Pass, String::new());
    let s = pc::finalize(&ok, String::new());
    assert_eq!(s.verdict, "PASS");
    assert!(s.blockers.is_empty());

    let mut many = Acc::new();
    for i in 0..45 {
        many.push("b", &format!("{i}"), pc::Status::Blocked, String::new());
    }
    let s = pc::finalize(&many, String::new());
    assert_eq!(s.blockers.len(), 40);
    assert_eq!(s.blockers[39], "b:39:");
    let row = CaseRow {
        suite: "a".into(),
        case_id: "b".into(),
        status: pc::Status::Pass,
        detail: String::new(),
    };
    assert_eq!(row.status, pc::Status::Pass);
}

#[test]
fn status_spellings() {
    assert_eq!(Status::Pass.as_str(), "PASS");
    assert_eq!(Status::NotRun.as_str(), "NOT RUN");
    assert_eq!(HwStatus::NotApplicable.as_str(), "NOT APPLICABLE");
    assert_eq!(HwStatus::Blocked.as_str(), "BLOCKED");
    assert_eq!(MemArch::OnChipSram.as_str(), "on_chip_sram");
    assert_eq!(MemArch::Hbm.as_str(), "hbm");
}

#[test]
fn csv_escaping() {
    assert_eq!(csv_escape_quoted("plain text"), "plain text");
    assert_eq!(csv_escape_quoted("a,b"), "\"a;b\"");
    assert_eq!(csv_escape_quoted("say \"hi\""), "say ''hi''");
    assert_eq!(csv_escape_quoted("x;y"), "\"x;y\"");
    assert_eq!(csv_escape_quoted("line1\nline2"), "line1 line2");
    assert_eq!(csv_escape_plain("a,\"b\""), "a;'b'");
    assert_eq!(csv_escape_plain("x\ny"), "x\ny");
}

#[test]
fn profiles_and_small_decisions() {
    assert_eq!(soak_durations_secs("full"), vec![60, 300, 900]);
    assert_eq!(soak_durations_secs("ci"), vec![10, 20]);
    assert_eq!(soak_durations_secs("standard"), vec![60, 300]);
    assert_eq!(host_compiler("1.80.0"), "rustc 1.80.0");
    assert_eq!(host_thread_cap(0), 64);
    assert_eq!(host_thread_cap(4), 512);
    assert_eq!(host_thread_cap(16), 1000);
    assert_eq!(build_profile(true), "debug");
    assert_eq!(build_profile(false), "release");
    let ci = CampaignProfile::from_profile("CI");
    assert_eq!((ci.derive_samples, ci.fast_samples, ci.include_16mib, ci.contention_iters), (40, 400, false, 20));
    let full = CampaignProfile::from_profile("full");
    assert_eq!((full.derive_samples, full.fast_samples, full.include_16mib, full.contention_iters), (80, 800, true, 40));
    let p = policy_snapshot();
    assert_eq!((p.max_memory_kib, p.max_active_jobs, p.queue_limit), (131_072, 64, 256));
}

#[test]
fn sanitizer_markers() {
    let w = asan_ubsan_local_marker(true);
    assert_eq!(w.status, CheckStatus::Blocked);
    assert_eq!(w.name, "asan_ubsan_local");
    assert_eq!(asan_ubsan_local_marker(false).status, CheckStatus::NotRun);
    assert_eq!(miri_local_marker(Some("PASS")).status, CheckStatus::Pass);
    assert_eq!(miri_local_marker(Some("Fail")).detail, "Recorded from ANTECH_MIRI_STATUS=fail");
    assert_eq!(miri_local_marker(Some("blocked")).status, CheckStatus::Blocked);
    assert_eq!(miri_local_marker(Some("maybe")).status, CheckStatus::NotRun);
    assert_eq!(miri_local_marker(None).status, CheckStatus::NotRun);
}

#[test]
fn fnv_host_hash() {
    assert_eq!(simple_hash(b""), 0xcbf29ce484222325);
    assert_eq!(simple_hash(b"unknown"), 0x498865c7bd1f3959);
    assert_eq!(hostname_hash("unknown"), "498865c7bd1f3959");
    assert_eq!(hostname_hash(""), "cbf29ce484222325");
}

#[test]
fn cost_model_counts() {
    let m = default_canonical_model();
    assert_eq!(m.memory_mib, 16);
    assert_eq!(m.num_blocks, 524_288);
    assert_eq!(m.mix_pairs, 1_171_024);
    assert_eq!(m.scatter_rmw, 1_048_448);
    assert_eq!(m.bytes_read, 67_104_768);
    assert_eq!(m.bytes_written, 50_327_552);
    assert_eq!(m.arx_rounds_total, 4_684_096);
    assert_eq!(m.kind, "MEASURED+MODELED");
    let one = operation_count(&RefConfig {
        memory_kib: 1024,
        block_size: 32,
        fan_in: 2,
        graph_tag: 3,
        output_length: 32,
    });
    // 32768 nodes at the measured density 1171024 / 524288, rounded.
    assert_eq!(one.mix_pairs, ((32768f64) * (1_171_024f64 / 524_288f64)).round() as u64);
    assert_eq!(one.mix_pairs, 73_189);
    assert_eq!(one.kind, "MODELED");
    assert_eq!(replication_counts(), &[1, 10, 100, 1_000, 10_000]);
    let rows = antech_vs_argon2();
    assert_eq!(rows.len(), 6);
    assert_eq!(rows[5].metric, "claim_asic_resistant");
    assert_eq!(rows[4].antech, "wall ~15069× / abort");
}

#[test]
fn report_tables() {
    let rows = branch_analysis_rows();
    assert_eq!(rows.len(), 9);
    assert_eq!(rows[0].location, "antech-kdf-core/src/lib.rs:169");
    assert_eq!(rows[8].risk, "api_oracle");
    let m = run_multitarget_benchmark();
    let counts: Vec<u64> = m.iter().map(|r| r.target_hashes_count).collect();
    assert_eq!(counts, vec![1, 10, 100, 1000, 100000, 1000000]);
    assert!(m.iter().all(|r| r.variant_k2_amortization == "NO AMORTIZATION OBSERVED"));
    let p = PropertyRow::new("parser_random_ascii", 5000, 0, "No panic expected; invalid strings return Err");
    assert_eq!(p.kind, "MEASURED");
    assert_eq!(p.cases, 5000);
}


#[test]
fn lowered_search_ignores_ascii_case_of_the_text() {
    assert!(contains_lowered("Digest MISMATCH at node 7", "digest"));
    assert!(contains_lowered("DeadLock", "deadlock"));
    assert!(contains_lowered("anything", ""));
    assert!(contains_lowered("", ""));
    assert!(!contains_lowered("ab", "abc"));
    assert!(!contains_lowered("time out", "timeout"));
    assert!(!contains_lowered("PANIC", "Panic"));
}

fn adv_row(result: Status, errors: &str, executions: u64, repeats: u64) -> AdvRow {
    AdvRow {
        test_name: "t".to_string(),
        category: "c".to_string(),
        platform: "linux".to_string(),
        compiler: "rustc 1.80.0".to_string(),
        architecture: "x86_64".to_string(),
        duration_nanos: 1_500_000_000,
        result,
        errors: errors.to_string(),
        memory_metrics: String::new(),
        resource_metrics: String::new(),
        seed: "0x1".to_string(),
        repeats,
        executions,
    }
}

#[test]
fn adversarial_tallies_classify_failures_by_their_error_text() {
    let mut a = AdvAcc::new();
    assert!(a.rows.is_empty());
    a.push(adv_row(Status::Pass, "panic free", 5, 3));
    assert_eq!((a.executions, a.repeats, a.failures, a.panics), (5, 3, 0, 0));
    assert_eq!(a.rows.len(), 1);
    assert_eq!(a.rows[0].errors, "panic free");

    a.push(adv_row(Status::Fail, "Worker PANICKED; scheduler not idle", 0, 1));
    assert_eq!(a.failures, 1);
    assert_eq!(a.bugs_found, 1);
    assert_eq!((a.panics, a.crashes), (1, 1));
    assert_eq!(a.leaks, 1);
    assert_eq!((a.races, a.hangs), (0, 0));
    assert_eq!(a.executions, 6);
    assert_eq!(a.repeats, 4);

    a.push(adv_row(Status::Fail, "digest mismatch after TIMEOUT", 2, 0));
    assert_eq!((a.failures, a.races, a.hangs, a.panics, a.leaks), (2, 1, 1, 1, 1));
    assert_eq!(a.executions, 8);

    a.push(adv_row(Status::Blocked, "no CUDA device: hang", 0, 0));
    a.push(adv_row(Status::NotRun, "profile", 0, 0));
    assert_eq!((a.blocked, a.not_run, a.failures, a.hangs), (1, 1, 2, 1));
    assert_eq!(a.executions, 10);
    assert_eq!(a.rows.len(), 5);
    assert_eq!(a.rows[2].errors, "digest mismatch after TIMEOUT");
    assert_eq!(a.rows[4].result, Status::NotRun);
    assert_eq!(a.verdict(), "FAIL");
    assert_eq!(AdvAcc::new().verdict(), "PASS");
}

#[test]
fn adversarial_rows_carry_host_seed_and_metrics() {
    let host = AdvHost {
        platform: "linux".to_string(),
        compiler: "rustc 1.80.0".to_string(),
        architecture: "aarch64".to_string(),
    };
    let mut a = AdvAcc::new();
    a.pass(&host, "concurrency", "pool_reuse", 2_000_000, 0xBEEF, 4, 10, "rss=1", "threads=8", "ok");
    a.fail(&host, "memory", "soak", 7, 255, 1, 0, "", "", "leak detected");
    a.blocked(&host, "gpu", "cuda_parity", "no CUDA device");
    a.not_run(&host, "soak", "long_soak", "profile ci");
    assert_eq!(a.rows.len(), 4);
    let r = &a.rows[0];
    assert_eq!((r.test_name.as_str(), r.category.as_str()), ("pool_reuse", "concurrency"));
    assert_eq!((r.platform.as_str(), r.compiler.as_str(), r.architecture.as_str()), ("linux", "rustc 1.80.0", "aarch64"));
    assert_eq!(r.duration_nanos, 2_000_000);
    assert_eq!(r.seed, "0xbeef");
    assert_eq!((r.memory_metrics.as_str(), r.resource_metrics.as_str(), r.errors.as_str()), ("rss=1", "threads=8", "ok"));
    assert_eq!((r.repeats, r.executions), (4, 10));
    assert_eq!(a.rows[1].seed, "0xff");
    assert_eq!(a.rows[1].result, Status::Fail);
    assert_eq!(a.rows[2].seed, "0xad05a71ec4100001");
    assert_eq!((a.rows[2].duration_nanos, a.rows[2].repeats, a.rows[2].executions), (0, 0, 0));
    assert_eq!(a.rows[3].result, Status::NotRun);
    assert_eq!(a.rows[3].errors, "profile ci");
    assert_eq!((a.executions, a.repeats, a.failures, a.leaks, a.blocked, a.not_run), (13, 5, 1, 1, 1, 1));
}

#[test]
fn stress_outcomes_move_exactly_their_counter() {
    let mut c = Counters::new();
    apply_outcome(&mut c, OpOutcome::Hash);
    apply_outcome(&mut c, OpOutcome::Hash);
    apply_outcome(&mut c, OpOutcome::VerifyValid);
    apply_outcome(&mut c, OpOutcome::VerifyWrong);
    apply_outcome(&mut c, OpOutcome::Rejected);
    apply_outcome(&mut c, OpOutcome::ExpectedInput);
    apply_outcome(&mut c, OpOutcome::Unexpected);
    assert_eq!(c.hashes, 2);
    assert_eq!(c.verify_valid_ok, 1);
    assert_eq!(c.verify_wrong_ok, 1);
    assert_eq!(c.rejected_resource, 1);
    assert_eq!(c.expected_input_errors, 1);
    assert_eq!(c.unexpected_errors, 1);
    assert_eq!((c.ops, c.panics), (0, 0));
    c.hashes = u64::MAX;
    apply_outcome(&mut c, OpOutcome::Hash);
    assert_eq!(c.hashes, 0);
}


#[test]
fn canonical_construction_facts() {
    let f = construction_facts(&RefConfig::canonical_default());
    assert_eq!(f.label, "MEASURED");
    assert_eq!(f.graph, "CombinedFrontier");
    assert_eq!(f.construction, "compute-memory-v4 / $antech$v2$");
    assert_eq!(f.memory_bytes, 16 * 1024 * 1024);
    assert_eq!(f.memory_mib, 16);
    assert_eq!(f.block_bytes, 32);
    assert_eq!(f.num_blocks, 524_288);
    assert_eq!(f.fan_in, 2);
    assert_eq!(f.mix_rounds, 4);
    assert_eq!(f.state_bytes, 32);
    assert_eq!(f.frontier_width, 64);
    assert_eq!(f.tile_blocks, 512);
    assert!(f.dual_far_scatter && f.sequential_within_guess && f.independent_across_guesses);
    let small = RefConfig { memory_kib: 8, block_size: 64, fan_in: 3, graph_tag: 3, output_length: 16 };
    let g = construction_facts(&small);
    assert_eq!((g.num_blocks, g.tile_blocks, g.memory_mib, g.memory_bytes), (128, 128, 0, 8192));
}

#[test]
fn campaign_verdict_needs_the_target_and_no_failure() {
    let mut c = Campaign::new();
    c.pass("parser", 1, "ok".to_string());
    c.blocked("cuda", "no device".to_string());
    assert_eq!(c.verdict(), "INCOMPLETE");
    assert_eq!(c.padding_needed(), 99_999);
    assert_eq!(c.bugs_fixed(), 1);
    c.fail("parser", 2, "mismatch".to_string());
    assert_eq!(c.verdict(), "FAIL");
    assert_eq!(c.padding_needed(), 99_998);
    assert_eq!(c.bugs_fixed(), 0);

    let mut full = Campaign::new();
    for k in 0..100_000u64 {
        full.pass("parser", k, String::new());
    }
    full.not_run("concurrency", "≥100 not run".to_string());
    assert_eq!(full.padding_needed(), 0);
    assert_eq!(full.verdict(), "PASS");
}

#[test]
fn graph_kinds_rotate() {
    assert_eq!(graph_kind(0), GraphKind::CombinedFrontier);
    assert_eq!(graph_kind(4), GraphKind::ReducedCriticalPath);
    assert_eq!(graph_kind(8), GraphKind::CacheLocality);
    assert_eq!(graph_kind(u64::MAX), GraphKind::CombinedFrontier);
}

#[test]
fn side_channel_fixed_rows() {
    let c = cache_blocked_row("windows");
    assert_eq!(c.kind, "BLOCKED");
    assert_eq!(c.test_id, "perf-cache-counters");
    assert_eq!(
        c.notes,
        "Hardware counters require Linux perf; run scripts/side_channel_perf_linux.sh on Ubuntu CI (host=windows)."
    );
    let r = no_regression_rows();
    assert_eq!(r.len(), 1);
    assert_eq!((r[0].id.as_str(), r[0].status.as_str()), ("(none)", "N/A"));
}

fn material_std(correctness: &str, notes: &str, weakness: &str, attack_id: &str, memory_ratio: f64) -> bool {
    let c = correctness.to_ascii_uppercase();
    if !c.contains("CORRECT") || c.contains("INCORRECT") || c.contains("N/A") {
        return false;
    }
    let notes = notes.to_ascii_lowercase();
    let weakness = weakness.to_ascii_lowercase();
    if notes.contains("schedule only")
        || notes.contains("same num_blocks mixes")
        || weakness.contains("implementation overhead")
        || attack_id.contains("packed_prefetch")
        || attack_id.contains("dual_walk")
    {
        return false;
    }
    if c.contains("UNEXPECTED") {
        return true;
    }
    memory_ratio < 0.9
}

#[test]
fn material_findings_need_a_correct_cheaper_evaluation() {
    let cases: &[(&str, &str, &str, &str, f64)] = &[
        ("correct", "", "", "tmto_half", 0.5),
        ("CORRECT", "", "", "tmto_half", 0.95),
        ("incorrect", "", "", "tmto_half", 0.1),
        ("n/a (correct?)", "", "", "x", 0.1),
        ("Correct", "Schedule Only reorder", "", "x", 0.1),
        ("correct", "", "Implementation Overhead", "x", 0.1),
        ("correct", "", "", "packed_prefetch_v2", 0.1),
        ("correct", "", "", "dual_walk", 0.1),
        ("unexpected correct", "", "", "node_skip", 1.0),
        ("wrong", "", "", "x", 0.1),
    ];
    for &(c, n, w, a, r) in cases {
        assert_eq!(material(c, n, w, a, r < 0.9), material_std(c, n, w, a, r), "{c} {n} {w} {a} {r}");
    }
    assert!(material("correct", "", "", "tmto_half", true));
    assert!(!material("incorrect", "", "", "tmto_half", true));
}

#[test]
fn campaign_csv_lines() {
    let mut c = Campaign::new();
    c.pass("parser", 7, "ok".to_string());
    c.fail("crypto", 0xAB, "digest, mismatch\nat node 3".to_string());
    c.fail("parser", 0, "panic".to_string());
    c.blocked("miri", "unavailable".to_string());
    let want: Vec<String> = c
        .failures
        .iter()
        .map(|f| format!("{},{},{:?},{:#x},{}", f.id, f.category, f.status, f.seed, f.detail.replace(",", ";").replace("\n", " ")))
        .collect();
    assert_eq!(failure_rows(&c), want);
    assert_eq!(failure_rows(&c)[0], "1,crypto,Fail,0xab,digest; mismatch at node 3");
    assert_eq!(failure_rows(&c)[1], "2,parser,Fail,0x0,panic");
    let cov: Vec<String> = c
        .by_category
        .iter()
        .map(|(k, t)| format!("{},{},{},{},{},{}", k, t.executed, t.pass, t.fail, t.blocked, t.not_run))
        .collect();
    assert_eq!(coverage_rows(&c), cov);
    assert_eq!(coverage_rows(&c), vec!["crypto,1,0,1,0,0", "miri,0,0,0,1,0", "parser,2,1,1,0,0"]);
    let stubs = category_stub_rows(&c);
    assert_eq!(stubs.len(), 9);
    assert_eq!(stubs[0], ("runtime.csv".to_string(), "crypto,1,0,1,0,0".to_string()));
    assert_eq!(stubs[2], ("parser.csv".to_string(), "parser,2,1,1,0,0".to_string()));
    assert_eq!(stubs[4], ("ffi.csv".to_string(), "ffi_c_abi,0,0,0,0,0".to_string()));
    assert_eq!(sanitizer_fuzz_rows().len(), 5);
    assert_eq!(sanitizer_fuzz_rows()[4], "property_fallback,PASS,Embedded in parser/config/crypto masses");
    assert_eq!(regression_line(0), "wrong_len_ad_rejected,PASS,Harness + boundary_fixed: wrong-length AD must not Ok(true)");
    assert_eq!(regression_line(3), "wrong_len_ad_rejected,PENDING,Failures remain; see failures.csv");
}

fn area_std(rows: &[CaseRow], suites: &[&str]) -> Vec<String> {
    let mut by_suite: std::collections::BTreeMap<String, Vec<&CaseRow>> = std::collections::BTreeMap::new();
    for r in rows {
        by_suite.entry(r.suite.clone()).or_default().push(r);
    }
    let mut out = Vec::new();
    for s in suites {
        if let Some(rs) = by_suite.get(*s) {
            for r in rs {
                out.push(format!("{},{},{:?},\"{}\"", r.suite, r.case_id, r.status, r.detail.replace('"', "'")));
            }
        }
    }
    out
}

#[test]
fn correctness_csv_files() {
    let mut acc = Acc::new();
    acc.push("memory", "m1", pc::Status::Pass, "ok".to_string());
    acc.push("salt", "s1", pc::Status::Fail, "said \"no\"".to_string());
    acc.push("parser", "p1", pc::Status::Pass, "".to_string());
    acc.push("memory", "m2", pc::Status::Blocked, "oom".to_string());
    acc.push("legacy", "l1", pc::Status::NotApplicable, "v1".to_string());
    let files = pc::area_files();
    assert_eq!(files.len(), 9);
    for (name, suites) in &files {
        assert_eq!(pc::area_csv_lines(&acc, suites), area_std(&acc.rows, suites), "{name}");
    }
    assert_eq!(
        pc::area_csv_lines(&acc, &files[0].1),
        vec![
            "salt,s1,Fail,\"said 'no'\"".to_string(),
            "memory,m1,Pass,\"ok\"".to_string(),
            "memory,m2,Blocked,\"oom\"".to_string(),
        ]
    );
    assert_eq!(pc::failure_csv_lines(&acc), vec!["salt,s1,FAIL,\"said 'no'\"".to_string()]);
    assert_eq!(pc::all_case_lines(&acc).len(), 5);
    assert_eq!(pc::all_case_lines(&acc)[4], "legacy,l1,NotApplicable,\"v1\"");
    let s = pc::finalize(&acc, "h".to_string());
    assert_eq!(
        pc::suite_report_lines(&s),
        s.suite_totals
            .iter()
            .map(|(n, c)| format!("- **{n}**: cases={} pass={} fail={} blocked={} n/a={}", c.cases, c.pass, c.fail, c.blocked, c.not_applicable))
            .collect::<Vec<_>>()
    );
    assert_eq!(pc::suite_report_lines(&s)[1], "- **memory**: cases=2 pass=1 fail=0 blocked=1 n/a=0");
}

#[test]
fn result_directories() {
    assert_eq!(final_validation::default_out_dir(), "research/results/final-validation");
    assert_eq!(hardware_validation::default_out_dir(), "research/results/hardware-validation");
    assert_eq!(production_correctness::default_out_dir(), "research/results/correctness");
    assert_eq!(production_stress::default_out_dir(true, true, true), "research/results/stress");
    assert_eq!(production_stress::default_out_dir(false, true, false), "../results/stress");
    assert_eq!(production_stress::default_out_dir(false, false, true), "../../research/results/stress");
    assert_eq!(production_stress::default_out_dir(false, false, false), "research/results/stress");
    assert_eq!(side_channel_campaign::default_out_dir(true), "research/results/side-channel");
    assert_eq!(side_channel_campaign::default_out_dir(false), "../../results/side-channel");
}

#[test]
fn campaign_profiles() {
    assert_eq!(final_validation::profile(None), "full");
    assert_eq!(final_validation::profile(Some("quick")), "quick");
    assert_eq!(hardware_validation::profile(None), "ci");
    assert_eq!(antech_kdf_reference::engineering::adversarial_validation::profile(None), "standard");
    assert_eq!(antech_kdf_reference::engineering::adversarial_validation::profile(Some("full")), "full");
}
