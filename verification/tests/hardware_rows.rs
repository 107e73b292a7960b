use antech_kdf_reference::engineering::production_correctness::{self as pc, Acc};
use antech_kdf_reference::engineering::final_validation::{
    conformance_rows, final_verdict, libfuzzer_local_marker, report_check_rows, CheckRow, CheckStatus,
};
use antech_kdf_reference::engineering::hardware_validation::{
    campaign_verdicts, cargo_output_row, correctness_rows, data_row_count, sdk_fixed_rows, tool_check_row, CargoOutcome,
    ToolOutcome, final_validation_rows, gpu_blocked_rows, gpu_csv_rows,
    identity_rows, matrix_with_status, platform_id, regression_rows, sanitizer_rows,
    sanitizer_status, sdk_csv, stress_verdict, truncate_stderr, HostOs, HwStatus, IdentityDigest,
    SdkRow, StressOutcome,
};

fn check(name: &str, status: CheckStatus, detail: &str) -> CheckRow {
    CheckRow { area: "fv".to_string(), name: name.to_string(), status, detail: detail.to_string() }
}

fn sdk(sdk: &str, test: &str, status: HwStatus, detail: &str) -> SdkRow {
    SdkRow { sdk: sdk.to_string(), test: test.to_string(), status, detail: detail.to_string() }
}

fn stress(scenario: &str, concurrency: usize, unexpected: u64, panics: u64, idle: bool) -> StressOutcome {
    StressOutcome {
        scenario: scenario.to_string(),
        concurrency,
        unexpected_errors: unexpected,
        panics,
        scheduler_idle: idle,
    }
}

#[test]
fn platform_ids_join_with_dashes() {
    assert_eq!(platform_id("linux", "x86_64", "release"), "linux-x86_64-release");
}

#[test]
fn overall_verdict_needs_every_part() {
    assert_eq!(campaign_verdicts("PASS (12/12)", "PASS", "PASS", "BLOCKED", HwStatus::Pass), ("PASS", "PASS"));
    assert_eq!(campaign_verdicts("FAIL", "PASS", "PASS", "PASS", HwStatus::Pass), ("FAIL", "FAIL"));
    assert_eq!(campaign_verdicts("PASS", "FAIL", "PASS", "PASS", HwStatus::Pass), ("PASS", "FAIL"));
    assert_eq!(campaign_verdicts("PASS", "PASS", "FAIL", "PASS", HwStatus::Pass), ("PASS", "FAIL"));
    assert_eq!(campaign_verdicts("PASS", "PASS", "NOT RUN", "FAIL", HwStatus::Pass), ("PASS", "FAIL"));
    assert_eq!(campaign_verdicts("PASS", "PASS", "PASS", "PASS", HwStatus::Fail), ("PASS", "FAIL"));
    assert_eq!(campaign_verdicts("pass", "PASS", "PASS", "PASS", HwStatus::Pass), ("FAIL", "FAIL"));
}

#[test]
fn stress_verdict_fails_on_any_bad_scenario() {
    assert_eq!(stress_verdict(&[]), "PASS");
    assert_eq!(stress_verdict(&[stress("mixed", 10, 0, 0, true), stress("malformed", 32, 0, 0, true)]), "PASS");
    assert_eq!(stress_verdict(&[stress("mixed", 10, 0, 0, true), stress("mixed", 32, 0, 0, false)]), "FAIL");
    assert_eq!(stress_verdict(&[stress("mixed", 10, 1, 0, true)]), "FAIL");
    assert_eq!(stress_verdict(&[stress("mixed", 10, 0, 2, true)]), "FAIL");
}

#[test]
fn sdk_lines_and_verdict() {
    let rows = vec![
        sdk("python", "roundtrip", HwStatus::Pass, "ok, \"quoted\""),
        sdk("go", "vectors", HwStatus::Fail, "mismatch"),
        sdk("node", "load", HwStatus::NotApplicable, ""),
    ];
    let (lines, verdict) = sdk_csv("linux-x86_64-release", &rows);
    assert_eq!(verdict, "FAIL");
    assert_eq!(
        lines,
        vec![
            "linux-x86_64-release,python,roundtrip,PASS,ok; 'quoted',".to_string(),
            "linux-x86_64-release,go,vectors,FAIL,mismatch,".to_string(),
            "linux-x86_64-release,node,load,NOT APPLICABLE,,".to_string(),
        ]
    );
    assert_eq!(sdk_csv("p", &rows[..1]).1, "PASS");
    assert_eq!(sdk_csv("p", &[]), (vec![], "PASS"));
}

#[test]
fn gpu_lines() {
    let data = vec![
        "engine,12.5,3.1,3.4,3.9,extra".to_string(),
        "short,1,2".to_string(),
        "packed,20,1,2,3".to_string(),
    ];
    assert_eq!(
        gpu_csv_rows("pid", &data, "PASS", "live v4_gpu_runner"),
        vec![
            "pid,engine,12.5,3.1,3.4,3.9,MEASURED,live v4_gpu_runner".to_string(),
            "pid,packed,20,1,2,3,MEASURED,live v4_gpu_runner".to_string(),
        ]
    );
    assert_eq!(gpu_csv_rows("pid", &[], "PASS", "n"), vec!["pid,,,,,,PASS,\"n\"".to_string()]);
    assert_eq!(
        gpu_blocked_rows("pid", "no CUDA GPU detected on host"),
        vec!["pid,,,,,,BLOCKED,\"no CUDA GPU detected on host\"".to_string()]
    );
}

#[test]
fn sanitizer_marker_rows() {
    assert_eq!(sanitizer_status("V", Some("PaSs"), HostOs::Windows), ("PASS", "V=pass".to_string()));
    assert_eq!(sanitizer_status("V", Some("fail"), HostOs::Linux), ("FAIL", "V=fail".to_string()));
    assert_eq!(sanitizer_status("V", Some("BLOCKED"), HostOs::Linux), ("BLOCKED", "V=blocked".to_string()));
    assert_eq!(sanitizer_status("V", Some("skipped"), HostOs::Linux), ("NOT RUN", "V=skipped".to_string()));
    assert_eq!(sanitizer_status("V", None, HostOs::Linux), ("NOT RUN", "V unset; see sanitizers.yml".to_string()));
    assert_eq!(
        sanitizer_status("V", None, HostOs::Windows),
        ("BLOCKED", "V unset; ASan/Miri blocked on Windows MSVC host".to_string())
    );
    assert_eq!(
        sanitizer_status("V", None, HostOs::MacOs),
        ("BLOCKED", "V unset; sanitizers not run on macOS GHA".to_string())
    );
    assert_eq!(sanitizer_status("V", None, HostOs::Other), ("NOT RUN", "V unset".to_string()));
    assert_eq!(
        sanitizer_rows("p", Some("pass"), None, Some("x"), HostOs::Linux),
        vec![
            "p,sanitizer,asan,PASS,\"ANTECH_SANITIZER_ASAN_STATUS=pass\"".to_string(),
            "p,sanitizer,ubsan,NOT RUN,\"ANTECH_SANITIZER_UBSAN_STATUS unset; see sanitizers.yml\"".to_string(),
            "p,sanitizer,miri,NOT RUN,\"ANTECH_MIRI_STATUS=x\"".to_string(),
        ]
    );
}

#[test]
fn correctness_lines_of_checks_and_identity() {
    let checks = vec![
        check("v2_roundtrip", CheckStatus::Pass, "ok"),
        check("gpu_cross", CheckStatus::NotRun, "no gpu, skipped"),
    ];
    assert_eq!(
        final_validation_rows("p", &checks),
        vec![
            "p,final_validation,v2_roundtrip,Pass ,\"ok\"".to_string(),
            "p,final_validation,gpu_cross,NotRun ,\"no gpu; skipped\"".to_string(),
        ]
    );
    let id = IdentityDigest {
        digest_hex: "ab".to_string(),
        ref_hex: "cd".to_string(),
        status: HwStatus::Fail,
        detail: "mismatch, see log".to_string(),
    };
    assert_eq!(
        identity_rows("p", "release", &id),
        (
            "p,identity,release,FAIL,mismatch; see log,\"digest=ab ref=cd\"".to_string(),
            "p\trelease\tab".to_string()
        )
    );
}

#[test]
fn regressions_csv_collects_every_failure() {
    let prev = "id,status,detail\nparser_1,FAIL,x\r\nffi_2,FAIL,y\n";
    let checks = vec![check("a", CheckStatus::Fail, "bad, \"x\""), check("b", CheckStatus::Pass, "")];
    let sdks = vec![sdk("go", "vec", HwStatus::Fail, "d"), sdk("py", "rt", HwStatus::Pass, "")];
    let st = vec![stress("mixed", 32, 2, 0, true), stress("mixed", 64, 0, 0, false), stress("queue", 100, 0, 1, true)];
    let rows = regression_rows(Some(prev), &checks, &sdks, &st, "FAIL", "p");
    assert_eq!(
        rows,
        vec![
            "area,id,status,detail".to_string(),
            "correctness,parser_1,FAIL,x".to_string(),
            "correctness,ffi_2,FAIL,y".to_string(),
            "final_validation,a,FAIL,\"bad; 'x'\"".to_string(),
            "sdk,go_vec,FAIL,\"d\"".to_string(),
            "stress,mixed_32c,FAIL,\"unexpected=2 panics=0\"".to_string(),
            "stress,queue_100c,FAIL,\"unexpected=0 panics=1\"".to_string(),
            "gpu,p_live_cuda,FAIL,\"production AntechEngine CPU digests != live CUDA attacker (v4c_gpu_attacker)\"".to_string(),
        ]
    );
    assert_eq!(regression_rows(None, &[], &[], &[], "PASS", "p"), vec!["area,id,status,detail".to_string()]);
    assert_eq!(data_row_count(&rows.join("\n")), 7);
    assert_eq!(data_row_count(""), 0);
    assert_eq!(data_row_count("header only\n"), 0);
}

fn matrix_std(content: &str, pid: &str, verdict: &str) -> String {
    let mut lines: Vec<String> = content.lines().map(String::from).collect();
    for line in lines.iter_mut().skip(1) {
        if line.starts_with(pid) {
            if let Some(idx) = line.rfind(',') {
                *line = format!("{},{}", &line[..idx], verdict);
            }
        }
    }
    lines.join("\n") + "\n"
}

#[test]
fn platform_matrix_records_the_verdict() {
    let content = "platform_id,os,status\nlinux-x86_64-release,linux,PENDING\nwin-x86_64-release,windows,PASS\nlinux-x86_64-release\n";
    assert_eq!(
        matrix_with_status(content, "linux-x86_64-release", "FAIL"),
        "platform_id,os,status\nlinux-x86_64-release,linux,FAIL\nwin-x86_64-release,windows,PASS\nlinux-x86_64-release\n"
    );
    for c in ["", "h", "platform_id\r\nlinux,a,b", "linux,x\nlinux,y,z"] {
        assert_eq!(matrix_with_status(c, "linux", "OK"), matrix_std(c, "linux", "OK"), "{c:?}");
    }
}

#[test]
fn stderr_is_cut_at_a_byte_limit() {
    assert_eq!(truncate_stderr("hello world", 5), "hello…");
    assert_eq!(truncate_stderr("héllo", 3), "hé…");
    assert_eq!(truncate_stderr("short", 100), "short");
    assert_eq!(truncate_stderr("exact", 5), "exact");
}

fn conformance_std(checks: &[CheckRow]) -> Vec<String> {
    let mut v = vec!["area,name,status,detail".to_string()];
    for c in checks {
        let detail = c.detail.replace(',', ";").replace('\n', " ");
        v.push(format!("{},{},{:?},{}", c.area, c.name, c.status, detail));
    }
    v
}

#[test]
fn final_validation_outputs() {
    let checks = vec![
        check("prod_vs_ref", CheckStatus::Pass, "1024 KiB, 32 B\nall equal"),
        check("gpu", CheckStatus::Blocked, "no | cuda"),
        check("miri", CheckStatus::NotRun, ""),
    ];
    assert_eq!(conformance_rows(&checks), conformance_std(&checks));
    assert_eq!(conformance_rows(&checks)[1], "fv,prod_vs_ref,Pass,1024 KiB; 32 B all equal");
    assert_eq!(
        report_check_rows(&checks),
        vec![
            "| fv | prod_vs_ref | Pass | 1024 KiB, 32 B\nall equal |".to_string(),
            "| fv | gpu | Blocked | no / cuda |".to_string(),
            "| fv | miri | NotRun |  |".to_string(),
        ]
    );
    assert_eq!(final_verdict(&checks), "PASS");
    let mut failing = checks.clone();
    failing.push(check("v2", CheckStatus::Fail, "x"));
    assert_eq!(final_verdict(&failing), "FAIL");
    let m = libfuzzer_local_marker();
    assert_eq!((m.area.as_str(), m.name.as_str(), m.status), ("ci", "libfuzzer_local", CheckStatus::Blocked));
}

#[test]
fn sdk_rows_from_tool_runs() {
    let r = cargo_output_row("ffi", CargoOutcome::Passed(1234));
    assert_eq!((r.sdk.as_str(), r.test.as_str(), r.status, r.detail.as_str()), ("rust", "ffi", HwStatus::Pass, "exit=0 stdout_bytes=1234"));
    let r = cargo_output_row("ffi", CargoOutcome::Failed("error[E0425]".to_string()));
    assert_eq!((r.status, r.detail.as_str()), (HwStatus::Fail, "error[E0425]"));
    let r = cargo_output_row("ffi", CargoOutcome::NotStarted("No such file".to_string()));
    assert_eq!((r.status, r.detail.as_str()), (HwStatus::Blocked, "spawn failed: No such file"));
    let r = tool_check_row("node_build", "node", ToolOutcome::Answered("v20.11.0\n".to_string()));
    assert_eq!((r.sdk.as_str(), r.test.as_str(), r.status, r.detail.as_str()), ("node_build", "toolchain", HwStatus::Pass, "v20.11.0"));
    let r = tool_check_row("dotnet_build", "dotnet", ToolOutcome::Missing("not found".to_string()));
    assert_eq!((r.status, r.detail.as_str()), (HwStatus::Blocked, "dotnet missing: not found"));
    let r = tool_check_row("dotnet_build", "dotnet", ToolOutcome::Failed("boom".to_string()));
    assert_eq!((r.status, r.detail.as_str()), (HwStatus::Blocked, "boom"));
    let full = sdk_fixed_rows("full");
    assert_eq!(full.iter().map(|r| r.sdk.as_str()).collect::<Vec<_>>(), vec!["java", "kotlin"]);
    let quick = sdk_fixed_rows("quick");
    assert_eq!(quick.iter().map(|r| r.sdk.as_str()).collect::<Vec<_>>(), vec!["node", "dotnet", "java", "kotlin"]);
    assert_eq!(quick[0].status, HwStatus::NotRun);
    assert_eq!(quick[3].status, HwStatus::Blocked);
}

#[test]
fn platform_correctness_lines() {
    let mut acc = Acc::new();
    acc.push("salt", "s1", pc::Status::Pass, "ok".to_string());
    acc.push("gpu", "g1", pc::Status::Blocked, "none".to_string());
    let summary = pc::finalize(&acc, "host".to_string());
    let all = "suite,case_id,status,detail\nsalt,s1,Pass,\"ok\"\ngpu,g1,Blocked,\"none\"\n";
    assert_eq!(
        correctness_rows("p", Some(all), &summary),
        vec![
            "p,salt,s1,Pass,\"ok\"".to_string(),
            "p,gpu,g1,Blocked,\"none\"".to_string(),
            "p,_summary,campaign,PASS,\"cases=2 pass=1 fail=0 blocked=1 panics=0\"".to_string(),
        ]
    );
    assert_eq!(
        correctness_rows("p", None, &summary).len(),
        1
    );
}
