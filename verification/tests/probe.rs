use antech_kdf_reference::engineering::adversarial_validation::rss_hint_kib_from;
use antech_kdf_reference::engineering::final_validation::{
    cuda_release_line, gpu_info_from_smi, lscpu_model_name, powershell_cpu_name, wmic_cpu_name,
};
use antech_kdf_reference::engineering::hardware::cuda_probe_from_smi;
use antech_kdf_reference::engineering::hardware_validation::{lscpu_counts, physical_cpus_from_lscpu};
use antech_kdf_reference::engineering::production_stress::{
    concurrency_levels, cpu_times_from_stat, durations_for_host, rss_bytes_from_status,
    scheduler_is_idle, stress_campaign_verdict, stress_plan, stress_totals, vm_rss_kib, PeakMonitor,
    ScenarioChecks, ScenarioKind,
};
use antech_kdf_reference::engineering::stress::{stress_conc_from_env, stress_durations_from_env};
use antech_kdf_reference::scan::{
    first_line, keyed_value, line_containing, line_with_prefix, nth_token, parse_u64, parse_usize,
    starts_with, trim,
};
use antech_kdf_reference::text::contains;

const SAMPLES: &[&str] = &[
    "",
    " ",
    "  \t hi there \u{3000}\n",
    "\u{200B}x\u{200B}",
    "\u{85}a b\u{a0}",
    "a\r\nb\r\n",
    "\n\nx",
    "x\r",
    "\r\n",
    "one\ntwo\r\nthree",
    "+42",
    "+",
    "-1",
    "007",
    "18446744073709551615",
    "18446744073709551616",
    " 1",
    "0x10",
    "1_000",
    "١٢",
];

#[test]
fn trim_agrees_with_str_trim() {
    for s in SAMPLES {
        assert_eq!(trim(s), s.trim(), "{s:?}");
    }
    assert_eq!(trim("\u{200B}x"), "\u{200B}x");
}

#[test]
fn parsing_agrees_with_str_parse() {
    for s in SAMPLES {
        assert_eq!(parse_u64(s), s.parse::<u64>().ok(), "{s:?}");
        assert_eq!(parse_usize(s), s.parse::<usize>().ok(), "{s:?}");
    }
    assert_eq!(parse_u64("+42"), Some(42));
    assert_eq!(parse_u64("18446744073709551615"), Some(u64::MAX));
    assert_eq!(parse_u64("18446744073709551616"), None);
}

#[test]
fn lines_and_tokens_agree_with_std() {
    for s in SAMPLES {
        assert_eq!(first_line(s), s.lines().next().unwrap_or(""), "{s:?}");
        for k in 0..4 {
            assert_eq!(nth_token(s, k), s.split_whitespace().nth(k), "{s:?} {k}");
        }
        for p in ["", "x", "a", "one", "\r"] {
            assert_eq!(starts_with(s, p), s.starts_with(p));
            assert_eq!(contains(s, p), s.contains(p));
            assert_eq!(line_with_prefix(s, p), s.lines().find(|l| l.starts_with(p)), "{s:?} {p:?}");
            assert_eq!(line_containing(s, p), s.lines().find(|l| l.contains(p)), "{s:?} {p:?}");
        }
    }
    assert_eq!(first_line("x\r"), "x\r");
    assert_eq!(first_line("\n"), "");
}

#[test]
fn wmic_value_is_the_first_non_blank_one() {
    let out = "\r\n\r\nName=\r\nName=  AMD Ryzen 9 7950X \r\n\r\n";
    assert_eq!(keyed_value(out, "Name="), Some("AMD Ryzen 9 7950X".to_string()));
    assert_eq!(wmic_cpu_name(out), Some("AMD Ryzen 9 7950X".to_string()));
    assert_eq!(wmic_cpu_name("Name=\r\n"), None);
    assert_eq!(wmic_cpu_name(""), None);
}

#[test]
fn cpu_name_probes() {
    assert_eq!(
        powershell_cpu_name("  Intel(R) Core(TM) i7-12700H \r\n"),
        Some("Intel(R) Core(TM) i7-12700H".to_string())
    );
    assert_eq!(powershell_cpu_name(" \r\n"), None);
    let lscpu = "Architecture:            x86_64\nModel name:              Intel(R) Xeon(R) CPU @ 2.20GHz\nSocket(s):               2\n";
    assert_eq!(lscpu_model_name(lscpu), Some("Intel(R) Xeon(R) CPU @ 2.20GHz".to_string()));
    assert_eq!(lscpu_model_name("Model name:\n"), Some(String::new()));
    assert_eq!(lscpu_model_name("Architecture: arm64\n"), None);
}

/// What the campaign does with `nvidia-smi` output, written with std.
fn gpu_info_std(out: &str) -> (Option<String>, Option<u64>) {
    let line = out.lines().next().unwrap_or("").trim();
    let mut parts = line.split(',').map(|s| s.trim());
    let name = parts.next().map(|s| s.to_string()).filter(|s| !s.is_empty());
    let vram = parts.next().and_then(|s| s.parse().ok());
    (name, vram)
}

#[test]
fn gpu_info_reads_name_and_memory() {
    assert_eq!(
        gpu_info_from_smi("NVIDIA GeForce RTX 3050 Laptop GPU, 4096\n"),
        (Some("NVIDIA GeForce RTX 3050 Laptop GPU".to_string()), Some(4096))
    );
    assert_eq!(gpu_info_from_smi("A100, 40960, 535.1\nH100, 81920\n"), (Some("A100".to_string()), Some(40960)));
    assert_eq!(gpu_info_from_smi("A100\n"), (Some("A100".to_string()), None));
    assert_eq!(gpu_info_from_smi(" , 8"), (None, Some(8)));
    assert_eq!(gpu_info_from_smi(""), (None, None));
    for out in ["x, y", ",", ", 12 ,", "  T4 ,16 \r\n", "a,b,c", "\n A,1"] {
        assert_eq!(gpu_info_from_smi(out), gpu_info_std(out), "{out:?}");
    }
}

#[test]
fn cuda_release_is_the_release_line() {
    let out = "nvcc: NVIDIA (R) Cuda compiler driver\nCopyright (c) 2005-2024 NVIDIA Corporation\nCuda compilation tools, release 12.4, V12.4.131\n";
    assert_eq!(cuda_release_line(out), Some("Cuda compilation tools, release 12.4, V12.4.131".to_string()));
    assert_eq!(cuda_release_line("nvcc: no such file\n"), None);
}

#[test]
fn lscpu_core_count() {
    let out = "Socket(s):               2\nCore(s) per socket:      8\nThread(s) per core:  2\n";
    assert_eq!(lscpu_counts(out), (2, 8));
    assert_eq!(physical_cpus_from_lscpu(out), Some(16));
    assert_eq!(lscpu_counts("Socket(s): 2\nSocket(s): x\n"), (1, 1));
    assert_eq!(physical_cpus_from_lscpu("Socket(s): 1\nCore(s) per socket: 1\n"), None);
    assert_eq!(physical_cpus_from_lscpu(""), None);
    assert_eq!(physical_cpus_from_lscpu("Core(s) per socket: 6"), Some(6));
}

#[test]
fn resident_set_size_from_proc_status() {
    let status = "Name:\tcat\nVmPeak:\t  9000 kB\nVmRSS:\t    1234 kB\nThreads:\t1\n";
    assert_eq!(rss_hint_kib_from(status), 1234);
    assert_eq!(vm_rss_kib(status), Some(1234));
    assert_eq!(rss_bytes_from_status(status), Some(1234 * 1024));
    assert_eq!(rss_hint_kib_from("VmRSS:123 kB\n"), 0);
    assert_eq!(vm_rss_kib("VmRSS:123 kB\n"), Some(123));
    assert_eq!(rss_hint_kib_from("Name: x\n"), 0);
    assert_eq!(vm_rss_kib("VmRSS:\n"), None);
    assert_eq!(rss_bytes_from_status("Name: x\n"), None);
}

#[test]
fn busy_time_from_proc_stat() {
    let stat = "1234 (my (odd) proc) S 1 2 3 4 5 6 7 8 9 10 250 50 0 0 20 0 1 0";
    assert_eq!(cpu_times_from_stat(stat).busy_ns, 3_000_000_000);
    assert_eq!(cpu_times_from_stat("1 (a) S 1 2 3").busy_ns, 0);
    assert_eq!(cpu_times_from_stat("").busy_ns, 0);
    let no_paren = "S 1 2 3 4 5 6 7 8 9 10 7 x";
    assert_eq!(cpu_times_from_stat(no_paren).busy_ns, 70_000_000);
    let huge = "x) S 1 2 3 4 5 6 7 8 9 10 18446744073709551615 5";
    assert_eq!(cpu_times_from_stat(huge).busy_ns, u64::MAX as u128 * 10_000_000);
}

fn std_list<T: std::str::FromStr>(s: &str) -> Vec<T> {
    s.split(',').filter_map(|x| x.trim().parse().ok()).collect()
}

const LISTS: &[&str] = &["", "10,30,60", " 5, x,10,, 20 ", ",", "7", "+3,-4, 18446744073709551616 ,2"];

#[test]
fn stress_durations_and_levels() {
    for s in LISTS {
        assert_eq!(durations_for_host(Some(s), 2), std_list::<u64>(s), "{s:?}");
        assert_eq!(concurrency_levels(Some(s)), std_list::<usize>(s), "{s:?}");
        assert_eq!(stress_durations_from_env(Some(s)), std_list::<u64>(s), "{s:?}");
        assert_eq!(stress_conc_from_env(Some(s), None), std_list::<usize>(s), "{s:?}");
    }
    assert_eq!(durations_for_host(Some(" 5, x,10,, 20 "), 16), vec![5, 10, 20]);
    assert_eq!(durations_for_host(None, 8), vec![10, 30, 60]);
    assert_eq!(durations_for_host(None, 7), vec![10, 30]);
    assert_eq!(concurrency_levels(None), vec![1, 10, 32, 100, 250, 500, 1000]);
    assert_eq!(stress_durations_from_env(None), vec![10, 30]);
    for n in 0..40usize {
        let mut want = vec![1usize, n.min(10), n.min(32)];
        want.sort_unstable();
        want.dedup();
        assert_eq!(stress_conc_from_env(None, Some(n)), want, "{n}");
    }
    assert_eq!(stress_conc_from_env(None, None), vec![1, 4]);
}


fn cuda_probe_std(out: &str) -> (bool, Option<String>) {
    let name = out.trim().to_string();
    if name.is_empty() {
        (false, None)
    } else {
        (true, Some(name.lines().next().unwrap_or(&name).to_string()))
    }
}

#[test]
fn cuda_probe_reads_the_first_gpu() {
    assert_eq!(cuda_probe_from_smi("NVIDIA GeForce RTX 3050\n"), (true, Some("NVIDIA GeForce RTX 3050".to_string())));
    assert_eq!(cuda_probe_from_smi("A100-SXM4-40GB\r\nA100-SXM4-40GB\r\n"), (true, Some("A100-SXM4-40GB".to_string())));
    assert_eq!(cuda_probe_from_smi(" \n\t"), (false, None));
    for s in SAMPLES {
        assert_eq!(cuda_probe_from_smi(s), cuda_probe_std(s), "{s:?}");
    }
}

#[test]
fn stress_campaign_plan_and_verdict() {
    let plan = stress_plan(&[10, 30], &[1, 10]);
    assert_eq!(plan.len(), 15);
    assert_eq!(
        plan[..4].to_vec(),
        vec![
            (ScenarioKind::Mixed, 10, 1),
            (ScenarioKind::Mixed, 10, 10),
            (ScenarioKind::Mixed, 30, 1),
            (ScenarioKind::Mixed, 30, 10),
        ]
    );
    assert_eq!(plan[4], (ScenarioKind::Malformed, 10, 32));
    assert_eq!(plan[9], (ScenarioKind::Malformed, 30, 250));
    assert_eq!(plan[12], (ScenarioKind::FailureRelease, 10, 500));
    assert_eq!(plan[14], (ScenarioKind::OverloadQueue, 30, 1000));
    assert_eq!(stress_plan(&[], &[5]).len(), 11);

    let ok = ScenarioChecks { unexpected_errors: 0, panics: 0, scheduler_idle: true, budget_ok: true, queue_limit_ok: true };
    let t = stress_totals(&[ok, ok]);
    assert_eq!(stress_campaign_verdict(&t), "PASS");
    let bad = ScenarioChecks { unexpected_errors: 3, panics: 1, scheduler_idle: false, budget_ok: false, queue_limit_ok: true };
    let t = stress_totals(&[ok, bad, bad]);
    assert_eq!(
        (t.all_idle, t.unexplained_errors, t.unexplained_panics, t.budget_violations, t.queue_limit_violations),
        (false, 6, 2, 2, 0)
    );
    assert_eq!(
        stress_campaign_verdict(&t),
        "FAIL idle=false unexpected_errors=6 panics=2 budget_violations=2 queue_limit_violations=0"
    );
    let q = ScenarioChecks { queue_limit_ok: false, ..ok };
    assert_eq!(
        stress_campaign_verdict(&stress_totals(&[q])),
        "FAIL idle=true unexpected_errors=0 panics=0 budget_violations=0 queue_limit_violations=1"
    );
}

#[test]
fn peak_monitor_keeps_maxima() {
    let mut m = PeakMonitor::new();
    m.observe(3, 1, 1024, Some(5_000));
    m.observe(2, 4, 512, None);
    m.observe(1, 0, 2048, Some(4_000));
    assert_eq!((m.peak_active, m.peak_waiting, m.peak_alloc, m.peak_rss), (3, 4, 2048, 5_000));
    assert!(!m.stopped);
    m.stop();
    assert!(m.stopped);
    assert_eq!(m.peak_active, 3);
    assert!(scheduler_is_idle(0, 0, 0));
    assert!(!scheduler_is_idle(0, 1, 0));
    assert!(!scheduler_is_idle(0, 0, 64));
}
