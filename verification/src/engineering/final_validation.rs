//! Final-validation harness: check rows, the local capability markers, the
//! verdict and the report lines, and the reading of the host probes' output
//! (CPU name, GPU, CUDA toolkit).

use vstd::prelude::*;
use crate::scan::{
    after_prefix, find_char, first_containing, first_filled_value, first_line, first_line_text,
    first_with_prefix, keyed_value, line_containing, line_with_prefix, lines, next_of, parse_u64,
    rest_after, spec_parse_u64, text_opt, trim, trim_range, trimmed,
};
use crate::scan::texts;
use crate::text::{eq_ascii_case, eq_ignore_ascii_case, replace_char, replaced};

verus! {

/// Outcome of one check.
#[derive(Debug, Clone, Copy, PartialEq, Eq, Structural)]
pub enum CheckStatus {
    Pass,
    Fail,
    Blocked,
    NotRun,
}

/// One check of the final validation.
#[derive(Debug, Clone)]
pub struct CheckRow {
    pub area: String,
    pub name: String,
    pub status: CheckStatus,
    pub detail: String,
}

/// The local ASan/UBSan marker: BLOCKED on Windows hosts, NOT RUN elsewhere
/// (CI covers Linux).
pub fn asan_ubsan_local_marker(windows: bool) -> (r: CheckRow)
    ensures
        r.area@ == "sanitizers"@,
        r.name@ == "asan_ubsan_local"@,
        r.status == (if windows { CheckStatus::Blocked } else { CheckStatus::NotRun }),
        windows ==> r.detail@ == "Host ASan/UBSan via -Zsanitizer requires Linux nightly + build-std; see .github/workflows/sanitizers.yml"@,
        !windows ==> r.detail@ == "Not executed in this runner invocation; CI sanitizers workflow covers Linux"@,
{
    if windows {
        CheckRow {
            area: String::from_str("sanitizers"),
            name: String::from_str("asan_ubsan_local"),
            status: CheckStatus::Blocked,
            detail: String::from_str("Host ASan/UBSan via -Zsanitizer requires Linux nightly + build-std; see .github/workflows/sanitizers.yml"),
        }
    } else {
        CheckRow {
            area: String::from_str("sanitizers"),
            name: String::from_str("asan_ubsan_local"),
            status: CheckStatus::NotRun,
            detail: String::from_str("Not executed in this runner invocation; CI sanitizers workflow covers Linux"),
        }
    }
}

/// The Miri marker from a recorded status (`pass`, `fail` or `blocked`, any
/// ASCII case); anything else, or nothing, is NOT RUN.
pub fn miri_local_marker(recorded: Option<&str>) -> (r: CheckRow)
    ensures
        r.area@ == "sanitizers"@,
        r.name@ == "miri"@,
        r.status == (match recorded {
            Some(s) => if eq_ascii_case(s@, "pass"@) {
                CheckStatus::Pass
            } else if eq_ascii_case(s@, "fail"@) {
                CheckStatus::Fail
            } else if eq_ascii_case(s@, "blocked"@) {
                CheckStatus::Blocked
            } else {
                CheckStatus::NotRun
            },
            None => CheckStatus::NotRun,
        }),
        r.status == CheckStatus::Pass ==> r.detail@ == "Recorded from ANTECH_MIRI_STATUS=pass"@,
        r.status == CheckStatus::Fail ==> r.detail@ == "Recorded from ANTECH_MIRI_STATUS=fail"@,
        r.status == CheckStatus::Blocked ==> r.detail@ == "Recorded from ANTECH_MIRI_STATUS=blocked"@,
        r.status == CheckStatus::NotRun ==> r.detail@ == "Set ANTECH_MIRI_STATUS after running cargo miri; or rely on CI sanitizers workflow"@,
{
    let status = match recorded {
        Some(s) => if eq_ignore_ascii_case(s, "pass") {
            CheckStatus::Pass
        } else if eq_ignore_ascii_case(s, "fail") {
            CheckStatus::Fail
        } else if eq_ignore_ascii_case(s, "blocked") {
            CheckStatus::Blocked
        } else {
            CheckStatus::NotRun
        },
        None => CheckStatus::NotRun,
    };
    let detail = match status {
        CheckStatus::Pass => String::from_str("Recorded from ANTECH_MIRI_STATUS=pass"),
        CheckStatus::Fail => String::from_str("Recorded from ANTECH_MIRI_STATUS=fail"),
        CheckStatus::Blocked => String::from_str("Recorded from ANTECH_MIRI_STATUS=blocked"),
        CheckStatus::NotRun => String::from_str(
            "Set ANTECH_MIRI_STATUS after running cargo miri; or rely on CI sanitizers workflow",
        ),
    };
    CheckRow {
        area: String::from_str("sanitizers"),
        name: String::from_str("miri"),
        status,
        detail,
    }
}

/// A trimmed text, unless it is empty.
pub open spec fn non_blank(t: Seq<char>) -> Option<Seq<char>> {
    if t.len() > 0 {
        Some(t)
    } else {
        None
    }
}

/// The CPU name answered by the PowerShell `Win32_Processor` query: its
/// trimmed output, when that is not empty.
pub fn powershell_cpu_name(out: &str) -> (r: Option<String>)
    ensures
        text_opt(r) == non_blank(trimmed(out@)),
{
    let t = trim(out);
    if t.as_str().unicode_len() > 0 {
        Some(t)
    } else {
        None
    }
}

/// The CPU name in `wmic cpu get Name /value` output.
pub fn wmic_cpu_name(out: &str) -> (r: Option<String>)
    ensures
        text_opt(r) == first_filled_value(lines(out@), "Name="@),
{
    keyed_value(out, "Name=")
}

/// The `Model name:` field of `lscpu` output (trimmed, possibly empty).
pub open spec fn spec_lscpu_model_name(out: Seq<char>) -> Option<Seq<char>> {
    match first_with_prefix(lines(out), "Model name:"@) {
        Some(l) => Some(trimmed(after_prefix(l, "Model name:"@))),
        None => None,
    }
}

/// The CPU model named by `lscpu`.
pub fn lscpu_model_name(out: &str) -> (r: Option<String>)
    ensures
        text_opt(r) == spec_lscpu_model_name(out@),
{
    match line_with_prefix(out, "Model name:") {
        Some(l) => Some(trim(rest_after(l, "Model name:"))),
        None => None,
    }
}

/// GPU name and memory (MiB) in the first line of
/// `nvidia-smi --query-gpu=name,memory.total --format=csv,noheader,nounits`:
/// the trimmed first and second comma-separated fields, the name only when
/// not empty and the memory only when it is a number.
pub open spec fn spec_gpu_info(out: Seq<char>) -> (Option<Seq<char>>, Option<u64>) {
    let l = trimmed(first_line_text(out));
    let c = next_of(l, ',', 0);
    let name = non_blank(trimmed(l.subrange(0, c)));
    let vram = if c < l.len() {
        spec_parse_u64(trimmed(l.subrange(c + 1, next_of(l, ',', c + 1))))
    } else {
        None
    };
    (name, vram)
}

/// Reads GPU name and memory from `nvidia-smi` output.
pub fn gpu_info_from_smi(out: &str) -> (r: (Option<String>, Option<u64>))
    ensures
        (text_opt(r.0), r.1) == spec_gpu_info(out@),
{
    let t = trim(first_line(out));
    let l = t.as_str();
    proof {
        if lines(out@).len() == 0 {
            assert(first_line_text(out@) =~= Seq::<char>::empty());
        }
    }
    let n = l.unicode_len();
    let c = find_char(l, ',', 0);
    let (a0, b0) = trim_range(l, 0, c);
    let name = if b0 > a0 {
        Some(l.substring_char(a0, b0).to_owned())
    } else {
        None
    };
    if c < n {
        let d = find_char(l, ',', c + 1);
        let (a1, b1) = trim_range(l, c + 1, d);
        let vram = parse_u64(l.substring_char(a1, b1));
        (name, vram)
    } else {
        (name, None)
    }
}

/// The `release` line of `nvcc --version` output, trimmed.
pub open spec fn spec_cuda_release(out: Seq<char>) -> Option<Seq<char>> {
    match first_containing(lines(out), "release"@) {
        Some(l) => Some(trimmed(l)),
        None => None,
    }
}

/// Reads the CUDA toolkit release from `nvcc --version` output.
pub fn cuda_release_line(out: &str) -> (r: Option<String>)
    ensures
        text_opt(r) == spec_cuda_release(out@),
{
    match line_containing(out, "release") {
        Some(l) => Some(trim(l)),
        None => None,
    }
}

/// How reports spell a check status.
pub open spec fn check_status_word(s: CheckStatus) -> Seq<char> {
    match s {
        CheckStatus::Pass => "Pass"@,
        CheckStatus::Fail => "Fail"@,
        CheckStatus::Blocked => "Blocked"@,
        CheckStatus::NotRun => "NotRun"@,
    }
}

/// The report spelling of a check status.
pub fn status_word(s: CheckStatus) -> (r: &'static str)
    ensures
        r@ == check_status_word(s),
{
    match s {
        CheckStatus::Pass => "Pass",
        CheckStatus::Fail => "Fail",
        CheckStatus::Blocked => "Blocked",
        CheckStatus::NotRun => "NotRun",
    }
}

/// The libFuzzer marker: BLOCKED locally, its PASS/FAIL belongs to Linux CI.
pub fn libfuzzer_local_marker() -> (r: CheckRow)
    ensures
        r.area@ == "ci"@,
        r.name@ == "libfuzzer_local"@,
        r.status == CheckStatus::Blocked,
        r.detail@ == "cargo-fuzz/libFuzzer not runnable on this Windows host (toolchain); Linux CI job owns PASS/FAIL"@,
{
    CheckRow {
        area: String::from_str("ci"),
        name: String::from_str("libfuzzer_local"),
        status: CheckStatus::Blocked,
        detail: String::from_str(
            "cargo-fuzz/libFuzzer not runnable on this Windows host (toolchain); Linux CI job owns PASS/FAIL",
        ),
    }
}

/// "FAIL" when any check failed, "PASS" otherwise: BLOCKED and NOT RUN
/// checks neither pass nor fail the run.
pub fn final_verdict(checks: &[CheckRow]) -> (s: &'static str)
    ensures
        s@ == (if exists|i: int| 0 <= i < checks@.len() && (#[trigger] checks@[i]).status == CheckStatus::Fail {
            "FAIL"@
        } else {
            "PASS"@
        }),
{
    let mut k: usize = 0;
    while k < checks.len()
        invariant
            k <= checks@.len(),
            forall|i: int| 0 <= i < k ==> (#[trigger] checks@[i]).status != CheckStatus::Fail,
        decreases checks@.len() - k,
    {
        if checks[k].status == CheckStatus::Fail {
            assert(checks@[k as int].status == CheckStatus::Fail);
            return "FAIL";
        }
        k = k + 1;
    }
    "PASS"
}

/// The conformance.csv line of a check: area, name, status and the detail
/// with commas turned into semicolons and newlines into spaces.
pub open spec fn conformance_line(c: CheckRow) -> Seq<char> {
    c.area@ + ","@ + c.name@ + ","@ + check_status_word(c.status) + ","@ + replaced(
        replaced(c.detail@, ',', ';'),
        '\n',
        ' ',
    )
}

/// The lines of conformance.csv: the header, then one line per check.
pub fn conformance_rows(checks: &[CheckRow]) -> (v: Vec<String>)
    ensures
        texts(v@) == seq!["area,name,status,detail"@] + Seq::new(
            checks@.len(),
            |i: int| conformance_line(checks@[i]),
        ),
{
    let mut v: Vec<String> = Vec::new();
    v.push(String::from_str("area,name,status,detail"));
    let ghost head = seq!["area,name,status,detail"@];
    assert(texts(v@) =~= head + Seq::new(0, |i: int| conformance_line(checks@[i])));
    let mut k: usize = 0;
    while k < checks.len()
        invariant
            k <= checks@.len(),
            texts(v@) == head + Seq::new(k as nat, |i: int| conformance_line(checks@[i])),
        decreases checks@.len() - k,
    {
        let c = &checks[k];
        proof {
            reveal_strlit(";");
            reveal_strlit(" ");
        }
        let d1 = replace_char(c.detail.as_str(), ',', ";");
        let d2 = replace_char(d1.as_str(), '\n', " ");
        let mut l = String::from_str(c.area.as_str());
        l.append(",");
        l.append(c.name.as_str());
        l.append(",");
        l.append(status_word(c.status));
        l.append(",");
        l.append(d2.as_str());
        assert(l@ == conformance_line(checks@[k as int]));
        let ghost before = texts(v@);
        v.push(l);
        assert(texts(v@) =~= before.push(conformance_line(checks@[k as int])));
        assert(texts(v@) =~= head + Seq::new((k + 1) as nat, |i: int| conformance_line(checks@[i])));
        k = k + 1;
    }
    v
}

/// The final report's table row of a check, with `|` in the detail turned
/// into `/`.
pub open spec fn report_row(c: CheckRow) -> Seq<char> {
    "| "@ + c.area@ + " | "@ + c.name@ + " | "@ + check_status_word(c.status) + " | "@ + replaced(
        c.detail@,
        '|',
        '/',
    ) + " |"@
}

/// The final report's table rows of the checks, in order.
pub fn report_check_rows(checks: &[CheckRow]) -> (v: Vec<String>)
    ensures
        texts(v@) == Seq::new(checks@.len(), |i: int| report_row(checks@[i])),
{
    let mut v: Vec<String> = Vec::new();
    let mut k: usize = 0;
    while k < checks.len()
        invariant
            k <= checks@.len(),
            texts(v@) == Seq::new(k as nat, |i: int| report_row(checks@[i])),
        decreases checks@.len() - k,
    {
        let c = &checks[k];
        proof {
            reveal_strlit("/");
        }
        let d = replace_char(c.detail.as_str(), '|', "/");
        let mut l = String::from_str("| ");
        l.append(c.area.as_str());
        l.append(" | ");
        l.append(c.name.as_str());
        l.append(" | ");
        l.append(status_word(c.status));
        l.append(" | ");
        l.append(d.as_str());
        l.append(" |");
        assert(l@ == report_row(checks@[k as int]));
        let ghost before = texts(v@);
        v.push(l);
        assert(texts(v@) =~= before.push(report_row(checks@[k as int])));
        assert(texts(v@) =~= Seq::new((k + 1) as nat, |i: int| report_row(checks@[i])));
        k = k + 1;
    }
    v
}

/// Where the campaign writes its results, relative to the repository root.
pub fn default_out_dir() -> (p: &'static str)
    ensures
        p@ == "research/results/final-validation"@,
{
    "research/results/final-validation"
}

/// The campaign profile: the value of `ANTECH_FINAL_VALIDATION_PROFILE` when it is set,
/// `full` otherwise.
pub fn profile(env_value: Option<&str>) -> (p: String)
    ensures
        env_value matches Some(v) ==> p@ == v@,
        env_value is None ==> p@ == "full"@,
{
    match env_value {
        Some(v) => String::from_str(v),
        None => String::from_str("full"),
    }
}

} // verus!
