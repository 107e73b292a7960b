//! Cross-platform hardware validation: status vocabulary, report helpers and
//! the reading of the physical core count from `lscpu` output.

use vstd::prelude::*;
use crate::engineering::final_validation::{check_status_word, status_word, CheckRow, CheckStatus};
use crate::engineering::production_correctness::CampaignSummary as CorrectnessSummary;
use crate::keyed::same_text;
use crate::scan::{
    after_prefix, has_prefix, last_of, line_at, line_list, lines, lines_from, pieces_from,
    rest_after, rfind_char, spec_parse_usize, parse_usize, split_char, starts_with, str_opt, texts,
    trim, trimmed,
};
use crate::text::{decimal, eq_ascii_case, eq_ignore_ascii_case, push_decimal};
use crate::text::{hex_encode, hex_lower};
use vstd::string::StringSliceAdditionalSpecFns;
use vstd::utf8::{decode_utf8, encode_utf8_decode_utf8, is_char_boundary};

verus! {

/// Outcome vocabulary of the hardware campaign.
#[derive(Debug, Clone, Copy, PartialEq, Eq, Structural)]
pub enum HwStatus {
    Pass,
    Fail,
    Blocked,
    NotRun,
    NotApplicable,
}

/// Report spelling of a status.
pub open spec fn hw_status_text(s: HwStatus) -> Seq<char> {
    match s {
        HwStatus::Pass => "PASS"@,
        HwStatus::Fail => "FAIL"@,
        HwStatus::Blocked => "BLOCKED"@,
        HwStatus::NotRun => "NOT RUN"@,
        HwStatus::NotApplicable => "NOT APPLICABLE"@,
    }
}

impl HwStatus {
    /// Report spelling of the status.
    pub fn as_str(self) -> (s: &'static str)
        ensures
            s@ == hw_status_text(self),
    {
        match self {
            HwStatus::Pass => "PASS",
            HwStatus::Fail => "FAIL",
            HwStatus::Blocked => "BLOCKED",
            HwStatus::NotRun => "NOT RUN",
            HwStatus::NotApplicable => "NOT APPLICABLE",
        }
    }
}

/// Name of the build profile: `debug` when debug assertions are on.
pub fn build_profile(debug_assertions: bool) -> (s: String)
    ensures
        s@ == (if debug_assertions { "debug"@ } else { "release"@ }),
{
    if debug_assertions {
        String::from_str("debug")
    } else {
        String::from_str("release")
    }
}

/// Lower-case hexadecimal rendering of a digest.
pub fn hex32(d: &[u8]) -> (s: String)
    ensures
        s@ == hex_encode(d@),
{
    hex_lower(d)
}

/// A CSV-safe character: double quote to single quote, comma to semicolon.
pub open spec fn csv_safe_char(c: char) -> char {
    if c == '"' {
        '\''
    } else if c == ',' {
        ';'
    } else {
        c
    }
}

/// `s` with every character made CSV-safe.
pub open spec fn csv_safe(s: Seq<char>) -> Seq<char> {
    s.map_values(|c: char| csv_safe_char(c))
}

/// Replaces double quotes by single quotes and commas by semicolons.
pub fn csv_escape(s: &str) -> (r: String)
    ensures
        r@ == csv_safe(s@),
{
    let n = s.unicode_len();
    let mut r = String::new();
    let mut i: usize = 0;
    while i < n
        invariant
            n == s@.len(),
            i <= n,
            r@ =~= s@.subrange(0, i as int).map_values(|c: char| csv_safe_char(c)),
        decreases n - i,
    {
        let c = s.get_char(i);
        let ghost r0 = r@;
        if c == '"' {
            r.append("'");
            proof { reveal_strlit("'"); }
        } else if c == ',' {
            r.append(";");
            proof { reveal_strlit(";"); }
        } else {
            crate::text::push_char_at(&mut r, s, i);
        }
        assert(r@ =~= r0.push(csv_safe_char(c)));
        i = i + 1;
    }
    assert(s@.subrange(0, n as int) =~= s@);
    r
}

/// The count on the last of `ls` that begins with `p`: the trimmed rest of
/// that line as a number, 1 when it is not one or when no line begins with `p`.
pub open spec fn last_count(ls: Seq<Seq<char>>, p: Seq<char>) -> usize
    decreases ls.len(),
{
    if ls.len() == 0 {
        1
    } else if has_prefix(ls.last(), p) {
        match spec_parse_usize(trimmed(after_prefix(ls.last(), p))) {
            Some(v) => v,
            None => 1,
        }
    } else {
        last_count(ls.drop_last(), p)
    }
}

/// Sockets reported by `lscpu`.
pub open spec fn lscpu_sockets(out: Seq<char>) -> usize {
    last_count(lines(out), "Socket(s):"@)
}

/// Cores per socket reported by `lscpu`.
pub open spec fn lscpu_cores_per_socket(out: Seq<char>) -> usize {
    last_count(lines(out), "Core(s) per socket:"@)
}

/// The count after one more line.
fn count_step(l: &str, p: &str, current: usize) -> (r: usize)
    ensures
        r == (if has_prefix(l@, p@) {
            match spec_parse_usize(trimmed(after_prefix(l@, p@))) {
                Some(v) => v,
                None => 1,
            }
        } else {
            current
        }),
{
    if starts_with(l, p) {
        let t = trim(rest_after(l, p));
        match parse_usize(t.as_str()) {
            Some(v) => v,
            None => 1,
        }
    } else {
        current
    }
}

/// Sockets and cores per socket named by `lscpu` output.
pub fn lscpu_counts(out: &str) -> (r: (usize, usize))
    ensures
        r == (lscpu_sockets(out@), lscpu_cores_per_socket(out@)),
{
    let n = out.unicode_len();
    let mut sockets: usize = 1;
    let mut cores_per: usize = 1;
    let mut i: usize = 0;
    let ghost mut done: Seq<Seq<char>> = Seq::empty();
    while i < n
        invariant
            n == out@.len(),
            i <= n,
            lines(out@) == done + lines_from(out@, i as int),
            sockets == last_count(done, "Socket(s):"@),
            cores_per == last_count(done, "Core(s) per socket:"@),
        decreases n - i,
    {
        let (e, next) = line_at(out, n, i);
        let l = out.substring_char(i, e);
        sockets = count_step(l, "Socket(s):", sockets);
        cores_per = count_step(l, "Core(s) per socket:", cores_per);
        proof {
            let d2 = done.push(l@);
            assert(d2.drop_last() =~= done);
            assert(lines(out@) =~= d2 + lines_from(out@, next as int));
            done = d2;
        }
        i = next;
    }
    assert(lines_from(out@, i as int) =~= Seq::<Seq<char>>::empty());
    assert(lines(out@) =~= done);
    (sockets, cores_per)
}

/// Physical cores from `lscpu` output: sockets times cores per socket, when
/// either is above one; `None` sends the caller to the logical CPU count.
pub fn physical_cpus_from_lscpu(out: &str) -> (r: Option<usize>)
    requires
        lscpu_sockets(out@) > 1 || lscpu_cores_per_socket(out@) > 1 ==> lscpu_sockets(out@)
            * lscpu_cores_per_socket(out@) <= usize::MAX,
    ensures
        r == (if lscpu_sockets(out@) > 1 || lscpu_cores_per_socket(out@) > 1 {
            Some((lscpu_sockets(out@) * lscpu_cores_per_socket(out@)) as usize)
        } else {
            None
        }),
{
    let (sockets, cores_per) = lscpu_counts(out);
    if sockets > 1 || cores_per > 1 {
        Some(sockets * cores_per)
    } else {
        None
    }
}

/// Captured output cut to its first `max` bytes, with `…` appended when it
/// was longer. A cut inside a character is refused by `requires`, where
/// slicing the text would panic.
pub fn truncate_stderr(text: &str, max: usize) -> (r: String)
    requires
        text.spec_bytes().len() > max ==> is_char_boundary(text.spec_bytes(), max as int),
    ensures
        text.spec_bytes().len() <= max ==> r@ == text@,
        text.spec_bytes().len() > max ==> r@ == decode_utf8(text.spec_bytes().subrange(0, max as int))
            + "…"@,
{
    let byte_len = text.as_bytes().len();
    if byte_len <= max {
        text.to_owned()
    } else {
        let (head, _tail) = text.split_at(max);
        proof {
            encode_utf8_decode_utf8(head@);
        }
        let mut r = head.to_owned();
        r.append("…");
        r
    }
}

/// Identifier of a platform: operating system, architecture and build
/// profile joined by `-`.
pub fn platform_id(os: &str, arch: &str, build_profile: &str) -> (r: String)
    ensures
        r@ == os@ + "-"@ + arch@ + "-"@ + build_profile@,
{
    let mut r = String::from_str(os);
    r.append("-");
    r.append(arch);
    r.append("-");
    r.append(build_profile);
    r
}

/// The overall verdict of a hardware run: FAIL when the correctness verdict
/// does not start with PASS, the stress verdict is not PASS, the SDK or GPU
/// verdict is FAIL, or the identity digest check failed; PASS otherwise.
pub open spec fn spec_hardware_verdict(
    correctness: Seq<char>,
    stress: Seq<char>,
    sdk: Seq<char>,
    gpu: Seq<char>,
    identity: HwStatus,
) -> Seq<char> {
    if !has_prefix(correctness, "PASS"@) || stress != "PASS"@ || sdk == "FAIL"@ || gpu == "FAIL"@
        || identity == HwStatus::Fail {
        "FAIL"@
    } else {
        "PASS"@
    }
}

/// The correctness verdict as recorded (PASS when the campaign's verdict
/// starts with PASS, FAIL otherwise) and the overall verdict of the run.
pub fn campaign_verdicts(
    correctness: &str,
    stress: &str,
    sdk: &str,
    gpu: &str,
    identity: HwStatus,
) -> (r: (&'static str, &'static str))
    ensures
        r.0@ == (if has_prefix(correctness@, "PASS"@) { "PASS"@ } else { "FAIL"@ }),
        r.1@ == spec_hardware_verdict(correctness@, stress@, sdk@, gpu@, identity),
{
    let c = if starts_with(correctness, "PASS") { "PASS" } else { "FAIL" };
    let fail = !starts_with(correctness, "PASS") || !same_text(stress, "PASS") || same_text(sdk, "FAIL")
        || same_text(gpu, "FAIL") || identity == HwStatus::Fail;
    (c, if fail { "FAIL" } else { "PASS" })
}

/// What the stress verdict reads of a scenario row.
#[derive(Debug, Clone)]
pub struct StressOutcome {
    pub scenario: String,
    pub concurrency: usize,
    pub unexpected_errors: u64,
    pub panics: u64,
    pub scheduler_idle: bool,
}

/// A scenario passes with no unexpected error, no panic and an idle
/// scheduler at the end.
pub open spec fn stress_row_ok(r: StressOutcome) -> bool {
    r.unexpected_errors == 0 && r.panics == 0 && r.scheduler_idle
}

/// PASS when every scenario passed, FAIL otherwise.
pub fn stress_verdict(rows: &[StressOutcome]) -> (s: &'static str)
    ensures
        s@ == (if forall|i: int| 0 <= i < rows@.len() ==> stress_row_ok(#[trigger] rows@[i]) {
            "PASS"@
        } else {
            "FAIL"@
        }),
{
    let mut k: usize = 0;
    while k < rows.len()
        invariant
            k <= rows@.len(),
            forall|i: int| 0 <= i < k ==> stress_row_ok(#[trigger] rows@[i]),
        decreases rows@.len() - k,
    {
        let r = &rows[k];
        if !(r.unexpected_errors == 0 && r.panics == 0 && r.scheduler_idle) {
            assert(!stress_row_ok(rows@[k as int]));
            return "FAIL";
        }
        k = k + 1;
    }
    "PASS"
}

/// One SDK conformance result.
#[derive(Debug, Clone)]
pub struct SdkRow {
    pub sdk: String,
    pub test: String,
    pub status: HwStatus,
    pub detail: String,
}

/// The CSV line of an SDK result.
pub open spec fn sdk_line(pid: Seq<char>, r: SdkRow) -> Seq<char> {
    pid + ","@ + r.sdk@ + ","@ + r.test@ + ","@ + hw_status_text(r.status) + ","@ + csv_safe(r.detail@)
        + ","@
}

/// The CSV lines of the SDK results, with "FAIL" for the SDK part of the
/// run when any result failed and "PASS" otherwise.
pub fn sdk_csv(pid: &str, rows: &[SdkRow]) -> (r: (Vec<String>, &'static str))
    ensures
        texts(r.0@) == Seq::new(rows@.len(), |i: int| sdk_line(pid@, rows@[i])),
        r.1@ == (if exists|i: int| 0 <= i < rows@.len() && (#[trigger] rows@[i]).status == HwStatus::Fail {
            "FAIL"@
        } else {
            "PASS"@
        }),
{
    let mut lines: Vec<String> = Vec::new();
    let mut any_fail = false;
    let mut k: usize = 0;
    while k < rows.len()
        invariant
            k <= rows@.len(),
            texts(lines@) == Seq::new(k as nat, |i: int| sdk_line(pid@, rows@[i])),
            any_fail == exists|i: int| 0 <= i < k && (#[trigger] rows@[i]).status == HwStatus::Fail,
        decreases rows@.len() - k,
    {
        let r = &rows[k];
        if r.status == HwStatus::Fail {
            any_fail = true;
        }
        let mut l = String::from_str(pid);
        l.append(",");
        l.append(r.sdk.as_str());
        l.append(",");
        l.append(r.test.as_str());
        l.append(",");
        l.append(r.status.as_str());
        l.append(",");
        l.append(csv_escape(r.detail.as_str()).as_str());
        l.append(",");
        assert(l@ == sdk_line(pid@, rows@[k as int]));
        let ghost before = texts(lines@);
        lines.push(l);
        proof {
            assert(texts(lines@) =~= before.push(sdk_line(pid@, rows@[k as int])));
            assert(texts(lines@) =~= Seq::new((k + 1) as nat, |i: int| sdk_line(pid@, rows@[i])));
            if rows@[k as int].status == HwStatus::Fail {
                assert(exists|i: int| 0 <= i < k + 1 && (#[trigger] rows@[i]).status == HwStatus::Fail);
            }
        }
        k = k + 1;
    }
    (lines, if any_fail { "FAIL" } else { "PASS" })
}

/// Data rows of a CSV text: its lines after the header.
pub fn data_row_count(csv: &str) -> (r: u64)
    ensures
        r == (if lines(csv@).len() > 0 { lines(csv@).len() - 1 } else { 0 }),
{
    let v = line_list(csv);
    if v.len() > 0 {
        (v.len() - 1) as u64
    } else {
        0
    }
}

/// A platform-matrix line with its last field replaced by `verdict` when it
/// starts with `pid` and has a comma.
pub open spec fn status_line(l: Seq<char>, pid: Seq<char>, verdict: Seq<char>) -> Seq<char> {
    if has_prefix(l, pid) && last_of(l, ',', l.len() as int) >= 0 {
        l.subrange(0, last_of(l, ',', l.len() as int)) + ","@ + verdict
    } else {
        l
    }
}

/// Lines each followed by a newline.
pub open spec fn terminated(ls: Seq<Seq<char>>) -> Seq<char>
    decreases ls.len(),
{
    if ls.len() == 0 {
        Seq::empty()
    } else {
        terminated(ls.drop_last()) + ls.last() + "\n"@
    }
}

/// The platform matrix with the verdict of `pid` recorded: every line after
/// the header that starts with `pid` gets `verdict` as its last field; the
/// lines are joined by newlines and the text ends with one.
pub open spec fn spec_matrix_with_status(content: Seq<char>, pid: Seq<char>, verdict: Seq<char>) -> Seq<char> {
    let ls = lines(content);
    if ls.len() == 0 {
        "\n"@
    } else {
        terminated(
            Seq::new(
                ls.len(),
                |k: int| if k == 0 { ls[0] } else { status_line(ls[k], pid, verdict) },
            ),
        )
    }
}

/// Records `verdict` for `pid` in the platform-matrix text.
pub fn matrix_with_status(content: &str, pid: &str, verdict: &str) -> (r: String)
    ensures
        r@ == spec_matrix_with_status(content@, pid@, verdict@),
{
    let ls = line_list(content);
    let ghost lv = lines(content@);
    if ls.len() == 0 {
        proof {
            reveal_strlit("\n");
        }
        return String::from_str("\n");
    }
    let ghost target = Seq::new(
        lv.len(),
        |k: int| if k == 0 { lv[0] } else { status_line(lv[k], pid@, verdict@) },
    );
    let mut out = String::new();
    let mut k: usize = 0;
    while k < ls.len()
        invariant
            k <= ls@.len(),
            texts(ls@) == lv,
            lv.len() == target.len(),
            target == Seq::new(
                lv.len(),
                |k: int| if k == 0 { lv[0] } else { status_line(lv[k], pid@, verdict@) },
            ),
            out@ == terminated(target.subrange(0, k as int)),
        decreases ls@.len() - k,
    {
        let l = ls[k].as_str();
        assert(l@ == lv[k as int]);
        let ghost out0 = out@;
        if k > 0 && starts_with(l, pid) {
            match rfind_char(l, ',') {
                Some(idx) => {
                    out.append(l.substring_char(0, idx));
                    out.append(",");
                    out.append(verdict);
                },
                None => {
                    out.append(l);
                },
            }
        } else {
            out.append(l);
        }
        out.append("\n");
        proof {
            let t = target.subrange(0, k + 1);
            assert(t.drop_last() =~= target.subrange(0, k as int));
            assert(out@ =~= terminated(t));
        }
        k = k + 1;
    }
    assert(target.subrange(0, ls@.len() as int) =~= target);
    out
}

/// The gpu.csv line for one line of runner output: platform, the first five
/// comma-separated fields and the MEASURED marker; none when the output line
/// has fewer than five fields.
pub open spec fn gpu_row(pid: Seq<char>, line: Seq<char>) -> Option<Seq<char>> {
    let c = pieces_from(line, ',', 0);
    if c.len() >= 5 {
        Some(
            pid + ","@ + c[0] + ","@ + c[1] + ","@ + c[2] + ","@ + c[3] + ","@ + c[4]
                + ",MEASURED,live v4_gpu_runner"@,
        )
    } else {
        None
    }
}

/// The gpu.csv lines for the runner's output lines, in order.
pub open spec fn gpu_rows(pid: Seq<char>, ls: Seq<Seq<char>>) -> Seq<Seq<char>>
    decreases ls.len(),
{
    if ls.len() == 0 {
        Seq::empty()
    } else {
        match gpu_row(pid, ls.last()) {
            Some(x) => gpu_rows(pid, ls.drop_last()).push(x),
            None => gpu_rows(pid, ls.drop_last()),
        }
    }
}

/// The gpu.csv lines of a run: one status line with empty measurements
/// when there is no runner output, the measured lines otherwise.
pub open spec fn spec_gpu_csv(pid: Seq<char>, data: Seq<Seq<char>>, verdict: Seq<char>, notes: Seq<char>) -> Seq<Seq<char>> {
    if data.len() == 0 {
        seq![pid + ",,,,,,"@ + verdict + ",\""@ + notes + "\""@]
    } else {
        gpu_rows(pid, data)
    }
}

/// Builds the gpu.csv lines of a run.
pub fn gpu_csv_rows(pid: &str, data_lines: &[String], verdict: &str, notes: &str) -> (v: Vec<String>)
    ensures
        texts(v@) == spec_gpu_csv(pid@, texts(data_lines@), verdict@, notes@),
{
    let mut v: Vec<String> = Vec::new();
    if data_lines.len() == 0 {
        let mut l = String::from_str(pid);
        l.append(",,,,,,");
        l.append(verdict);
        l.append(",\"");
        l.append(notes);
        l.append("\"");
        v.push(l);
        assert(texts(v@) =~= spec_gpu_csv(pid@, texts(data_lines@), verdict@, notes@));
        return v;
    }
    let ghost data = texts(data_lines@);
    let mut k: usize = 0;
    while k < data_lines.len()
        invariant
            k <= data_lines@.len(),
            data == texts(data_lines@),
            texts(v@) == gpu_rows(pid@, data.subrange(0, k as int)),
        decreases data_lines@.len() - k,
    {
        let line = data_lines[k].as_str();
        let cols = split_char(line, ',');
        let ghost before = texts(v@);
        let ghost c = pieces_from(line@, ',', 0);
        if cols.len() >= 5 {
            let mut l = String::from_str(pid);
            l.append(",");
            l.append(cols[0].as_str());
            l.append(",");
            l.append(cols[1].as_str());
            l.append(",");
            l.append(cols[2].as_str());
            l.append(",");
            l.append(cols[3].as_str());
            l.append(",");
            l.append(cols[4].as_str());
            l.append(",MEASURED,live v4_gpu_runner");
            assert(cols@[0]@ == c[0] && cols@[1]@ == c[1] && cols@[2]@ == c[2] && cols@[3]@ == c[3]
                && cols@[4]@ == c[4]);
            v.push(l);
            assert(texts(v@) =~= before.push(gpu_row(pid@, line@).unwrap()));
        }
        proof {
            let t = data.subrange(0, k + 1);
            assert(t.drop_last() =~= data.subrange(0, k as int));
            assert(t.last() == line@);
            assert(texts(v@) =~= gpu_rows(pid@, t));
        }
        k = k + 1;
    }
    assert(data.subrange(0, data_lines@.len() as int) =~= data);
    v
}

/// The gpu.csv line of a GPU phase that could not run.
pub fn gpu_blocked_rows(pid: &str, reason: &str) -> (v: Vec<String>)
    ensures
        texts(v@) == seq![pid@ + ",,,,,,"@ + "BLOCKED"@ + ",\""@ + reason@ + "\""@],
{
    let empty: Vec<String> = Vec::new();
    let v = gpu_csv_rows(pid, empty.as_slice(), "BLOCKED", reason);
    proof {
        assert(texts(empty@) =~= Seq::<Seq<char>>::empty());
    }
    v
}

/// The operating system family of the host, as far as the sanitizer
/// defaults depend on it.
#[derive(Debug, Clone, Copy, PartialEq, Eq, Structural)]
pub enum HostOs {
    Linux,
    Windows,
    MacOs,
    Other,
}

/// Status and detail of a sanitizer marker read from environment variable
/// `var`: its value `pass`, `fail` or `blocked` (any ASCII case) gives that
/// status, any other value NOT RUN; an unset variable gives NOT RUN on Linux
/// and elsewhere, BLOCKED on Windows and macOS.
pub open spec fn spec_sanitizer_status(var: Seq<char>, value: Option<Seq<char>>, os: HostOs) -> (Seq<char>, Seq<char>) {
    match value {
        Some(v) => if eq_ascii_case(v, "pass"@) {
            ("PASS"@, var + "=pass"@)
        } else if eq_ascii_case(v, "fail"@) {
            ("FAIL"@, var + "=fail"@)
        } else if eq_ascii_case(v, "blocked"@) {
            ("BLOCKED"@, var + "=blocked"@)
        } else {
            ("NOT RUN"@, var + "="@ + v)
        },
        None => match os {
            HostOs::Linux => ("NOT RUN"@, var + " unset; see sanitizers.yml"@),
            HostOs::Windows => ("BLOCKED"@, var + " unset; ASan/Miri blocked on Windows MSVC host"@),
            HostOs::MacOs => ("BLOCKED"@, var + " unset; sanitizers not run on macOS GHA"@),
            HostOs::Other => ("NOT RUN"@, var + " unset"@),
        },
    }
}

/// `a` followed by `b`.
fn joined(a: &str, b: &str) -> (r: String)
    ensures
        r@ == a@ + b@,
{
    let mut r = String::from_str(a);
    r.append(b);
    r
}

/// Reads one sanitizer marker.
pub fn sanitizer_status(var: &str, value: Option<&str>, os: HostOs) -> (r: (&'static str, String))
    ensures
        (r.0@, r.1@) == spec_sanitizer_status(var@, str_opt(value), os),
{
    match value {
        Some(v) => {
            if eq_ignore_ascii_case(v, "pass") {
                ("PASS", joined(var, "=pass"))
            } else if eq_ignore_ascii_case(v, "fail") {
                ("FAIL", joined(var, "=fail"))
            } else if eq_ignore_ascii_case(v, "blocked") {
                ("BLOCKED", joined(var, "=blocked"))
            } else {
                let mut d = joined(var, "=");
                d.append(v);
                ("NOT RUN", d)
            }
        },
        None => match os {
            HostOs::Linux => ("NOT RUN", joined(var, " unset; see sanitizers.yml")),
            HostOs::Windows => ("BLOCKED", joined(var, " unset; ASan/Miri blocked on Windows MSVC host")),
            HostOs::MacOs => ("BLOCKED", joined(var, " unset; sanitizers not run on macOS GHA")),
            HostOs::Other => ("NOT RUN", joined(var, " unset")),
        },
    }
}

/// The correctness.csv line of a sanitizer marker.
pub open spec fn sanitizer_line(pid: Seq<char>, name: Seq<char>, st: (Seq<char>, Seq<char>)) -> Seq<char> {
    pid + ",sanitizer,"@ + name + ","@ + st.0 + ",\""@ + st.1 + "\""@
}

/// One sanitizer line.
fn sanitizer_row(pid: &str, name: &str, var: &str, value: Option<&str>, os: HostOs) -> (l: String)
    ensures
        l@ == sanitizer_line(pid@, name@, spec_sanitizer_status(var@, str_opt(value), os)),
{
    let (st, detail) = sanitizer_status(var, value, os);
    let mut l = String::from_str(pid);
    l.append(",sanitizer,");
    l.append(name);
    l.append(",");
    l.append(st);
    l.append(",\"");
    l.append(detail.as_str());
    l.append("\"");
    l
}

/// The correctness.csv lines of the ASan, UBSan and Miri markers, read from
/// `ANTECH_SANITIZER_ASAN_STATUS`, `ANTECH_SANITIZER_UBSAN_STATUS` and
/// `ANTECH_MIRI_STATUS`.
pub fn sanitizer_rows(
    pid: &str,
    asan: Option<&str>,
    ubsan: Option<&str>,
    miri: Option<&str>,
    os: HostOs,
) -> (v: Vec<String>)
    ensures
        texts(v@) == seq![
            sanitizer_line(pid@, "asan"@, spec_sanitizer_status("ANTECH_SANITIZER_ASAN_STATUS"@, str_opt(asan), os)),
            sanitizer_line(pid@, "ubsan"@, spec_sanitizer_status("ANTECH_SANITIZER_UBSAN_STATUS"@, str_opt(ubsan), os)),
            sanitizer_line(pid@, "miri"@, spec_sanitizer_status("ANTECH_MIRI_STATUS"@, str_opt(miri), os)),
        ],
{
    let mut v: Vec<String> = Vec::new();
    v.push(sanitizer_row(pid, "asan", "ANTECH_SANITIZER_ASAN_STATUS", asan, os));
    v.push(sanitizer_row(pid, "ubsan", "ANTECH_SANITIZER_UBSAN_STATUS", ubsan, os));
    v.push(sanitizer_row(pid, "miri", "ANTECH_MIRI_STATUS", miri, os));
    assert(texts(v@) =~= seq![
        sanitizer_line(pid@, "asan"@, spec_sanitizer_status("ANTECH_SANITIZER_ASAN_STATUS"@, str_opt(asan), os)),
        sanitizer_line(pid@, "ubsan"@, spec_sanitizer_status("ANTECH_SANITIZER_UBSAN_STATUS"@, str_opt(ubsan), os)),
        sanitizer_line(pid@, "miri"@, spec_sanitizer_status("ANTECH_MIRI_STATUS"@, str_opt(miri), os)),
    ]);
    v
}

/// The correctness.csv line of a final-validation check.
pub open spec fn final_validation_line(pid: Seq<char>, c: CheckRow) -> Seq<char> {
    pid + ",final_validation,"@ + c.name@ + ","@ + check_status_word(c.status) + " ,\""@ + csv_safe(
        c.detail@,
    ) + "\""@
}

/// The correctness.csv lines of the final-validation checks, in order.
pub fn final_validation_rows(pid: &str, checks: &[CheckRow]) -> (v: Vec<String>)
    ensures
        texts(v@) == Seq::new(checks@.len(), |i: int| final_validation_line(pid@, checks@[i])),
{
    let mut v: Vec<String> = Vec::new();
    let mut k: usize = 0;
    while k < checks.len()
        invariant
            k <= checks@.len(),
            texts(v@) == Seq::new(k as nat, |i: int| final_validation_line(pid@, checks@[i])),
        decreases checks@.len() - k,
    {
        let c = &checks[k];
        let st = status_word(c.status);
        let mut l = String::from_str(pid);
        l.append(",final_validation,");
        l.append(c.name.as_str());
        l.append(",");
        l.append(st);
        l.append(" ,\"");
        l.append(csv_escape(c.detail.as_str()).as_str());
        l.append("\"");
        assert(l@ == final_validation_line(pid@, checks@[k as int]));
        let ghost before = texts(v@);
        v.push(l);
        assert(texts(v@) =~= before.push(final_validation_line(pid@, checks@[k as int])));
        assert(texts(v@) =~= Seq::new((k + 1) as nat, |i: int| final_validation_line(pid@, checks@[i])));
        k = k + 1;
    }
    v
}

/// The production digest of the identity check against the reference one.
#[derive(Debug, Clone)]
pub struct IdentityDigest {
    pub digest_hex: String,
    pub ref_hex: String,
    pub status: HwStatus,
    pub detail: String,
}

/// The correctness.csv line and the identity-digests.txt line of the
/// identity check.
pub fn identity_rows(pid: &str, build_profile: &str, id: &IdentityDigest) -> (r: (String, String))
    ensures
        r.0@ == pid@ + ",identity,"@ + build_profile@ + ","@ + hw_status_text(id.status) + ","@
            + csv_safe(id.detail@) + ",\"digest="@ + id.digest_hex@ + " ref="@ + id.ref_hex@ + "\""@,
        r.1@ == pid@ + "\t"@ + build_profile@ + "\t"@ + id.digest_hex@,
{
    let mut a = String::from_str(pid);
    a.append(",identity,");
    a.append(build_profile);
    a.append(",");
    a.append(id.status.as_str());
    a.append(",");
    a.append(csv_escape(id.detail.as_str()).as_str());
    a.append(",\"digest=");
    a.append(id.digest_hex.as_str());
    a.append(" ref=");
    a.append(id.ref_hex.as_str());
    a.append("\"");
    let mut b = String::from_str(pid);
    b.append("\t");
    b.append(build_profile);
    b.append("\t");
    b.append(id.digest_hex.as_str());
    (a, b)
}

/// The regressions recorded by the correctness campaign: its CSV lines after
/// the header, each marked as a correctness regression.
pub open spec fn prior_regressions(prev: Option<Seq<char>>) -> Seq<Seq<char>> {
    match prev {
        Some(t) => if lines(t).len() > 0 {
            Seq::new((lines(t).len() - 1) as nat, |k: int| "correctness,"@ + lines(t)[k + 1])
        } else {
            Seq::empty()
        },
        None => Seq::empty(),
    }
}

/// The regression line of each failed final-validation check, in order.
pub open spec fn check_regressions(cs: Seq<CheckRow>) -> Seq<Seq<char>>
    decreases cs.len(),
{
    if cs.len() == 0 {
        Seq::empty()
    } else if cs.last().status == CheckStatus::Fail {
        check_regressions(cs.drop_last()).push(
            "final_validation,"@ + cs.last().name@ + ",FAIL,\""@ + csv_safe(cs.last().detail@) + "\""@,
        )
    } else {
        check_regressions(cs.drop_last())
    }
}

/// The regression line of each failed SDK result, in order.
pub open spec fn sdk_regressions(rs: Seq<SdkRow>) -> Seq<Seq<char>>
    decreases rs.len(),
{
    if rs.len() == 0 {
        Seq::empty()
    } else if rs.last().status == HwStatus::Fail {
        sdk_regressions(rs.drop_last()).push(
            "sdk,"@ + rs.last().sdk@ + "_"@ + rs.last().test@ + ",FAIL,\""@ + csv_safe(rs.last().detail@)
                + "\""@,
        )
    } else {
        sdk_regressions(rs.drop_last())
    }
}

/// The regression line of a stress scenario with unexpected errors or panics.
pub open spec fn stress_regression_line(r: StressOutcome) -> Seq<char> {
    "stress,"@ + r.scenario@ + "_"@ + decimal(r.concurrency as nat) + "c,FAIL,\"unexpected="@ + decimal(
        r.unexpected_errors as nat,
    ) + " panics="@ + decimal(r.panics as nat) + "\""@
}

/// The regression line of each stress scenario with unexpected errors or
/// panics, in order.
pub open spec fn stress_regressions(rs: Seq<StressOutcome>) -> Seq<Seq<char>>
    decreases rs.len(),
{
    if rs.len() == 0 {
        Seq::empty()
    } else if rs.last().unexpected_errors > 0 || rs.last().panics > 0 {
        stress_regressions(rs.drop_last()).push(stress_regression_line(rs.last()))
    } else {
        stress_regressions(rs.drop_last())
    }
}

/// The regression line of a failed live-CUDA comparison.
pub open spec fn gpu_regression(pid: Seq<char>, gpu_verdict: Seq<char>) -> Seq<Seq<char>> {
    if gpu_verdict == "FAIL"@ {
        seq![
            "gpu,"@ + pid + "_live_cuda,FAIL,\"production AntechEngine CPU digests != live CUDA attacker (v4c_gpu_attacker)\""@,
        ]
    } else {
        Seq::empty()
    }
}

/// The lines of regressions.csv: the header, then the correctness
/// campaign's regressions, failed checks, failed SDK results, failing
/// stress scenarios and a failed live-CUDA comparison.
pub open spec fn spec_regressions_csv(
    prev: Option<Seq<char>>,
    checks: Seq<CheckRow>,
    sdk: Seq<SdkRow>,
    stress: Seq<StressOutcome>,
    gpu_verdict: Seq<char>,
    pid: Seq<char>,
) -> Seq<Seq<char>> {
    seq!["area,id,status,detail"@] + prior_regressions(prev) + check_regressions(checks)
        + sdk_regressions(sdk) + stress_regressions(stress) + gpu_regression(pid, gpu_verdict)
}

/// Builds the lines of regressions.csv.
pub fn regression_rows(
    prev: Option<&str>,
    checks: &[CheckRow],
    sdk: &[SdkRow],
    stress: &[StressOutcome],
    gpu_verdict: &str,
    pid: &str,
) -> (v: Vec<String>)
    ensures
        texts(v@) == spec_regressions_csv(str_opt(prev), checks@, sdk@, stress@, gpu_verdict@, pid@),
{
    let mut v: Vec<String> = Vec::new();
    v.push(String::from_str("area,id,status,detail"));
    let ghost head = seq!["area,id,status,detail"@];
    assert(texts(v@) =~= head);
    match prev {
        Some(t) => {
            let ls = line_list(t);
            let mut k: usize = 1;
            while k < ls.len()
                invariant
                    1 <= k,
                    ls@.len() > 0 ==> k <= ls@.len(),
                    ls@.len() == 0 ==> k == 1,
                    texts(ls@) == lines(t@),
                    texts(v@) == head + Seq::new(
                        (k - 1) as nat,
                        |j: int| "correctness,"@ + lines(t@)[j + 1],
                    ),
                decreases ls@.len() - k,
            {
                let mut l = String::from_str("correctness,");
                l.append(ls[k].as_str());
                assert(ls@[k as int]@ == texts(ls@)[k as int]);
                assert(l@ == "correctness,"@ + lines(t@)[k as int]);
                let ghost before = texts(v@);
                v.push(l);
                assert(texts(v@) =~= before.push(l@));
                assert(texts(v@) =~= head + Seq::new(
                    k as nat,
                    |j: int| "correctness,"@ + lines(t@)[j + 1],
                ));
                k = k + 1;
            }
            proof {
                assert(str_opt(prev) == Some(t@));
                if ls@.len() > 0 {
                    assert(k == ls@.len());
                    assert(prior_regressions(str_opt(prev)) =~= Seq::new(
                        (k - 1) as nat,
                        |j: int| "correctness,"@ + lines(t@)[j + 1],
                    ));
                } else {
                    assert(prior_regressions(str_opt(prev)) =~= Seq::<Seq<char>>::empty());
                    assert(Seq::new((k - 1) as nat, |j: int| "correctness,"@ + lines(t@)[j + 1]) =~= Seq::<Seq<char>>::empty());
                }
            }
            assert(texts(v@) =~= head + prior_regressions(str_opt(prev)));
        },
        None => {
            assert(texts(v@) =~= head + prior_regressions(str_opt(prev)));
        },
    }
    let ghost base1 = texts(v@);
    let mut k: usize = 0;
    while k < checks.len()
        invariant
            k <= checks@.len(),
            texts(v@) == base1 + check_regressions(checks@.subrange(0, k as int)),
        decreases checks@.len() - k,
    {
        let c = &checks[k];
        let ghost before = texts(v@);
        if c.status == CheckStatus::Fail {
            let mut l = String::from_str("final_validation,");
            l.append(c.name.as_str());
            l.append(",FAIL,\"");
            l.append(csv_escape(c.detail.as_str()).as_str());
            l.append("\"");
            v.push(l);
            assert(texts(v@) =~= before.push(
                "final_validation,"@ + checks@[k as int].name@ + ",FAIL,\""@ + csv_safe(checks@[k as int].detail@) + "\""@,
            ));
        }
        proof {
            let t = checks@.subrange(0, k + 1);
            assert(t.drop_last() =~= checks@.subrange(0, k as int));
            assert(t.last() == checks@[k as int]);
            assert(texts(v@) =~= base1 + check_regressions(t));
        }
        k = k + 1;
    }
    assert(checks@.subrange(0, checks@.len() as int) =~= checks@);
    let ghost base2 = texts(v@);
    let mut k: usize = 0;
    while k < sdk.len()
        invariant
            k <= sdk@.len(),
            texts(v@) == base2 + sdk_regressions(sdk@.subrange(0, k as int)),
        decreases sdk@.len() - k,
    {
        let r = &sdk[k];
        let ghost before = texts(v@);
        if r.status == HwStatus::Fail {
            let mut l = String::from_str("sdk,");
            l.append(r.sdk.as_str());
            l.append("_");
            l.append(r.test.as_str());
            l.append(",FAIL,\"");
            l.append(csv_escape(r.detail.as_str()).as_str());
            l.append("\"");
            v.push(l);
            assert(texts(v@) =~= before.push(
                "sdk,"@ + sdk@[k as int].sdk@ + "_"@ + sdk@[k as int].test@ + ",FAIL,\""@ + csv_safe(sdk@[k as int].detail@) + "\""@,
            ));
        }
        proof {
            let t = sdk@.subrange(0, k + 1);
            assert(t.drop_last() =~= sdk@.subrange(0, k as int));
            assert(t.last() == sdk@[k as int]);
            assert(texts(v@) =~= base2 + sdk_regressions(t));
        }
        k = k + 1;
    }
    assert(sdk@.subrange(0, sdk@.len() as int) =~= sdk@);
    let ghost base3 = texts(v@);
    let mut k: usize = 0;
    while k < stress.len()
        invariant
            k <= stress@.len(),
            texts(v@) == base3 + stress_regressions(stress@.subrange(0, k as int)),
        decreases stress@.len() - k,
    {
        let r = &stress[k];
        let ghost before = texts(v@);
        if r.unexpected_errors > 0 || r.panics > 0 {
            let mut l = String::from_str("stress,");
            l.append(r.scenario.as_str());
            l.append("_");
            push_decimal(&mut l, r.concurrency as u64);
            l.append("c,FAIL,\"unexpected=");
            push_decimal(&mut l, r.unexpected_errors);
            l.append(" panics=");
            push_decimal(&mut l, r.panics);
            l.append("\"");
            assert(l@ == stress_regression_line(stress@[k as int]));
            v.push(l);
            assert(texts(v@) =~= before.push(stress_regression_line(stress@[k as int])));
        }
        proof {
            let t = stress@.subrange(0, k + 1);
            assert(t.drop_last() =~= stress@.subrange(0, k as int));
            assert(t.last() == stress@[k as int]);
            assert(texts(v@) =~= base3 + stress_regressions(t));
        }
        k = k + 1;
    }
    assert(stress@.subrange(0, stress@.len() as int) =~= stress@);
    let ghost base4 = texts(v@);
    if same_text(gpu_verdict, "FAIL") {
        let mut l = String::from_str("gpu,");
        l.append(pid);
        l.append("_live_cuda,FAIL,\"production AntechEngine CPU digests != live CUDA attacker (v4c_gpu_attacker)\"");
        v.push(l);
    }
    assert(texts(v@) =~= base4 + gpu_regression(pid@, gpu_verdict@));
    v
}

/// How a `cargo test` run ended.
#[derive(Debug, Clone)]
pub enum CargoOutcome {
    /// Exit status 0, with this many bytes on standard output.
    Passed(usize),
    /// A non-zero exit, with the start of its standard error.
    Failed(String),
    /// The command could not be started, for this reason.
    NotStarted(String),
}

/// The SDK row of a `cargo test` run named `name`.
pub fn cargo_output_row(name: &str, outcome: CargoOutcome) -> (r: SdkRow)
    ensures
        r.sdk@ == "rust"@,
        r.test@ == name@,
        r.status == (match outcome {
            CargoOutcome::Passed(_) => HwStatus::Pass,
            CargoOutcome::Failed(_) => HwStatus::Fail,
            CargoOutcome::NotStarted(_) => HwStatus::Blocked,
        }),
        r.detail@ == (match outcome {
            CargoOutcome::Passed(n) => "exit=0 stdout_bytes="@ + decimal(n as nat),
            CargoOutcome::Failed(e) => e@,
            CargoOutcome::NotStarted(e) => "spawn failed: "@ + e@,
        }),
{
    match outcome {
        CargoOutcome::Passed(n) => {
            let mut d = String::from_str("exit=0 stdout_bytes=");
            push_decimal(&mut d, n as u64);
            SdkRow { sdk: String::from_str("rust"), test: String::from_str(name), status: HwStatus::Pass, detail: d }
        },
        CargoOutcome::Failed(e) => SdkRow {
            sdk: String::from_str("rust"),
            test: String::from_str(name),
            status: HwStatus::Fail,
            detail: e,
        },
        CargoOutcome::NotStarted(e) => SdkRow {
            sdk: String::from_str("rust"),
            test: String::from_str(name),
            status: HwStatus::Blocked,
            detail: joined("spawn failed: ", e.as_str()),
        },
    }
}

/// How a toolchain check (`<tool> --version`) ended.
#[derive(Debug, Clone)]
pub enum ToolOutcome {
    /// Exit status 0, with this standard output.
    Answered(String),
    /// A non-zero exit, with the start of its standard error.
    Failed(String),
    /// The tool could not be started, for this reason.
    Missing(String),
}

/// The SDK row of a toolchain check: PASS with the trimmed version output
/// when the tool answered, BLOCKED otherwise.
pub fn tool_check_row(name: &str, bin: &str, outcome: ToolOutcome) -> (r: SdkRow)
    ensures
        r.sdk@ == name@,
        r.test@ == "toolchain"@,
        r.status == (match outcome {
            ToolOutcome::Answered(_) => HwStatus::Pass,
            _ => HwStatus::Blocked,
        }),
        r.detail@ == (match outcome {
            ToolOutcome::Answered(out) => trimmed(out@),
            ToolOutcome::Failed(e) => e@,
            ToolOutcome::Missing(e) => bin@ + " missing: "@ + e@,
        }),
{
    match outcome {
        ToolOutcome::Answered(out) => SdkRow {
            sdk: String::from_str(name),
            test: String::from_str("toolchain"),
            status: HwStatus::Pass,
            detail: trim(out.as_str()),
        },
        ToolOutcome::Failed(e) => SdkRow {
            sdk: String::from_str(name),
            test: String::from_str("toolchain"),
            status: HwStatus::Blocked,
            detail: e,
        },
        ToolOutcome::Missing(e) => {
            let mut d = joined(bin, " missing: ");
            d.append(e.as_str());
            SdkRow {
                sdk: String::from_str(name),
                test: String::from_str("toolchain"),
                status: HwStatus::Blocked,
                detail: d,
            }
        },
    }
}

/// An SDK row from its four texts.
fn sdk_row(sdk: &str, test: &str, status: HwStatus, detail: &str) -> (r: SdkRow)
    ensures
        r.sdk@ == sdk@,
        r.test@ == test@,
        r.status == status,
        r.detail@ == detail@,
{
    SdkRow {
        sdk: String::from_str(sdk),
        test: String::from_str(test),
        status,
        detail: String::from_str(detail),
    }
}

/// `r` is the SDK row with these texts and status.
pub open spec fn sdk_row_is(r: SdkRow, sdk: Seq<char>, test: Seq<char>, status: HwStatus, detail: Seq<char>) -> bool {
    r.sdk@ == sdk && r.test@ == test && r.status == status && r.detail@ == detail
}

/// The SDK rows that need no tool run: outside the `full` profile Node and
/// .NET conformance are NOT RUN (the full profile checks their toolchains
/// instead), and Java and Kotlin are BLOCKED.
pub fn sdk_fixed_rows(profile: &str) -> (v: Vec<SdkRow>)
    ensures
        profile@ == "full"@ ==> v@.len() == 2 && sdk_row_is(v@[0], "java"@, "conformance"@, HwStatus::Blocked, "Java/Kotlin bindings not in hardware-validation CI matrix"@)
            && sdk_row_is(v@[1], "kotlin"@, "conformance"@, HwStatus::Blocked, "Java/Kotlin bindings not in hardware-validation CI matrix"@),
        profile@ != "full"@ ==> v@.len() == 4 && sdk_row_is(v@[0], "node"@, "conformance"@, HwStatus::NotRun, "Node conformance harness not in repo; build-only in sdk.yml"@)
            && sdk_row_is(v@[1], "dotnet"@, "conformance"@, HwStatus::NotRun, "Dotnet conformance not automated in CI"@)
            && sdk_row_is(v@[2], "java"@, "conformance"@, HwStatus::Blocked, "Java/Kotlin bindings not in hardware-validation CI matrix"@)
            && sdk_row_is(v@[3], "kotlin"@, "conformance"@, HwStatus::Blocked, "Java/Kotlin bindings not in hardware-validation CI matrix"@),
{
    let mut v: Vec<SdkRow> = Vec::new();
    if !same_text(profile, "full") {
        v.push(sdk_row("node", "conformance", HwStatus::NotRun, "Node conformance harness not in repo; build-only in sdk.yml"));
        v.push(sdk_row("dotnet", "conformance", HwStatus::NotRun, "Dotnet conformance not automated in CI"));
    }
    v.push(sdk_row("java", "conformance", HwStatus::Blocked, "Java/Kotlin bindings not in hardware-validation CI matrix"));
    v.push(sdk_row("kotlin", "conformance", HwStatus::Blocked, "Java/Kotlin bindings not in hardware-validation CI matrix"));
    v
}

/// The platform's correctness.csv lines: every case line of the correctness
/// campaign's all-cases.csv (after its header) prefixed with the platform,
/// then the campaign's summary line.
pub open spec fn spec_correctness_rows(
    pid: Seq<char>,
    all_cases: Option<Seq<char>>,
    verdict: Seq<char>,
    t: crate::engineering::production_correctness::SuiteCounts,
) -> Seq<Seq<char>> {
    let cases = match all_cases {
        Some(text) => if lines(text).len() > 0 {
            Seq::new((lines(text).len() - 1) as nat, |k: int| pid + ","@ + lines(text)[k + 1])
        } else {
            Seq::empty()
        },
        None => Seq::empty(),
    };
    cases.push(
        pid + ",_summary,campaign,"@ + verdict + ",\"cases="@ + decimal(t.cases as nat) + " pass="@
            + decimal(t.pass as nat) + " fail="@ + decimal(t.fail as nat) + " blocked="@ + decimal(
            t.blocked as nat,
        ) + " panics="@ + decimal(t.panics_caught as nat) + "\""@,
    )
}

/// Builds the platform's correctness.csv lines.
pub fn correctness_rows(pid: &str, all_cases: Option<&str>, summary: &CorrectnessSummary) -> (v: Vec<String>)
    ensures
        texts(v@) == spec_correctness_rows(pid@, str_opt(all_cases), summary.verdict@, summary.totals),
{
    let mut v: Vec<String> = Vec::new();
    match all_cases {
        Some(text) => {
            let ls = line_list(text);
            let mut k: usize = 1;
            while k < ls.len()
                invariant
                    1 <= k,
                    ls@.len() > 0 ==> k <= ls@.len(),
                    ls@.len() == 0 ==> k == 1,
                    texts(ls@) == lines(text@),
                    texts(v@) == Seq::new((k - 1) as nat, |j: int| pid@ + ","@ + lines(text@)[j + 1]),
                decreases ls@.len() - k,
            {
                let mut l = String::from_str(pid);
                l.append(",");
                l.append(ls[k].as_str());
                assert(ls@[k as int]@ == texts(ls@)[k as int]);
                let ghost before = texts(v@);
                v.push(l);
                assert(texts(v@) =~= before.push(pid@ + ","@ + lines(text@)[k as int]));
                assert(texts(v@) =~= Seq::new(k as nat, |j: int| pid@ + ","@ + lines(text@)[j + 1]));
                k = k + 1;
            }
            proof {
                if ls@.len() == 0 {
                    assert(texts(v@) =~= Seq::<Seq<char>>::empty());
                }
            }
        },
        None => {
            assert(texts(v@) =~= Seq::<Seq<char>>::empty());
        },
    }
    let t = summary.totals;
    let mut l = String::from_str(pid);
    l.append(",_summary,campaign,");
    l.append(summary.verdict.as_str());
    l.append(",\"cases=");
    push_decimal(&mut l, t.cases);
    l.append(" pass=");
    push_decimal(&mut l, t.pass);
    l.append(" fail=");
    push_decimal(&mut l, t.fail);
    l.append(" blocked=");
    push_decimal(&mut l, t.blocked);
    l.append(" panics=");
    push_decimal(&mut l, t.panics_caught);
    l.append("\"");
    let ghost before = texts(v@);
    v.push(l);
    assert(texts(v@) =~= before.push(l@));
    assert(texts(v@) =~= spec_correctness_rows(pid@, str_opt(all_cases), summary.verdict@, summary.totals));
    v
}

/// Where the campaign writes its results, relative to the repository root.
pub fn default_out_dir() -> (p: &'static str)
    ensures
        p@ == "research/results/hardware-validation"@,
{
    "research/results/hardware-validation"
}

/// The campaign profile: the value of `ANTECH_HARDWARE_VALIDATION_PROFILE` when it is set,
/// `ci` otherwise.
pub fn profile(env_value: Option<&str>) -> (p: String)
    ensures
        env_value matches Some(v) ==> p@ == v@,
        env_value is None ==> p@ == "ci"@,
{
    match env_value {
        Some(v) => String::from_str(v),
        None => String::from_str("ci"),
    }
}

} // verus!
