//! Production-path stress: the resource-policy ceilings it checks against,
//! the per-operation counters of a scenario, and the reading of the process
//! metrics from `/proc`.

use vstd::prelude::*;
use crate::text::{decimal, push_decimal};
use crate::scan::{
    after_prefix, comma_u64s, comma_usizes, first_with_prefix, line_with_prefix, lines, nth_token,
    last_of, parse_u64, parsed_u64s, parsed_usizes, pieces_from, rest_after, rfind_char,
    spec_parse_u64, tokens,
};

verus! {

/// Default ceiling on concurrently allocated KDF memory (KiB).
pub const DEFAULT_MAX_MEMORY_KIB: usize = 131_072;
/// Default ceiling on concurrently running jobs.
pub const DEFAULT_MAX_ACTIVE_JOBS: usize = 64;
/// Default limit of the admission queue.
pub const DEFAULT_QUEUE_LIMIT: usize = 256;

/// The resource-policy ceilings in force.
#[derive(Debug, Clone, Copy)]
pub struct PolicySnapshot {
    pub max_memory_kib: usize,
    pub max_active_jobs: usize,
    pub queue_limit: usize,
}

/// The default production ceilings: 128 MiB, 64 jobs, a queue of 256.
pub fn policy_snapshot() -> (p: PolicySnapshot)
    ensures
        p.max_memory_kib == DEFAULT_MAX_MEMORY_KIB,
        p.max_active_jobs == DEFAULT_MAX_ACTIVE_JOBS,
        p.queue_limit == DEFAULT_QUEUE_LIMIT,
{
    PolicySnapshot {
        max_memory_kib: DEFAULT_MAX_MEMORY_KIB,
        max_active_jobs: DEFAULT_MAX_ACTIVE_JOBS,
        queue_limit: DEFAULT_QUEUE_LIMIT,
    }
}

/// What one stress operation came to.
#[derive(Debug, Clone, Copy, PartialEq, Eq, Structural)]
pub enum OpOutcome {
    Hash,
    VerifyValid,
    VerifyWrong,
    Rejected,
    ExpectedInput,
    Unexpected,
}

/// Operation counters of a stress scenario. Each counter wraps around on
/// overflow, as a shared atomic counter does.
#[derive(Debug, Clone, Copy)]
pub struct Counters {
    pub ops: u64,
    pub hashes: u64,
    pub verify_valid_ok: u64,
    pub verify_wrong_ok: u64,
    pub rejected_resource: u64,
    pub expected_input_errors: u64,
    pub unexpected_errors: u64,
    pub panics: u64,
}

/// One more than `x`, wrapping to 0 after `u64::MAX`.
pub open spec fn wrap_inc(x: u64) -> u64 {
    if x == u64::MAX { 0 } else { (x + 1) as u64 }
}

/// The counters after one outcome: exactly the counter of that outcome moves.
pub open spec fn spec_apply_outcome(c: Counters, o: OpOutcome) -> Counters {
    match o {
        OpOutcome::Hash => Counters { hashes: wrap_inc(c.hashes), ..c },
        OpOutcome::VerifyValid => Counters { verify_valid_ok: wrap_inc(c.verify_valid_ok), ..c },
        OpOutcome::VerifyWrong => Counters { verify_wrong_ok: wrap_inc(c.verify_wrong_ok), ..c },
        OpOutcome::Rejected => Counters { rejected_resource: wrap_inc(c.rejected_resource), ..c },
        OpOutcome::ExpectedInput => Counters { expected_input_errors: wrap_inc(c.expected_input_errors), ..c },
        OpOutcome::Unexpected => Counters { unexpected_errors: wrap_inc(c.unexpected_errors), ..c },
    }
}

impl Counters {
    /// All counters zero.
    pub fn new() -> (c: Self)
        ensures
            c == (Counters {
                ops: 0,
                hashes: 0,
                verify_valid_ok: 0,
                verify_wrong_ok: 0,
                rejected_resource: 0,
                expected_input_errors: 0,
                unexpected_errors: 0,
                panics: 0,
            }),
    {
        Counters {
            ops: 0,
            hashes: 0,
            verify_valid_ok: 0,
            verify_wrong_ok: 0,
            rejected_resource: 0,
            expected_input_errors: 0,
            unexpected_errors: 0,
            panics: 0,
        }
    }
}

/// Counts one operation outcome.
pub fn apply_outcome(c: &mut Counters, o: OpOutcome)
    ensures
        *final(c) == spec_apply_outcome(*old(c), o),
{
    match o {
        OpOutcome::Hash => {
            c.hashes = c.hashes.wrapping_add(1);
        },
        OpOutcome::VerifyValid => {
            c.verify_valid_ok = c.verify_valid_ok.wrapping_add(1);
        },
        OpOutcome::VerifyWrong => {
            c.verify_wrong_ok = c.verify_wrong_ok.wrapping_add(1);
        },
        OpOutcome::Rejected => {
            c.rejected_resource = c.rejected_resource.wrapping_add(1);
        },
        OpOutcome::ExpectedInput => {
            c.expected_input_errors = c.expected_input_errors.wrapping_add(1);
        },
        OpOutcome::Unexpected => {
            c.unexpected_errors = c.unexpected_errors.wrapping_add(1);
        },
    }
}

/// Resident set size (KiB) in `/proc/self/status` text: the first token
/// after `VmRSS:` on the first line that begins with it, if it is a number.
pub open spec fn spec_vm_rss_kib(status: Seq<char>) -> Option<u64> {
    match first_with_prefix(lines(status), "VmRSS:"@) {
        Some(l) => if tokens(after_prefix(l, "VmRSS:"@)).len() > 0 {
            spec_parse_u64(tokens(after_prefix(l, "VmRSS:"@))[0])
        } else {
            None
        },
        None => None,
    }
}

/// Reads the resident set size (KiB) from `/proc/self/status` text.
pub fn vm_rss_kib(status: &str) -> (r: Option<u64>)
    ensures
        r == spec_vm_rss_kib(status@),
{
    match line_with_prefix(status, "VmRSS:") {
        Some(l) => match nth_token(rest_after(l, "VmRSS:"), 0) {
            Some(t) => parse_u64(t),
            None => None,
        },
        None => None,
    }
}

/// Resident set size in bytes from `/proc/self/status` text.
pub fn rss_bytes_from_status(status: &str) -> (r: Option<u64>)
    requires
        spec_vm_rss_kib(status@) matches Some(kb) ==> kb * 1024 <= u64::MAX,
    ensures
        r == (match spec_vm_rss_kib(status@) {
            Some(kb) => Some((kb * 1024) as u64),
            None => None,
        }),
{
    match vm_rss_kib(status) {
        Some(kb) => Some(kb * 1024),
        None => None,
    }
}

/// CPU time the process has been busy, in nanoseconds.
#[derive(Debug, Clone, Copy)]
pub struct CpuTimes {
    pub busy_ns: u128,
}

/// The text after the last `)` of `s`, or all of `s` when it has none (the
/// first piece of `s.rsplit(')')`).
pub open spec fn after_last_paren(s: Seq<char>) -> Seq<char> {
    s.subrange(last_of(s, ')', s.len() as int) + 1, s.len() as int)
}

/// Nanoseconds per clock tick of `/proc/self/stat` times (100 ticks per
/// second assumed).
pub const TICK_NS: u128 = 10_000_000;

/// Busy time in `/proc/self/stat` text: after the command name (closed by
/// the last `)`), tokens 12 and 13 are user and system time in clock ticks
/// (each 0 when not a number); their saturating sum at 100 ticks per second.
/// Fewer than 13 tokens there read as no time at all.
pub open spec fn spec_busy_ns(stat: Seq<char>) -> u128 {
    let parts = tokens(after_last_paren(stat));
    if parts.len() < 13 {
        0
    } else {
        let utime: u64 = match spec_parse_u64(parts[11]) {
            Some(v) => v,
            None => 0,
        };
        let stime: u64 = match spec_parse_u64(parts[12]) {
            Some(v) => v,
            None => 0,
        };
        let ticks: int = if utime + stime > u64::MAX { u64::MAX as int } else { utime + stime };
        (ticks * TICK_NS) as u128
    }
}

/// Reads the process CPU time from `/proc/self/stat` text.
pub fn cpu_times_from_stat(stat: &str) -> (r: CpuTimes)
    ensures
        r.busy_ns == spec_busy_ns(stat@),
{
    let n = stat.unicode_len();
    let i = match rfind_char(stat, ')') {
        Some(p) => p + 1,
        None => 0,
    };
    let after = stat.substring_char(i, n);
    match nth_token(after, 12) {
        None => CpuTimes { busy_ns: 0 },
        Some(t12) => {
            let t11 = nth_token(after, 11);
            let utime: u64 = match t11 {
                Some(t) => match parse_u64(t) {
                    Some(v) => v,
                    None => 0,
                },
                None => 0,
            };
            let stime: u64 = match parse_u64(t12) {
                Some(v) => v,
                None => 0,
            };
            let ticks = utime.saturating_add(stime) as u128;
            assert(ticks * TICK_NS <= u128::MAX) by (nonlinear_arith)
                requires
                    ticks <= u64::MAX,
            ;
            CpuTimes { busy_ns: ticks * TICK_NS }
        },
    }
}

/// Concurrency levels of the mixed scenario.
pub open spec fn mixed_concurrency() -> Seq<usize> {
    seq![1usize, 10, 32, 100, 250, 500, 1000]
}

/// Durations (seconds) of the mixed scenario.
pub open spec fn mixed_durations_secs() -> Seq<u64> {
    seq![10u64, 30, 60]
}

/// Scenario durations: the numbers of the `ANTECH_PROD_STRESS_SECS` list when
/// it is set; otherwise 10, 30 and 60 s on hosts with at least 8 logical
/// CPUs, 10 and 30 s on smaller ones.
pub fn durations_for_host(env_secs: Option<&str>, cpus: usize) -> (v: Vec<u64>)
    ensures
        env_secs matches Some(s) ==> v@ == parsed_u64s(pieces_from(s@, ',', 0)),
        env_secs is None && cpus >= 8 ==> v@ == mixed_durations_secs(),
        env_secs is None && cpus < 8 ==> v@ == seq![10u64, 30],
{
    match env_secs {
        Some(s) => comma_u64s(s),
        None => {
            if cpus >= 8 {
                let v = vec![10u64, 30, 60];
                assert(v@ =~= mixed_durations_secs());
                v
            } else {
                let v = vec![10u64, 30];
                assert(v@ =~= seq![10u64, 30]);
                v
            }
        },
    }
}

/// Concurrency levels: the sizes of the `ANTECH_PROD_STRESS_CONC` list when
/// it is set, otherwise the mixed-scenario levels.
pub fn concurrency_levels(env_conc: Option<&str>) -> (v: Vec<usize>)
    ensures
        env_conc matches Some(s) ==> v@ == parsed_usizes(pieces_from(s@, ',', 0)),
        env_conc is None ==> v@ == mixed_concurrency(),
{
    match env_conc {
        Some(s) => comma_usizes(s),
        None => {
            let v = vec![1usize, 10, 32, 100, 250, 500, 1000];
            assert(v@ =~= mixed_concurrency());
            v
        },
    }
}

/// The four scenario families of the campaign.
#[derive(Debug, Clone, Copy, PartialEq, Eq, Structural)]
pub enum ScenarioKind {
    Mixed,
    Malformed,
    FailureRelease,
    OverloadQueue,
}

/// The mixed runs: every duration with every concurrency level, durations
/// outermost.
pub open spec fn mixed_plan(durs: Seq<u64>, concs: Seq<usize>) -> Seq<(ScenarioKind, u64, usize)>
    decreases durs.len(),
{
    if durs.len() == 0 {
        Seq::empty()
    } else {
        mixed_plan(durs.drop_last(), concs) + concs.map_values(
            |c: usize| (ScenarioKind::Mixed, durs.last(), c),
        )
    }
}

/// The fixed runs after the mixed ones: malformed input for 10 and 30 s at
/// 32, 100 and 250 workers; failure release at 10 s x 100, 30 s x 250 and
/// 10 s x 500; queue overload at 10 s x 500 and 30 s x 1000.
pub open spec fn fixed_plan() -> Seq<(ScenarioKind, u64, usize)> {
    seq![
        (ScenarioKind::Malformed, 10u64, 32usize),
        (ScenarioKind::Malformed, 10u64, 100usize),
        (ScenarioKind::Malformed, 10u64, 250usize),
        (ScenarioKind::Malformed, 30u64, 32usize),
        (ScenarioKind::Malformed, 30u64, 100usize),
        (ScenarioKind::Malformed, 30u64, 250usize),
        (ScenarioKind::FailureRelease, 10u64, 100usize),
        (ScenarioKind::FailureRelease, 30u64, 250usize),
        (ScenarioKind::FailureRelease, 10u64, 500usize),
        (ScenarioKind::OverloadQueue, 10u64, 500usize),
        (ScenarioKind::OverloadQueue, 30u64, 1000usize),
    ]
}

/// The scenarios of a campaign, `(family, seconds, workers)`, in the order
/// they run.
pub fn stress_plan(durs: &[u64], concs: &[usize]) -> (v: Vec<(ScenarioKind, u64, usize)>)
    ensures
        v@ == mixed_plan(durs@, concs@) + fixed_plan(),
{
    let mut v: Vec<(ScenarioKind, u64, usize)> = Vec::new();
    let mut a: usize = 0;
    while a < durs.len()
        invariant
            a <= durs@.len(),
            v@ == mixed_plan(durs@.subrange(0, a as int), concs@),
        decreases durs@.len() - a,
    {
        let ghost before = v@;
        let mut b: usize = 0;
        while b < concs.len()
            invariant
                a < durs@.len(),
                b <= concs@.len(),
                v@ == before + concs@.subrange(0, b as int).map_values(
                    |c: usize| (ScenarioKind::Mixed, durs@[a as int], c),
                ),
            decreases concs@.len() - b,
        {
            v.push((ScenarioKind::Mixed, durs[a], concs[b]));
            assert(concs@.subrange(0, b + 1).map_values(
                |c: usize| (ScenarioKind::Mixed, durs@[a as int], c),
            ) =~= concs@.subrange(0, b as int).map_values(
                |c: usize| (ScenarioKind::Mixed, durs@[a as int], c),
            ).push((ScenarioKind::Mixed, durs@[a as int], concs@[b as int])));
            b = b + 1;
        }
        proof {
            let t = durs@.subrange(0, a + 1);
            assert(t.drop_last() =~= durs@.subrange(0, a as int));
            assert(concs@.subrange(0, concs@.len() as int) =~= concs@);
            assert(v@ =~= mixed_plan(t, concs@));
        }
        a = a + 1;
    }
    assert(durs@.subrange(0, durs@.len() as int) =~= durs@);
    let ghost mixed = v@;
    v.push((ScenarioKind::Malformed, 10, 32));
    v.push((ScenarioKind::Malformed, 10, 100));
    v.push((ScenarioKind::Malformed, 10, 250));
    v.push((ScenarioKind::Malformed, 30, 32));
    v.push((ScenarioKind::Malformed, 30, 100));
    v.push((ScenarioKind::Malformed, 30, 250));
    v.push((ScenarioKind::FailureRelease, 10, 100));
    v.push((ScenarioKind::FailureRelease, 30, 250));
    v.push((ScenarioKind::FailureRelease, 10, 500));
    v.push((ScenarioKind::OverloadQueue, 10, 500));
    v.push((ScenarioKind::OverloadQueue, 30, 1000));
    assert(v@ =~= mixed + fixed_plan());
    v
}

/// What the campaign verdict reads of a scenario row.
#[derive(Debug, Clone, Copy)]
pub struct ScenarioChecks {
    pub unexpected_errors: u64,
    pub panics: u64,
    pub scheduler_idle: bool,
    pub budget_ok: bool,
    pub queue_limit_ok: bool,
}

/// Unexpected errors over all rows.
pub open spec fn total_errors(rs: Seq<ScenarioChecks>) -> int
    decreases rs.len(),
{
    if rs.len() == 0 {
        0
    } else {
        total_errors(rs.drop_last()) + rs.last().unexpected_errors
    }
}

/// Panics over all rows.
pub open spec fn total_panics(rs: Seq<ScenarioChecks>) -> int
    decreases rs.len(),
{
    if rs.len() == 0 {
        0
    } else {
        total_panics(rs.drop_last()) + rs.last().panics
    }
}

/// Rows over the memory budget.
pub open spec fn budget_violations(rs: Seq<ScenarioChecks>) -> int
    decreases rs.len(),
{
    if rs.len() == 0 {
        0
    } else {
        budget_violations(rs.drop_last()) + if rs.last().budget_ok { 0int } else { 1int }
    }
}

/// Rows over the queue limit.
pub open spec fn queue_violations(rs: Seq<ScenarioChecks>) -> int
    decreases rs.len(),
{
    if rs.len() == 0 {
        0
    } else {
        queue_violations(rs.drop_last()) + if rs.last().queue_limit_ok { 0int } else { 1int }
    }
}

/// Campaign totals over all scenario rows.
#[derive(Debug, Clone, Copy)]
pub struct StressTotals {
    pub all_idle: bool,
    pub unexplained_errors: u64,
    pub unexplained_panics: u64,
    pub budget_violations: u64,
    pub queue_limit_violations: u64,
}

/// Sums the rows: whether every scenario ended idle, the unexpected errors
/// and panics, and how many rows broke the memory budget or the queue limit.
pub fn stress_totals(rows: &[ScenarioChecks]) -> (t: StressTotals)
    requires
        total_errors(rows@) <= u64::MAX,
        total_panics(rows@) <= u64::MAX,
    ensures
        t.all_idle == forall|i: int| 0 <= i < rows@.len() ==> (#[trigger] rows@[i]).scheduler_idle,
        t.unexplained_errors == total_errors(rows@),
        t.unexplained_panics == total_panics(rows@),
        t.budget_violations == budget_violations(rows@),
        t.queue_limit_violations == queue_violations(rows@),
{
    let mut t = StressTotals {
        all_idle: true,
        unexplained_errors: 0,
        unexplained_panics: 0,
        budget_violations: 0,
        queue_limit_violations: 0,
    };
    let mut k: usize = 0;
    while k < rows.len()
        invariant
            k <= rows@.len(),
            total_errors(rows@) <= u64::MAX,
            total_panics(rows@) <= u64::MAX,
            t.all_idle == forall|i: int| 0 <= i < k ==> (#[trigger] rows@[i]).scheduler_idle,
            t.unexplained_errors == total_errors(rows@.subrange(0, k as int)),
            t.unexplained_panics == total_panics(rows@.subrange(0, k as int)),
            t.budget_violations == budget_violations(rows@.subrange(0, k as int)),
            t.queue_limit_violations == queue_violations(rows@.subrange(0, k as int)),
            budget_violations(rows@.subrange(0, k as int)) <= k,
            queue_violations(rows@.subrange(0, k as int)) <= k,
        decreases rows@.len() - k,
    {
        let r = rows[k];
        let ghost p = rows@.subrange(0, k as int);
        let ghost q = rows@.subrange(0, k + 1);
        assert(q.drop_last() =~= p);
        assert(q.last() == r);
        proof {
            lemma_totals_prefix(rows@, k + 1);
        }
        t.unexplained_errors = t.unexplained_errors + r.unexpected_errors;
        t.unexplained_panics = t.unexplained_panics + r.panics;
        if !r.budget_ok {
            t.budget_violations = t.budget_violations + 1;
        }
        if !r.queue_limit_ok {
            t.queue_limit_violations = t.queue_limit_violations + 1;
        }
        if !r.scheduler_idle {
            t.all_idle = false;
        }
        k = k + 1;
    }
    assert(rows@.subrange(0, rows@.len() as int) =~= rows@);
    t
}

/// Prefix totals never exceed the whole.
proof fn lemma_totals_prefix(rs: Seq<ScenarioChecks>, k: int)
    requires
        0 <= k <= rs.len(),
    ensures
        total_errors(rs.subrange(0, k)) <= total_errors(rs),
        total_panics(rs.subrange(0, k)) <= total_panics(rs),
    decreases rs.len() - k,
{
    if k < rs.len() {
        lemma_totals_prefix(rs, k + 1);
        let q = rs.subrange(0, k + 1);
        assert(q.drop_last() =~= rs.subrange(0, k));
    } else {
        assert(rs.subrange(0, k) =~= rs);
    }
}

/// `true` or `false`, as `bool` displays.
pub open spec fn bool_text(b: bool) -> Seq<char> {
    if b { "true"@ } else { "false"@ }
}

/// What the campaign concludes: PASS when every scenario ended idle with no
/// unexpected error, panic, budget or queue violation; otherwise FAIL with
/// the five totals.
pub open spec fn spec_stress_verdict(t: StressTotals) -> Seq<char> {
    if t.all_idle && t.unexplained_errors == 0 && t.unexplained_panics == 0 && t.budget_violations == 0
        && t.queue_limit_violations == 0 {
        "PASS"@
    } else {
        "FAIL idle="@ + bool_text(t.all_idle) + " unexpected_errors="@ + decimal(
            t.unexplained_errors as nat,
        ) + " panics="@ + decimal(t.unexplained_panics as nat) + " budget_violations="@ + decimal(
            t.budget_violations as nat,
        ) + " queue_limit_violations="@ + decimal(t.queue_limit_violations as nat)
    }
}

/// States the campaign verdict.
pub fn stress_campaign_verdict(t: &StressTotals) -> (s: String)
    ensures
        s@ == spec_stress_verdict(*t),
{
    if t.all_idle && t.unexplained_errors == 0 && t.unexplained_panics == 0 && t.budget_violations
        == 0 && t.queue_limit_violations == 0 {
        return String::from_str("PASS");
    }
    let mut s = String::from_str("FAIL idle=");
    s.append(if t.all_idle { "true" } else { "false" });
    s.append(" unexpected_errors=");
    push_decimal(&mut s, t.unexplained_errors);
    s.append(" panics=");
    push_decimal(&mut s, t.unexplained_panics);
    s.append(" budget_violations=");
    push_decimal(&mut s, t.budget_violations);
    s.append(" queue_limit_violations=");
    push_decimal(&mut s, t.queue_limit_violations);
    s
}

/// Peak scheduler load and resident memory seen while a scenario runs. The
/// campaign samples the scheduler every few milliseconds until it is
/// stopped, feeding each sample to `observe`.
#[derive(Debug, Clone, Copy)]
pub struct PeakMonitor {
    pub stopped: bool,
    pub peak_active: u64,
    pub peak_waiting: u64,
    pub peak_alloc: u64,
    pub peak_rss: u64,
}

/// The larger of two counts.
pub open spec fn max_u64(a: u64, b: u64) -> u64 {
    if a >= b { a } else { b }
}

impl PeakMonitor {
    /// A running monitor that has seen nothing yet.
    pub fn new() -> (m: Self)
        ensures
            !m.stopped,
            m.peak_active == 0 && m.peak_waiting == 0 && m.peak_alloc == 0 && m.peak_rss == 0,
    {
        PeakMonitor { stopped: false, peak_active: 0, peak_waiting: 0, peak_alloc: 0, peak_rss: 0 }
    }

    /// Takes one sample: each peak becomes the larger of itself and the
    /// sample; the memory peak only moves when the resident size was read.
    pub fn observe(&mut self, active_jobs: u64, waiting_jobs: u64, allocated_kib: u64, rss: Option<u64>)
        ensures
            final(self).stopped == old(self).stopped,
            final(self).peak_active == max_u64(old(self).peak_active, active_jobs),
            final(self).peak_waiting == max_u64(old(self).peak_waiting, waiting_jobs),
            final(self).peak_alloc == max_u64(old(self).peak_alloc, allocated_kib),
            final(self).peak_rss == (match rss {
                Some(r) => max_u64(old(self).peak_rss, r),
                None => old(self).peak_rss,
            }),
    {
        if active_jobs > self.peak_active {
            self.peak_active = active_jobs;
        }
        if waiting_jobs > self.peak_waiting {
            self.peak_waiting = waiting_jobs;
        }
        if allocated_kib > self.peak_alloc {
            self.peak_alloc = allocated_kib;
        }
        match rss {
            Some(r) => {
                if r > self.peak_rss {
                    self.peak_rss = r;
                }
            },
            None => {},
        }
    }

    /// Ends the sampling; the peaks stay as they are.
    pub fn stop(&mut self)
        ensures
            final(self).stopped,
            final(self).peak_active == old(self).peak_active,
            final(self).peak_waiting == old(self).peak_waiting,
            final(self).peak_alloc == old(self).peak_alloc,
            final(self).peak_rss == old(self).peak_rss,
    {
        self.stopped = true;
    }
}

/// The scheduler is idle: no running job, no queued job, nothing allocated.
pub fn scheduler_is_idle(active_jobs: u64, waiting_jobs: u64, allocated_kib: u64) -> (r: bool)
    ensures
        r == (active_jobs == 0 && waiting_jobs == 0 && allocated_kib == 0),
{
    active_jobs == 0 && waiting_jobs == 0 && allocated_kib == 0
}

/// Where the stress campaign writes its results. The repository-root
/// location `research/results/stress` is preferred; run from `research/code`
/// it falls back to `../results/stress`, and from a crate directory to
/// `../../research/results/stress`: the first candidate whose parent
/// directory exists, `research/results/stress` when none does. The
/// arguments say which of the parents `research/results`, `../results` and
/// `../../research/results` exist.
pub fn default_out_dir(research_results: bool, up_results: bool, up2_research_results: bool) -> (p: &'static str)
    ensures
        research_results ==> p@ == "research/results/stress"@,
        !research_results && up_results ==> p@ == "../results/stress"@,
        !research_results && !up_results && up2_research_results ==> p@ == "../../research/results/stress"@,
        !research_results && !up_results && !up2_research_results ==> p@ == "research/results/stress"@,
{
    if research_results {
        "research/results/stress"
    } else if up_results {
        "../results/stress"
    } else if up2_research_results {
        "../../research/results/stress"
    } else {
        "research/results/stress"
    }
}

} // verus!
