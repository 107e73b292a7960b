//! Adversarial reliability campaign: status vocabulary, the tallies and
//! verdict of a run, CSV field escaping and the profile-dependent settings of
//! the campaign runner.

use vstd::prelude::*;
use crate::keyed::{compare_text, TextOrder};
use crate::scan::{first_with_prefix, line_with_prefix, lines, nth_token, parse_u64, spec_parse_u64, tokens};
use crate::text::{
    hex_number, push_hex_number, contains, contains_lowered, contains_text, contains_uppered, lower_text, push_char_at, upper_text,
};

verus! {

/// Seed of the campaign's randomized cases.
pub const MASTER_SEED: u64 = 0xAD05_A71E_C410_0001;

/// Outcome vocabulary: unavailable tooling is BLOCKED or NOT RUN, never PASS.
#[derive(Debug, Clone, Copy, PartialEq, Eq, Structural)]
pub enum Status {
    Pass,
    Fail,
    Blocked,
    NotRun,
}

impl Status {
    /// Report spelling of the status.
    pub fn as_str(self) -> (s: &'static str)
        ensures
            self == Status::Pass ==> s@ == "PASS"@,
            self == Status::Fail ==> s@ == "FAIL"@,
            self == Status::Blocked ==> s@ == "BLOCKED"@,
            self == Status::NotRun ==> s@ == "NOT RUN"@,
    {
        match self {
            Status::Pass => "PASS",
            Status::Fail => "FAIL",
            Status::Blocked => "BLOCKED",
            Status::NotRun => "NOT RUN",
        }
    }
}

/// Compiler description for a `rustc --version` output line.
pub fn host_compiler(rustc_version: &str) -> (s: String)
    ensures
        s@ == "rustc "@ + rustc_version@,
{
    let mut s = String::from_str("rustc ");
    s.append(rustc_version);
    s
}

/// Soak durations (seconds) for a campaign profile: `full` runs 1, 5 and 15
/// minutes, `ci` 10 and 20 seconds, anything else 1 and 5 minutes.
pub fn soak_durations_secs(profile: &str) -> (v: Vec<u64>)
    ensures
        profile@ == "full"@ ==> v@ == seq![60u64, 300, 900],
        profile@ == "ci"@ ==> v@ == seq![10u64, 20],
        profile@ != "full"@ && profile@ != "ci"@ ==> v@ == seq![60u64, 300],
{
    proof {
        reveal_strlit("full");
        reveal_strlit("ci");
    }
    if compare_text(profile, "full") == TextOrder::Equal {
        let v = vec![60u64, 300, 900];
        assert(v@ =~= seq![60u64, 300, 900]);
        v
    } else if compare_text(profile, "ci") == TextOrder::Equal {
        let v = vec![10u64, 20];
        assert(v@ =~= seq![10u64, 20]);
        v
    } else {
        let v = vec![60u64, 300];
        assert(v@ =~= seq![60u64, 300]);
        v
    }
}

/// Thread cap for concurrency suites: 128 per CPU, clamped to `64 ..= 1000`.
pub fn host_thread_cap(cpus: usize) -> (cap: usize)
    requires
        cpus * 128 <= usize::MAX,
    ensures
        cap == (if cpus * 128 < 64 { 64 } else if cpus * 128 > 1000 { 1000 } else { cpus * 128 }),
{
    let n = cpus * 128;
    if n < 64 {
        64
    } else if n > 1000 {
        1000
    } else {
        n
    }
}

/// The error text names a panic or crash (ignoring ASCII case).
pub open spec fn panic_like(errors: Seq<char>) -> bool {
    contains_text(lower_text(errors), "panic"@) || contains_text(lower_text(errors), "crash"@)
}

/// The error text names a race, a digest mismatch or contamination.
pub open spec fn race_like(errors: Seq<char>) -> bool {
    contains_text(lower_text(errors), "race"@) || contains_text(lower_text(errors), "digest"@)
        || contains_text(lower_text(errors), "contaminat"@)
}

/// The error text names a leak, a scheduler left non-idle or a lost permit.
pub open spec fn leak_like(errors: Seq<char>) -> bool {
    contains_text(lower_text(errors), "leak"@) || contains_text(lower_text(errors), "idle"@)
        || contains_text(lower_text(errors), "permit"@)
}

/// The error text names a hang, a deadlock or a timeout.
pub open spec fn hang_like(errors: Seq<char>) -> bool {
    contains_text(lower_text(errors), "hang"@) || contains_text(lower_text(errors), "deadlock"@)
        || contains_text(lower_text(errors), "timeout"@)
}

/// `x`, raised by one when `b` holds.
pub open spec fn bump_if(x: u64, b: bool) -> u64 {
    if b { (x + 1) as u64 } else { x }
}

/// One result row of the campaign. Its wall-clock duration is held in whole
/// nanoseconds.
#[derive(Debug, Clone)]
pub struct Row {
    pub test_name: String,
    pub category: String,
    pub platform: String,
    pub compiler: String,
    pub architecture: String,
    pub duration_nanos: u64,
    pub result: Status,
    pub errors: String,
    pub memory_metrics: String,
    pub resource_metrics: String,
    pub seed: String,
    pub repeats: u64,
    pub executions: u64,
}

/// The host a row was measured on.
#[derive(Debug, Clone)]
pub struct Host {
    pub platform: String,
    pub compiler: String,
    pub architecture: String,
}

/// The campaign accumulator: every result row, in order, and the tallies
/// over them.
#[derive(Debug, Clone)]
pub struct Acc {
    pub rows: Vec<Row>,
    pub executions: u64,
    pub repeats: u64,
    pub failures: u64,
    pub crashes: u64,
    pub hangs: u64,
    pub panics: u64,
    pub races: u64,
    pub leaks: u64,
    pub bugs_found: u64,
    pub bugs_fixed: u64,
    pub regressions: u64,
    pub blocked: u64,
    pub not_run: u64,
}

/// The tallies after one more row: a failure counts as a failure and a bug
/// found, and as a panic and crash, a race, a leak or a hang according to
/// the words in its error text; BLOCKED and NOT RUN rows are counted apart;
/// every row adds at least one execution and its repeats. (The rows are
/// left as they are.)
pub open spec fn spec_pushed(a: Acc, result: Status, errors: Seq<char>, executions: u64, repeats: u64) -> Acc {
    let fail = result == Status::Fail;
    Acc {
        executions: (a.executions + if executions >= 1 { executions } else { 1 }) as u64,
        repeats: (a.repeats + repeats) as u64,
        failures: bump_if(a.failures, fail),
        bugs_found: bump_if(a.bugs_found, fail),
        panics: bump_if(a.panics, fail && panic_like(errors)),
        crashes: bump_if(a.crashes, fail && panic_like(errors)),
        races: bump_if(a.races, fail && race_like(errors)),
        leaks: bump_if(a.leaks, fail && leak_like(errors)),
        hangs: bump_if(a.hangs, fail && hang_like(errors)),
        blocked: bump_if(a.blocked, result == Status::Blocked),
        not_run: bump_if(a.not_run, result == Status::NotRun),
        ..a
    }
}

/// `a` and `b` agree on every tally.
pub open spec fn same_tallies(a: Acc, b: Acc) -> bool {
    &&& a.executions == b.executions
    &&& a.repeats == b.repeats
    &&& a.failures == b.failures
    &&& a.crashes == b.crashes
    &&& a.hangs == b.hangs
    &&& a.panics == b.panics
    &&& a.races == b.races
    &&& a.leaks == b.leaks
    &&& a.bugs_found == b.bugs_found
    &&& a.bugs_fixed == b.bugs_fixed
    &&& a.regressions == b.regressions
    &&& a.blocked == b.blocked
    &&& a.not_run == b.not_run
}

/// `new` is `old` with `row` appended and counted.
pub open spec fn pushed_row(old: Acc, new: Acc, row: Row) -> bool {
    &&& new.rows@ == old.rows@.push(row)
    &&& same_tallies(new, spec_pushed(old, row.result, row.errors@, row.executions, row.repeats))
}

/// `r` holds exactly these fields.
pub open spec fn row_is(
    r: Row,
    test_name: Seq<char>,
    category: Seq<char>,
    host: Host,
    duration_nanos: u64,
    result: Status,
    errors: Seq<char>,
    memory_metrics: Seq<char>,
    resource_metrics: Seq<char>,
    seed: Seq<char>,
    repeats: u64,
    executions: u64,
) -> bool {
    &&& r.test_name@ == test_name
    &&& r.category@ == category
    &&& r.platform@ == host.platform@
    &&& r.compiler@ == host.compiler@
    &&& r.architecture@ == host.architecture@
    &&& r.duration_nanos == duration_nanos
    &&& r.result == result
    &&& r.errors@ == errors
    &&& r.memory_metrics@ == memory_metrics
    &&& r.resource_metrics@ == resource_metrics
    &&& r.seed@ == seed
    &&& r.repeats == repeats
    &&& r.executions == executions
}

/// A seed as written in the rows: `0x` and lower-case hexadecimal.
pub open spec fn seed_text(seed: u64) -> Seq<char> {
    "0x"@ + hex_number(seed as nat)
}

/// Renders a seed as `0x` and lower-case hexadecimal.
fn seed_string(seed: u64) -> (s: String)
    ensures
        s@ == seed_text(seed),
{
    let mut s = String::from_str("0x");
    push_hex_number(&mut s, seed);
    s
}

impl Acc {
    /// No rows, all tallies zero.
    pub fn new() -> (a: Self)
        ensures
            a.rows@.len() == 0,
            a.executions == 0 && a.repeats == 0 && a.failures == 0 && a.crashes == 0 && a.hangs == 0,
            a.panics == 0 && a.races == 0 && a.leaks == 0 && a.bugs_found == 0 && a.bugs_fixed == 0,
            a.regressions == 0 && a.blocked == 0 && a.not_run == 0,
    {
        Acc {
            rows: Vec::new(),
            executions: 0,
            repeats: 0,
            failures: 0,
            crashes: 0,
            hangs: 0,
            panics: 0,
            races: 0,
            leaks: 0,
            bugs_found: 0,
            bugs_fixed: 0,
            regressions: 0,
            blocked: 0,
            not_run: 0,
        }
    }

    /// No tally can overflow when a row with these counts is added.
    pub open spec fn has_room(&self, executions: u64, repeats: u64) -> bool {
        &&& self.executions + (if executions >= 1 { executions } else { 1 }) <= u64::MAX
        &&& self.repeats + repeats <= u64::MAX
        &&& self.failures < u64::MAX
        &&& self.bugs_found < u64::MAX
        &&& self.panics < u64::MAX
        &&& self.crashes < u64::MAX
        &&& self.races < u64::MAX
        &&& self.leaks < u64::MAX
        &&& self.hangs < u64::MAX
        &&& self.blocked < u64::MAX
        &&& self.not_run < u64::MAX
    }

    /// Appends a result row and counts it.
    pub fn push(&mut self, row: Row)
        requires
            old(self).has_room(row.executions, row.repeats),
        ensures
            pushed_row(*old(self), *final(self), row),
    {
        match row.result {
            Status::Pass => {},
            Status::Fail => {
                let errors = row.errors.as_str();
                self.failures = self.failures + 1;
                self.bugs_found = self.bugs_found + 1;
                if contains_lowered(errors, "panic") || contains_lowered(errors, "crash") {
                    self.panics = self.panics + 1;
                    self.crashes = self.crashes + 1;
                }
                if contains_lowered(errors, "race") || contains_lowered(errors, "digest")
                    || contains_lowered(errors, "contaminat") {
                    self.races = self.races + 1;
                }
                if contains_lowered(errors, "leak") || contains_lowered(errors, "idle")
                    || contains_lowered(errors, "permit") {
                    self.leaks = self.leaks + 1;
                }
                if contains_lowered(errors, "hang") || contains_lowered(errors, "deadlock")
                    || contains_lowered(errors, "timeout") {
                    self.hangs = self.hangs + 1;
                }
            },
            Status::Blocked => {
                self.blocked = self.blocked + 1;
            },
            Status::NotRun => {
                self.not_run = self.not_run + 1;
            },
        }
        let e = if row.executions >= 1 { row.executions } else { 1 };
        self.executions = self.executions + e;
        self.repeats = self.repeats + row.repeats;
        self.rows.push(row);
    }

    /// Records a passing test; `note` is kept as its error text.
    pub fn pass(
        &mut self,
        host: &Host,
        cat: &str,
        name: &str,
        duration_nanos: u64,
        seed: u64,
        repeats: u64,
        execs: u64,
        mem: &str,
        res: &str,
        note: &str,
    )
        requires
            old(self).has_room(execs, repeats),
        ensures
            final(self).rows@.len() == old(self).rows@.len() + 1,
            pushed_row(*old(self), *final(self), final(self).rows@.last()),
            row_is(final(self).rows@.last(), name@, cat@, *host, duration_nanos, Status::Pass, note@, mem@, res@, seed_text(seed), repeats, execs),
    {
        let row = Row {
            test_name: String::from_str(name),
            category: String::from_str(cat),
            platform: host.platform.clone(),
            compiler: host.compiler.clone(),
            architecture: host.architecture.clone(),
            duration_nanos,
            result: Status::Pass,
            errors: String::from_str(note),
            memory_metrics: String::from_str(mem),
            resource_metrics: String::from_str(res),
            seed: seed_string(seed),
            repeats,
            executions: execs,
        };
        self.push(row);
    }

    /// Records a failing test with its error text.
    pub fn fail(
        &mut self,
        host: &Host,
        cat: &str,
        name: &str,
        duration_nanos: u64,
        seed: u64,
        repeats: u64,
        execs: u64,
        mem: &str,
        res: &str,
        err: &str,
    )
        requires
            old(self).has_room(execs, repeats),
        ensures
            final(self).rows@.len() == old(self).rows@.len() + 1,
            pushed_row(*old(self), *final(self), final(self).rows@.last()),
            row_is(final(self).rows@.last(), name@, cat@, *host, duration_nanos, Status::Fail, err@, mem@, res@, seed_text(seed), repeats, execs),
    {
        let row = Row {
            test_name: String::from_str(name),
            category: String::from_str(cat),
            platform: host.platform.clone(),
            compiler: host.compiler.clone(),
            architecture: host.architecture.clone(),
            duration_nanos,
            result: Status::Fail,
            errors: String::from_str(err),
            memory_metrics: String::from_str(mem),
            resource_metrics: String::from_str(res),
            seed: seed_string(seed),
            repeats,
            executions: execs,
        };
        self.push(row);
    }

    /// Records a test whose tooling was unavailable: no time, no metrics, the
    /// master seed, no repeats or executions.
    pub fn blocked(&mut self, host: &Host, cat: &str, name: &str, why: &str)
        requires
            old(self).has_room(0, 0),
        ensures
            final(self).rows@.len() == old(self).rows@.len() + 1,
            pushed_row(*old(self), *final(self), final(self).rows@.last()),
            row_is(final(self).rows@.last(), name@, cat@, *host, 0, Status::Blocked, why@, Seq::empty(), Seq::empty(), seed_text(MASTER_SEED), 0, 0),
    {
        let row = Row {
            test_name: String::from_str(name),
            category: String::from_str(cat),
            platform: host.platform.clone(),
            compiler: host.compiler.clone(),
            architecture: host.architecture.clone(),
            duration_nanos: 0,
            result: Status::Blocked,
            errors: String::from_str(why),
            memory_metrics: String::new(),
            resource_metrics: String::new(),
            seed: seed_string(MASTER_SEED),
            repeats: 0,
            executions: 0,
        };
        self.push(row);
    }

    /// Records a test that was not run, as `blocked` does.
    pub fn not_run(&mut self, host: &Host, cat: &str, name: &str, why: &str)
        requires
            old(self).has_room(0, 0),
        ensures
            final(self).rows@.len() == old(self).rows@.len() + 1,
            pushed_row(*old(self), *final(self), final(self).rows@.last()),
            row_is(final(self).rows@.last(), name@, cat@, *host, 0, Status::NotRun, why@, Seq::empty(), Seq::empty(), seed_text(MASTER_SEED), 0, 0),
    {
        let row = Row {
            test_name: String::from_str(name),
            category: String::from_str(cat),
            platform: host.platform.clone(),
            compiler: host.compiler.clone(),
            architecture: host.architecture.clone(),
            duration_nanos: 0,
            result: Status::NotRun,
            errors: String::from_str(why),
            memory_metrics: String::new(),
            resource_metrics: String::new(),
            seed: seed_string(MASTER_SEED),
            repeats: 0,
            executions: 0,
        };
        self.push(row);
    }

    /// "PASS" when no row failed, "FAIL" otherwise.
    pub fn verdict(&self) -> (s: &'static str)
        ensures
            self.failures == 0 ==> s@ == "PASS"@,
            self.failures != 0 ==> s@ == "FAIL"@,
    {
        if self.failures == 0 {
            "PASS"
        } else {
            "FAIL"
        }
    }
}

/// Tallies that agree with each other: every bug found is a failure, every
/// panic a crash, and no kind of failure outnumbers the failures.
pub open spec fn tallies_consistent(a: Acc) -> bool {
    &&& a.bugs_found == a.failures
    &&& a.crashes == a.panics
    &&& a.panics <= a.failures
    &&& a.races <= a.failures
    &&& a.leaks <= a.failures
    &&& a.hangs <= a.failures
}

/// Counting a row keeps the tallies consistent.
pub proof fn lemma_push_keeps_consistent(
    a: Acc,
    result: Status,
    errors: Seq<char>,
    executions: u64,
    repeats: u64,
)
    requires
        tallies_consistent(a),
        a.has_room(executions, repeats),
    ensures
        tallies_consistent(spec_pushed(a, result, errors, executions, repeats)),
{
}

/// The error text of a row, lower-cased, holds `word`.
pub open spec fn names(row: Row, word: Seq<char>) -> bool {
    contains_text(lower_text(row.errors@), word)
}

/// How a pushed row moves the failure tallies. A failed row raises the
/// failure and bug counts by one; it raises the panic and crash counts by
/// one exactly when its lower-cased error text holds "panic" or "crash",
/// the race count exactly when it holds "race", "digest" or "contaminat"
/// (a digest mismatch or cross-job contamination is a race), the leak count
/// exactly when it holds "leak", "idle" or "permit", and the hang count
/// exactly when it holds "hang", "deadlock" or "timeout". A row that did not
/// fail leaves all of these counts as they were, whatever its text.
pub proof fn lemma_push_classifies_failures(old: Acc, new: Acc, row: Row)
    requires
        old.has_room(row.executions, row.repeats),
        pushed_row(old, new, row),
    ensures
        row.result == Status::Fail ==> {
            &&& new.failures == old.failures + 1
            &&& new.bugs_found == old.bugs_found + 1
            &&& new.panics == old.panics + (if names(row, "panic"@) || names(row, "crash"@) { 1int } else { 0 })
            &&& new.crashes == old.crashes + (if names(row, "panic"@) || names(row, "crash"@) { 1int } else { 0 })
            &&& new.races == old.races + (if names(row, "race"@) || names(row, "digest"@) || names(row, "contaminat"@) {
                1int
            } else {
                0
            })
            &&& new.leaks == old.leaks + (if names(row, "leak"@) || names(row, "idle"@) || names(row, "permit"@) {
                1int
            } else {
                0
            })
            &&& new.hangs == old.hangs + (if names(row, "hang"@) || names(row, "deadlock"@) || names(row, "timeout"@) {
                1int
            } else {
                0
            })
        },
        row.result != Status::Fail ==> {
            &&& new.failures == old.failures
            &&& new.bugs_found == old.bugs_found
            &&& new.panics == old.panics
            &&& new.crashes == old.crashes
            &&& new.races == old.races
            &&& new.leaks == old.leaks
            &&& new.hangs == old.hangs
        },
        new.blocked == old.blocked + (if row.result == Status::Blocked { 1int } else { 0 }),
        new.not_run == old.not_run + (if row.result == Status::NotRun { 1int } else { 0 }),
        new.executions == old.executions + (if row.executions == 0 { 1 } else { row.executions as int }),
        new.repeats == old.repeats + row.repeats,
        new.bugs_fixed == old.bugs_fixed,
        new.regressions == old.regressions,
        new.rows@ == old.rows@.push(row),
{
}

/// Results that are never material findings: one whose upper-cased
/// correctness does not read CORRECT, or reads INCORRECT or N/A; and a
/// constant-factor speedup that still evaluates the whole graph, namely one
/// whose lower-cased notes hold "schedule only" or "same num_blocks mixes",
/// whose lower-cased target weakness holds "implementation overhead", or
/// whose attack id holds "packed_prefetch" or "dual_walk". Whatever the
/// memory it ran in.
pub proof fn lemma_not_material(
    correctness: Seq<char>,
    notes: Seq<char>,
    target_weakness: Seq<char>,
    attack_id: Seq<char>,
    reduced_memory: bool,
)
    ensures
        !contains_text(upper_text(correctness), "CORRECT"@) ==> !spec_material_finding(
            correctness, notes, target_weakness, attack_id, reduced_memory),
        contains_text(upper_text(correctness), "INCORRECT"@) ==> !spec_material_finding(
            correctness, notes, target_weakness, attack_id, reduced_memory),
        contains_text(upper_text(correctness), "N/A"@) ==> !spec_material_finding(
            correctness, notes, target_weakness, attack_id, reduced_memory),
        contains_text(lower_text(notes), "schedule only"@) ==> !spec_material_finding(
            correctness, notes, target_weakness, attack_id, reduced_memory),
        contains_text(lower_text(notes), "same num_blocks mixes"@) ==> !spec_material_finding(
            correctness, notes, target_weakness, attack_id, reduced_memory),
        contains_text(lower_text(target_weakness), "implementation overhead"@) ==> !spec_material_finding(
            correctness, notes, target_weakness, attack_id, reduced_memory),
        contains_text(attack_id, "packed_prefetch"@) ==> !spec_material_finding(
            correctness, notes, target_weakness, attack_id, reduced_memory),
        contains_text(attack_id, "dual_walk"@) ==> !spec_material_finding(
            correctness, notes, target_weakness, attack_id, reduced_memory),
{
}

/// Results that are material findings, given a correct evaluation (upper-cased
/// correctness reads CORRECT, not INCORRECT or N/A) that is none of the
/// constant-factor speedups above: an UNEXPECTED shortcut is a finding
/// whatever its memory, and otherwise the result is a finding exactly when it
/// ran in materially less memory. Less memory never turns a finding into a
/// non-finding.
pub proof fn lemma_material(
    correctness: Seq<char>,
    notes: Seq<char>,
    target_weakness: Seq<char>,
    attack_id: Seq<char>,
    reduced_memory: bool,
)
    ensures
        spec_material_finding(correctness, notes, target_weakness, attack_id, false)
            ==> spec_material_finding(correctness, notes, target_weakness, attack_id, true),
        ({
            let c = upper_text(correctness);
            let correct = contains_text(c, "CORRECT"@) && !contains_text(c, "INCORRECT"@) && !contains_text(c, "N/A"@);
            let speedup_only = contains_text(lower_text(notes), "schedule only"@) || contains_text(
                lower_text(notes),
                "same num_blocks mixes"@,
            ) || contains_text(lower_text(target_weakness), "implementation overhead"@) || contains_text(
                attack_id,
                "packed_prefetch"@,
            ) || contains_text(attack_id, "dual_walk"@);
            &&& correct && !speedup_only && contains_text(c, "UNEXPECTED"@) ==> spec_material_finding(
                correctness, notes, target_weakness, attack_id, reduced_memory)
            &&& correct && !speedup_only ==> (spec_material_finding(
                correctness, notes, target_weakness, attack_id, true))
            &&& correct && !speedup_only && !contains_text(c, "UNEXPECTED"@) ==> !spec_material_finding(
                correctness, notes, target_weakness, attack_id, false)
        }),
{
}

/// Resident set size (KiB) in `/proc/self/status` text: the second
/// white-space separated token of the first line that begins with `VmRSS:`,
/// 0 when there is no such line or the token is not a number.
pub open spec fn spec_rss_hint_kib(status: Seq<char>) -> u64 {
    match first_with_prefix(lines(status), "VmRSS:"@) {
        Some(l) => if tokens(l).len() > 1 {
            match spec_parse_u64(tokens(l)[1]) {
                Some(v) => v,
                None => 0,
            }
        } else {
            0
        },
        None => 0,
    }
}

/// Reads the resident set size hint from `/proc/self/status` text.
pub fn rss_hint_kib_from(status: &str) -> (r: u64)
    ensures
        r == spec_rss_hint_kib(status@),
{
    match line_with_prefix(status, "VmRSS:") {
        Some(l) => match nth_token(l, 1) {
            Some(t) => match parse_u64(t) {
                Some(v) => v,
                None => 0,
            },
            None => 0,
        },
        None => 0,
    }
}

/// Whether a cryptanalysis result is a material security finding. It must
/// be a correct evaluation (its correctness says CORRECT, ignoring ASCII
/// case, and neither INCORRECT nor N/A); constant-factor speedups that still
/// evaluate the whole graph (notes saying "schedule only" or "same
/// num_blocks mixes", an "implementation overhead" weakness, the
/// packed_prefetch and dual_walk attacks) are not findings; an UNEXPECTED
/// correct shortcut is; otherwise it is one when it ran in materially less
/// memory (`reduced_memory`: a memory ratio below 0.9).
pub open spec fn spec_material_finding(
    correctness: Seq<char>,
    notes: Seq<char>,
    target_weakness: Seq<char>,
    attack_id: Seq<char>,
    reduced_memory: bool,
) -> bool {
    let c = upper_text(correctness);
    if !contains_text(c, "CORRECT"@) || contains_text(c, "INCORRECT"@) || contains_text(c, "N/A"@) {
        false
    } else if contains_text(lower_text(notes), "schedule only"@) || contains_text(
        lower_text(notes),
        "same num_blocks mixes"@,
    ) || contains_text(lower_text(target_weakness), "implementation overhead"@) || contains_text(
        attack_id,
        "packed_prefetch"@,
    ) || contains_text(attack_id, "dual_walk"@) {
        false
    } else if contains_text(c, "UNEXPECTED"@) {
        true
    } else {
        reduced_memory
    }
}

/// Classifies a cryptanalysis result; the caller compares its memory ratio
/// with 0.9.
pub fn is_material_security_finding(
    correctness: &str,
    notes: &str,
    target_weakness: &str,
    attack_id: &str,
    reduced_memory: bool,
) -> (r: bool)
    ensures
        r == spec_material_finding(correctness@, notes@, target_weakness@, attack_id@, reduced_memory),
{
    if !contains_uppered(correctness, "CORRECT") || contains_uppered(correctness, "INCORRECT")
        || contains_uppered(correctness, "N/A") {
        return false;
    }
    if contains_lowered(notes, "schedule only") || contains_lowered(notes, "same num_blocks mixes")
        || contains_lowered(target_weakness, "implementation overhead") || contains(
        attack_id,
        "packed_prefetch",
    ) || contains(attack_id, "dual_walk") {
        return false;
    }
    if contains_uppered(correctness, "UNEXPECTED") {
        return true;
    }
    reduced_memory
}

/// A character of a CSV field after cleaning: a double quote becomes two
/// single quotes, a comma a semicolon, a newline a space.
pub open spec fn csv_clean_char(c: char) -> Seq<char> {
    if c == '"' {
        seq!['\'', '\'']
    } else if c == ',' {
        seq![';']
    } else if c == '\n' {
        seq![' ']
    } else {
        seq![c]
    }
}

/// A field with every character cleaned.
pub open spec fn csv_cleaned(s: Seq<char>) -> Seq<char>
    decreases s.len(),
{
    if s.len() == 0 {
        Seq::empty()
    } else {
        csv_cleaned(s.drop_last()) + csv_clean_char(s.last())
    }
}

/// The cleaned field, wrapped in double quotes when it holds a semicolon or
/// a double quote.
pub open spec fn csv_escaped(s: Seq<char>) -> Seq<char> {
    let t = csv_cleaned(s);
    if t.contains(';') || t.contains('"') {
        seq!['"'] + t + seq!['"']
    } else {
        t
    }
}

/// Escapes a value for one CSV field.
pub fn csv_escape(s: &str) -> (r: String)
    ensures
        r@ == csv_escaped(s@),
{
    let n = s.unicode_len();
    let mut t = String::new();
    let mut special = false;
    let mut i: usize = 0;
    while i < n
        invariant
            n == s@.len(),
            i <= n,
            t@ == csv_cleaned(s@.subrange(0, i as int)),
            special == (t@.contains(';') || t@.contains('"')),
        decreases n - i,
    {
        let c = s.get_char(i);
        let ghost t0 = t@;
        if c == '"' {
            t.append("''");
        } else if c == ',' {
            t.append(";");
            special = true;
        } else if c == '\n' {
            t.append(" ");
        } else {
            push_char_at(&mut t, s, i);
            if c == ';' {
                special = true;
            }
        }
        proof {
            reveal_strlit("''");
            reveal_strlit(";");
            reveal_strlit(" ");
            let p = s@.subrange(0, i + 1);
            assert(p.drop_last() =~= s@.subrange(0, i as int));
            assert(p.last() == c);
            assert(t@ =~= t0 + csv_clean_char(c));
            let piece = csv_clean_char(c);
            assert(special == (t@.contains(';') || t@.contains('"'))) by {
                if t0.contains(';') {
                    let k = choose|k: int| 0 <= k < t0.len() && t0[k] == ';';
                    assert(t@[k] == ';');
                }
                if t0.contains('"') {
                    let k = choose|k: int| 0 <= k < t0.len() && t0[k] == '"';
                    assert(t@[k] == '"');
                }
                if piece.contains(';') || c == ';' || c == ',' {
                    assert(t@[t0.len() as int] == piece[0]);
                }
                if t@.contains(';') {
                    let k = choose|k: int| 0 <= k < t@.len() && t@[k] == ';';
                    if k < t0.len() {
                        assert(t0[k] == ';');
                    } else {
                        assert(piece[k - t0.len()] == ';');
                    }
                }
                if t@.contains('"') {
                    let k = choose|k: int| 0 <= k < t@.len() && t@[k] == '"';
                    if k < t0.len() {
                        assert(t0[k] == '"');
                    } else {
                        assert(piece[k - t0.len()] == '"');
                    }
                }
            }
        }
        i = i + 1;
    }
    assert(s@.subrange(0, n as int) =~= s@);
    if special {
        let mut r = String::from_str("\"");
        r.append(t.as_str());
        r.append("\"");
        proof {
            reveal_strlit("\"");
            assert(r@ =~= seq!['"'] + t@ + seq!['"']);
        }
        r
    } else {
        t
    }
}

/// The campaign profile: the value of `ANTECH_ADVERSARIAL_PROFILE` when it is set,
/// `standard` otherwise.
pub fn profile(env_value: Option<&str>) -> (p: String)
    ensures
        env_value matches Some(v) ==> p@ == v@,
        env_value is None ==> p@ == "standard"@,
{
    match env_value {
        Some(v) => String::from_str(v),
        None => String::from_str("standard"),
    }
}

} // verus!
