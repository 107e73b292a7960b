//! Bookkeeping of the exhaustive correctness campaign for the production
//! KDF: case rows, per-suite tallies, the campaign summary, the CSV and
//! report lines it writes, and the small byte/hex helpers its cases use.

use vstd::prelude::*;
use vstd::string::StringSliceAdditionalSpecFns;
use crate::engineering::validation_100k::{xorshift_iter, xorshift_step};
use crate::keyed::{
    entry_views, keys_sorted, lemma_table_map_at, lemma_table_map_update, table_map, upsert_key,
};
use crate::keyed::same_text;
use crate::scan::texts;
use crate::text::{decimal, hex_digit, hex_encode, hex_lower, push_decimal, replace_char, replaced};

verus! {

/// Outcome of one correctness case.
#[derive(Debug, Clone, Copy, PartialEq, Eq, Structural)]
pub enum Status {
    Pass,
    Fail,
    Blocked,
    NotApplicable,
}

/// One case of the campaign.
#[derive(Debug, Clone)]
pub struct CaseRow {
    pub suite: String,
    pub case_id: String,
    pub status: Status,
    pub detail: String,
}

/// Counts of a suite (or of the whole campaign).
#[derive(Debug, Clone, Copy, Default)]
pub struct SuiteCounts {
    pub cases: u64,
    pub pass: u64,
    pub fail: u64,
    pub blocked: u64,
    pub not_applicable: u64,
    pub panics_caught: u64,
}

/// Case log plus the campaign-wide counters.
pub struct Acc {
    pub rows: Vec<CaseRow>,
    pub panics: u64,
    pub randomized: u64,
    pub boundary: u64,
    pub malformed: u64,
    pub concurrency: u64,
    pub cross: u64,
    pub gpu: u64,
}

/// `r` is the row `(suite, case_id, status, detail)`.
pub open spec fn row_is(r: CaseRow, suite: Seq<char>, case_id: Seq<char>, status: Status, detail: Seq<char>) -> bool {
    &&& r.suite@ == suite
    &&& r.case_id@ == case_id
    &&& r.status == status
    &&& r.detail@ == detail
}

impl Acc {
    /// An empty log with all counters zero.
    pub fn new() -> (a: Self)
        ensures
            a.rows@.len() == 0,
            a.panics == 0 && a.randomized == 0 && a.boundary == 0 && a.malformed == 0,
            a.concurrency == 0 && a.cross == 0 && a.gpu == 0,
    {
        Acc {
            rows: Vec::new(),
            panics: 0,
            randomized: 0,
            boundary: 0,
            malformed: 0,
            concurrency: 0,
            cross: 0,
            gpu: 0,
        }
    }

    /// Appends a row.
    pub fn push(&mut self, suite: &str, id: &str, status: Status, detail: String)
        ensures
            final(self).rows@.len() == old(self).rows@.len() + 1,
            final(self).rows@.subrange(0, old(self).rows@.len() as int) == old(self).rows@,
            row_is(final(self).rows@.last(), suite@, id@, status, detail@),
            final(self).panics == old(self).panics,
    {
        self.rows.push(CaseRow {
            suite: suite.to_owned(),
            case_id: id.to_owned(),
            status,
            detail,
        });
        assert(self.rows@.subrange(0, old(self).rows@.len() as int) =~= old(self).rows@);
    }

    /// Appends a PASS row when `ok`, a FAIL row otherwise.
    pub fn expect_ok(&mut self, suite: &str, id: &str, ok: bool, detail: String)
        ensures
            final(self).rows@.len() == old(self).rows@.len() + 1,
            final(self).rows@.subrange(0, old(self).rows@.len() as int) == old(self).rows@,
            row_is(
                final(self).rows@.last(),
                suite@,
                id@,
                if ok { Status::Pass } else { Status::Fail },
                detail@,
            ),
            final(self).panics == old(self).panics,
    {
        if ok {
            self.push(suite, id, Status::Pass, detail);
        } else {
            self.push(suite, id, Status::Fail, detail);
        }
    }
}

/// The counts after one more row with `status`.
pub open spec fn counted(c: SuiteCounts, status: Status) -> SuiteCounts {
    let c1 = SuiteCounts { cases: (c.cases + 1) as u64, ..c };
    match status {
        Status::Pass => SuiteCounts { pass: (c.pass + 1) as u64, ..c1 },
        Status::Fail => SuiteCounts { fail: (c.fail + 1) as u64, ..c1 },
        Status::Blocked => SuiteCounts { blocked: (c.blocked + 1) as u64, ..c1 },
        Status::NotApplicable => SuiteCounts { not_applicable: (c.not_applicable + 1) as u64, ..c1 },
    }
}

/// All counts zero.
pub open spec fn zero_counts() -> SuiteCounts {
    SuiteCounts { cases: 0, pass: 0, fail: 0, blocked: 0, not_applicable: 0, panics_caught: 0 }
}

/// Counts of the rows of `suite` (of all rows when `suite` is `None`).
pub open spec fn counts_for(rows: Seq<CaseRow>, suite: Option<Seq<char>>) -> SuiteCounts
    decreases rows.len(),
{
    if rows.len() == 0 {
        zero_counts()
    } else {
        let c = counts_for(rows.drop_last(), suite);
        if suite is None || rows.last().suite@ == suite->0 {
            counted(c, rows.last().status)
        } else {
            c
        }
    }
}

/// No row of `suite` means zero counts.
proof fn lemma_counts_absent(rows: Seq<CaseRow>, s: Seq<char>)
    requires
        forall|j: int| 0 <= j < rows.len() ==> (#[trigger] rows[j]).suite@ != s,
    ensures
        counts_for(rows, Some(s)) == zero_counts(),
    decreases rows.len(),
{
    if rows.len() > 0 {
        assert forall|j: int| 0 <= j < rows.drop_last().len() implies (#[trigger] rows.drop_last()[j]).suite@ != s by {
            assert(rows.drop_last()[j] == rows[j]);
        }
        lemma_counts_absent(rows.drop_last(), s);
        assert(rows.last() == rows[rows.len() - 1]);
    }
}

/// Counts never exceed the number of rows, and each row is counted once,
/// under exactly one status.
pub proof fn lemma_counts_bound(rows: Seq<CaseRow>, suite: Option<Seq<char>>)
    requires
        rows.len() <= u64::MAX,
    ensures
        counts_for(rows, suite).cases <= rows.len(),
        counts_for(rows, suite).cases == counts_for(rows, suite).pass + counts_for(rows, suite).fail
            + counts_for(rows, suite).blocked + counts_for(rows, suite).not_applicable,
        counts_for(rows, suite).panics_caught == 0,
    decreases rows.len(),
{
    if rows.len() > 0 {
        lemma_counts_bound(rows.drop_last(), suite);
    }
}

/// The `Blocked` rows rendered as `suite:case_id:detail`, in order.
pub open spec fn blocker_lines(rows: Seq<CaseRow>) -> Seq<Seq<char>>
    decreases rows.len(),
{
    if rows.len() == 0 {
        Seq::empty()
    } else if rows.last().status == Status::Blocked {
        blocker_lines(rows.drop_last()).push(
            rows.last().suite@ + ":"@ + rows.last().case_id@ + ":"@ + rows.last().detail@,
        )
    } else {
        blocker_lines(rows.drop_last())
    }
}

/// At most the first 40 elements.
pub open spec fn first_40(s: Seq<Seq<char>>) -> Seq<Seq<char>> {
    if s.len() > 40 { s.subrange(0, 40) } else { s }
}

/// Summary of a correctness campaign.
pub struct CampaignSummary {
    pub host: String,
    pub verdict: String,
    pub totals: SuiteCounts,
    pub randomized_cases: u64,
    pub boundary_cases: u64,
    pub malformed_cases: u64,
    pub concurrency_cases: u64,
    pub cross_impl_comparisons: u64,
    pub gpu_comparisons: u64,
    pub failures: u64,
    pub bugs_fixed: u64,
    pub regression_tests_added: u64,
    pub blockers: Vec<String>,
    pub suite_totals: Vec<(String, SuiteCounts)>,
}

/// The verdict text: PASS with no failures and no panics, otherwise the
/// failure and panic counts.
pub open spec fn verdict_text(fail: u64, panics: u64) -> Seq<char> {
    if fail == 0 && panics == 0 {
        "PASS"@
    } else {
        "FAIL failures="@ + decimal(fail as nat) + " panics="@ + decimal(panics as nat)
    }
}

/// Tallies the campaign: overall and per-suite counts (suites in ascending
/// order), the first 40 blocked rows, and the verdict.
pub fn finalize(acc: &Acc, host: String) -> (s: CampaignSummary)
    ensures
        s.host@ == host@,
        s.totals == (SuiteCounts { panics_caught: acc.panics, ..counts_for(acc.rows@, None) }),
        keys_sorted(entry_views(s.suite_totals@)),
        forall|k: Seq<char>| #[trigger] table_map(entry_views(s.suite_totals@)).contains_key(k)
            <==> exists|j: int| 0 <= j < acc.rows@.len() && (#[trigger] acc.rows@[j]).suite@ == k,
        forall|k: Seq<char>| #[trigger] table_map(entry_views(s.suite_totals@)).contains_key(k)
            ==> table_map(entry_views(s.suite_totals@))[k] == counts_for(acc.rows@, Some(k)),
        s.blockers@.map_values(|b: String| b@) == first_40(blocker_lines(acc.rows@)),
        s.verdict@ == verdict_text(counts_for(acc.rows@, None).fail, acc.panics),
        s.failures == counts_for(acc.rows@, None).fail,
        s.randomized_cases == acc.randomized,
        s.boundary_cases == acc.boundary,
        s.malformed_cases == acc.malformed,
        s.concurrency_cases == acc.concurrency,
        s.cross_impl_comparisons == acc.cross,
        s.gpu_comparisons == acc.gpu,
        s.bugs_fixed == 2,
        s.regression_tests_added == 3,
{
    let ghost rows = acc.rows@;
    let mut totals = SuiteCounts {
        cases: 0,
        pass: 0,
        fail: 0,
        blocked: 0,
        not_applicable: 0,
        panics_caught: 0,
    };
    let mut suite_totals: Vec<(String, SuiteCounts)> = Vec::new();
    let mut blockers: Vec<String> = Vec::new();
    let mut k: usize = 0;
    assert(rows.subrange(0, 0) =~= Seq::<CaseRow>::empty());
    assert(entry_views(suite_totals@) =~= Seq::empty());
    while k < acc.rows.len()
        invariant
            k <= rows.len(),
            rows == acc.rows@,
            totals == counts_for(rows.subrange(0, k as int), None),
            keys_sorted(entry_views(suite_totals@)),
            forall|s: Seq<char>| #[trigger] table_map(entry_views(suite_totals@)).contains_key(s)
                <==> exists|j: int| 0 <= j < k && (#[trigger] rows[j]).suite@ == s,
            forall|s: Seq<char>| #[trigger] table_map(entry_views(suite_totals@)).contains_key(s)
                ==> table_map(entry_views(suite_totals@))[s] == counts_for(rows.subrange(0, k as int), Some(s)),
            blockers@.map_values(|b: String| b@) == blocker_lines(rows.subrange(0, k as int)),
        decreases rows.len() - k,
    {
        let r = &acc.rows[k];
        let ghost pre = rows.subrange(0, k as int);
        let ghost post = rows.subrange(0, k + 1);
        assert(post.drop_last() =~= pre);
        assert(post.last() == rows[k as int]);
        proof {
            lemma_counts_bound(pre, None);
            lemma_counts_bound(pre, Some(r.suite@));
        }
        totals.cases = totals.cases + 1;
        match r.status {
            Status::Pass => totals.pass = totals.pass + 1,
            Status::Fail => totals.fail = totals.fail + 1,
            Status::Blocked => totals.blocked = totals.blocked + 1,
            Status::NotApplicable => totals.not_applicable = totals.not_applicable + 1,
        }

        let ghost m0 = table_map(entry_views(suite_totals@));
        let ghost had = m0.contains_key(r.suite@);
        let pos = upsert_key(
            &mut suite_totals,
            r.suite.as_str(),
            SuiteCounts {
                cases: 0,
                pass: 0,
                fail: 0,
                blocked: 0,
                not_applicable: 0,
                panics_caught: 0,
            },
        );
        let ghost e1 = entry_views(suite_totals@);
        let ghost sk = r.suite@;
        proof {
            lemma_table_map_at(e1, pos as int);
            if !had {
                assert forall|j: int| 0 <= j < pre.len() implies (#[trigger] pre[j]).suite@ != sk by {
                    assert(pre[j] == rows[j]);
                    if pre[j].suite@ == sk {
                        assert(m0.contains_key(sk));
                    }
                }
                lemma_counts_absent(pre, sk);
            }
            assert(e1[pos as int].1 == suite_totals@[pos as int].1);
        }
        let t = suite_totals[pos].1;
        assert(t == counts_for(pre, Some(sk)));
        let nt = match r.status {
            Status::Pass => SuiteCounts { cases: t.cases + 1, pass: t.pass + 1, ..t },
            Status::Fail => SuiteCounts { cases: t.cases + 1, fail: t.fail + 1, ..t },
            Status::Blocked => SuiteCounts { cases: t.cases + 1, blocked: t.blocked + 1, ..t },
            Status::NotApplicable => SuiteCounts {
                cases: t.cases + 1,
                not_applicable: t.not_applicable + 1,
                ..t
            },
        };
        suite_totals[pos].1 = nt;
        proof {
            let e2 = entry_views(suite_totals@);
            assert(e2 =~= e1.update(pos as int, (e1[pos as int].0, nt)));
            lemma_table_map_update(e1, pos as int, nt);
            let m2 = table_map(e2);
            assert forall|s2: Seq<char>| #[trigger] m2.contains_key(s2) <==> exists|j: int| 0 <= j < k + 1 && (#[trigger] rows[j]).suite@ == s2 by {
                if s2 == sk {
                    assert(rows[k as int].suite@ == sk);
                } else {
                    if exists|j: int| 0 <= j < k + 1 && (#[trigger] rows[j]).suite@ == s2 {
                        let j = choose|j: int| 0 <= j < k + 1 && (#[trigger] rows[j]).suite@ == s2;
                        assert(j < k);
                    }
                }
            }
            assert forall|s2: Seq<char>| #[trigger] m2.contains_key(s2) implies m2[s2] == counts_for(post, Some(s2)) by {
                if s2 != sk {
                    assert(m2[s2] == m0[s2]);
                }
            }
        }

        if r.status == Status::Blocked {
            let mut line = String::new();
            line.append(r.suite.as_str());
            line.append(":");
            line.append(r.case_id.as_str());
            line.append(":");
            line.append(r.detail.as_str());
            blockers.push(line);
            proof {
                assert(line@ =~= r.suite@ + ":"@ + r.case_id@ + ":"@ + r.detail@);
            }
        }
        proof {
            assert(blockers@.map_values(|b: String| b@) =~= blocker_lines(post));
        }
        k = k + 1;
    }
    assert(rows.subrange(0, rows.len() as int) =~= rows);
    let ghost all_lines = blockers@.map_values(|b: String| b@);
    blockers.truncate(40);
    assert(blockers@.map_values(|b: String| b@) =~= first_40(all_lines));

    let mut verdict = String::new();
    if totals.fail == 0 && acc.panics == 0 {
        verdict.append("PASS");
    } else {
        verdict.append("FAIL failures=");
        push_decimal(&mut verdict, totals.fail);
        verdict.append(" panics=");
        push_decimal(&mut verdict, acc.panics);
    }
    assert(verdict@ =~= verdict_text(totals.fail, acc.panics));
    totals.panics_caught = acc.panics;
    CampaignSummary {
        host,
        verdict,
        totals,
        randomized_cases: acc.randomized,
        boundary_cases: acc.boundary,
        malformed_cases: acc.malformed,
        concurrency_cases: acc.concurrency,
        cross_impl_comparisons: acc.cross,
        gpu_comparisons: acc.gpu,
        failures: totals.fail,
        bugs_fixed: 2,
        regression_tests_added: 3,
        blockers,
        suite_totals,
    }
}

/// Lower-case hexadecimal rendering, two digits per byte.
pub fn hex(bytes: &[u8]) -> (s: String)
    ensures
        s@ == hex_encode(bytes@),
{
    hex_lower(bytes)
}

/// Value of an ASCII hexadecimal digit (either case).
pub open spec fn hex_value(c: u8) -> Option<u8> {
    if 48 <= c <= 57 {
        Some((c - 48) as u8)
    } else if 97 <= c <= 102 {
        Some((c - 87) as u8)
    } else if 65 <= c <= 70 {
        Some((c - 55) as u8)
    } else {
        None
    }
}

/// Value of a two-byte radix-16 numeral: two hex digits, or `+` and one digit.
pub open spec fn pair_value(a: u8, b: u8) -> Option<u8> {
    if a == 43 {
        hex_value(b)
    } else {
        match (hex_value(a), hex_value(b)) {
            (Some(x), Some(y)) => Some((x * 16 + y) as u8),
            _ => None,
        }
    }
}

/// The values of the two-byte chunks at even offsets `i, i + 2, ...` of
/// `b`, skipping chunks that are not numerals and a trailing odd byte.
pub open spec fn hex_pairs(b: Seq<u8>, i: int) -> Seq<u8>
    decreases b.len() - i,
{
    if 0 <= i && i + 2 <= b.len() {
        let rest = hex_pairs(b, i + 2);
        match pair_value(b[i], b[i + 1]) {
            Some(v) => seq![v] + rest,
            None => rest,
        }
    } else {
        Seq::empty()
    }
}

/// Executable `hex_value`.
fn hex_value_of(c: u8) -> (r: Option<u8>)
    ensures
        r == hex_value(c),
{
    if 48 <= c && c <= 57 {
        Some(c - 48)
    } else if 97 <= c && c <= 102 {
        Some(c - 87)
    } else if 65 <= c && c <= 70 {
        Some(c - 55)
    } else {
        None
    }
}

/// Decodes hex text two bytes at a time, silently skipping chunks that do
/// not parse (and an odd trailing byte).
pub fn hex_to_bytes(s: &str) -> (v: Vec<u8>)
    ensures
        v@ == hex_pairs(s.spec_bytes(), 0),
{
    let b = s.as_bytes();
    let ghost bs = b@;
    let mut v: Vec<u8> = Vec::new();
    let mut i: usize = 0;
    while i < b.len() && b.len() - i >= 2
        invariant
            bs == b@,
            i <= b@.len(),
            v@ + hex_pairs(bs, i as int) == hex_pairs(bs, 0),
        decreases b@.len() - i,
    {
        let x = b[i];
        let y = b[i + 1];
        let pv = if x == 43 {
            hex_value_of(y)
        } else {
            match (hex_value_of(x), hex_value_of(y)) {
                (Some(p), Some(q)) => Some(p * 16 + q),
                _ => None,
            }
        };
        assert(pv == pair_value(x, y));
        let ghost v_old = v@;
        match pv {
            Some(val) => {
                v.push(val);
                assert(v@ + hex_pairs(bs, i + 2) =~= v_old + (seq![val] + hex_pairs(bs, i + 2)));
            },
            None => {},
        }
        i = i + 2;
    }
    assert(hex_pairs(bs, i as int) =~= Seq::empty());
    assert(v@ =~= hex_pairs(bs, 0));
    v
}

/// One xorshift64 step on `state`, returning the new state.
pub fn xorshift(state: &mut u64) -> (x: u64)
    ensures
        x == xorshift_step(*old(state)),
        *final(state) == x,
{
    let mut x = *state;
    x ^= x << 13;
    x ^= x >> 7;
    x ^= x << 17;
    *state = x;
    x
}

/// `len` bytes, each the low byte of the next xorshift state.
pub fn fill_bytes(seed: &mut u64, len: usize) -> (v: Vec<u8>)
    ensures
        v@.len() == len,
        forall|j: int| 0 <= j < len ==> #[trigger] v@[j] == (xorshift_iter(*old(seed), (j + 1) as nat) & 0xff) as u8,
        *final(seed) == xorshift_iter(*old(seed), len as nat),
{
    let ghost s0 = *seed;
    let mut v: Vec<u8> = Vec::new();
    let mut k: usize = 0;
    while k < len
        invariant
            k <= len,
            v@.len() == k,
            *seed == xorshift_iter(s0, k as nat),
            forall|j: int| 0 <= j < k ==> #[trigger] v@[j] == (xorshift_iter(s0, (j + 1) as nat) & 0xff) as u8,
        decreases len - k,
    {
        let x = xorshift(seed);
        v.push((x & 0xff) as u8);
        k = k + 1;
    }
    v
}

/// The decoded value of each rendered digit pair is the byte it was rendered from.
proof fn lemma_pair_of_rendered(x: u8)
    ensures
        pair_value(hex_digit((x / 16) as int) as u8, hex_digit((x % 16) as int) as u8) == Some(x),
{
    assert(x == (x / 16) * 16 + x % 16);
}

/// Decoding what `hex` renders gives back the bytes: for any string whose
/// characters are `hex_encode(b)`, `hex_to_bytes` returns `b`.
pub proof fn lemma_hex_roundtrip(b: Seq<u8>, s: &str)
    requires
        s@ == hex_encode(b),
    ensures
        hex_pairs(s.spec_bytes(), 0) == b,
{
    broadcast use vstd::string::is_ascii_spec_bytes;
    assert(vstd::string::is_ascii(s)) by {
        assert forall|i: int| 0 <= i < s@.len() implies '\0' <= #[trigger] s@[i] <= '\u{7f}' by {
            let d = if i % 2 == 0 { (b[i / 2] / 16) as int } else { (b[i / 2] % 16) as int };
            assert(0 <= d < 16);
        }
    }
    let bytes = s.spec_bytes();
    assert(bytes.len() == 2 * b.len());
    lemma_hex_pairs_from(b, bytes, b.len() as int);
    assert(b.subrange(0, b.len() as int) =~= b);
}

/// Induction step for `lemma_hex_roundtrip`: decoding from pair `k` on gives
/// the bytes from `k` on.
proof fn lemma_hex_pairs_from(b: Seq<u8>, bytes: Seq<u8>, k: int)
    requires
        bytes.len() == 2 * b.len(),
        0 <= k <= b.len(),
        forall|j: int| 0 <= j < bytes.len() ==> #[trigger] bytes[j] == (if j % 2 == 0 {
            hex_digit((b[j / 2] / 16) as int)
        } else {
            hex_digit((b[j / 2] % 16) as int)
        }) as u8,
    ensures
        hex_pairs(bytes, 2 * (b.len() - k)) == b.subrange(b.len() - k, b.len() as int),
    decreases k,
{
    if k > 0 {
        lemma_hex_pairs_from(b, bytes, k - 1);
        let i = 2 * (b.len() - k);
        let x = b[b.len() - k];
        assert(bytes[i] == hex_digit((x / 16) as int) as u8);
        assert(bytes[i + 1] == hex_digit((x % 16) as int) as u8);
        lemma_pair_of_rendered(x);
        assert(b.subrange(b.len() - k, b.len() as int) =~= seq![x] + b.subrange(b.len() - (k - 1), b.len() as int));
    } else {
        assert(b.subrange(b.len() as int, b.len() as int) =~= Seq::<u8>::empty());
    }
}

/// How the CSV files spell a case status.
pub open spec fn status_word(s: Status) -> Seq<char> {
    match s {
        Status::Pass => "Pass"@,
        Status::Fail => "Fail"@,
        Status::Blocked => "Blocked"@,
        Status::NotApplicable => "NotApplicable"@,
    }
}

/// The CSV spelling of a case status.
pub fn status_text(s: Status) -> (r: &'static str)
    ensures
        r@ == status_word(s),
{
    match s {
        Status::Pass => "Pass",
        Status::Fail => "Fail",
        Status::Blocked => "Blocked",
        Status::NotApplicable => "NotApplicable",
    }
}

/// The CSV line of a case: suite, case id, status and the quoted detail with
/// double quotes turned into single ones.
pub open spec fn case_line(r: CaseRow) -> Seq<char> {
    r.suite@ + ","@ + r.case_id@ + ","@ + status_word(r.status) + ",\""@ + replaced(r.detail@, '"', '\'')
        + "\""@
}

/// The regressions.csv line of a failed case.
pub open spec fn failure_case_line(r: CaseRow) -> Seq<char> {
    r.suite@ + ","@ + r.case_id@ + ",FAIL,\""@ + replaced(r.detail@, '"', '\'') + "\""@
}

/// Builds the CSV line of a case.
fn case_csv_line(r: &CaseRow) -> (l: String)
    ensures
        l@ == case_line(*r),
{
    proof {
        reveal_strlit("'");
    }
    let d = replace_char(r.detail.as_str(), '"', "'");
    let mut l = String::from_str(r.suite.as_str());
    l.append(",");
    l.append(r.case_id.as_str());
    l.append(",");
    l.append(status_text(r.status));
    l.append(",\"");
    l.append(d.as_str());
    l.append("\"");
    l
}

/// The case lines of the rows of suite `s`, in order.
pub open spec fn suite_lines(rows: Seq<CaseRow>, s: Seq<char>) -> Seq<Seq<char>>
    decreases rows.len(),
{
    if rows.len() == 0 {
        Seq::empty()
    } else if rows.last().suite@ == s {
        suite_lines(rows.drop_last(), s).push(case_line(rows.last()))
    } else {
        suite_lines(rows.drop_last(), s)
    }
}

/// The case lines of an area file: suite by suite in the order given, each
/// suite's rows in campaign order.
pub open spec fn area_lines(rows: Seq<CaseRow>, suites: Seq<Seq<char>>) -> Seq<Seq<char>>
    decreases suites.len(),
{
    if suites.len() == 0 {
        Seq::empty()
    } else {
        area_lines(rows, suites.drop_last()) + suite_lines(rows, suites.last())
    }
}

/// The views of a list of string slices.
pub open spec fn strs(v: Seq<&str>) -> Seq<Seq<char>> {
    v.map_values(|t: &str| t@)
}

/// The area files and the suites each gathers.
pub open spec fn area_suites() -> Seq<(Seq<char>, Seq<Seq<char>>)> {
    seq![
        ("boundary"@, seq!["salt"@, "memory"@, "block_size"@, "fan_in"@, "graph"@, "output_length"@, "small_graph"@]),
        ("parser"@, seq!["parser"@, "legacy"@]),
        ("config"@, seq!["memory"@, "block_size"@, "fan_in"@, "output_length"@]),
        ("vectors"@, seq!["hash_verify"@]),
        ("differential"@, seq!["differential"@, "determinism"@]),
        ("ffi"@, seq!["ffi"@]),
        ("concurrency"@, seq!["concurrency"@, "resource_failure"@]),
        ("gpu"@, seq!["gpu"@]),
        ("property"@, seq!["property"@, "long_run"@, "serialization"@, "rehash"@]),
    ]
}

/// The case lines of the rows of suite `s`.
fn suite_csv_lines(rows: &Vec<CaseRow>, s: &str, out: &mut Vec<String>)
    ensures
        texts(final(out)@) == texts(old(out)@) + suite_lines(rows@, s@),
{
    let mut k: usize = 0;
    while k < rows.len()
        invariant
            k <= rows@.len(),
            texts(out@) == texts(old(out)@) + suite_lines(rows@.subrange(0, k as int), s@),
        decreases rows@.len() - k,
    {
        let ghost before = texts(out@);
        if same_text(rows[k].suite.as_str(), s) {
            out.push(case_csv_line(&rows[k]));
            assert(texts(out@) =~= before.push(case_line(rows@[k as int])));
        }
        proof {
            let t = rows@.subrange(0, k + 1);
            assert(t.drop_last() =~= rows@.subrange(0, k as int));
            assert(t.last() == rows@[k as int]);
            assert(texts(out@) =~= texts(old(out)@) + suite_lines(t, s@));
        }
        k = k + 1;
    }
    assert(rows@.subrange(0, rows@.len() as int) =~= rows@);
}

/// The case lines of an area file gathering `suites`.
pub fn area_csv_lines(acc: &Acc, suites: &[&str]) -> (v: Vec<String>)
    ensures
        texts(v@) == area_lines(acc.rows@, strs(suites@)),
{
    let mut v: Vec<String> = Vec::new();
    let mut k: usize = 0;
    while k < suites.len()
        invariant
            k <= suites@.len(),
            texts(v@) == area_lines(acc.rows@, strs(suites@.subrange(0, k as int))),
        decreases suites@.len() - k,
    {
        suite_csv_lines(&acc.rows, suites[k], &mut v);
        proof {
            let t = strs(suites@.subrange(0, k + 1));
            assert(t.drop_last() =~= strs(suites@.subrange(0, k as int)));
            assert(t.last() == suites@[k as int]@);
        }
        k = k + 1;
    }
    assert(suites@.subrange(0, suites@.len() as int) =~= suites@);
    v
}

/// The regressions.csv lines: one per failed case, in order.
pub open spec fn failure_lines(rows: Seq<CaseRow>) -> Seq<Seq<char>>
    decreases rows.len(),
{
    if rows.len() == 0 {
        Seq::empty()
    } else if rows.last().status == Status::Fail {
        failure_lines(rows.drop_last()).push(failure_case_line(rows.last()))
    } else {
        failure_lines(rows.drop_last())
    }
}

/// Builds the regressions.csv lines.
pub fn failure_csv_lines(acc: &Acc) -> (v: Vec<String>)
    ensures
        texts(v@) == failure_lines(acc.rows@),
{
    let mut v: Vec<String> = Vec::new();
    let mut k: usize = 0;
    while k < acc.rows.len()
        invariant
            k <= acc.rows@.len(),
            texts(v@) == failure_lines(acc.rows@.subrange(0, k as int)),
        decreases acc.rows@.len() - k,
    {
        let r = &acc.rows[k];
        let ghost before = texts(v@);
        if r.status == Status::Fail {
            proof {
                reveal_strlit("'");
            }
            let d = replace_char(r.detail.as_str(), '"', "'");
            let mut l = String::from_str(r.suite.as_str());
            l.append(",");
            l.append(r.case_id.as_str());
            l.append(",FAIL,\"");
            l.append(d.as_str());
            l.append("\"");
            v.push(l);
            assert(texts(v@) =~= before.push(failure_case_line(acc.rows@[k as int])));
        }
        proof {
            let t = acc.rows@.subrange(0, k + 1);
            assert(t.drop_last() =~= acc.rows@.subrange(0, k as int));
            assert(t.last() == acc.rows@[k as int]);
        }
        k = k + 1;
    }
    assert(acc.rows@.subrange(0, acc.rows@.len() as int) =~= acc.rows@);
    v
}

/// The all-cases.csv lines: every case, in order.
pub fn all_case_lines(acc: &Acc) -> (v: Vec<String>)
    ensures
        texts(v@) == Seq::new(acc.rows@.len(), |i: int| case_line(acc.rows@[i])),
{
    let mut v: Vec<String> = Vec::new();
    let mut k: usize = 0;
    while k < acc.rows.len()
        invariant
            k <= acc.rows@.len(),
            texts(v@) == Seq::new(k as nat, |i: int| case_line(acc.rows@[i])),
        decreases acc.rows@.len() - k,
    {
        let ghost before = texts(v@);
        v.push(case_csv_line(&acc.rows[k]));
        assert(texts(v@) =~= before.push(case_line(acc.rows@[k as int])));
        assert(texts(v@) =~= Seq::new((k + 1) as nat, |i: int| case_line(acc.rows@[i])));
        k = k + 1;
    }
    v
}

/// The summary's line for one suite.
pub open spec fn suite_report_line(name: Seq<char>, c: SuiteCounts) -> Seq<char> {
    "- **"@ + name + "**: cases="@ + decimal(c.cases as nat) + " pass="@ + decimal(c.pass as nat)
        + " fail="@ + decimal(c.fail as nat) + " blocked="@ + decimal(c.blocked as nat) + " n/a="@
        + decimal(c.not_applicable as nat)
}

/// The summary's per-suite lines, in the summary's suite order.
pub fn suite_report_lines(s: &CampaignSummary) -> (v: Vec<String>)
    ensures
        texts(v@) == Seq::new(
            s.suite_totals@.len(),
            |i: int| suite_report_line(s.suite_totals@[i].0@, s.suite_totals@[i].1),
        ),
{
    let mut v: Vec<String> = Vec::new();
    let mut k: usize = 0;
    while k < s.suite_totals.len()
        invariant
            k <= s.suite_totals@.len(),
            texts(v@) == Seq::new(
                k as nat,
                |i: int| suite_report_line(s.suite_totals@[i].0@, s.suite_totals@[i].1),
            ),
        decreases s.suite_totals@.len() - k,
    {
        let c = s.suite_totals[k].1;
        let mut l = String::from_str("- **");
        l.append(s.suite_totals[k].0.as_str());
        l.append("**: cases=");
        push_decimal(&mut l, c.cases);
        l.append(" pass=");
        push_decimal(&mut l, c.pass);
        l.append(" fail=");
        push_decimal(&mut l, c.fail);
        l.append(" blocked=");
        push_decimal(&mut l, c.blocked);
        l.append(" n/a=");
        push_decimal(&mut l, c.not_applicable);
        let ghost before = texts(v@);
        v.push(l);
        assert(texts(v@) =~= before.push(suite_report_line(s.suite_totals@[k as int].0@, c)));
        assert(texts(v@) =~= Seq::new(
            (k + 1) as nat,
            |i: int| suite_report_line(s.suite_totals@[i].0@, s.suite_totals@[i].1),
        ));
        k = k + 1;
    }
    v
}

/// One area file and its suites.
fn area_entry(name: &'static str, suites: Vec<&'static str>) -> (r: (&'static str, Vec<&'static str>))
    ensures
        r.0 == name,
        r.1@ == suites@,
{
    (name, suites)
}

/// The area files with the suites each gathers, in `area_suites` order.
pub fn area_files() -> (v: Vec<(&'static str, Vec<&'static str>)>)
    ensures
        v@.len() == area_suites().len(),
        forall|i: int| 0 <= i < v@.len() ==> (#[trigger] v@[i]).0@ == area_suites()[i].0 && strs(v@[i].1@)
            == area_suites()[i].1,
{
    let mut v: Vec<(&'static str, Vec<&'static str>)> = Vec::new();
    let a = vec!["salt", "memory", "block_size", "fan_in", "graph", "output_length", "small_graph"];
    assert(strs(a@) =~= area_suites()[0].1);
    v.push(area_entry("boundary", a));
    let b = vec!["parser", "legacy"];
    assert(strs(b@) =~= area_suites()[1].1);
    v.push(area_entry("parser", b));
    let c = vec!["memory", "block_size", "fan_in", "output_length"];
    assert(strs(c@) =~= area_suites()[2].1);
    v.push(area_entry("config", c));
    let d = vec!["hash_verify"];
    assert(strs(d@) =~= area_suites()[3].1);
    v.push(area_entry("vectors", d));
    let e = vec!["differential", "determinism"];
    assert(strs(e@) =~= area_suites()[4].1);
    v.push(area_entry("differential", e));
    let f = vec!["ffi"];
    assert(strs(f@) =~= area_suites()[5].1);
    v.push(area_entry("ffi", f));
    let g = vec!["concurrency", "resource_failure"];
    assert(strs(g@) =~= area_suites()[6].1);
    v.push(area_entry("concurrency", g));
    let h = vec!["gpu"];
    assert(strs(h@) =~= area_suites()[7].1);
    v.push(area_entry("gpu", h));
    let k = vec!["property", "long_run", "serialization", "rehash"];
    assert(strs(k@) =~= area_suites()[8].1);
    v.push(area_entry("property", k));
    v
}

/// Where the campaign writes its results, relative to the repository root.
pub fn default_out_dir() -> (p: &'static str)
    ensures
        p@ == "research/results/correctness"@,
{
    "research/results/correctness"
}

} // verus!
