//! The report store: reports with their records, keyed by report id, and
//! the index of the policy domains seen.
use vstd::prelude::*;
use crate::report::{Record, RecordView, Report, ReportView};
use crate::text::{
    lemma_str_lt_irreflexive, lemma_str_lt_total, lemma_str_lt_transitive, str_eq, str_less,
    str_lt,
};

verus! {

/// The most records a store can hold; it keeps every sum of counts within `i64`.
pub const MAX_RECORDS: usize = 1073741824;

/// What a successful insertion did.
#[derive(Debug, Clone, Copy, PartialEq, Eq, Structural)]
pub enum InsertOutcome {
    /// The report and its records were stored.
    Inserted,
    /// A report with the same id was stored before; nothing changed.
    AlreadyExists,
}

/// Why an insertion stored nothing.
#[derive(Debug, Clone, Copy, PartialEq, Eq, Structural)]
pub enum StoreError {
    /// The report names no policy domain, which storage requires.
    MissingPolicyDomain,
    /// The records would not fit in the store; the transaction was rolled back.
    TransactionFailed,
}

/// The mathematical value of a store.
pub struct DbView {
    /// Stored reports, in the order they were inserted.
    pub reports: Seq<ReportView>,
    /// The domain index.
    pub domains: Set<Seq<char>>,
    /// How many records the store may hold in all.
    pub max_records: nat,
}

/// The number of records of all the reports.
pub open spec fn total_records(rs: Seq<ReportView>) -> nat
    decreases rs.len(),
{
    if rs.len() == 0 {
        0
    } else {
        total_records(rs.drop_last()) + rs.last().records.len()
    }
}

/// Whether a report with this id is among `rs`.
pub open spec fn has_report(rs: Seq<ReportView>, id: Seq<char>) -> bool {
    exists|i: int| 0 <= i < rs.len() && #[trigger] rs[i].report_id == id
}

/// The invariants of a store: report ids are unique, every report's policy
/// domain is present and indexed, and the records fit.
pub open spec fn valid(v: DbView) -> bool {
    &&& forall|i: int, j: int|
        #![trigger v.reports[i], v.reports[j]]
        0 <= i < v.reports.len() && 0 <= j < v.reports.len() && i != j
            ==> v.reports[i].report_id != v.reports[j].report_id
    &&& forall|i: int|
        0 <= i < v.reports.len() ==> (#[trigger] v.reports[i]).policy_domain is Some
            && v.domains.contains(v.reports[i].policy_domain->Some_0)
    &&& total_records(v.reports) <= v.max_records
    &&& v.max_records <= MAX_RECORDS
}

/// The store after inserting `r` into `v`, and the result of the insertion.
/// The domain is indexed first; a report whose id is known changes nothing
/// else; otherwise the report and all its records are added together, or,
/// where they do not fit, none of them.
pub open spec fn insert_effect(v: DbView, r: ReportView) -> (DbView, Result<InsertOutcome, StoreError>) {
    match r.policy_domain {
        None => (v, Err(StoreError::MissingPolicyDomain)),
        Some(d) => {
            let indexed = DbView { domains: v.domains.insert(d), ..v };
            if has_report(v.reports, r.report_id) {
                (indexed, Ok(InsertOutcome::AlreadyExists))
            } else if total_records(v.reports) + r.records.len() > v.max_records {
                (indexed, Err(StoreError::TransactionFailed))
            } else {
                (DbView { reports: v.reports.push(r), ..indexed }, Ok(InsertOutcome::Inserted))
            }
        },
    }
}

/// Strictly increasing, hence free of duplicates.
pub open spec fn sorted_domains(s: Seq<Seq<char>>) -> bool {
    forall|i: int, j: int| 0 <= i < j < s.len() ==> str_lt(#[trigger] s[i], #[trigger] s[j])
}

pub open spec fn str_views(v: Seq<String>) -> Seq<Seq<char>> {
    v.map_values(|s: String| s@)
}

proof fn lemma_total_records_push(rs: Seq<ReportView>, r: ReportView)
    ensures
        total_records(rs.push(r)) == total_records(rs) + r.records.len(),
{
    assert(rs.push(r).drop_last() =~= rs);
}

proof fn lemma_total_records_prefix(rs: Seq<ReportView>, i: int)
    requires
        0 <= i < rs.len(),
    ensures
        total_records(rs.subrange(0, i + 1)) == total_records(rs.subrange(0, i))
            + rs[i].records.len(),
        total_records(rs.subrange(0, i + 1)) <= total_records(rs),
    decreases rs.len(),
{
    assert(rs.subrange(0, i + 1).drop_last() =~= rs.subrange(0, i));
    if i + 1 < rs.len() {
        lemma_total_records_prefix(rs.drop_last(), i);
        assert(rs.drop_last().subrange(0, i + 1) =~= rs.subrange(0, i + 1));
        assert(rs.drop_last().subrange(0, i) =~= rs.subrange(0, i));
    } else {
        assert(rs.subrange(0, i + 1) =~= rs);
    }
}

/// Inserting the same report a second time changes nothing: the store
/// holds the same reports, records and domains as after the first
/// insertion, and the second insertion stores nothing new.
pub proof fn insert_is_idempotent(v: DbView, r: ReportView)
    requires
        valid(v),
    ensures
        ({
            let once = insert_effect(v, r).0;
            let twice = insert_effect(once, r);
            &&& twice.0 == once
            &&& twice.1 != Ok::<InsertOutcome, StoreError>(InsertOutcome::Inserted)
            &&& twice.0.reports.len() == once.reports.len()
            &&& total_records(twice.0.reports) == total_records(once.reports)
        }),
{
    if let Some(d) = r.policy_domain {
        let once = insert_effect(v, r).0;
        assert(once.domains.insert(d) =~= once.domains);
        if !has_report(v.reports, r.report_id) && total_records(v.reports) + r.records.len()
            <= v.max_records {
            assert(once.reports[v.reports.len() as int].report_id == r.report_id);
            assert(has_report(once.reports, r.report_id));
        }
    }
}

/// An insertion keeps the store's invariants.
pub proof fn insert_keeps_valid(v: DbView, r: ReportView)
    requires
        valid(v),
    ensures
        valid(insert_effect(v, r).0),
{
    lemma_total_records_push(v.reports, r);
    let after = insert_effect(v, r).0;
    if let Some(d) = r.policy_domain {
        assert forall|i: int| 0 <= i < after.reports.len() implies (#[trigger] after.reports[i]).policy_domain is Some
            && after.domains.contains(after.reports[i].policy_domain->Some_0) by {
            if i < v.reports.len() {
                assert(after.reports[i] == v.reports[i]);
            }
        }
        if after.reports.len() > v.reports.len() {
            assert forall|i: int, j: int|
                #![trigger after.reports[i], after.reports[j]]
                0 <= i < after.reports.len() && 0 <= j < after.reports.len() && i != j
                    implies after.reports[i].report_id != after.reports[j].report_id by {
                if i < v.reports.len() && j < v.reports.len() {
                    assert(after.reports[i] == v.reports[i]);
                    assert(after.reports[j] == v.reports[j]);
                } else if i < v.reports.len() {
                    assert(after.reports[i] == v.reports[i]);
                    assert(v.reports[i].report_id != r.report_id);
                } else {
                    assert(after.reports[j] == v.reports[j]);
                    assert(v.reports[j].report_id != r.report_id);
                }
            }
        }
    }
}

/// After an insertion that succeeds, whether it stored the report now or
/// found it stored before, exactly one stored report has its id.
pub proof fn insert_leaves_one_row(v: DbView, r: ReportView)
    requires
        valid(v),
        insert_effect(v, r).1 is Ok,
    ensures
        ({
            let after = insert_effect(v, r).0;
            exists|i: int|
                0 <= i < after.reports.len() && #[trigger] after.reports[i].report_id == r.report_id
                    && forall|j: int|
                    0 <= j < after.reports.len() && #[trigger] after.reports[j].report_id
                        == r.report_id ==> j == i
        }),
{
    insert_keeps_valid(v, r);
    let after = insert_effect(v, r).0;
    let i = if has_report(v.reports, r.report_id) {
        choose|i: int| 0 <= i < v.reports.len() && #[trigger] v.reports[i].report_id == r.report_id
    } else {
        v.reports.len() as int
    };
    assert(after.reports[i].report_id == r.report_id);
    assert forall|j: int|
        0 <= j < after.reports.len() && #[trigger] after.reports[j].report_id == r.report_id implies j == i by {
        if j != i {
            assert(after.reports[i].report_id != after.reports[j].report_id);
        }
    }
}

/// An insertion either adds the report together with every one of its
/// records, or adds no report and no record at all.
pub proof fn insert_is_atomic(v: DbView, r: ReportView)
    requires
        valid(v),
    ensures
        ({
            let (after, outcome) = insert_effect(v, r);
            ||| outcome == Ok::<InsertOutcome, StoreError>(InsertOutcome::Inserted)
                && after.reports == v.reports.push(r)
                && total_records(after.reports) == total_records(v.reports) + r.records.len()
            ||| outcome != Ok::<InsertOutcome, StoreError>(InsertOutcome::Inserted)
                && after.reports == v.reports
                && total_records(after.reports) == total_records(v.reports)
        }),
{
    lemma_total_records_push(v.reports, r);
}

/// The verdict that counts as passing.
pub open spec fn pass_verdict() -> Seq<char> {
    seq!['p', 'a', 's', 's']
}

/// The day, counted from the epoch, that a time in seconds falls on.
pub open spec fn day_of(t: int) -> int {
    t / 86400
}

/// Whether a report that begins at `date_begin` falls in the trailing
/// window of `last_days` days before `now`, by calendar day: the day `last_days`
/// days before today is inside, the day before it is not.
pub open spec fn in_window(date_begin: i64, now: i64, last_days: u16) -> bool {
    day_of(date_begin as int) >= day_of(now as int) - last_days
}

/// Whether a record is counted by the counter for DKIM (`dkim`) or SPF, for
/// passing (`passed`) or failing verdicts.
pub open spec fn counted(r: RecordView, dkim: bool, passed: bool) -> bool {
    let verdict = if dkim {
        r.policy_evaluated_dkim
    } else {
        r.policy_evaluated_spf
    };
    (verdict == pass_verdict()) == passed
}

/// The sum of the counts of the records that a counter counts.
pub open spec fn record_sum(recs: Seq<RecordView>, dkim: bool, passed: bool) -> int
    decreases recs.len(),
{
    if recs.len() == 0 {
        0
    } else {
        record_sum(recs.drop_last(), dkim, passed) + if counted(recs.last(), dkim, passed) {
            recs.last().count as int
        } else {
            0
        }
    }
}

/// A counter's sum over the records of the reports for `domain` that fall in the window.
pub open spec fn window_sum(
    rs: Seq<ReportView>,
    domain: Seq<char>,
    now: i64,
    last_days: u16,
    dkim: bool,
    passed: bool,
) -> int
    decreases rs.len(),
{
    if rs.len() == 0 {
        0
    } else {
        window_sum(rs.drop_last(), domain, now, last_days, dkim, passed) + if rs.last().policy_domain
            == Some(domain) && in_window(rs.last().date_begin, now, last_days) {
            record_sum(rs.last().records, dkim, passed)
        } else {
            0
        }
    }
}

/// Message counts for one domain, by DKIM and SPF verdict.
#[derive(Debug, Clone, Copy, PartialEq, Eq, Structural)]
pub struct BasicStats {
    pub dkim_passed: i64,
    pub spf_passed: i64,
    pub dkim_failed: i64,
    pub spf_failed: i64,
}

/// The counters of one domain.
#[derive(Debug, Clone, PartialEq)]
pub struct DomainStats {
    pub domain: String,
    pub stats: BasicStats,
}

/// Whether `s` holds the four window sums of `domain` in `v`.
pub open spec fn stats_match(s: BasicStats, v: DbView, domain: Seq<char>, now: i64, last_days: u16) -> bool {
    &&& s.dkim_passed == window_sum(v.reports, domain, now, last_days, true, true)
    &&& s.spf_passed == window_sum(v.reports, domain, now, last_days, false, true)
    &&& s.dkim_failed == window_sum(v.reports, domain, now, last_days, true, false)
    &&& s.spf_failed == window_sum(v.reports, domain, now, last_days, false, false)
}

pub open spec fn stats_domains(r: Seq<DomainStats>) -> Seq<Seq<char>> {
    r.map_values(|e: DomainStats| e.domain@)
}

/// A domain with no report in the window has all four counters at zero.
pub proof fn stats_zero_without_reports(
    rs: Seq<ReportView>,
    domain: Seq<char>,
    now: i64,
    last_days: u16,
    dkim: bool,
    passed: bool,
)
    requires
        forall|i: int|
            0 <= i < rs.len() && (#[trigger] rs[i]).policy_domain == Some(domain) ==> !in_window(
                rs[i].date_begin,
                now,
                last_days,
            ),
    ensures
        window_sum(rs, domain, now, last_days, dkim, passed) == 0,
    decreases rs.len(),
{
    if rs.len() > 0 {
        let p = rs.drop_last();
        assert forall|i: int|
            0 <= i < p.len() && (#[trigger] p[i]).policy_domain == Some(domain) implies !in_window(
            p[i].date_begin,
            now,
            last_days,
        ) by {
            assert(p[i] == rs[i]);
        }
        stats_zero_without_reports(p, domain, now, last_days, dkim, passed);
        assert(rs.last() == rs[rs.len() - 1]);
    }
}

/// Whether every counter of `s` is at most `n` counts in size.
pub open spec fn bounded(s: BasicStats, n: int) -> bool {
    &&& -n * 2147483648 <= s.dkim_passed <= n * 2147483648
    &&& -n * 2147483648 <= s.spf_passed <= n * 2147483648
    &&& -n * 2147483648 <= s.dkim_failed <= n * 2147483648
    &&& -n * 2147483648 <= s.spf_failed <= n * 2147483648
}

/// The day that `t` seconds after the epoch falls on.
pub fn day_number(t: i64) -> (r: i64)
    ensures
        r == day_of(t as int),
        -106751991167301 <= r <= 106751991167300,
{
    if t >= 0 {
        let u = t as u64;
        let q = u / 86400;
        proof {
            vstd::arithmetic::div_mod::lemma_fundamental_div_mod(u as int, 86400);
        }
        q as i64
    } else {
        let u = (-(t + 1)) as u64;
        let q = u / 86400;
        proof {
            vstd::arithmetic::div_mod::lemma_fundamental_div_mod(u as int, 86400);
            let rm = (u as int) % 86400;
            vstd::arithmetic::div_mod::lemma_fundamental_div_mod_converse(
                t as int,
                86400,
                -(q as int) - 1,
                86399 - rm,
            );
        }
        -(q as i64) - 1
    }
}

fn is_pass(s: &String) -> (r: bool)
    ensures
        r == (s@ == pass_verdict()),
{
    let t = s.as_str();
    if t.unicode_len() != 4 {
        return false;
    }
    let ok = t.get_char(0) == 'p' && t.get_char(1) == 'a' && t.get_char(2) == 's' && t.get_char(3) == 's';
    proof {
        if ok {
            assert(s@ =~= pass_verdict());
        }
    }
    ok
}

/// The four counters over all of `recs`.
fn record_sums(recs: &Vec<Record>) -> (r: BasicStats)
    requires
        recs@.len() <= MAX_RECORDS,
    ensures
        bounded(r, recs@.len() as int),
        ({
            let rv = recs@.map_values(|x: Record| x@);
            &&& r.dkim_passed == record_sum(rv, true, true)
            &&& r.spf_passed == record_sum(rv, false, true)
            &&& r.dkim_failed == record_sum(rv, true, false)
            &&& r.spf_failed == record_sum(rv, false, false)
        }),
{
    let ghost rv = recs@.map_values(|x: Record| x@);
    let mut s = BasicStats { dkim_passed: 0, spf_passed: 0, dkim_failed: 0, spf_failed: 0 };
    let mut k: usize = 0;
    while k < recs.len()
        invariant
            k <= recs@.len() <= MAX_RECORDS,
            rv == recs@.map_values(|x: Record| x@),
            bounded(s, k as int),
            s.dkim_passed == record_sum(rv.subrange(0, k as int), true, true),
            s.spf_passed == record_sum(rv.subrange(0, k as int), false, true),
            s.dkim_failed == record_sum(rv.subrange(0, k as int), true, false),
            s.spf_failed == record_sum(rv.subrange(0, k as int), false, false),
        decreases recs@.len() - k,
    {
        let rec = &recs[k];
        let c = rec.count as i64;
        proof {
            assert(rv.subrange(0, k + 1).drop_last() =~= rv.subrange(0, k as int));
            assert(rv.subrange(0, k + 1).last() == rec@);
        }
        if is_pass(&rec.policy_evaluated_dkim) {
            s.dkim_passed = s.dkim_passed + c;
        } else {
            s.dkim_failed = s.dkim_failed + c;
        }
        if is_pass(&rec.policy_evaluated_spf) {
            s.spf_passed = s.spf_passed + c;
        } else {
            s.spf_failed = s.spf_failed + c;
        }
        k = k + 1;
    }
    assert(rv.subrange(0, recs@.len() as int) =~= rv);
    s
}

/// `s` with `x` placed before the first report that begins earlier than it.
pub open spec fn insert_by_date(s: Seq<ReportView>, x: ReportView) -> Seq<ReportView>
    decreases s.len(),
{
    if s.len() == 0 {
        seq![x]
    } else if s[0].date_begin < x.date_begin {
        seq![x] + s
    } else {
        seq![s[0]] + insert_by_date(s.drop_first(), x)
    }
}

/// The reports for `domain`, newest `date_begin` first; reports that begin
/// at the same time keep the order in which they were stored.
pub open spec fn reports_for_domain(rs: Seq<ReportView>, domain: Seq<char>) -> Seq<ReportView>
    decreases rs.len(),
{
    if rs.len() == 0 {
        Seq::empty()
    } else {
        let p = reports_for_domain(rs.drop_last(), domain);
        if rs.last().policy_domain == Some(domain) {
            insert_by_date(p, rs.last())
        } else {
            p
        }
    }
}

/// Newest `date_begin` first.
pub open spec fn newest_first(s: Seq<ReportView>) -> bool {
    forall|i: int, j: int| 0 <= i < j < s.len() ==> (#[trigger] s[i]).date_begin >= (#[trigger] s[j]).date_begin
}

proof fn lemma_insert_by_date_at(s: Seq<ReportView>, x: ReportView, j: int)
    requires
        0 <= j <= s.len(),
        forall|k: int| 0 <= k < j ==> (#[trigger] s[k]).date_begin >= x.date_begin,
        j == s.len() || s[j].date_begin < x.date_begin,
    ensures
        insert_by_date(s, x) == s.insert(j, x),
    decreases j,
{
    if j == 0 {
        if s.len() > 0 {
            assert(insert_by_date(s, x) =~= s.insert(j, x));
        } else {
            assert(insert_by_date(s, x) =~= s.insert(j, x));
        }
    } else {
        let t = s.drop_first();
        assert forall|k: int| 0 <= k < j - 1 implies (#[trigger] t[k]).date_begin >= x.date_begin by {
            assert(t[k] == s[k + 1]);
        }
        assert(s[0].date_begin >= x.date_begin);
        lemma_insert_by_date_at(t, x, j - 1);
        assert(insert_by_date(s, x) =~= s.insert(j, x));
    }
}

proof fn lemma_insert_keeps_order(s: Seq<ReportView>, x: ReportView, j: int)
    requires
        newest_first(s),
        0 <= j <= s.len(),
        forall|k: int| 0 <= k < j ==> (#[trigger] s[k]).date_begin >= x.date_begin,
        j == s.len() || s[j].date_begin < x.date_begin,
    ensures
        newest_first(s.insert(j, x)),
{
    let n = s.insert(j, x);
    assert forall|a: int, b: int| 0 <= a < b < n.len() implies (#[trigger] n[a]).date_begin >= (#[trigger] n[b]).date_begin by {
        if a < j && b == j {
        } else if a < j && b > j {
            assert(s[a].date_begin >= s[b - 1].date_begin);
        } else if a == j {
            assert(s[j].date_begin >= s[b - 1].date_begin);
        } else if a > j {
            assert(s[a - 1].date_begin >= s[b - 1].date_begin);
        } else {
            assert(s[a].date_begin >= s[b].date_begin);
        }
    }
}

/// Two strictly sorted lists of the same domains are the same list.
pub proof fn lemma_sorted_domains_unique(a: Seq<Seq<char>>, b: Seq<Seq<char>>)
    requires
        sorted_domains(a),
        sorted_domains(b),
        a.to_set() == b.to_set(),
    ensures
        a == b,
    decreases a.len(),
{
    if a.len() == 0 || b.len() == 0 {
        if a.len() > 0 {
            assert(a.contains(a[0]));
            assert(b.to_set().contains(a[0]));
            let q = choose|q: int| 0 <= q < b.len() && b[q] == a[0];
            assert(false);
        }
        if b.len() > 0 {
            assert(b.contains(b[0]));
            assert(a.to_set().contains(b[0]));
            let q = choose|q: int| 0 <= q < a.len() && a[q] == b[0];
            assert(false);
        }
        assert(a =~= b);
    } else {
        assert(a.to_set().contains(a[0]));
        assert(b.to_set().contains(b[0]));
        let k = choose|k: int| 0 <= k < b.len() && b[k] == a[0];
        let m = choose|m: int| 0 <= m < a.len() && a[m] == b[0];
        if k > 0 && m > 0 {
            assert(str_lt(b[0], a[0]));
            assert(str_lt(a[0], b[0]));
            lemma_str_lt_transitive(a[0], b[0], a[0]);
            lemma_str_lt_irreflexive(a[0]);
        }
        assert(a[0] == b[0]);
        let a1 = a.drop_first();
        let b1 = b.drop_first();
        assert forall|x: Seq<char>| a1.contains(x) implies b1.contains(x) by {
            let j = choose|j: int| 0 <= j < a1.len() && a1[j] == x;
            assert(str_lt(a[0], a[j + 1]));
            lemma_str_lt_irreflexive(x);
            assert(a.to_set().contains(x));
            let q = choose|q: int| 0 <= q < b.len() && b[q] == x;
            assert(q != 0);
            assert(b1[q - 1] == x);
        }
        assert forall|x: Seq<char>| b1.contains(x) implies a1.contains(x) by {
            let j = choose|j: int| 0 <= j < b1.len() && b1[j] == x;
            assert(str_lt(b[0], b[j + 1]));
            lemma_str_lt_irreflexive(x);
            assert(b.to_set().contains(x));
            let q = choose|q: int| 0 <= q < a.len() && a[q] == x;
            assert(q != 0);
            assert(a1[q - 1] == x);
        }
        assert(a1.to_set() =~= b1.to_set());
        assert forall|i: int, j: int| 0 <= i < j < a1.len() implies str_lt(#[trigger] a1[i], #[trigger] a1[j]) by {
            assert(a1[i] == a[i + 1] && a1[j] == a[j + 1]);
        }
        assert forall|i: int, j: int| 0 <= i < j < b1.len() implies str_lt(#[trigger] b1[i], #[trigger] b1[j]) by {
            assert(b1[i] == b[i + 1] && b1[j] == b[j + 1]);
        }
        lemma_sorted_domains_unique(a1, b1);
        assert forall|i: int| 0 <= i < a.len() implies a[i] == b[i] by {
            if i > 0 {
                assert(a[i] == a1[i - 1]);
                assert(b[i] == b1[i - 1]);
            }
        }
        assert(a =~= b);
    }
}

/// The statistics list one entry for each domain that `get_domains` lists,
/// in the same order, whatever reports there are.
pub proof fn stats_cover_domains(v: DbView, domains: Seq<Seq<char>>, stats: Seq<DomainStats>)
    requires
        sorted_domains(domains),
        domains.to_set() == v.domains,
        sorted_domains(stats_domains(stats)),
        stats_domains(stats).to_set() == v.domains,
    ensures
        stats_domains(stats) == domains,
{
    lemma_sorted_domains_unique(stats_domains(stats), domains);
}

/// A report that begins exactly `w` days before `now` is inside the window of
/// `w` days; one that begins a day earlier still is outside it.
pub proof fn window_boundary(now: i64, w: u16)
    requires
        now - (w + 1) * 86400 >= i64::MIN,
    ensures
        in_window((now - w * 86400) as i64, now, w),
        !in_window((now - (w + 1) * 86400) as i64, now, w),
{
    let q = (now as int) / 86400;
    let rm = (now as int) % 86400;
    vstd::arithmetic::div_mod::lemma_fundamental_div_mod(now as int, 86400);
    vstd::arithmetic::div_mod::lemma_fundamental_div_mod_converse(
        now - w * 86400,
        86400,
        q - w,
        rm,
    );
    vstd::arithmetic::div_mod::lemma_fundamental_div_mod_converse(
        now - (w + 1) * 86400,
        86400,
        q - w - 1,
        rm,
    );
}

/// An in-memory report store.
pub struct DB {
    reports: Vec<Report>,
    domains: Vec<String>,
    n_records: usize,
    max_records: usize,
}

impl View for DB {
    type V = DbView;

    closed spec fn view(&self) -> DbView {
        DbView {
            reports: self.reports@.map_values(|r: Report| r@),
            domains: str_views(self.domains@).to_set(),
            max_records: self.max_records as nat,
        }
    }
}

impl DB {
    /// The store's invariants.
    pub closed spec fn wf(&self) -> bool {
        &&& valid(self@)
        &&& self.n_records == total_records(self@.reports)
        &&& sorted_domains(str_views(self.domains@))
    }

    /// A well-formed store satisfies the invariants of `valid`: unique
    /// report ids, every report's policy domain indexed, records that fit.
    pub proof fn lemma_wf_valid(&self)
        requires
            self.wf(),
        ensures
            valid(self@),
    {
    }

    /// An empty store that holds up to `MAX_RECORDS` records.
    pub fn new() -> (r: DB)
        ensures
            r.wf(),
            r@.reports.len() == 0,
            r@.domains.is_empty(),
            r@.max_records == MAX_RECORDS,
    {
        DB::with_capacity(MAX_RECORDS)
    }

    /// An empty store that holds up to `max_records` records.
    pub fn with_capacity(max_records: usize) -> (r: DB)
        requires
            max_records <= MAX_RECORDS,
        ensures
            r.wf(),
            r@.reports.len() == 0,
            r@.domains.is_empty(),
            r@.max_records == max_records,
    {
        let r = DB { reports: Vec::new(), domains: Vec::new(), n_records: 0, max_records };
        assert(r@.reports =~= Seq::<ReportView>::empty());
        assert(r@.domains =~= Set::<Seq<char>>::empty());
        r
    }

    /// Adds `d` to the domain index, keeping it sorted.
    fn index_domain(&mut self, d: &String)
        requires
            old(self).wf(),
        ensures
            final(self).wf(),
            final(self)@ == (DbView { domains: old(self)@.domains.insert(d@), ..old(self)@ }),
    {
        let ghost old_views = str_views(self.domains@);
        let mut i: usize = 0;
        while i < self.domains.len() && str_less(self.domains[i].as_str(), d.as_str())
            invariant
                i <= self.domains@.len(),
                self.domains@ == old(self).domains@,
                forall|j: int| 0 <= j < i ==> str_lt(#[trigger] self.domains@[j]@, d@),
            decreases self.domains@.len() - i,
        {
            i = i + 1;
        }
        if i < self.domains.len() && str_eq(&self.domains[i], d) {
            proof {
                assert(old_views[i as int] == d@);
                assert(old_views.to_set() =~= old_views.to_set().insert(d@));
            }
            return;
        }
        self.domains.insert(i, d.clone());
        proof {
            let nv = str_views(self.domains@);
            assert(nv =~= old_views.insert(i as int, d@));
            if i < old_views.len() {
                lemma_str_lt_total(old_views[i as int], d@);
            }
            assert forall|j: int, k: int| 0 <= j < k < nv.len() implies str_lt(
                #[trigger] nv[j],
                #[trigger] nv[k],
            ) by {
                if j < i && k == i {
                } else if j < i && k > i {
                    assert(str_lt(old_views[j], d@));
                    if i < old_views.len() {
                        assert(str_lt(d@, old_views[i as int]));
                        if k - 1 > i {
                            assert(str_lt(old_views[i as int], old_views[k - 1]));
                            lemma_str_lt_transitive(d@, old_views[i as int], old_views[k - 1]);
                        }
                        lemma_str_lt_transitive(old_views[j], d@, old_views[k - 1]);
                    }
                } else if j == i {
                    assert(str_lt(d@, old_views[i as int]));
                    if k - 1 > i {
                        assert(str_lt(old_views[i as int], old_views[k - 1]));
                        lemma_str_lt_transitive(d@, old_views[i as int], old_views[k - 1]);
                    }
                } else if j > i {
                    assert(str_lt(old_views[j - 1], old_views[k - 1]));
                } else {
                    assert(str_lt(old_views[j], old_views[k]));
                }
            }
            assert(nv.to_set() =~= old_views.to_set().insert(d@)) by {
                assert forall|x: Seq<char>| nv.contains(x) implies old_views.contains(x)
                    || x == d@ by {
                    let k = choose|k: int| 0 <= k < nv.len() && nv[k] == x;
                    if k < i {
                        assert(old_views[k] == x);
                    } else if k > i {
                        assert(old_views[k - 1] == x);
                    }
                }
                assert forall|x: Seq<char>| old_views.contains(x) implies nv.contains(x) by {
                    let k = choose|k: int| 0 <= k < old_views.len() && old_views[k] == x;
                    if k < i {
                        assert(nv[k] == x);
                    } else {
                        assert(nv[k + 1] == x);
                    }
                }
                assert(nv[i as int] == d@);
            }
            assert(self@.reports == old(self)@.reports);
            let v = self@;
            assert forall|j: int| 0 <= j < v.reports.len() implies (#[trigger] v.reports[j]).policy_domain is Some
                && v.domains.contains(v.reports[j].policy_domain->Some_0) by {
                assert(old(self)@.reports[j] == v.reports[j]);
            }
        }
    }

    proof fn lemma_find(&self, id: Seq<char>, i: int)
        requires
            0 <= i <= self.reports@.len(),
            forall|j: int| 0 <= j < i ==> (#[trigger] self.reports@[j])@.report_id != id,
            i == self.reports@.len(),
        ensures
            !has_report(self@.reports, id),
    {
        if has_report(self@.reports, id) {
            let k = choose|k: int| 0 <= k < self@.reports.len() && #[trigger] self@.reports[k].report_id == id;
            assert(self.reports@[k]@.report_id == id);
        }
    }

    /// Stores `report` with all its records, unless a report with its id is
    /// stored already; see `insert_effect`.
    pub fn insert_report(&mut self, report: &Report) -> (r: Result<InsertOutcome, StoreError>)
        requires
            old(self).wf(),
        ensures
            final(self).wf(),
            (final(self)@, r) == insert_effect(old(self)@, report@),
    {
        let d = match &report.policy_domain {
            Some(d) => d,
            None => {
                return Err(StoreError::MissingPolicyDomain);
            },
        };
        self.index_domain(d);
        let ghost v1 = self@;
        let mut i: usize = 0;
        while i < self.reports.len()
            invariant
                self.wf(),
                self@ == v1,
                v1 == (DbView { domains: old(self)@.domains.insert(d@), ..old(self)@ }),
                report@.policy_domain == Some(d@),
                i <= self.reports@.len(),
                forall|j: int| 0 <= j < i ==> (#[trigger] self.reports@[j])@.report_id != report@.report_id,
            decreases self.reports@.len() - i,
        {
            if str_eq(&self.reports[i].report_id, &report.report_id) {
                proof {
                    assert(self@.reports[i as int].report_id == report@.report_id);
                    assert(old(self)@.reports == v1.reports);
                    assert(has_report(old(self)@.reports, report@.report_id));
                }
                return Ok(InsertOutcome::AlreadyExists);
            }
            i = i + 1;
        }
        proof {
            self.lemma_find(report@.report_id, i as int);
        }
        if report.records.len() > self.max_records - self.n_records {
            return Err(StoreError::TransactionFailed);
        }
        let copy = report.duplicate();
        self.reports.push(copy);
        self.n_records = self.n_records + report.records.len();
        proof {
            let nv = self@;
            assert(nv.reports =~= v1.reports.push(report@));
            lemma_total_records_push(v1.reports, report@);
            assert forall|a: int, b: int|
                #![trigger nv.reports[a], nv.reports[b]]
                0 <= a < nv.reports.len() && 0 <= b < nv.reports.len() && a != b
                    implies nv.reports[a].report_id != nv.reports[b].report_id by {
                if a < v1.reports.len() && b < v1.reports.len() {
                    assert(v1.reports[a] == nv.reports[a]);
                    assert(v1.reports[b] == nv.reports[b]);
                } else if a < v1.reports.len() {
                    assert(self.reports@[a]@.report_id != report@.report_id);
                } else {
                    assert(self.reports@[b]@.report_id != report@.report_id);
                }
            }
            assert forall|a: int| 0 <= a < nv.reports.len() implies (#[trigger] nv.reports[a]).policy_domain is Some
                && nv.domains.contains(nv.reports[a].policy_domain->Some_0) by {
                if a < v1.reports.len() {
                    assert(v1.reports[a] == nv.reports[a]);
                }
            }
        }
        Ok(InsertOutcome::Inserted)
    }

    /// All indexed domains, in lexicographic order.
    pub fn get_domains(&self) -> (r: Vec<String>)
        requires
            self.wf(),
        ensures
            sorted_domains(str_views(r@)),
            str_views(r@).to_set() == self@.domains,
    {
        let mut r: Vec<String> = Vec::new();
        let mut i: usize = 0;
        while i < self.domains.len()
            invariant
                i <= self.domains@.len(),
                r@ == self.domains@.subrange(0, i as int),
            decreases self.domains@.len() - i,
        {
            r.push(self.domains[i].clone());
            i = i + 1;
        }
        assert(r@ =~= self.domains@);
        r
    }

    /// The four counters of `domain` over the reports that begin on day
    /// `start_day` or later.
    fn domain_stats(&self, domain: &String, start_day: i64, now: i64, last_days: u16) -> (r: BasicStats)
        requires
            self.wf(),
            start_day == day_of(now as int) - last_days,
        ensures
            stats_match(r, self@, domain@, now, last_days),
    {
        let ghost rs = self@.reports;
        let mut s = BasicStats { dkim_passed: 0, spf_passed: 0, dkim_failed: 0, spf_failed: 0 };
        let mut i: usize = 0;
        while i < self.reports.len()
            invariant
                self.wf(),
                rs == self@.reports,
                start_day == day_of(now as int) - last_days,
                i <= rs.len(),
                bounded(s, total_records(rs.subrange(0, i as int)) as int),
                s.dkim_passed == window_sum(rs.subrange(0, i as int), domain@, now, last_days, true, true),
                s.spf_passed == window_sum(rs.subrange(0, i as int), domain@, now, last_days, false, true),
                s.dkim_failed == window_sum(rs.subrange(0, i as int), domain@, now, last_days, true, false),
                s.spf_failed == window_sum(rs.subrange(0, i as int), domain@, now, last_days, false, false),
            decreases rs.len() - i,
        {
            let rep = &self.reports[i];
            proof {
                lemma_total_records_prefix(rs, i as int);
                assert(rs.subrange(0, i + 1).drop_last() =~= rs.subrange(0, i as int));
                assert(rs.subrange(0, i + 1).last() == rep@);
                assert(rs[i as int] == rep@);
            }
            let same = match &rep.policy_domain {
                Some(d) => str_eq(d, domain),
                None => false,
            };
            if same && day_number(rep.date_begin) >= start_day {
                let add = record_sums(&rep.records);
                s.dkim_passed = s.dkim_passed + add.dkim_passed;
                s.spf_passed = s.spf_passed + add.spf_passed;
                s.dkim_failed = s.dkim_failed + add.dkim_failed;
                s.spf_failed = s.spf_failed + add.spf_failed;
            }
            i = i + 1;
        }
        assert(rs.subrange(0, rs.len() as int) =~= rs);
        s
    }

    /// For every indexed domain, in lexicographic order, the counts of
    /// passing and failing DKIM and SPF verdicts over the reports for that
    /// domain that fall in the trailing window of `last_days` days before
    /// `now`. A domain without such reports has all counters at zero.
    pub fn get_basic_stats(&self, now: i64, last_days: u16) -> (r: Vec<DomainStats>)
        requires
            self.wf(),
        ensures
            sorted_domains(stats_domains(r@)),
            stats_domains(r@).to_set() == self@.domains,
            forall|i: int|
                0 <= i < r@.len() ==> stats_match(#[trigger] r@[i].stats, self@, r@[i].domain@, now, last_days),
    {
        let start_day = day_number(now) - last_days as i64;
        let mut r: Vec<DomainStats> = Vec::new();
        let mut i: usize = 0;
        while i < self.domains.len()
            invariant
                self.wf(),
                start_day == day_of(now as int) - last_days,
                i <= self.domains@.len(),
                stats_domains(r@) == str_views(self.domains@).subrange(0, i as int),
                forall|j: int|
                    0 <= j < r@.len() ==> stats_match(#[trigger] r@[j].stats, self@, r@[j].domain@, now, last_days),
            decreases self.domains@.len() - i,
        {
            let stats = self.domain_stats(&self.domains[i], start_day, now, last_days);
            let ghost before = r@;
            r.push(DomainStats { domain: self.domains[i].clone(), stats });
            proof {
                assert(stats_domains(r@) =~= stats_domains(before).push(self.domains@[i as int]@));
                assert(str_views(self.domains@).subrange(0, i + 1) =~= str_views(self.domains@).subrange(0, i as int).push(self.domains@[i as int]@));
                assert forall|j: int| 0 <= j < r@.len() implies stats_match(#[trigger] r@[j].stats, self@, r@[j].domain@, now, last_days) by {
                    if j < before.len() {
                        assert(r@[j] == before[j]);
                    }
                }
            }
            i = i + 1;
        }
        assert(str_views(self.domains@).subrange(0, self.domains@.len() as int) =~= str_views(self.domains@));
        r
    }

    /// The stored report with id `report_id`, with all its records, or
    /// `None` where there is none.
    pub fn get_report(&self, report_id: &String) -> (r: Option<Report>)
        requires
            self.wf(),
        ensures
            r is None <==> !has_report(self@.reports, report_id@),
            r matches Some(rep) ==> exists|i: int|
                0 <= i < self@.reports.len() && self@.reports[i] == rep@ && #[trigger] self@.reports[i].report_id == report_id@,
    {
        let mut i: usize = 0;
        while i < self.reports.len()
            invariant
                i <= self.reports@.len(),
                forall|j: int| 0 <= j < i ==> (#[trigger] self.reports@[j])@.report_id != report_id@,
            decreases self.reports@.len() - i,
        {
            if str_eq(&self.reports[i].report_id, report_id) {
                let rep = self.reports[i].duplicate();
                assert(self@.reports[i as int] == rep@);
                assert(self@.reports[i as int].report_id == report_id@);
                assert(has_report(self@.reports, report_id@));
                return Some(rep);
            }
            i = i + 1;
        }
        proof {
            self.lemma_find(report_id@, i as int);
        }
        None
    }

    /// The stored reports for `domain`, newest `date_begin` first, with all
    /// their records; see `reports_for_domain`.
    pub fn get_all_reports_for_domain(&self, domain: &String) -> (r: Vec<Report>)
        requires
            self.wf(),
        ensures
            r@.map_values(|x: Report| x@) == reports_for_domain(self@.reports, domain@),
            newest_first(reports_for_domain(self@.reports, domain@)),
    {
        let ghost rs = self@.reports;
        let mut out: Vec<Report> = Vec::new();
        let mut i: usize = 0;
        while i < self.reports.len()
            invariant
                rs == self@.reports,
                i <= rs.len(),
                out@.map_values(|x: Report| x@) == reports_for_domain(rs.subrange(0, i as int), domain@),
                newest_first(reports_for_domain(rs.subrange(0, i as int), domain@)),
            decreases rs.len() - i,
        {
            let rep = &self.reports[i];
            proof {
                assert(rs.subrange(0, i + 1).drop_last() =~= rs.subrange(0, i as int));
                assert(rs.subrange(0, i + 1).last() == rep@);
            }
            let same = match &rep.policy_domain {
                Some(d) => str_eq(d, domain),
                None => false,
            };
            if same {
                let ghost before = out@.map_values(|x: Report| x@);
                let mut j: usize = 0;
                while j < out.len() && out[j].date_begin >= rep.date_begin
                    invariant
                        j <= out@.len(),
                        before == out@.map_values(|x: Report| x@),
                        forall|k: int| 0 <= k < j ==> (#[trigger] before[k]).date_begin >= rep.date_begin,
                    decreases out@.len() - j,
                {
                    j = j + 1;
                }
                proof {
                    lemma_insert_by_date_at(before, rep@, j as int);
                    lemma_insert_keeps_order(before, rep@, j as int);
                }
                out.insert(j, rep.duplicate());
                assert(out@.map_values(|x: Report| x@) =~= before.insert(j as int, rep@));
            }
            i = i + 1;
        }
        assert(rs.subrange(0, rs.len() as int) =~= rs);
        out
    }

    /// The number of stored reports.
    pub fn report_count(&self) -> (r: usize)
        ensures
            r == self@.reports.len(),
    {
        self.reports.len()
    }

    /// The number of stored records, over all reports.
    pub fn record_count(&self) -> (r: usize)
        requires
            self.wf(),
        ensures
            r == total_records(self@.reports),
    {
        self.n_records
    }
}

} // verus!
