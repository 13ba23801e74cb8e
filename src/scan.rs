//! The decisions of a mailbox scan: what becomes of each message, and the
//! summary of the whole pass.
use vstd::prelude::*;
use crate::extract::SkipReason;
use crate::report::{normalized_report, Report, ReportView};
use crate::schema::Feedback;
use crate::store::{insert_effect, DbView, InsertOutcome, StoreError, DB};
use crate::text::{opt_str, str_eq};

verus! {

/// Reports freshly stored for one domain during a scan.
#[derive(Debug, Clone, PartialEq)]
pub struct DomainCount {
    pub domain: String,
    pub count: u64,
}

/// A message that the scan skipped, and why.
#[derive(Debug, Clone, PartialEq)]
pub struct Skipped {
    pub message_id: Option<String>,
    pub reason: SkipReason,
}

/// What became of one message.
#[derive(Debug, Clone, Copy, PartialEq, Eq, Structural)]
pub enum Disposition {
    /// Its report was stored.
    Stored,
    /// Its report had been stored before.
    Duplicate,
    /// It was skipped.
    Skipped(SkipReason),
}

/// The outcome of a scan: fresh reports per domain, in the order the
/// domains were first seen, every skipped message, and the totals.
#[derive(Debug, Clone, PartialEq)]
pub struct ScanSummary {
    pub per_domain_counts: Vec<DomainCount>,
    pub skipped: Vec<Skipped>,
    pub duplicates: u64,
    pub processed: u64,
}

pub struct SummaryView {
    pub counts: Seq<(Seq<char>, u64)>,
    pub skipped: Seq<(Option<Seq<char>>, SkipReason)>,
    pub duplicates: u64,
    pub processed: u64,
}

impl View for ScanSummary {
    type V = SummaryView;

    open spec fn view(&self) -> SummaryView {
        SummaryView {
            counts: self.per_domain_counts@.map_values(|c: DomainCount| (c.domain@, c.count)),
            skipped: self.skipped@.map_values(|s: Skipped| (opt_str(s.message_id), s.reason)),
            duplicates: self.duplicates,
            processed: self.processed,
        }
    }
}

/// One more, where it still fits.
pub open spec fn inc(x: u64) -> u64 {
    if x < u64::MAX {
        (x + 1) as u64
    } else {
        x
    }
}

/// The counts with one more report for `d`.
pub open spec fn bump(c: Seq<(Seq<char>, u64)>, d: Seq<char>) -> Seq<(Seq<char>, u64)>
    decreases c.len(),
{
    if c.len() == 0 {
        seq![(d, 1u64)]
    } else if c[0].0 == d {
        c.update(0, (d, inc(c[0].1)))
    } else {
        seq![c[0]] + bump(c.drop_first(), d)
    }
}

proof fn lemma_bump_split(c: Seq<(Seq<char>, u64)>, d: Seq<char>, i: int)
    requires
        0 <= i <= c.len(),
        forall|j: int| 0 <= j < i ==> (#[trigger] c[j]).0 != d,
    ensures
        bump(c, d) == c.subrange(0, i) + bump(c.subrange(i, c.len() as int), d),
    decreases i,
{
    if i == 0 {
        assert(c.subrange(0, c.len() as int) =~= c);
        assert(c.subrange(0, 0) + bump(c, d) =~= bump(c, d));
    } else {
        let t = c.drop_first();
        assert forall|j: int| 0 <= j < i - 1 implies (#[trigger] t[j]).0 != d by {
            assert(t[j] == c[j + 1]);
        }
        lemma_bump_split(t, d, i - 1);
        assert(t.subrange(i - 1, t.len() as int) =~= c.subrange(i, c.len() as int));
        assert(c.subrange(0, i) =~= seq![c[0]] + t.subrange(0, i - 1));
        assert(bump(c, d) =~= c.subrange(0, i) + bump(c.subrange(i, c.len() as int), d));
    }
}

/// The summary of a scan and the store after one more message: its
/// report `r` where it yielded one, or the reason it was skipped.
pub open spec fn ingest_effect(
    s: SummaryView,
    db: DbView,
    message_id: Option<Seq<char>>,
    r: Result<ReportView, SkipReason>,
) -> (SummaryView, DbView, Result<Disposition, StoreError>) {
    let counted = SummaryView { processed: inc(s.processed), ..s };
    match r {
        Err(reason) => (
            SummaryView { skipped: s.skipped.push((message_id, reason)), ..counted },
            db,
            Ok(Disposition::Skipped(reason)),
        ),
        Ok(rep) => {
            let (db2, res) = insert_effect(db, rep);
            match res {
                Ok(InsertOutcome::Inserted) => (
                    SummaryView { counts: bump(s.counts, rep.policy_domain->Some_0), ..counted },
                    db2,
                    Ok(Disposition::Stored),
                ),
                Ok(InsertOutcome::AlreadyExists) => (
                    SummaryView { duplicates: inc(s.duplicates), ..counted },
                    db2,
                    Ok(Disposition::Duplicate),
                ),
                Err(StoreError::MissingPolicyDomain) => (
                    SummaryView {
                        skipped: s.skipped.push((message_id, SkipReason::MalformedReport)),
                        ..counted
                    },
                    db2,
                    Ok(Disposition::Skipped(SkipReason::MalformedReport)),
                ),
                Err(StoreError::TransactionFailed) => (s, db2, Err(StoreError::TransactionFailed)),
            }
        },
    }
}

/// The report that a parsed document yields, or the reason the message was skipped.
pub open spec fn parsed_report(parsed: Result<(Feedback, Vec<u8>), SkipReason>) -> Result<
    ReportView,
    SkipReason,
> {
    match parsed {
        Ok((f, blob)) => Ok(normalized_report(f, Some(blob@))),
        Err(e) => Err(e),
    }
}

fn inc_exec(x: u64) -> (r: u64)
    ensures
        r == inc(x),
{
    if x < u64::MAX {
        x + 1
    } else {
        x
    }
}

impl ScanSummary {
    /// The summary of a scan that has seen no message yet.
    pub fn new() -> (r: Self)
        ensures
            r@.counts.len() == 0,
            r@.skipped.len() == 0,
            r@.duplicates == 0,
            r@.processed == 0,
    {
        ScanSummary { per_domain_counts: Vec::new(), skipped: Vec::new(), duplicates: 0, processed: 0 }
    }

    fn count_domain(&mut self, d: &String)
        ensures
            final(self)@ == (SummaryView { counts: bump(old(self)@.counts, d@), ..old(self)@ }),
    {
        let ghost c = old(self)@.counts;
        let n = self.per_domain_counts.len();
        let mut i: usize = 0;
        while i < n && !str_eq(&self.per_domain_counts[i].domain, d)
            invariant
                n == self.per_domain_counts@.len(),
                self@ == old(self)@,
                c == old(self)@.counts,
                i <= n,
                forall|j: int| 0 <= j < i ==> (#[trigger] c[j]).0 != d@,
            decreases n - i,
        {
            i = i + 1;
        }
        proof {
            lemma_bump_split(c, d@, i as int);
        }
        if i < n {
            let cur = self.per_domain_counts[i].count;
            let ghost before = self.per_domain_counts@;
            self.per_domain_counts.set(i, DomainCount { domain: d.clone(), count: inc_exec(cur) });
            proof {
                assert(c.subrange(i as int, n as int)[0] == c[i as int]);
                assert(self@.counts =~= c.subrange(0, i as int) + bump(c.subrange(i as int, n as int), d@));
            }
        } else {
            self.per_domain_counts.push(DomainCount { domain: d.clone(), count: 1 });
            proof {
                assert(c.subrange(i as int, n as int) =~= Seq::<(Seq<char>, u64)>::empty());
                assert(self@.counts =~= c.subrange(0, i as int) + bump(c.subrange(i as int, n as int), d@));
            }
        }
    }

    /// Takes one message of the scan into account: `parsed` is its document
    /// and the document's source where it yielded one, or the reason it was
    /// skipped. The report is normalized and stored; a report without a
    /// policy domain skips the message as malformed. A failed transaction
    /// is fatal to the scan and leaves the summary as it was; see
    /// `ingest_effect`.
    pub fn ingest(
        &mut self,
        db: &mut DB,
        message_id: Option<String>,
        parsed: Result<(Feedback, Vec<u8>), SkipReason>,
    ) -> (r: Result<Disposition, StoreError>)
        requires
            old(db).wf(),
        ensures
            final(db).wf(),
            (final(self)@, final(db)@, r) == ingest_effect(
                old(self)@,
                old(db)@,
                opt_str(message_id),
                parsed_report(parsed),
            ),
    {
        match parsed {
            Err(reason) => {
                self.processed = inc_exec(self.processed);
                self.skipped.push(Skipped { message_id, reason });
                assert(self@.skipped =~= old(self)@.skipped.push((opt_str(message_id), reason)));
                Ok(Disposition::Skipped(reason))
            },
            Ok((feedback, blob)) => {
                let report = Report::from_with_blob(feedback, Some(blob));
                match db.insert_report(&report) {
                    Ok(InsertOutcome::Inserted) => {
                        self.processed = inc_exec(self.processed);
                        match &report.policy_domain {
                            Some(d) => self.count_domain(d),
                            None => {},
                        }
                        Ok(Disposition::Stored)
                    },
                    Ok(InsertOutcome::AlreadyExists) => {
                        self.processed = inc_exec(self.processed);
                        self.duplicates = inc_exec(self.duplicates);
                        Ok(Disposition::Duplicate)
                    },
                    Err(StoreError::MissingPolicyDomain) => {
                        self.processed = inc_exec(self.processed);
                        self.skipped.push(Skipped { message_id, reason: SkipReason::MalformedReport });
                        assert(self@.skipped =~= old(self)@.skipped.push(
                            (opt_str(message_id), SkipReason::MalformedReport),
                        ));
                        Ok(Disposition::Skipped(SkipReason::MalformedReport))
                    },
                    Err(StoreError::TransactionFailed) => Err(StoreError::TransactionFailed),
                }
            },
        }
    }
}

} // verus!
