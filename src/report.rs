//! The canonical report model and the normalization that produces it.
use vstd::prelude::*;
use crate::schema;
use crate::text::{copy_opt_bytes, copy_opt_str, opt_bytes, opt_str};

verus! {

/// A stored DMARC aggregate report, with the records that belong to it.
#[derive(Debug, Clone, PartialEq)]
pub struct Report {
    pub blob: Option<Vec<u8>>,
    pub org_name: String,
    pub email: String,
    pub extra_contact_info: Option<String>,
    pub report_id: String,
    pub date_begin: i64,
    pub date_end: i64,
    pub policy_domain: Option<String>,
    pub policy_adkim: Option<String>,
    pub policy_aspf: Option<String>,
    pub policy_p: Option<String>,
    pub policy_sp: Option<String>,
    pub policy_pct: Option<i8>,
    pub records: Vec<Record>,
}

/// The outcomes for one source address, with at most one DKIM and one SPF result.
#[derive(Debug, Clone, PartialEq)]
pub struct Record {
    pub source_ip: String,
    pub count: i32,
    pub policy_evaluated_disposition: String,
    pub policy_evaluated_dkim: String,
    pub policy_evaluated_spf: String,
    pub identifiers_header_from: String,
    pub auth_results_dkim_domain: Option<String>,
    pub auth_results_dkim_result: Option<String>,
    pub auth_results_dkim_selector: Option<String>,
    pub auth_results_spf_domain: Option<String>,
    pub auth_results_spf_result: Option<String>,
}

/// The mathematical value of a `Record`.
pub struct RecordView {
    pub source_ip: Seq<char>,
    pub count: i32,
    pub policy_evaluated_disposition: Seq<char>,
    pub policy_evaluated_dkim: Seq<char>,
    pub policy_evaluated_spf: Seq<char>,
    pub identifiers_header_from: Seq<char>,
    pub auth_results_dkim_domain: Option<Seq<char>>,
    pub auth_results_dkim_result: Option<Seq<char>>,
    pub auth_results_dkim_selector: Option<Seq<char>>,
    pub auth_results_spf_domain: Option<Seq<char>>,
    pub auth_results_spf_result: Option<Seq<char>>,
}

/// The mathematical value of a `Report`.
pub struct ReportView {
    pub blob: Option<Seq<u8>>,
    pub org_name: Seq<char>,
    pub email: Seq<char>,
    pub extra_contact_info: Option<Seq<char>>,
    pub report_id: Seq<char>,
    pub date_begin: i64,
    pub date_end: i64,
    pub policy_domain: Option<Seq<char>>,
    pub policy_adkim: Option<Seq<char>>,
    pub policy_aspf: Option<Seq<char>>,
    pub policy_p: Option<Seq<char>>,
    pub policy_sp: Option<Seq<char>>,
    pub policy_pct: Option<i8>,
    pub records: Seq<RecordView>,
}

impl View for Record {
    type V = RecordView;

    open spec fn view(&self) -> RecordView {
        RecordView {
            source_ip: self.source_ip@,
            count: self.count,
            policy_evaluated_disposition: self.policy_evaluated_disposition@,
            policy_evaluated_dkim: self.policy_evaluated_dkim@,
            policy_evaluated_spf: self.policy_evaluated_spf@,
            identifiers_header_from: self.identifiers_header_from@,
            auth_results_dkim_domain: opt_str(self.auth_results_dkim_domain),
            auth_results_dkim_result: opt_str(self.auth_results_dkim_result),
            auth_results_dkim_selector: opt_str(self.auth_results_dkim_selector),
            auth_results_spf_domain: opt_str(self.auth_results_spf_domain),
            auth_results_spf_result: opt_str(self.auth_results_spf_result),
        }
    }
}

impl View for Report {
    type V = ReportView;

    open spec fn view(&self) -> ReportView {
        ReportView {
            blob: opt_bytes(self.blob),
            org_name: self.org_name@,
            email: self.email@,
            extra_contact_info: opt_str(self.extra_contact_info),
            report_id: self.report_id@,
            date_begin: self.date_begin,
            date_end: self.date_end,
            policy_domain: opt_str(self.policy_domain),
            policy_adkim: opt_str(self.policy_adkim),
            policy_aspf: opt_str(self.policy_aspf),
            policy_p: opt_str(self.policy_p),
            policy_sp: opt_str(self.policy_sp),
            policy_pct: self.policy_pct,
            records: self.records@.map_values(|r: Record| r@),
        }
    }
}

/// The DKIM result that a record keeps: the first of the list, if there is one.
pub open spec fn first_dkim(a: schema::AuthResults) -> Option<schema::Dkim> {
    match a.dkim {
        Some(v) => if v@.len() > 0 {
            Some(v@[0])
        } else {
            None
        },
        None => None,
    }
}

/// The canonical form of a raw record. A missing DKIM or SPF block counts
/// as a block whose fields are all absent; of several DKIM results only the
/// first is kept.
pub open spec fn normalized_record(r: schema::Record) -> RecordView {
    RecordView {
        source_ip: r.row.source_ip@,
        count: r.row.count,
        policy_evaluated_disposition: r.row.policy_evaluated.disposition@,
        policy_evaluated_dkim: r.row.policy_evaluated.dkim@,
        policy_evaluated_spf: r.row.policy_evaluated.spf@,
        identifiers_header_from: r.identifiers.header_from@,
        auth_results_dkim_domain: match first_dkim(r.auth_results) {
            Some(d) => opt_str(d.domain),
            None => None,
        },
        auth_results_dkim_result: match first_dkim(r.auth_results) {
            Some(d) => opt_str(d.result),
            None => None,
        },
        auth_results_dkim_selector: match first_dkim(r.auth_results) {
            Some(d) => opt_str(d.selector),
            None => None,
        },
        auth_results_spf_domain: match r.auth_results.spf {
            Some(s) => opt_str(s.domain),
            None => None,
        },
        auth_results_spf_result: match r.auth_results.spf {
            Some(s) => opt_str(s.result),
            None => None,
        },
    }
}

/// The canonical report of a parsed document, keeping `blob` as its source text.
pub open spec fn normalized_report(f: schema::Feedback, blob: Option<Seq<u8>>) -> ReportView {
    ReportView {
        blob: blob,
        org_name: f.report_metadata.org_name@,
        email: f.report_metadata.email@,
        extra_contact_info: opt_str(f.report_metadata.extra_contact_info),
        report_id: f.report_metadata.report_id@,
        date_begin: f.report_metadata.date_range.begin,
        date_end: f.report_metadata.date_range.end,
        policy_domain: opt_str(f.policy_published.domain),
        policy_adkim: opt_str(f.policy_published.adkim),
        policy_aspf: opt_str(f.policy_published.aspf),
        policy_p: opt_str(f.policy_published.p),
        policy_sp: opt_str(f.policy_published.sp),
        policy_pct: f.policy_published.pct,
        records: f.record@.map_values(|r: schema::Record| normalized_record(r)),
    }
}

fn normalize_record(i: &schema::Record) -> (r: Record)
    ensures
        r@ == normalized_record(*i),
{
    let (dkim_domain, dkim_result, dkim_selector) = match &i.auth_results.dkim {
        Some(v) => if v.len() > 0 {
            (copy_opt_str(&v[0].domain), copy_opt_str(&v[0].result), copy_opt_str(&v[0].selector))
        } else {
            (None, None, None)
        },
        None => (None, None, None),
    };
    let (spf_domain, spf_result) = match &i.auth_results.spf {
        Some(s) => (copy_opt_str(&s.domain), copy_opt_str(&s.result)),
        None => (None, None),
    };
    Record {
        source_ip: i.row.source_ip.clone(),
        count: i.row.count,
        policy_evaluated_disposition: i.row.policy_evaluated.disposition.clone(),
        policy_evaluated_dkim: i.row.policy_evaluated.dkim.clone(),
        policy_evaluated_spf: i.row.policy_evaluated.spf.clone(),
        identifiers_header_from: i.identifiers.header_from.clone(),
        auth_results_dkim_domain: dkim_domain,
        auth_results_dkim_result: dkim_result,
        auth_results_dkim_selector: dkim_selector,
        auth_results_spf_domain: spf_domain,
        auth_results_spf_result: spf_result,
    }
}

impl Record {
    /// A copy of the record.
    pub fn duplicate(&self) -> (r: Record)
        ensures
            r@ == self@,
    {
        Record {
            source_ip: self.source_ip.clone(),
            count: self.count,
            policy_evaluated_disposition: self.policy_evaluated_disposition.clone(),
            policy_evaluated_dkim: self.policy_evaluated_dkim.clone(),
            policy_evaluated_spf: self.policy_evaluated_spf.clone(),
            identifiers_header_from: self.identifiers_header_from.clone(),
            auth_results_dkim_domain: copy_opt_str(&self.auth_results_dkim_domain),
            auth_results_dkim_result: copy_opt_str(&self.auth_results_dkim_result),
            auth_results_dkim_selector: copy_opt_str(&self.auth_results_dkim_selector),
            auth_results_spf_domain: copy_opt_str(&self.auth_results_spf_domain),
            auth_results_spf_result: copy_opt_str(&self.auth_results_spf_result),
        }
    }
}

impl Report {
    /// Normalizes a parsed document into a canonical report that keeps
    /// `blob`, the document's source, for audit.
    pub fn from_with_blob(feedback: schema::Feedback, blob: Option<Vec<u8>>) -> (r: Report)
        ensures
            r@ == normalized_report(feedback, opt_bytes(blob)),
    {
        let mut records: Vec<Record> = Vec::new();
        let n = feedback.record.len();
        let mut k: usize = 0;
        while k < n
            invariant
                n == feedback.record@.len(),
                k <= n,
                records@.len() == k,
                forall|j: int|
                    0 <= j < k ==> #[trigger] records@[j]@ == normalized_record(feedback.record@[j]),
            decreases n - k,
        {
            records.push(normalize_record(&feedback.record[k]));
            k = k + 1;
        }
        let r = Report {
            blob,
            org_name: feedback.report_metadata.org_name,
            email: feedback.report_metadata.email,
            extra_contact_info: feedback.report_metadata.extra_contact_info,
            report_id: feedback.report_metadata.report_id,
            date_begin: feedback.report_metadata.date_range.begin,
            date_end: feedback.report_metadata.date_range.end,
            policy_domain: feedback.policy_published.domain,
            policy_adkim: feedback.policy_published.adkim,
            policy_aspf: feedback.policy_published.aspf,
            policy_p: feedback.policy_published.p,
            policy_sp: feedback.policy_published.sp,
            policy_pct: feedback.policy_published.pct,
            records,
        };
        assert(r@.records =~= feedback.record@.map_values(|x: schema::Record| normalized_record(x)));
        r
    }

    /// A copy of the report with all its records.
    pub fn duplicate(&self) -> (r: Report)
        ensures
            r@ == self@,
    {
        let mut records: Vec<Record> = Vec::new();
        let mut k: usize = 0;
        while k < self.records.len()
            invariant
                k <= self.records@.len(),
                records@.len() == k,
                forall|j: int| 0 <= j < k ==> #[trigger] records@[j]@ == self.records@[j]@,
            decreases self.records@.len() - k,
        {
            records.push(self.records[k].duplicate());
            k = k + 1;
        }
        let r = Report {
            blob: copy_opt_bytes(&self.blob),
            org_name: self.org_name.clone(),
            email: self.email.clone(),
            extra_contact_info: copy_opt_str(&self.extra_contact_info),
            report_id: self.report_id.clone(),
            date_begin: self.date_begin,
            date_end: self.date_end,
            policy_domain: copy_opt_str(&self.policy_domain),
            policy_adkim: copy_opt_str(&self.policy_adkim),
            policy_aspf: copy_opt_str(&self.policy_aspf),
            policy_p: copy_opt_str(&self.policy_p),
            policy_sp: copy_opt_str(&self.policy_sp),
            policy_pct: self.policy_pct,
            records,
        };
        assert(r@.records =~= self@.records);
        r
    }
}

/// Of several DKIM results in a raw record, the canonical record keeps the
/// first one alone.
pub proof fn dkim_collapse(r: schema::Record)
    requires
        r.auth_results.dkim matches Some(v) && v@.len() >= 1,
    ensures
        ({
            let d = r.auth_results.dkim->Some_0@[0];
            let n = normalized_record(r);
            &&& n.auth_results_dkim_domain == opt_str(d.domain)
            &&& n.auth_results_dkim_result == opt_str(d.result)
            &&& n.auth_results_dkim_selector == opt_str(d.selector)
        }),
{
}

/// A raw record without an SPF block normalizes, with both SPF fields
/// absent; one without a DKIM block does so with all three DKIM fields absent.
pub proof fn missing_auth_defaults(r: schema::Record)
    ensures
        r.auth_results.spf is None ==> normalized_record(r).auth_results_spf_domain is None
            && normalized_record(r).auth_results_spf_result is None,
        r.auth_results.dkim is None ==> normalized_record(r).auth_results_dkim_domain is None
            && normalized_record(r).auth_results_dkim_result is None
            && normalized_record(r).auth_results_dkim_selector is None,
{
}

} // verus!
