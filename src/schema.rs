//! The loosely typed shape of a DMARC aggregate-report document.
//!
//! Every optional sub-structure of the XML schema is an `Option` here; the
//! normalization in `report` turns a value of these types into the
//! canonical model.
use vstd::prelude::*;

verus! {

/// The root `<feedback>` element.
#[derive(Debug, Clone, PartialEq)]
pub struct Feedback {
    pub report_metadata: ReportMetadata,
    pub policy_published: PolicyPublished,
    pub record: Vec<Record>,
}

/// Who sent the report, and for which period.
#[derive(Debug, Clone, PartialEq)]
pub struct ReportMetadata {
    pub org_name: String,
    pub email: String,
    pub extra_contact_info: Option<String>,
    pub report_id: String,
    pub date_range: DateRange,
}

/// The reporting window, in seconds since the epoch.
#[derive(Debug, Clone, PartialEq)]
pub struct DateRange {
    pub begin: i64,
    pub end: i64,
}

/// The DMARC policy that the domain owner had published.
#[derive(Debug, Clone, PartialEq)]
pub struct PolicyPublished {
    pub domain: Option<String>,
    pub adkim: Option<String>,
    pub aspf: Option<String>,
    pub p: Option<String>,
    pub sp: Option<String>,
    pub pct: Option<i8>,
}

/// One `<record>`: the outcomes for one source address.
#[derive(Debug, Clone, PartialEq)]
pub struct Record {
    pub row: Row,
    pub identifiers: Identifiers,
    pub auth_results: AuthResults,
}

#[derive(Debug, Clone, PartialEq)]
pub struct Row {
    pub source_ip: String,
    pub count: i32,
    pub policy_evaluated: PolicyEvaluated,
}

/// The verdicts that the receiver computed against the published policy.
#[derive(Debug, Clone, PartialEq)]
pub struct PolicyEvaluated {
    pub disposition: String,
    pub dkim: String,
    pub spf: String,
}

#[derive(Debug, Clone, PartialEq)]
pub struct Identifiers {
    pub header_from: String,
}

/// Raw authentication results: any number of DKIM results, at most one SPF result.
#[derive(Debug, Clone, PartialEq)]
pub struct AuthResults {
    pub dkim: Option<Vec<Dkim>>,
    pub spf: Option<Spf>,
}

#[derive(Debug, Clone, PartialEq)]
pub struct Dkim {
    pub domain: Option<String>,
    pub result: Option<String>,
    pub selector: Option<String>,
}

#[derive(Debug, Clone, PartialEq)]
pub struct Spf {
    pub domain: Option<String>,
    pub result: Option<String>,
}

} // verus!
