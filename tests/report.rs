use dmarc_analyzer::report::Report;
use dmarc_analyzer::schema::{
    AuthResults, DateRange, Dkim, Feedback, Identifiers, PolicyEvaluated, PolicyPublished, Record,
    ReportMetadata, Row, Spf,
};

fn s(x: &str) -> String {
    String::from(x)
}

fn record(dkim: Option<Vec<Dkim>>, spf: Option<Spf>) -> Record {
    Record {
        row: Row {
            source_ip: s("192.0.2.1"),
            count: 7,
            policy_evaluated: PolicyEvaluated { disposition: s("none"), dkim: s("pass"), spf: s("fail") },
        },
        identifiers: Identifiers { header_from: s("example.com") },
        auth_results: AuthResults { dkim, spf },
    }
}

fn feedback(records: Vec<Record>) -> Feedback {
    Feedback {
        report_metadata: ReportMetadata {
            org_name: s("google.com"),
            email: s("noreply@google.com"),
            extra_contact_info: None,
            report_id: s("123"),
            date_range: DateRange { begin: 1000, end: 2000 },
        },
        policy_published: PolicyPublished {
            domain: Some(s("example.com")),
            adkim: Some(s("r")),
            aspf: None,
            p: Some(s("none")),
            sp: None,
            pct: Some(100),
        },
        record: records,
    }
}

#[test]
fn normalize_keeps_first_dkim_only() {
    let dkim = vec![
        Dkim { domain: Some(s("a.com")), result: Some(s("pass")), selector: Some(s("s1")) },
        Dkim { domain: Some(s("b.com")), result: Some(s("fail")), selector: None },
    ];
    let r = Report::from_with_blob(feedback(vec![record(Some(dkim), None)]), None);
    assert_eq!(r.records.len(), 1);
    assert_eq!(r.records[0].auth_results_dkim_domain, Some(s("a.com")));
    assert_eq!(r.records[0].auth_results_dkim_result, Some(s("pass")));
    assert_eq!(r.records[0].auth_results_dkim_selector, Some(s("s1")));
}

#[test]
fn normalize_missing_spf_is_absent() {
    let r = Report::from_with_blob(feedback(vec![record(None, None)]), None);
    assert_eq!(r.records[0].auth_results_spf_domain, None);
    assert_eq!(r.records[0].auth_results_spf_result, None);
    assert_eq!(r.records[0].auth_results_dkim_domain, None);
    assert_eq!(r.records[0].auth_results_dkim_result, None);
    assert_eq!(r.records[0].auth_results_dkim_selector, None);
}

#[test]
fn normalize_empty_dkim_list_is_absent() {
    let r = Report::from_with_blob(feedback(vec![record(Some(vec![]), None)]), None);
    assert_eq!(r.records[0].auth_results_dkim_domain, None);
}

#[test]
fn normalize_carries_fields() {
    let spf = Spf { domain: Some(s("example.com")), result: Some(s("softfail")) };
    let blob = vec![1u8, 2, 3];
    let r = Report::from_with_blob(feedback(vec![record(None, Some(spf)), record(None, None)]), Some(blob.clone()));
    assert_eq!(r.blob, Some(blob));
    assert_eq!(r.org_name, "google.com");
    assert_eq!(r.email, "noreply@google.com");
    assert_eq!(r.report_id, "123");
    assert_eq!(r.date_begin, 1000);
    assert_eq!(r.date_end, 2000);
    assert_eq!(r.policy_domain, Some(s("example.com")));
    assert_eq!(r.policy_adkim, Some(s("r")));
    assert_eq!(r.policy_aspf, None);
    assert_eq!(r.policy_p, Some(s("none")));
    assert_eq!(r.policy_pct, Some(100));
    assert_eq!(r.records.len(), 2);
    let rec = &r.records[0];
    assert_eq!(rec.source_ip, "192.0.2.1");
    assert_eq!(rec.count, 7);
    assert_eq!(rec.policy_evaluated_disposition, "none");
    assert_eq!(rec.policy_evaluated_dkim, "pass");
    assert_eq!(rec.policy_evaluated_spf, "fail");
    assert_eq!(rec.identifiers_header_from, "example.com");
    assert_eq!(rec.auth_results_spf_domain, Some(s("example.com")));
    assert_eq!(rec.auth_results_spf_result, Some(s("softfail")));
    assert_eq!(r.records[1].auth_results_spf_result, None);
}

#[test]
fn normalize_report_without_records() {
    let r = Report::from_with_blob(feedback(vec![]), None);
    assert!(r.records.is_empty());
    assert_eq!(r.blob, None);
}
