use dmarc_analyzer::report::{Record, Report};
use dmarc_analyzer::store::{day_number, BasicStats, InsertOutcome, StoreError, DB};

const NOW: i64 = 1_700_000_000;
const DAY: i64 = 86400;

fn rec(count: i32, dkim: &str, spf: &str) -> Record {
    Record {
        source_ip: String::from("198.51.100.7"),
        count,
        policy_evaluated_disposition: String::from("none"),
        policy_evaluated_dkim: String::from(dkim),
        policy_evaluated_spf: String::from(spf),
        identifiers_header_from: String::from("example.com"),
        auth_results_dkim_domain: None,
        auth_results_dkim_result: None,
        auth_results_dkim_selector: None,
        auth_results_spf_domain: None,
        auth_results_spf_result: None,
    }
}

fn report(id: &str, domain: Option<&str>, date_begin: i64, records: Vec<Record>) -> Report {
    Report {
        blob: Some(vec![b'<']),
        org_name: String::from("org"),
        email: String::from("dmarc@org"),
        extra_contact_info: None,
        report_id: String::from(id),
        date_begin,
        date_end: date_begin + DAY,
        policy_domain: domain.map(String::from),
        policy_adkim: None,
        policy_aspf: None,
        policy_p: None,
        policy_sp: None,
        policy_pct: None,
        records,
    }
}

fn zero() -> BasicStats {
    BasicStats { dkim_passed: 0, spf_passed: 0, dkim_failed: 0, spf_failed: 0 }
}

#[test]
fn insert_twice_stores_once() {
    let mut db = DB::new();
    let r = report("id-1", Some("example.com"), NOW, vec![rec(3, "pass", "pass"), rec(2, "fail", "pass")]);
    assert_eq!(db.insert_report(&r), Ok(InsertOutcome::Inserted));
    assert_eq!(db.report_count(), 1);
    assert_eq!(db.record_count(), 2);
    assert_eq!(db.insert_report(&r), Ok(InsertOutcome::AlreadyExists));
    assert_eq!(db.report_count(), 1);
    assert_eq!(db.record_count(), 2);
}

#[test]
fn insert_that_does_not_fit_stores_nothing() {
    let mut db = DB::with_capacity(3);
    let small = report("a", Some("a.org"), NOW, vec![rec(1, "pass", "pass")]);
    assert_eq!(db.insert_report(&small), Ok(InsertOutcome::Inserted));
    let big = report("b", Some("b.org"), NOW, vec![rec(1, "pass", "pass"), rec(1, "pass", "pass"), rec(1, "pass", "pass")]);
    assert_eq!(db.insert_report(&big), Err(StoreError::TransactionFailed));
    assert_eq!(db.report_count(), 1);
    assert_eq!(db.record_count(), 1);
    assert!(db.get_report(&String::from("b")).is_none());
    // the domain index is filled before the transaction
    assert_eq!(db.get_domains(), vec![String::from("a.org"), String::from("b.org")]);
}

#[test]
fn insert_without_domain_is_refused() {
    let mut db = DB::new();
    let r = report("x", None, NOW, vec![rec(1, "pass", "pass")]);
    assert_eq!(db.insert_report(&r), Err(StoreError::MissingPolicyDomain));
    assert_eq!(db.report_count(), 0);
    assert!(db.get_domains().is_empty());
}

#[test]
fn domains_are_sorted_and_unique() {
    let mut db = DB::new();
    for (id, d) in [("1", "zeta.org"), ("2", "alpha.org"), ("3", "mid.org"), ("4", "alpha.org"), ("5", "Zed.org")] {
        db.insert_report(&report(id, Some(d), NOW, vec![])).unwrap();
    }
    assert_eq!(
        db.get_domains(),
        vec![String::from("Zed.org"), String::from("alpha.org"), String::from("mid.org"), String::from("zeta.org")]
    );
}

#[test]
fn stats_list_every_domain() {
    let mut db = DB::new();
    db.insert_report(&report("old", Some("quiet.org"), NOW - 400 * DAY, vec![rec(5, "pass", "pass")])).unwrap();
    db.insert_report(&report("new", Some("busy.org"), NOW, vec![rec(4, "pass", "fail"), rec(6, "fail", "pass")])).unwrap();
    let stats = db.get_basic_stats(NOW, 30);
    assert_eq!(stats.len(), 2);
    assert_eq!(stats[0].domain, "busy.org");
    assert_eq!(stats[0].stats, BasicStats { dkim_passed: 4, spf_passed: 6, dkim_failed: 6, spf_failed: 4 });
    assert_eq!(stats[1].domain, "quiet.org");
    assert_eq!(stats[1].stats, zero());
    let all = db.get_basic_stats(NOW, 12000);
    assert_eq!(all[1].stats, BasicStats { dkim_passed: 5, spf_passed: 5, dkim_failed: 0, spf_failed: 0 });
}

#[test]
fn stats_window_boundary() {
    let mut db = DB::new();
    db.insert_report(&report("edge", Some("a.org"), NOW - 30 * DAY, vec![rec(2, "pass", "pass")])).unwrap();
    db.insert_report(&report("out", Some("a.org"), NOW - 31 * DAY, vec![rec(100, "pass", "pass")])).unwrap();
    let stats = db.get_basic_stats(NOW, 30);
    assert_eq!(stats[0].stats, BasicStats { dkim_passed: 2, spf_passed: 2, dkim_failed: 0, spf_failed: 0 });
}

#[test]
fn stats_sum_over_reports_and_treat_other_verdicts_as_failed() {
    let mut db = DB::new();
    db.insert_report(&report("r1", Some("a.org"), NOW, vec![rec(1, "pass", "softfail")])).unwrap();
    db.insert_report(&report("r2", Some("a.org"), NOW - DAY, vec![rec(10, "Pass", "pass"), rec(100, "pass", "neutral")])).unwrap();
    db.insert_report(&report("r3", Some("b.org"), NOW, vec![rec(1000, "pass", "pass")])).unwrap();
    let stats = db.get_basic_stats(NOW, 7);
    assert_eq!(stats[0].stats, BasicStats { dkim_passed: 101, spf_passed: 10, dkim_failed: 10, spf_failed: 101 });
    assert_eq!(stats[1].stats, BasicStats { dkim_passed: 1000, spf_passed: 1000, dkim_failed: 0, spf_failed: 0 });
}

#[test]
fn stats_of_empty_store() {
    let db = DB::new();
    assert!(db.get_basic_stats(NOW, 30).is_empty());
}

#[test]
fn day_numbers_round_down() {
    assert_eq!(day_number(0), 0);
    assert_eq!(day_number(86399), 0);
    assert_eq!(day_number(86400), 1);
    assert_eq!(day_number(-1), -1);
    assert_eq!(day_number(-86400), -1);
    assert_eq!(day_number(-86401), -2);
    assert_eq!(day_number(i64::MIN), -106751991167301);
    assert_eq!(day_number(i64::MAX), 106751991167300);
}

#[test]
fn reports_for_domain_newest_first() {
    let mut db = DB::new();
    db.insert_report(&report("mid", Some("a.org"), 2000, vec![])).unwrap();
    db.insert_report(&report("other", Some("b.org"), 5000, vec![])).unwrap();
    db.insert_report(&report("new", Some("a.org"), 3000, vec![rec(1, "pass", "pass")])).unwrap();
    db.insert_report(&report("old", Some("a.org"), 1000, vec![])).unwrap();
    db.insert_report(&report("mid2", Some("a.org"), 2000, vec![])).unwrap();
    let ids: Vec<String> = db
        .get_all_reports_for_domain(&String::from("a.org"))
        .into_iter()
        .map(|r| r.report_id)
        .collect();
    assert_eq!(ids, vec!["new", "mid", "mid2", "old"]);
    assert!(db.get_all_reports_for_domain(&String::from("c.org")).is_empty());
}

#[test]
fn get_report_returns_records() {
    let mut db = DB::new();
    let r = report("abc", Some("a.org"), NOW, vec![rec(9, "pass", "fail")]);
    db.insert_report(&r).unwrap();
    assert_eq!(db.get_report(&String::from("abc")), Some(r));
    assert_eq!(db.get_report(&String::from("abd")), None);
}
