use nixcache::audit::{audit, clean_error_message, AvailabilityVerdict, OracleReply};
use nixcache::db::{PackageDatabase, PackageRecord};

fn rec(attribute: &str, version: &str, broken: bool, insecure: bool) -> PackageRecord {
    PackageRecord {
        attribute: String::from(attribute),
        version: String::from(version),
        broken,
        insecure,
    }
}

fn quiet(identity: &str) -> (String, OracleReply) {
    (
        String::from(identity),
        OracleReply { known_alias: false, eval_fails: false, error_text: String::new() },
    )
}

fn failing_alias(identity: &str, error_text: &str) -> (String, OracleReply) {
    (
        String::from(identity),
        OracleReply { known_alias: true, eval_fails: true, error_text: String::from(error_text) },
    )
}

#[test]
fn absent_identity_is_not_found() {
    let db = PackageDatabase::from_records(vec![rec("hello", "2.12", false, false)]).unwrap();
    let report = audit(&vec![quiet("ghost-pkg")], &db);
    assert!(matches!(
        report.get("ghost-pkg"),
        Some(AvailabilityVerdict::NotFoundInLatestSnapshot)
    ));
}

#[test]
fn broken_package_is_reported_broken() {
    let db = PackageDatabase::from_records(vec![rec("hello", "2.12", true, false)]).unwrap();
    let report = audit(&vec![quiet("hello")], &db);
    assert!(matches!(report.get("hello"), Some(AvailabilityVerdict::MarkedBroken)));
}

#[test]
fn insecure_package_is_reported_insecure() {
    let db = PackageDatabase::from_records(vec![rec("hello", "2.12", false, true)]).unwrap();
    let report = audit(&vec![quiet("hello")], &db);
    assert!(matches!(report.get("hello"), Some(AvailabilityVerdict::MarkedInsecure)));
}

#[test]
fn broken_wins_over_insecure() {
    let db = PackageDatabase::from_records(vec![rec("hello", "2.12", true, true)]).unwrap();
    let report = audit(&vec![quiet("hello")], &db);
    assert!(matches!(report.get("hello"), Some(AvailabilityVerdict::MarkedBroken)));
}

#[test]
fn healthy_package_yields_no_entry() {
    let db = PackageDatabase::from_records(vec![rec("hello", "2.12", false, false)]).unwrap();
    let report = audit(&vec![quiet("hello")], &db);
    assert!(report.get("hello").is_none());
    assert_eq!(report.problem_count(), 0);
}

#[test]
fn failing_alias_of_healthy_package_reports_cleaned_message() {
    let db = PackageDatabase::from_records(vec![rec("oldname", "1.0", false, false)]).unwrap();
    let report = audit(
        &vec![failing_alias("oldname", "error: 'oldname' has been renamed\n")],
        &db,
    );
    match report.get("oldname") {
        Some(AvailabilityVerdict::AliasEvaluationError { message }) => {
            assert_eq!(message, "'oldname' has been renamed");
        },
        _ => panic!("expected an alias-evaluation error"),
    }
}

#[test]
fn database_verdict_overwrites_alias_verdict() {
    // The identity is both a failing alias and marked broken; the database
    // layer writes last, so the broken verdict is the one retained.
    let db = PackageDatabase::from_records(vec![rec("oldname", "1.0", true, false)]).unwrap();
    let report = audit(&vec![failing_alias("oldname", "error: boom")], &db);
    assert!(matches!(report.get("oldname"), Some(AvailabilityVerdict::MarkedBroken)));
}

#[test]
fn end_to_end_missing_package_is_the_only_problem() {
    let db = PackageDatabase::from_records(vec![rec("hello", "2.12", false, false)]).unwrap();
    let subjects = vec![quiet("hello"), quiet("ghost-pkg")];
    let report = audit(&subjects, &db);
    assert_eq!(report.problem_count(), 1);
    assert!(report.get("hello").is_none());
    let verdict = report.get("ghost-pkg").expect("ghost-pkg must be reported");
    assert!(matches!(verdict, AvailabilityVerdict::NotFoundInLatestSnapshot));
    assert_eq!(verdict.describe(), "Package not found in newer version of nixpkgs");
}

#[test]
fn verdict_messages_match_report_wording() {
    assert_eq!(
        AvailabilityVerdict::MarkedBroken.describe(),
        "Package is marked as broken"
    );
    assert_eq!(
        AvailabilityVerdict::MarkedInsecure.describe(),
        "Package is marked as insecure"
    );
    assert_eq!(
        AvailabilityVerdict::AliasEvaluationError { message: String::from("gone") }.describe(),
        "gone"
    );
}

#[test]
fn error_message_cleaning_strips_prefix_and_whitespace() {
    assert_eq!(clean_error_message("error: attribute missing "), "attribute missing");
    assert_eq!(clean_error_message("  no prefix here"), "no prefix here");
    assert_eq!(clean_error_message("error: "), "");
}

#[test]
fn later_subject_overwrites_earlier_under_same_identity() {
    let db = PackageDatabase::from_records(vec![rec("dup", "1.0", true, false)]).unwrap();
    let subjects = vec![failing_alias("dup", "error: first"), quiet("dup")];
    let report = audit(&subjects, &db);
    assert_eq!(report.problem_count(), 1);
    assert!(matches!(report.get("dup"), Some(AvailabilityVerdict::MarkedBroken)));
}
