//! The membership-based idempotency gate over the package registry.

use compute::actions::apt::{ensure_packages, installed_in_status, missing_packages};

fn sample_status() -> Vec<u8> {
    b"Package: foo\nStatus: install ok installed\nVersion: 1.2\n\nPackage: bar\nStatus: deinstall ok config-files\n\nPackage: baz\nStatus: install ok installed\n"
        .to_vec()
}

#[test]
fn installed_name_is_confirmed() {
    let status = sample_status();
    assert!(installed_in_status(&status, "foo"));
    assert!(installed_in_status(&status, "baz"));
}

#[test]
fn removed_or_absent_names_are_not_confirmed() {
    let status = sample_status();
    assert!(!installed_in_status(&status, "bar"));
    assert!(!installed_in_status(&status, "quux"));
}

#[test]
fn name_must_match_whole_field() {
    let status = sample_status();
    assert!(!installed_in_status(&status, "fo"));
    assert!(!installed_in_status(&status, "fooo"));
}

#[test]
fn final_record_without_trailing_newline_counts() {
    let status = b"Package: last\nStatus: install ok installed".to_vec();
    assert!(installed_in_status(&status, "last"));
}

#[test]
fn empty_registry_confirms_nothing() {
    assert!(!installed_in_status(&Vec::new(), "foo"));
}

#[test]
fn status_line_reports_the_most_recent_package_field() {
    let status = b"Package: a\nPackage: b\nStatus: install ok installed\n".to_vec();
    assert!(installed_in_status(&status, "b"));
    assert!(!installed_in_status(&status, "a"));
}

#[test]
fn other_fields_are_ignored() {
    let status =
        b"Package: foo\nEssential: yes\nStatus: install ok installed\nDescription: Status: install ok installed\n"
            .to_vec();
    assert!(installed_in_status(&status, "foo"));
    // the description's text is not a status line of its own
    assert!(!installed_in_status(&status, "Description"));
}

#[test]
fn missing_subset_keeps_declaration_order() {
    let status = sample_status();
    let required = vec!["bar".to_string(), "foo".to_string(), "quux".to_string()];
    let missing = missing_packages(&required, &status);
    assert_eq!(missing, vec!["bar".to_string(), "quux".to_string()]);
}

#[test]
fn install_is_issued_for_the_missing_subset_only() {
    let status = b"Package: foo\nStatus: install ok installed\n".to_vec();
    let required = vec!["foo".to_string(), "bar".to_string()];
    let plan = ensure_packages(&required, &status).expect("bar is missing");
    let (missing, update, install) = plan;
    assert_eq!(missing, vec!["bar".to_string()]);
    assert_eq!(update.name, "apt-get");
    assert_eq!(update.args, vec!["update".to_string()]);
    assert!(update.privileged);
    assert_eq!(install.name, "apt-get");
    assert_eq!(
        install.args,
        vec![
            "install".to_string(),
            "--no-install-recommends".to_string(),
            "-y".to_string(),
            "bar".to_string()
        ]
    );
    assert!(install.privileged);
}

#[test]
fn duplicate_required_names_stay_duplicated() {
    let required = vec!["bar".to_string(), "bar".to_string()];
    let missing = missing_packages(&required, &Vec::new());
    assert_eq!(missing, vec!["bar".to_string(), "bar".to_string()]);
}

#[test]
fn converged_package_set_issues_nothing() {
    let status = sample_status();
    let required = vec!["foo".to_string(), "baz".to_string()];
    assert!(ensure_packages(&required, &status).is_none());
}
