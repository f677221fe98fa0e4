//! The content-addressed idempotency gate.

use compute::actions::file::{materialize, post_write_steps};

#[test]
fn identical_bytes_report_unchanged() {
    let bytes = b"server { listen 80; }".to_vec();
    let same = b"server { listen 80; }".to_vec();
    assert!(!materialize(&Some(same), &bytes));
}

#[test]
fn missing_destination_reports_changed() {
    let bytes = b"fresh".to_vec();
    assert!(materialize(&None, &bytes));
}

#[test]
fn single_differing_byte_reports_changed() {
    let current = b"server { listen 80; }".to_vec();
    let proposed = b"server { listen 81; }".to_vec();
    assert!(materialize(&Some(current), &proposed));
}

#[test]
fn empty_versus_nonempty_reports_changed() {
    assert!(materialize(&Some(Vec::new()), &b"x".to_vec()));
    assert!(!materialize(&Some(Vec::new()), &Vec::new()));
}

#[test]
fn ownership_and_mode_apply_only_on_change() {
    let owner = Some((1000u32, 1000u32));
    let mode = Some(0o644u32);
    assert_eq!(post_write_steps(true, owner, mode), (owner, mode));
    assert_eq!(post_write_steps(false, owner, mode), (None, None));
    assert_eq!(post_write_steps(true, None, mode), (None, mode));
    assert_eq!(post_write_steps(true, owner, None), (owner, None));
}
