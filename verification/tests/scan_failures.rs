use codex_usage::failure_capture::{
    access, capture_epoch, file_seen, parser, provider_stopping, record_accepted,
    record_rejected, safe_source_version, source_version, AccessOperation, AccessReason, Failure,
    ParserReason, Provider, ReviewStatus, ScanEvidence, ScanFailures,
};

#[test]
fn unreviewed_version_without_failure_emits_nothing() {
    let mut scan: Option<ScanEvidence> = None;
    let guard = ScanFailures::begin(&mut scan, 0);
    source_version(&mut scan, "2.1.999", false);
    record_accepted(&mut scan);
    let failures = guard.finish(&mut scan);
    assert!(failures.is_empty());
}

#[test]
fn diagnostic_counts_do_not_truncate_normal_large_scans() {
    let mut scan: Option<ScanEvidence> = None;
    let guard = ScanFailures::begin(&mut scan, 0);
    for _ in 0..10_001 {
        record_accepted(&mut scan);
    }
    parser(&mut scan, Provider::Codex, 20, ParserReason::InvalidUsageShape);
    parser(&mut scan, Provider::Codex, 20, ParserReason::InvalidCounter);
    record_rejected(&mut scan);
    let failures = guard.finish(&mut scan);
    assert_eq!(failures.len(), 2);
    for (failure, _) in failures {
        let Failure::Parser { context, .. } = failure else {
            panic!("parser failure");
        };
        assert_eq!(context.records_accepted, Some(10_001));
        assert_eq!(context.records_rejected, Some(1));
    }
    assert!(safe_source_version("0.148.0-alpha.21"));
    assert!(!safe_source_version("0.148.0-private-project.21"));
}

#[test]
fn scan_coalesces_repeated_failures_and_keeps_only_safe_versions() {
    let mut scan: Option<ScanEvidence> = None;
    let guard = ScanFailures::begin(&mut scan, 0);
    file_seen(&mut scan);
    record_accepted(&mut scan);
    source_version(&mut scan, "2.1.263", true);
    source_version(&mut scan, "private-project-name", false);
    for _ in 0..100 {
        parser(&mut scan, Provider::Claude, 11, ParserReason::InvalidUsageShape);
        record_rejected(&mut scan);
    }
    let failures = guard.finish(&mut scan);
    assert_eq!(failures.len(), 1);
    let Failure::Parser { context, .. } = &failures[0].0 else {
        panic!("parser failure");
    };
    assert_eq!(context.source_versions, ["2.1.263"]);
    assert_eq!(context.review_status, ReviewStatus::Mixed);
    assert_eq!(context.files_seen, Some(1));
    assert_eq!(context.records_accepted, Some(1));
    assert_eq!(context.records_rejected, Some(100));
}

#[test]
fn failures_outside_a_scan_are_delivered_at_once() {
    let mut scan: Option<ScanEvidence> = None;
    let delivered = parser(&mut scan, Provider::Codex, 20, ParserReason::ReadFailed);
    assert!(matches!(delivered, Some(Failure::Parser { .. })));
    assert!(scan.is_none());
}

#[test]
fn a_nested_scan_leaves_the_outer_scan_running() {
    let mut scan: Option<ScanEvidence> = None;
    let outer = ScanFailures::begin(&mut scan, 7);
    let inner = ScanFailures::begin(&mut scan, 9);
    assert!(inner.finish(&mut scan).is_empty());
    assert!(scan.is_some());
    assert_eq!(capture_epoch(&scan, 3), 7);
    parser(&mut scan, Provider::Codex, 20, ParserReason::InvalidCounter);
    let failures = outer.finish(&mut scan);
    assert_eq!(failures.len(), 1);
    assert_eq!(failures[0].1, 7);
    assert!(scan.is_none());
    assert_eq!(capture_epoch(&scan, 3), 3);
}

#[test]
fn a_stopping_provider_reports_no_access_failure() {
    let mut scan: Option<ScanEvidence> = None;
    let guard = ScanFailures::begin(&mut scan, 0);
    provider_stopping(&mut scan);
    let reported = access(
        &mut scan,
        Provider::Codex,
        AccessOperation::AccountUsage,
        AccessReason::Timeout,
    );
    assert!(reported.is_none());
    assert!(guard.finish(&mut scan).is_empty());
}

#[test]
fn source_versions_keep_at_most_eight_in_order() {
    let mut scan: Option<ScanEvidence> = None;
    let guard = ScanFailures::begin(&mut scan, 0);
    for minor in 0..12 {
        source_version(&mut scan, &format!("1.{minor}.0"), true);
    }
    source_version(&mut scan, "1.0.0", true);
    let kept = scan.as_ref().unwrap().source_versions.clone();
    assert_eq!(kept.len(), 8);
    let mut sorted = kept.clone();
    sorted.sort();
    assert_eq!(kept, sorted);
    drop(guard);
}
