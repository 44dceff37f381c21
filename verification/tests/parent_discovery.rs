use codex_usage::files::{
    order_rollout_work, FileCompletionState, StoredFileSummary, WorkItem, ROLLOUT_PARSER_VERSION,
};
use codex_usage::index_line::{DecodedLine, RecordBody, RolloutHeader};
use codex_usage::parent_probe::{
    contains_name, discover_parents, leaf_probe_without_reading, remove_name, stored_probe_cursor,
    DiscoveredRollout, LeafProbe, LeafProbeStep, LeafSessionProbe, ParentProbeRound,
    MAX_ROLLOUT_METADATA_PROBE_BYTES,
};
use codex_usage::rollout::{LineageMode, RequiredWhenPresent, SessionMeta};

fn line(record_type: Option<&str>, body: RecordBody) -> DecodedLine {
    DecodedLine {
        byte_len: 10,
        header: record_type.map(|kind| RolloutHeader {
            ordinal: RequiredWhenPresent::Missing,
            timestamp: "2026-05-01T00:00:00Z".into(),
            record_type: kind.into(),
        }),
        body,
    }
}

fn meta_with_id(id: Option<&str>) -> RecordBody {
    RecordBody::SessionMeta {
        timestamp: "2026-05-01T00:00:00Z".into(),
        payload: SessionMeta {
            cli_version: "0.128.0".into(),
            history_mode: None,
            history_base: RequiredWhenPresent::Missing,
            id: id.map(String::from),
            timestamp: None,
            forked_from_id: None,
            thread_source: None,
            source: None,
            subagent_history_start_ordinal: None,
        },
    }
}

fn summary(identity: &str, size: u64, modified_ns: i64, leaf: Option<&str>, parser_version: i64) -> StoredFileSummary {
    StoredFileSummary {
        identity: identity.into(),
        size,
        modified_ns,
        parsed_offset: size,
        completion_state: FileCompletionState::Complete,
        deferred_until_day: None,
        parser_version,
        lineage_mode: LineageMode::Root,
        has_parent_dependency: false,
        leaf_session_id: leaf.map(String::from),
    }
}

fn rollout(name: &str, modified_ns: i64, stored: Option<StoredFileSummary>) -> DiscoveredRollout {
    DiscoveredRollout {
        identity: "dev:1".into(),
        modified_ns,
        size: 100,
        file_name: Some(name.into()),
        stored,
    }
}

fn done(step: LeafProbeStep) -> LeafSessionProbe {
    match step {
        LeafProbeStep::Done(probe) => probe,
        LeafProbeStep::Read(limit) => panic!("expected an answer, got a read of {limit}"),
    }
}

#[test]
fn probe_outside_the_window_reads_nothing() {
    let probe = leaf_probe_without_reading(MAX_ROLLOUT_METADATA_PROBE_BYTES, 100).unwrap();
    assert_eq!(probe.session_id, None);
    assert_eq!(probe.next_offset, MAX_ROLLOUT_METADATA_PROBE_BYTES);
    assert_eq!(probe.bytes_read, 0);
    assert!(probe.complete);

    let probe = leaf_probe_without_reading(10, 0).unwrap();
    assert_eq!(probe.next_offset, 10);
    assert!(!probe.complete);

    assert!(leaf_probe_without_reading(10, 5).is_none());
}

#[test]
fn probe_allowance_is_capped_by_the_window() {
    let probe = LeafProbe::new(MAX_ROLLOUT_METADATA_PROBE_BYTES - 100, 1000, 5000);
    assert_eq!(probe.allowed_bytes, 100);
    let probe = LeafProbe::new(0, 1000, 5000);
    assert_eq!(probe.allowed_bytes, 1000);
    match probe.next_step() {
        LeafProbeStep::Read(limit) => assert_eq!(limit, 1000),
        LeafProbeStep::Done(_) => panic!("the probe has bytes left"),
    }
}

#[test]
fn probe_finds_the_session_after_other_records() {
    let mut probe = LeafProbe::new(0, 1000, 5000);
    assert!(probe.on_line(40, true).is_none());
    assert!(probe.on_record(&line(Some("turn_context"), RecordBody::Undecoded)).is_none());
    assert_eq!(probe.next_offset, 40);
    assert!(probe.on_line(60, true).is_none());
    let found = probe
        .on_record(&line(Some("session_meta"), meta_with_id(Some("  parent-1  "))))
        .unwrap();
    assert_eq!(found.session_id.as_deref(), Some("parent-1"));
    assert_eq!(found.next_offset, 100);
    assert_eq!(found.bytes_read, 100);
    assert!(found.complete);
}

#[test]
fn probe_stops_on_an_undecodable_record() {
    let mut probe = LeafProbe::new(0, 1000, 5000);
    assert!(probe.on_line(40, true).is_none());
    let answer = probe.on_record(&line(None, RecordBody::Undecoded)).unwrap();
    assert_eq!(answer.session_id, None);
    assert!(answer.complete);

    let answer = probe.on_record(&line(Some("session_meta"), RecordBody::Undecoded)).unwrap();
    assert_eq!(answer.session_id, None);
    assert!(answer.complete);
}

#[test]
fn probe_resumes_before_a_partial_record() {
    let mut probe = LeafProbe::new(0, 100, 5000);
    assert!(probe.on_line(40, true).is_none());
    let answer = probe.on_line(60, false).unwrap();
    assert_eq!(answer.session_id, None);
    assert_eq!(answer.next_offset, 40);
    assert_eq!(answer.bytes_read, 100);
    assert!(!answer.complete);
}

#[test]
fn probe_accepts_a_last_record_without_newline() {
    let mut probe = LeafProbe::new(0, 1000, 100);
    assert!(probe.on_line(100, false).is_none());
    assert_eq!(probe.next_offset, 100);
}

#[test]
fn probe_ends_at_end_of_file_and_when_spent() {
    let mut probe = LeafProbe::new(0, 50, 5000);
    let answer = probe.on_line(0, false).unwrap();
    assert!(answer.complete);
    assert!(probe.on_line(50, true).is_none());
    let answer = done(probe.next_step());
    assert_eq!(answer.bytes_read, 50);
    assert!(!answer.complete);
}

#[test]
fn names_are_removed_and_found() {
    let mut names = vec!["a".to_string(), "b".to_string(), "c".to_string()];
    assert!(contains_name(&names, "b"));
    assert!(!contains_name(&names, "d"));
    assert!(remove_name(&mut names, "b"));
    assert_eq!(names, vec!["a".to_string(), "c".to_string()]);
    assert!(!remove_name(&mut names, "b"));
    assert_eq!(names.len(), 2);
}

#[test]
fn probe_round_walks_the_ring_and_stops_on_a_parent() {
    let mut round = ParentProbeRound::new(3, Some((2, 30)), 1000, vec!["parent".to_string()]);
    assert_eq!(round.next_probe(true), Some((2, 30, 500)));
    assert_eq!(round.next_probe(false), None);
    let complete = LeafSessionProbe {
        session_id: Some("other".into()),
        next_offset: 90,
        bytes_read: 60,
        complete: true,
    };
    assert!(!round.on_probe(&complete));
    assert_eq!(round.next_probe(true), Some((0, 0, 440)));
    assert_eq!(round.remaining_bytes, 940);
    round.on_probe_failed();
    assert!(!round.traversal_complete);
    assert_eq!(round.next_probe(true), Some((1, 0, 440)));
    let found = LeafSessionProbe {
        session_id: Some("parent".into()),
        next_offset: 20,
        bytes_read: 20,
        complete: true,
    };
    assert!(round.on_probe(&found));
    assert_eq!(round.found, Some(1));
    assert!(round.unresolved.is_empty());
    assert!(round.discovery_complete());
    assert_eq!(round.next_probe(true), None);
}

#[test]
fn probe_round_keeps_its_place_in_a_partial_file() {
    let mut round = ParentProbeRound::new(2, None, 100, vec!["parent".to_string()]);
    let partial = LeafSessionProbe { session_id: None, next_offset: 45, bytes_read: 45, complete: false };
    assert!(!round.on_probe(&partial));
    assert!(round.stopped);
    assert_eq!((round.position, round.cursor_offset), (0, 45));
    assert_eq!(round.probe_bytes, 5);
    assert_eq!(round.remaining_bytes, 55);
    assert!(!round.discovery_complete());
}

#[test]
fn discovery_without_required_parents_is_empty() {
    let files = vec![rollout("a.jsonl", 10, None)];
    let found = discover_parents(&files, 5, Vec::new());
    assert!(found.parents.is_empty());
    assert!(found.candidates.is_empty());
}

#[test]
fn discovery_sorts_old_rollouts_into_parents_and_candidates() {
    let files = vec![
        // Recent, named after the parent: scanned as a parent.
        rollout("rollout-2026-p1.jsonl", 50, None),
        // Old, with a current summary naming the second parent.
        rollout("rollout-x.jsonl", 1, Some(summary("dev:1", 100, 1, Some("p2"), ROLLOUT_PARSER_VERSION))),
        // Old, never indexed: probed.
        rollout("rollout-y.jsonl", 1, None),
        // Old, summary from another parser: probed; its name marks p3.
        rollout("rollout-p3.jsonl", 1, Some(summary("dev:1", 100, 1, None, ROLLOUT_PARSER_VERSION - 1))),
        // Old, current summary, no parent: skipped.
        rollout("rollout-z.jsonl", 1, Some(summary("dev:1", 100, 1, None, ROLLOUT_PARSER_VERSION))),
        // Old, stale summary (size changed): probed.
        rollout("rollout-w.jsonl", 1, Some(summary("dev:1", 99, 1, Some("p2"), ROLLOUT_PARSER_VERSION))),
    ];
    let required = vec!["p1".to_string(), "p2".to_string(), "p3".to_string()];
    let found = discover_parents(&files, 10, required);
    assert_eq!(found.parents, vec![0, 1]);
    assert_eq!(found.candidates, vec![3, 2, 5]);
    assert_eq!(found.unresolved, vec!["p1".to_string(), "p3".to_string()]);
}

#[test]
fn discovery_drops_candidates_once_all_parents_resolve() {
    let files = vec![
        rollout("rollout-y.jsonl", 1, None),
        rollout("rollout-x.jsonl", 1, Some(summary("dev:1", 100, 1, Some("p2"), ROLLOUT_PARSER_VERSION))),
    ];
    let found = discover_parents(&files, 10, vec!["p2".to_string()]);
    assert_eq!(found.parents, vec![1]);
    assert!(found.candidates.is_empty());
    assert!(found.unresolved.is_empty());
}

#[test]
fn work_runs_pending_then_parents_then_newest_first() {
    let item = |needs_work, is_pending, is_required_parent, modified_ns| WorkItem {
        needs_work,
        is_pending,
        is_required_parent,
        modified_ns,
    };
    let items = vec![
        item(true, false, false, 50),
        item(false, true, true, 99),
        item(true, true, false, 10),
        item(true, true, true, 5),
        item(true, true, false, 30),
        item(true, false, true, 1),
        item(true, true, false, 30),
    ];
    assert_eq!(order_rollout_work(&items), vec![3, 4, 6, 2, 5, 0]);
    assert!(order_rollout_work(&[]).is_empty());
    assert!(order_rollout_work(&[item(false, true, true, 1)]).is_empty());
}

#[test]
fn stored_probe_cursors_of_another_order_are_ignored() {
    assert_eq!(stored_probe_cursor(2, "a.jsonl".into(), 40), Some(("a.jsonl".to_string(), 40)));
    assert_eq!(stored_probe_cursor(1, "a.jsonl".into(), 40), None);
}
