use oracles::purger::report::{
    copy_bytes, same_bytes, IngestReport, InvalidParticipantSide, InvalidReason, InvalidReport,
    Report, ReportKind,
};

#[test]
fn stale_beacon_envelope_keeps_report_and_time() {
    let ingest = IngestReport { received_timestamp: 1_675_000_000_123, report: vec![1, 2, 3] };
    let envelope = InvalidReport::stale(ReportKind::Beacon, ingest);
    assert_eq!(
        envelope,
        InvalidReport::Beacon {
            received_timestamp: 1_675_000_000_123,
            reason: InvalidReason::Stale,
            report: vec![1, 2, 3],
        }
    );
    assert_eq!(envelope.kind(), ReportKind::Beacon);
    assert_eq!(envelope.reason(), InvalidReason::Stale);
}

#[test]
fn stale_witness_envelope_is_marked_with_the_witness_side() {
    let ingest = IngestReport { received_timestamp: 42, report: vec![9] };
    let envelope = InvalidReport::stale(ReportKind::Witness, ingest);
    assert_eq!(
        envelope,
        InvalidReport::Witness {
            received_timestamp: 42,
            reason: InvalidReason::Stale,
            report: vec![9],
            participant_side: InvalidParticipantSide::Witness,
        }
    );
    assert_eq!(envelope.kind(), ReportKind::Witness);
    assert_eq!(envelope.reason(), InvalidReason::Stale);
}

#[test]
fn reason_is_read_from_the_envelope() {
    let envelope = InvalidReport::Beacon {
        received_timestamp: 0,
        reason: InvalidReason::ReasonNone,
        report: Vec::new(),
    };
    assert_eq!(envelope.reason(), InvalidReason::ReasonNone);
}

#[test]
fn bytes_compare_by_content() {
    assert!(same_bytes(&vec![], &vec![]));
    assert!(same_bytes(&vec![1, 2, 3], &vec![1, 2, 3]));
    assert!(!same_bytes(&vec![1, 2, 3], &vec![1, 2]));
    assert!(!same_bytes(&vec![1, 2, 3], &vec![1, 2, 4]));
    assert!(!same_bytes(&vec![0], &vec![]));
    assert_eq!(copy_bytes(&vec![5, 6]), vec![5, 6]);
    assert_eq!(copy_bytes(&Vec::new()), Vec::<u8>::new());
}

#[test]
fn duplicate_copies_every_field() {
    let report = Report {
        id: vec![1],
        report_data: vec![2, 3],
        received_timestamp: -5,
        kind: ReportKind::Witness,
    };
    assert_eq!(report.duplicate(), report);
}
