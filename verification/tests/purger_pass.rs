//! Runs whole passes against the in-memory record store and a test archive.

use oracles::purger::config::PurgerConfig;
use oracles::purger::pass::{JobStep, Pass, PassCommand, PassEvent, Phase};
use oracles::purger::report::{
    Entropy, IngestReport, InvalidParticipantSide, InvalidReason, InvalidReport, Report, ReportKind,
};
use oracles::purger::scheduler::{Scheduler, SchedulerAction, SchedulerEvent, SchedulerState};
use oracles::purger::store::RecordStore;

const NOW: i64 = 1_700_000_000;

/// What the test world did, in order.
#[derive(Clone, Debug, PartialEq, Eq)]
enum Effect {
    Accepted(Vec<u8>),
    Refused(Vec<u8>),
    Deleted(Vec<u8>),
    DeleteFailed(Vec<u8>),
    EntropyPurged(u64),
}

/// A record store, an archive, and the faults to inject.
struct World {
    store: RecordStore,
    archive: Vec<InvalidReport>,
    effects: Vec<Effect>,
    /// Identifiers whose next submission the archive refuses, once each.
    refuse_once: Vec<Vec<u8>>,
    /// Identifiers whose deletion fails, once each.
    fail_delete_once: Vec<Vec<u8>>,
    beacon_query_fails: bool,
    witness_query_fails: bool,
    entropy_purge_fails: bool,
}

impl World {
    fn new() -> World {
        World {
            store: RecordStore::new(),
            archive: Vec::new(),
            effects: Vec::new(),
            refuse_once: Vec::new(),
            fail_delete_once: Vec::new(),
            beacon_query_fails: false,
            witness_query_fails: false,
            entropy_purge_fails: false,
        }
    }

    fn ingest(&mut self, kind: ReportKind, id: u8, age: i64) {
        let report = Report {
            id: vec![id],
            report_data: payload(id, (NOW - age) as u64 * 1000),
            received_timestamp: NOW - age,
            kind,
        };
        assert!(self.store.insert_report(report));
    }

    fn ingest_undecodable(&mut self, kind: ReportKind, id: u8, age: i64) {
        let report =
            Report { id: vec![id], report_data: vec![0xff], received_timestamp: NOW - age, kind };
        assert!(self.store.insert_report(report));
    }

    fn ingest_entropy(&mut self, id: u8, age: i64) {
        self.store.insert_entropy(Entropy { id: vec![id], timestamp: NOW - age });
    }

    fn accepted(&self, id: u8) -> usize {
        self.effects.iter().filter(|e| **e == Effect::Accepted(vec![id])).count()
    }

    fn position(&self, effect: Effect) -> usize {
        self.effects.iter().position(|e| *e == effect).expect("the effect took place")
    }
}

/// The serialized form the tests use: eight bytes of reception time in
/// milliseconds, then the gateway's report.
fn payload(id: u8, received_millis: u64) -> Vec<u8> {
    let mut data = received_millis.to_be_bytes().to_vec();
    data.extend_from_slice(&[b'r', id]);
    data
}

fn decode(data: &[u8]) -> Option<IngestReport> {
    if data.len() < 8 {
        return None;
    }
    let mut millis = [0u8; 8];
    millis.copy_from_slice(&data[..8]);
    Some(IngestReport { received_timestamp: u64::from_be_bytes(millis), report: data[8..].to_vec() })
}

fn take_once(pending: &mut Vec<Vec<u8>>, id: &[u8]) -> bool {
    match pending.iter().position(|p| p.as_slice() == id) {
        Some(at) => {
            pending.remove(at);
            true
        },
        None => false,
    }
}

/// Carries out one command and reports what happened.
fn perform(world: &mut World, pass: &Pass, command: PassCommand) -> PassEvent {
    match command {
        PassCommand::FindPendingBeacons { cutoff } => {
            if world.beacon_query_fails {
                PassEvent::QueryFailed
            } else {
                PassEvent::StaleReports(world.store.find_pending_beacons_older_than(cutoff))
            }
        },
        PassCommand::FindPendingWitnesses { cutoff } => {
            if world.witness_query_fails {
                PassEvent::QueryFailed
            } else {
                PassEvent::StaleReports(world.store.find_pending_witnesses_older_than(cutoff))
            }
        },
        PassCommand::Decode { job, kind, report_data } => {
            assert_eq!(pass.job_report(job).unwrap().kind, kind);
            PassEvent::Decoded { job, ingest: decode(&report_data) }
        },
        PassCommand::Submit { job, envelope } => {
            let id = pass.job_report(job).unwrap().id.clone();
            if take_once(&mut world.refuse_once, &id) {
                world.effects.push(Effect::Refused(id));
                PassEvent::Submitted { job, accepted: false }
            } else {
                world.archive.push(envelope);
                world.effects.push(Effect::Accepted(id));
                PassEvent::Submitted { job, accepted: true }
            }
        },
        PassCommand::Delete { job, id } => {
            if take_once(&mut world.fail_delete_once, &id) {
                world.effects.push(Effect::DeleteFailed(id));
                PassEvent::Deleted { job, done: false }
            } else {
                world.store.delete_report_by_id(&id);
                world.effects.push(Effect::Deleted(id));
                PassEvent::Deleted { job, done: true }
            }
        },
        PassCommand::PurgeEntropy { cutoff } => {
            if world.entropy_purge_fails {
                PassEvent::EntropyPurged { purged: None }
            } else {
                let purged = world.store.purge_entropy_older_than(cutoff);
                world.effects.push(Effect::EntropyPurged(purged));
                PassEvent::EntropyPurged { purged: Some(purged) }
            }
        },
    }
}

/// Runs the commands in `pending`, and those issued in answer, until none is
/// left. Commands are carried out oldest first.
fn drain(world: &mut World, pass: &mut Pass, pending: Vec<PassCommand>) {
    let mut pending: std::collections::VecDeque<PassCommand> = pending.into();
    while let Some(command) = pending.pop_front() {
        let event = perform(world, pass, command);
        pending.extend(pass.handle(event));
    }
}

/// As [`drain`], but the newest command is carried out first.
fn drain_newest_first(world: &mut World, pass: &mut Pass, pending: Vec<PassCommand>) {
    let mut pending = pending;
    while let Some(command) = pending.pop() {
        let event = perform(world, pass, command);
        pending.extend(pass.handle(event));
    }
}

/// Runs one pass at `now` to its end.
fn run_pass(world: &mut World, config: &PurgerConfig, now: i64) -> Pass {
    let mut pass = Pass::new(config, now).expect("the cutoffs fit");
    let first = pass.handle(PassEvent::Begin);
    drain(world, &mut pass, first);
    assert!(pass.is_finished());
    pass
}

fn config(base_stale_period: i64) -> PurgerConfig {
    PurgerConfig::new(base_stale_period).expect("the periods fit")
}

#[test]
fn one_pass_purges_stale_beacon_witness_and_entropy() {
    let mut world = World::new();
    world.ingest(ReportKind::Beacon, 1, 5401);
    world.ingest(ReportKind::Witness, 2, 6301);
    world.ingest_entropy(3, 6301);

    let pass = run_pass(&mut world, &config(0), NOW);

    assert_eq!(pass.phase(), Phase::Completed);
    assert!(!world.store.contains_report(&vec![1]));
    assert!(!world.store.contains_report(&vec![2]));
    assert_eq!(world.store.report_count(), 0);
    assert_eq!(world.store.entropy_count(), 0);
    assert_eq!(
        world.archive,
        vec![
            InvalidReport::Beacon {
                received_timestamp: (NOW - 5401) as u64 * 1000,
                reason: InvalidReason::Stale,
                report: vec![b'r', 1],
            },
            InvalidReport::Witness {
                received_timestamp: (NOW - 6301) as u64 * 1000,
                reason: InvalidReason::Stale,
                report: vec![b'r', 2],
                participant_side: InvalidParticipantSide::Witness,
            },
        ]
    );
    assert_eq!(
        world.effects,
        vec![
            Effect::Accepted(vec![1]),
            Effect::Deleted(vec![1]),
            Effect::Accepted(vec![2]),
            Effect::Deleted(vec![2]),
            Effect::EntropyPurged(1),
        ]
    );
    let summary = pass.summary();
    assert_eq!(summary.stale_beacons, 1);
    assert_eq!(summary.purged_beacons, 1);
    assert_eq!(summary.stale_witnesses, 1);
    assert_eq!(summary.purged_witnesses, 1);
    assert_eq!(summary.purged_entropy, Some(1));
}

#[test]
fn beacon_at_the_threshold_is_selected_and_one_second_short_is_not() {
    for base in [0i64, 600, -100] {
        let mut world = World::new();
        world.ingest(ReportKind::Beacon, 1, base + 5400 - 1);
        world.ingest(ReportKind::Beacon, 2, base + 5400);
        let pass = run_pass(&mut world, &config(base), NOW);
        assert_eq!(pass.job_count(), 1);
        assert_eq!(pass.job_report(0).unwrap().id, vec![2]);
        assert!(world.store.contains_report(&vec![1]));
        assert!(!world.store.contains_report(&vec![2]));
    }
}

#[test]
fn witness_and_entropy_thresholds_are_inclusive_at_6300() {
    let mut world = World::new();
    world.ingest(ReportKind::Witness, 1, 6299);
    world.ingest(ReportKind::Witness, 2, 6300);
    world.ingest(ReportKind::Beacon, 3, 5399);
    world.ingest_entropy(4, 6299);
    world.ingest_entropy(5, 6300);
    let pass = run_pass(&mut world, &config(0), NOW);
    assert_eq!(pass.summary().stale_witnesses, 1);
    assert_eq!(pass.summary().stale_beacons, 0);
    assert_eq!(pass.summary().purged_entropy, Some(1));
    assert!(world.store.contains_report(&vec![1]));
    assert!(!world.store.contains_report(&vec![2]));
    assert!(world.store.contains_report(&vec![3]));
    assert_eq!(world.store.entropy_count(), 1);
}

#[test]
fn second_pass_finds_nothing() {
    let mut world = World::new();
    for id in 0..10u8 {
        world.ingest(ReportKind::Beacon, id, 6000 + id as i64);
        world.ingest(ReportKind::Witness, 100 + id, 7000 + id as i64);
    }
    world.ingest(ReportKind::Beacon, 50, 10);
    let first = run_pass(&mut world, &config(0), NOW);
    assert_eq!(first.summary().purged_beacons, 10);
    assert_eq!(first.summary().purged_witnesses, 10);
    let archived = world.archive.len();
    assert_eq!(archived, 20);

    let second = run_pass(&mut world, &config(0), NOW);
    assert_eq!(second.job_count(), 0);
    assert_eq!(second.summary().stale_beacons, 0);
    assert_eq!(second.summary().stale_witnesses, 0);
    assert_eq!(world.archive.len(), archived);
    assert_eq!(world.store.report_count(), 1);
    for id in 0..10u8 {
        assert_eq!(world.accepted(id), 1);
        assert_eq!(world.accepted(100 + id), 1);
    }
}

#[test]
fn decode_failure_of_one_record_leaves_its_siblings_alone() {
    let mut world = World::new();
    world.ingest_undecodable(ReportKind::Beacon, 1, 9000);
    world.ingest(ReportKind::Beacon, 2, 9000);
    world.ingest(ReportKind::Beacon, 3, 9000);
    let pass = run_pass(&mut world, &config(0), NOW);

    assert_eq!(pass.phase(), Phase::Completed);
    assert_eq!(pass.job_step(0), Some(JobStep::DecodeFailed));
    assert_eq!(pass.job_step(1), Some(JobStep::Purged));
    assert_eq!(pass.job_step(2), Some(JobStep::Purged));
    assert!(world.store.contains_report(&vec![1]));
    assert!(!world.store.contains_report(&vec![2]));
    assert!(!world.store.contains_report(&vec![3]));
    assert_eq!(world.accepted(1), 0);
    assert_eq!(world.accepted(2), 1);
    assert_eq!(world.accepted(3), 1);
    assert_eq!(pass.summary().stale_beacons, 3);
    assert_eq!(pass.summary().purged_beacons, 2);
}

#[test]
fn refused_witness_stays_pending_and_is_purged_by_the_next_pass() {
    let mut world = World::new();
    world.ingest(ReportKind::Witness, 7, 6400);
    world.refuse_once.push(vec![7]);

    let first = run_pass(&mut world, &config(0), NOW);
    assert_eq!(first.phase(), Phase::Completed);
    assert_eq!(first.job_step(0), Some(JobStep::SinkRefused));
    assert!(world.store.contains_report(&vec![7]));
    assert_eq!(world.accepted(7), 0);
    assert!(world.archive.is_empty());

    let second = run_pass(&mut world, &config(0), NOW + 2100);
    assert_eq!(second.job_step(0), Some(JobStep::Purged));
    assert!(!world.store.contains_report(&vec![7]));
    assert_eq!(world.accepted(7), 1);
    assert_eq!(world.archive.len(), 1);
    assert_eq!(world.archive[0].reason(), InvalidReason::Stale);
    assert_eq!(world.archive[0].kind(), ReportKind::Witness);
    assert_eq!(
        world.effects,
        vec![
            Effect::Refused(vec![7]),
            Effect::EntropyPurged(0),
            Effect::Accepted(vec![7]),
            Effect::Deleted(vec![7]),
            Effect::EntropyPurged(0),
        ]
    );
}

#[test]
fn failed_delete_leaves_the_row_for_the_next_pass() {
    let mut world = World::new();
    world.ingest(ReportKind::Beacon, 9, 5400);
    world.fail_delete_once.push(vec![9]);
    let first = run_pass(&mut world, &config(0), NOW);
    assert_eq!(first.job_step(0), Some(JobStep::DeleteFailed));
    assert!(world.store.contains_report(&vec![9]));
    assert_eq!(first.summary().purged_beacons, 0);
    let second = run_pass(&mut world, &config(0), NOW);
    assert_eq!(second.job_step(0), Some(JobStep::Purged));
    assert!(!world.store.contains_report(&vec![9]));
}

#[test]
fn every_delete_comes_after_the_acceptance_of_its_own_artifact() {
    let mut world = World::new();
    for id in 0..60u8 {
        if id % 7 == 0 {
            world.ingest_undecodable(ReportKind::Beacon, id, 8000);
        } else {
            world.ingest(ReportKind::Beacon, id, 8000);
        }
        if id % 5 == 0 {
            world.refuse_once.push(vec![id]);
        }
    }
    run_pass(&mut world, &config(0), NOW);
    for id in 0..60u8 {
        let deleted = world.effects.iter().filter(|e| **e == Effect::Deleted(vec![id])).count();
        let expected = if id % 7 == 0 || id % 5 == 0 { 0 } else { 1 };
        assert_eq!(deleted, expected);
        assert_eq!(world.accepted(id), expected);
        assert_eq!(world.store.contains_report(&vec![id]), expected == 0);
        if expected == 1 {
            assert!(
                world.position(Effect::Accepted(vec![id]))
                    < world.position(Effect::Deleted(vec![id]))
            );
        }
    }
}

#[test]
fn order_of_completion_does_not_change_the_outcome() {
    let fill = |world: &mut World| {
        for id in 0..90u8 {
            if id % 11 == 0 {
                world.ingest_undecodable(ReportKind::Beacon, id, 8000);
            } else {
                world.ingest(ReportKind::Beacon, id, 8000);
            }
            if id % 13 == 0 {
                world.refuse_once.push(vec![id]);
            }
            world.ingest(ReportKind::Witness, 100 + id, 8000);
        }
        world.ingest_entropy(1, 8000);
    };
    let mut oldest_first = World::new();
    fill(&mut oldest_first);
    let first = run_pass(&mut oldest_first, &config(0), NOW);

    let mut newest_first = World::new();
    fill(&mut newest_first);
    let mut second = Pass::new(&config(0), NOW).unwrap();
    let begin = second.handle(PassEvent::Begin);
    drain_newest_first(&mut newest_first, &mut second, begin);

    assert!(second.is_finished());
    assert_eq!(first.summary(), second.summary());
    assert_eq!(first.job_count(), 180);
    for job in 0..first.job_count() {
        assert_eq!(first.job_step(job), second.job_step(job));
        assert!(first.job_step(job).unwrap().finished());
    }
    for id in 0..=255u8 {
        assert_eq!(
            oldest_first.store.contains_report(&vec![id]),
            newest_first.store.contains_report(&vec![id])
        );
        assert_eq!(oldest_first.accepted(id), newest_first.accepted(id));
    }
    let mut left = oldest_first.archive.clone();
    let mut right = newest_first.archive.clone();
    let key = |e: &InvalidReport| format!("{:?}", e);
    left.sort_by_key(key);
    right.sort_by_key(key);
    assert_eq!(left, right);
    assert_eq!(left.len(), 90 - 9 - 6 + 90);
}

#[test]
fn at_most_forty_reconciliations_are_in_flight() {
    let mut world = World::new();
    for id in 0..100u8 {
        world.ingest(ReportKind::Beacon, id, 8000);
    }
    let mut pass = Pass::new(&config(0), NOW).unwrap();
    let first = pass.handle(PassEvent::Begin);
    assert_eq!(first, vec![PassCommand::FindPendingBeacons { cutoff: NOW - 5400 }]);
    let event = perform(&mut world, &pass, first.into_iter().next().unwrap());
    let started = pass.handle(event);
    assert_eq!(started.len(), 40);
    assert_eq!(pass.in_flight(), 40);
    assert_eq!(pass.job_step(39), Some(JobStep::Decoding));
    assert_eq!(pass.job_step(40), Some(JobStep::Queued));

    // Progress of a job that stays in flight starts nothing.
    let next = pass.handle(PassEvent::Decoded { job: 0, ingest: decode(&payload(0, 1)) });
    assert_eq!(next.len(), 1);
    assert_eq!(pass.in_flight(), 40);
    // The end of a job frees one worker: exactly one queued job starts.
    let next = pass.handle(PassEvent::Submitted { job: 0, accepted: false });
    assert_eq!(next.len(), 1);
    assert!(matches!(next[0], PassCommand::Decode { job: 40, .. }));
    assert_eq!(pass.in_flight(), 40);
    assert_eq!(pass.job_step(40), Some(JobStep::Decoding));
}

#[test]
fn shutdown_lets_the_five_in_flight_finish_and_starts_nothing_new() {
    let mut world = World::new();
    for id in 0..5u8 {
        world.ingest(ReportKind::Beacon, id, 8000);
    }
    for id in 10..13u8 {
        world.ingest(ReportKind::Witness, id, 8000);
    }
    let settings = config(0);
    let mut scheduler = Scheduler::new(&settings);
    assert_eq!(scheduler.handle(SchedulerEvent::Tick), SchedulerAction::StartPass);

    let mut pass = Pass::new(&settings, NOW).unwrap();
    let first = pass.handle(PassEvent::Begin);
    let event = perform(&mut world, &pass, first.into_iter().next().unwrap());
    let in_flight = pass.handle(event);
    assert_eq!(in_flight.len(), 5);
    assert_eq!(pass.in_flight(), 5);

    // Shutdown fires with five reconciliations in flight.
    assert_eq!(scheduler.handle(SchedulerEvent::Shutdown), SchedulerAction::SignalPass);
    assert_eq!(scheduler.state(), SchedulerState::ShuttingDown);
    assert!(pass.handle(PassEvent::Shutdown).is_empty());
    assert!(!pass.is_finished());
    assert_eq!(pass.in_flight(), 5);

    // All five run their full archive-then-delete sequence.
    drain(&mut world, &mut pass, in_flight);
    assert!(pass.is_finished());
    assert_eq!(pass.phase(), Phase::Completed);
    for job in 0..5usize {
        assert_eq!(pass.job_step(job), Some(JobStep::Purged));
    }
    for id in 0..5u8 {
        assert!(!world.store.contains_report(&vec![id]));
        assert!(
            world.position(Effect::Accepted(vec![id])) < world.position(Effect::Deleted(vec![id]))
        );
    }
    // The witnesses were found but none was started.
    assert_eq!(pass.job_count(), 8);
    for job in 5..8usize {
        assert_eq!(pass.job_step(job), Some(JobStep::Queued));
    }
    for id in 10..13u8 {
        assert!(world.store.contains_report(&vec![id]));
        assert_eq!(world.accepted(id), 0);
    }

    // The pass has returned: the loop ends, and no tick starts another pass.
    assert_eq!(scheduler.handle(SchedulerEvent::PassCompleted), SchedulerAction::Exit);
    assert_eq!(scheduler.state(), SchedulerState::Stopped);
    assert_eq!(scheduler.handle(SchedulerEvent::Tick), SchedulerAction::Skip);
    assert!(scheduler.is_terminal());
}

#[test]
fn shutdown_leaves_queued_records_untouched() {
    let mut world = World::new();
    for id in 0..45u8 {
        world.ingest(ReportKind::Beacon, id, 8000);
    }
    let mut pass = Pass::new(&config(0), NOW).unwrap();
    let first = pass.handle(PassEvent::Begin);
    let event = perform(&mut world, &pass, first.into_iter().next().unwrap());
    let in_flight = pass.handle(event);
    assert_eq!(in_flight.len(), 40);
    assert!(pass.handle(PassEvent::Shutdown).is_empty());
    assert!(pass.is_shutting_down());
    drain(&mut world, &mut pass, in_flight);
    assert_eq!(pass.phase(), Phase::Completed);
    assert_eq!(pass.summary().stale_beacons, 45);
    assert_eq!(pass.summary().purged_beacons, 40);
    for job in 40..45usize {
        assert_eq!(pass.job_step(job), Some(JobStep::Queued));
    }
    assert_eq!(world.store.report_count(), 5);
}

#[test]
fn failed_beacon_query_abandons_the_pass() {
    let mut world = World::new();
    world.ingest(ReportKind::Beacon, 1, 9000);
    world.ingest_entropy(2, 9000);
    world.beacon_query_fails = true;
    let pass = run_pass(&mut world, &config(0), NOW);
    assert_eq!(pass.phase(), Phase::Failed);
    assert!(pass.has_failed());
    assert!(world.effects.is_empty());
    assert!(world.store.contains_report(&vec![1]));
    assert_eq!(world.store.entropy_count(), 1);
}

#[test]
fn failed_witness_query_abandons_the_pass_after_the_beacons() {
    let mut world = World::new();
    world.ingest(ReportKind::Beacon, 1, 9000);
    world.ingest(ReportKind::Witness, 2, 9000);
    world.ingest_entropy(3, 9000);
    world.witness_query_fails = true;
    let pass = run_pass(&mut world, &config(0), NOW);
    assert!(pass.has_failed());
    assert_eq!(world.effects, vec![Effect::Accepted(vec![1]), Effect::Deleted(vec![1])]);
    assert!(world.store.contains_report(&vec![2]));
    assert_eq!(world.store.entropy_count(), 1);
}

#[test]
fn failed_entropy_purge_does_not_fail_the_pass() {
    let mut world = World::new();
    world.ingest(ReportKind::Beacon, 1, 9000);
    world.ingest_entropy(3, 9000);
    world.entropy_purge_fails = true;
    let pass = run_pass(&mut world, &config(0), NOW);
    assert_eq!(pass.phase(), Phase::Completed);
    assert!(!pass.has_failed());
    assert_eq!(pass.summary().purged_entropy, None);
    assert_eq!(pass.summary().purged_beacons, 1);
    assert_eq!(world.store.entropy_count(), 1);
}

#[test]
fn events_that_do_not_fit_are_ignored() {
    let mut pass = Pass::new(&config(0), NOW).unwrap();
    assert!(pass.handle(PassEvent::StaleReports(Vec::new())).is_empty());
    assert!(pass.handle(PassEvent::Deleted { job: 0, done: true }).is_empty());
    assert!(pass.handle(PassEvent::EntropyPurged { purged: Some(3) }).is_empty());
    assert!(pass.handle(PassEvent::QueryFailed).is_empty());
    assert_eq!(pass.phase(), Phase::Created);
    assert_eq!(pass.handle(PassEvent::Begin).len(), 1);
    assert!(pass.handle(PassEvent::Begin).is_empty());
    assert_eq!(pass.phase(), Phase::QueryingBeacons);

    let report = Report {
        id: vec![1],
        report_data: payload(1, 5),
        received_timestamp: 0,
        kind: ReportKind::Beacon,
    };
    let started = pass.handle(PassEvent::StaleReports(vec![report]));
    assert_eq!(
        started,
        vec![
            PassCommand::Decode { job: 0, kind: ReportKind::Beacon, report_data: payload(1, 5) }
        ]
    );
    // Acceptance before anything was submitted deletes nothing.
    assert!(pass.handle(PassEvent::Submitted { job: 0, accepted: true }).is_empty());
    assert!(pass.handle(PassEvent::Deleted { job: 0, done: true }).is_empty());
    assert!(pass.handle(PassEvent::Decoded { job: 1, ingest: None }).is_empty());
    assert_eq!(pass.job_step(0), Some(JobStep::Decoding));
    assert_eq!(pass.job_step(1), None);
    assert!(pass.job_report(1).is_none());

    let submit = pass.handle(PassEvent::Decoded { job: 0, ingest: decode(&payload(1, 5)) });
    assert_eq!(
        submit,
        vec![
            PassCommand::Submit {
                job: 0,
                envelope: InvalidReport::Beacon {
                    received_timestamp: 5,
                    reason: InvalidReason::Stale,
                    report: vec![b'r', 1],
                },
            }
        ]
    );
    // A second decoding result for the same job is ignored.
    assert!(pass.handle(PassEvent::Decoded { job: 0, ingest: None }).is_empty());
    let delete = pass.handle(PassEvent::Submitted { job: 0, accepted: true });
    assert_eq!(delete, vec![PassCommand::Delete { job: 0, id: vec![1] }]);
    // A second acceptance does not delete twice.
    assert!(pass.handle(PassEvent::Submitted { job: 0, accepted: true }).is_empty());
    let next = pass.handle(PassEvent::Deleted { job: 0, done: true });
    assert_eq!(next, vec![PassCommand::FindPendingWitnesses { cutoff: NOW - 6300 }]);
    assert!(pass.handle(PassEvent::Deleted { job: 0, done: true }).is_empty());
    assert_eq!(pass.job_step(0), Some(JobStep::Purged));
    assert!(JobStep::Purged.finished());
    assert!(!JobStep::Deleting.finished());
}

#[test]
fn pass_cutoffs_are_now_less_the_period_of_each_kind() {
    let mut pass = Pass::new(&config(100), 10_000).unwrap();
    assert_eq!(
        pass.handle(PassEvent::Begin),
        vec![PassCommand::FindPendingBeacons { cutoff: 10_000 - 5500 }]
    );
    assert_eq!(
        pass.handle(PassEvent::StaleReports(Vec::new())),
        vec![PassCommand::FindPendingWitnesses { cutoff: 10_000 - 6400 }]
    );
    assert_eq!(
        pass.handle(PassEvent::StaleReports(Vec::new())),
        vec![PassCommand::PurgeEntropy { cutoff: 10_000 - 6400 }]
    );
    assert!(pass.handle(PassEvent::EntropyPurged { purged: Some(0) }).is_empty());
    assert_eq!(pass.phase(), Phase::Completed);
}

#[test]
fn pass_is_refused_when_a_cutoff_does_not_fit() {
    assert!(Pass::new(&config(0), i64::MIN + 6299).is_none());
    assert!(Pass::new(&config(0), i64::MIN + 6300).is_some());
    assert!(Pass::new(&config(-7000), i64::MAX).is_none());
    assert!(Pass::new(&config(-5400), i64::MAX).is_some());
    assert!(Pass::new(&config(-5401), i64::MAX).is_none());
}
