//! What holds of every run of a pass.
//!
//! The statements here are about the transition function
//! [`step`](super::pass::step) alone, so they hold of whatever sequence of
//! events a caller feeds to [`Pass::handle`](super::pass::Pass::handle):
//! well-behaved or not, before or after shutdown, with any mix of failures.

use super::pass::{
    active_jobs, lemma_active_job_counts, lemma_step_preserves_wf, pass_at, step, JobStep,
    PassCommandView, PassEventView, PassView, Phase,
};
use super::config::PurgerConfig;
use super::report::{stale_envelope, EntropyView, InvalidReason, ReportKind, ReportView};
use super::store::{is_newer_than, lemma_selected_iff_older, RecordStoreView};
use vstd::prelude::*;

verus! {

impl PassCommandView {
    /// This command starts job `job`.
    pub open spec fn decodes(self, job: int) -> bool {
        match self {
            PassCommandView::Decode { job: j, .. } => j == job,
            _ => false,
        }
    }

    /// This command hands the artifact of job `job` to the archive.
    pub open spec fn submits(self, job: int) -> bool {
        match self {
            PassCommandView::Submit { job: j, .. } => j == job,
            _ => false,
        }
    }

    /// This command deletes the row of job `job`.
    pub open spec fn deletes(self, job: int) -> bool {
        match self {
            PassCommandView::Delete { job: j, .. } => j == job,
            _ => false,
        }
    }
}

impl PassEventView {
    /// The job this event is about, if it is about one.
    pub open spec fn job(self) -> Option<int> {
        match self {
            PassEventView::Decoded { job, .. } => Some(job),
            PassEventView::Submitted { job, .. } => Some(job),
            PassEventView::Deleted { job, .. } => Some(job),
            _ => None,
        }
    }
}

/// Some command of `commands` starts job `job`.
pub open spec fn any_decodes(commands: Seq<PassCommandView>, job: int) -> bool {
    exists|k: int| 0 <= k < commands.len() && #[trigger] commands[k].decodes(job)
}

/// Some command of `commands` hands the artifact of job `job` to the archive.
pub open spec fn any_submits(commands: Seq<PassCommandView>, job: int) -> bool {
    exists|k: int| 0 <= k < commands.len() && #[trigger] commands[k].submits(job)
}

/// Some command of `commands` deletes the row of job `job`.
pub open spec fn any_deletes(commands: Seq<PassCommandView>, job: int) -> bool {
    exists|k: int| 0 <= k < commands.len() && #[trigger] commands[k].deletes(job)
}

/// The state after `events`, taken in order from `s`.
pub open spec fn run(s: PassView, events: Seq<PassEventView>) -> PassView
    decreases events.len(),
{
    if events.len() == 0 {
        s
    } else {
        step(run(s, events.drop_last()), events.last()).0
    }
}

/// The commands issued in answer to `events[i]` in the run of `events` from
/// `s`.
pub open spec fn answer(s: PassView, events: Seq<PassEventView>, i: int) -> Seq<PassCommandView> {
    step(run(s, events.take(i)), events[i]).1
}

/// Write before delete, in one transition: a row is deleted only in answer
/// to the archive's acceptance of that row's own artifact, and the
/// identifier deleted is the identifier of that row.
pub proof fn lemma_delete_answers_acceptance(
    s: PassView,
    event: PassEventView,
    k: int,
    job: int,
)
    requires
        s.wf(),
        0 <= k < step(s, event).1.len(),
        step(s, event).1[k].deletes(job),
    ensures
        event == (PassEventView::Submitted { job, accepted: true }),
        s.job_at(job, JobStep::Submitting),
        step(s, event).0.steps[job] == JobStep::Deleting,
        step(s, event).1 == seq![PassCommandView::Delete { job, id: s.reports[job].id }],
{
}

/// An artifact is handed to the archive only in answer to the successful
/// decoding of that report, and it is the stale artifact of what was decoded.
pub proof fn lemma_submit_answers_decoding(s: PassView, event: PassEventView, k: int, job: int)
    requires
        s.wf(),
        0 <= k < step(s, event).1.len(),
        step(s, event).1[k].submits(job),
    ensures
        s.job_at(job, JobStep::Decoding),
        event matches PassEventView::Decoded { job: j, ingest: Some(ingest) } && j == job && step(
            s,
            event,
        ).1 == seq![
            PassCommandView::Submit { job, envelope: stale_envelope(s.reports[job].kind, ingest) },
        ],
        step(s, event).0.steps[job] == JobStep::Submitting,
{
}

/// A job is started only from the queue, only while reports are being
/// reconciled, only before shutdown, and only onto a free worker.
pub proof fn lemma_decode_starts_queued(s: PassView, event: PassEventView, k: int, job: int)
    requires
        s.wf(),
        0 <= k < step(s, event).1.len(),
        step(s, event).1[k].decodes(job),
    ensures
        !s.shutdown,
        !step(s, event).0.shutdown,
        0 <= job < step(s, event).0.steps.len(),
        job < s.steps.len() ==> s.steps[job] == JobStep::Queued,
        step(s, event).0.steps[job] == JobStep::Decoding,
        step(s, event).0.in_flight <= s.workers,
        step(s, event).1[k] == step(s, event).0.decode_command(job),
{
    lemma_step_preserves_wf(s, event);
}

/// A transition never takes a job back, never changes a job that has ended,
/// and never changes which report a job reconciles.
pub proof fn lemma_step_advances(s: PassView, event: PassEventView, job: int)
    requires
        s.wf(),
        0 <= job < s.steps.len(),
    ensures
        step(s, event).0.steps.len() >= s.steps.len(),
        step(s, event).0.reports[job] == s.reports[job],
        step(s, event).0.steps[job].rank() >= s.steps[job].rank(),
        s.steps[job].is_final() ==> step(s, event).0.steps[job] == s.steps[job],
        s.steps[job].was_submitted() ==> step(s, event).0.steps[job].was_submitted(),
        s.steps[job].is_archived() ==> step(s, event).0.steps[job].is_archived(),
        step(s, event).0.workers == s.workers,
        s.shutdown ==> step(s, event).0.shutdown,
{
}

/// A job ends as purged only on the report that its row was deleted, and
/// ends in any other way without the row having been deleted.
pub proof fn lemma_purged_answers_deletion(s: PassView, event: PassEventView, job: int)
    requires
        s.wf(),
        0 <= job < s.steps.len(),
        s.steps[job] != step(s, event).0.steps[job],
        step(s, event).0.steps[job].is_final(),
    ensures
        step(s, event).0.steps[job] == JobStep::Purged <==> event == (PassEventView::Deleted {
            job,
            done: true,
        }),
        step(s, event).0.steps[job] == JobStep::DeleteFailed <==> event == (PassEventView::Deleted {
            job,
            done: false,
        }),
        step(s, event).0.steps[job] == JobStep::SinkRefused <==> event == (PassEventView::Submitted {
            job,
            accepted: false,
        }),
        step(s, event).0.steps[job] == JobStep::DecodeFailed <==> event == (PassEventView::Decoded {
            job,
            ingest: None,
        }),
        event.job() == Some(job),
        s.steps[job].is_active(),
{
}

/// Isolation, in one transition: an event about one job, whether it reports
/// success or failure, changes no other job, except that a queued job may be
/// started on the worker that came free.
pub proof fn lemma_siblings_untouched(s: PassView, event: PassEventView, other: int)
    requires
        s.wf(),
        0 <= other < s.steps.len(),
        event.job().is_some(),
        event.job().unwrap() != other,
    ensures
        step(s, event).0.steps[other] == s.steps[other] || (s.steps[other] == JobStep::Queued
            && step(s, event).0.steps[other] == JobStep::Decoding),
        s.steps[other] != JobStep::Queued ==> step(s, event).0.steps[other] == s.steps[other],
{
}

/// What becomes of a job under way depends on the event about it alone:
/// decoding failure, refusal by the archive and failure to delete each end
/// it where it stands, and each success takes it one step on.
pub proof fn lemma_own_event_decides(s: PassView, event: PassEventView, job: int)
    requires
        s.wf(),
        0 <= job < s.steps.len(),
        s.steps[job].is_active(),
        event.job() == Some(job),
    ensures
        step(s, event).0.steps[job] == match (s.steps[job], event) {
            (JobStep::Decoding, PassEventView::Decoded { ingest: Some(_), .. }) => JobStep::Submitting,
            (JobStep::Decoding, PassEventView::Decoded { ingest: None, .. }) => JobStep::DecodeFailed,
            (JobStep::Submitting, PassEventView::Submitted { accepted: true, .. }) => JobStep::Deleting,
            (JobStep::Submitting, PassEventView::Submitted { accepted: false, .. }) => JobStep::SinkRefused,
            (JobStep::Deleting, PassEventView::Deleted { done: true, .. }) => JobStep::Purged,
            (JobStep::Deleting, PassEventView::Deleted { done: false, .. }) => JobStep::DeleteFailed,
            (at, _) => at,
        },
{
    lemma_active_job_counts(s, job);
}

/// After shutdown no job is started, whatever happens, and shutdown stays
/// requested.
pub proof fn lemma_shutdown_stops_launching(s: PassView, event: PassEventView, job: int)
    requires
        s.wf(),
        s.shutdown,
    ensures
        !any_decodes(step(s, event).1, job),
        step(s, event).0.next == s.next,
        step(s, event).0.shutdown,
{
    lemma_step_preserves_wf(s, event);
    if any_decodes(step(s, event).1, job) {
        let k = choose|k: int|
            0 <= k < step(s, event).1.len() && #[trigger] step(s, event).1[k].decodes(job);
        lemma_decode_starts_queued(s, event, k, job);
    }
}

/// The answer to an event about a job under way is the same before and
/// after shutdown, as far as that job goes: shutdown never interrupts a
/// reconciliation between the archive and the delete.
pub proof fn lemma_shutdown_spares_in_flight(s: PassView, event: PassEventView, job: int)
    requires
        s.wf(),
        0 <= job < s.steps.len(),
        s.steps[job].is_active(),
        event.job() == Some(job),
    ensures
        ({
            let stopped = step(s, PassEventView::Shutdown).0;
            &&& stopped.wf()
            &&& stopped.steps == s.steps
            &&& step(stopped, event).0.steps[job] == step(s, event).0.steps[job]
            &&& any_submits(step(stopped, event).1, job) == any_submits(step(s, event).1, job)
            &&& any_deletes(step(stopped, event).1, job) == any_deletes(step(s, event).1, job)
        }),
{
    let stopped = step(s, PassEventView::Shutdown).0;
    lemma_step_preserves_wf(s, PassEventView::Shutdown);
    lemma_active_job_counts(s, job);
    lemma_own_event_decides(s, event, job);
    lemma_own_event_decides(stopped, event, job);
    let before = step(s, event).1;
    let after = step(stopped, event).1;
    if any_submits(before, job) {
        let k = choose|k: int| 0 <= k < before.len() && #[trigger] before[k].submits(job);
        lemma_submit_answers_decoding(s, event, k, job);
        assert(after[0].submits(job));
    }
    if any_submits(after, job) {
        let k = choose|k: int| 0 <= k < after.len() && #[trigger] after[k].submits(job);
        lemma_submit_answers_decoding(stopped, event, k, job);
        assert(before[0].submits(job));
    }
    if any_deletes(before, job) {
        let k = choose|k: int| 0 <= k < before.len() && #[trigger] before[k].deletes(job);
        lemma_delete_answers_acceptance(s, event, k, job);
        assert(after[0].deletes(job));
    }
    if any_deletes(after, job) {
        let k = choose|k: int| 0 <= k < after.len() && #[trigger] after[k].deletes(job);
        lemma_delete_answers_acceptance(stopped, event, k, job);
        assert(before[0].deletes(job));
    }
}

/// When a pass has ended without shutdown, every job has ended: no report
/// that was selected is left queued or half reconciled.
pub proof fn lemma_finished_pass_ended_every_job(s: PassView, job: int)
    requires
        s.wf(),
        s.is_finished() || s.phase == Phase::PurgingEntropy,
        !s.shutdown,
        0 <= job < s.steps.len(),
    ensures
        s.steps[job].is_final(),
{
    if s.steps[job].is_active() {
        lemma_active_job_counts(s, job);
    }
}

/// When a pass has left its reconciling phases, nothing is in flight, with
/// or without shutdown: a pass never ends under a reconciliation.
pub proof fn lemma_nothing_in_flight_outside_pool(s: PassView, job: int)
    requires
        s.wf(),
        !s.pooling(),
        0 <= job < s.steps.len(),
    ensures
        !s.steps[job].is_active(),
        s.in_flight == 0,
{
    if s.steps[job].is_active() {
        lemma_active_job_counts(s, job);
    }
}

/// Every state of a run is well formed.
pub proof fn lemma_run_wf(s: PassView, events: Seq<PassEventView>)
    requires
        s.wf(),
    ensures
        run(s, events).wf(),
    decreases events.len(),
{
    if events.len() > 0 {
        lemma_run_wf(s, events.drop_last());
        lemma_step_preserves_wf(run(s, events.drop_last()), events.last());
    }
}

/// Running one event more is one transition more.
pub proof fn lemma_run_take(s: PassView, events: Seq<PassEventView>, i: int)
    requires
        0 <= i < events.len(),
    ensures
        run(s, events.take(i + 1)) == step(run(s, events.take(i)), events[i]).0,
{
    assert(events.take(i + 1).drop_last() =~= events.take(i));
}

/// Along a run jobs only advance: between any two moments of it no job has
/// gone back, a job that had ended is unchanged, and shutdown, once
/// requested, stays requested.
pub proof fn lemma_run_advances(s: PassView, events: Seq<PassEventView>, i: int, j: int, job: int)
    requires
        s.wf(),
        0 <= i <= j <= events.len(),
        0 <= job < run(s, events.take(i)).steps.len(),
    ensures
        job < run(s, events.take(j)).steps.len(),
        run(s, events.take(j)).reports[job] == run(s, events.take(i)).reports[job],
        run(s, events.take(j)).steps[job].rank() >= run(s, events.take(i)).steps[job].rank(),
        run(s, events.take(i)).steps[job].is_final() ==> run(s, events.take(j)).steps[job] == run(
            s,
            events.take(i),
        ).steps[job],
        run(s, events.take(i)).steps[job].was_submitted() ==> run(
            s,
            events.take(j),
        ).steps[job].was_submitted(),
        run(s, events.take(i)).steps[job].is_archived() ==> run(
            s,
            events.take(j),
        ).steps[job].is_archived(),
        run(s, events.take(i)).shutdown ==> run(s, events.take(j)).shutdown,
    decreases j - i,
{
    if i < j {
        lemma_run_advances(s, events, i, j - 1, job);
        lemma_run_wf(s, events.take(j - 1));
        lemma_run_take(s, events, j - 1);
        lemma_step_advances(run(s, events.take(j - 1)), events[j - 1], job);
    }
}

/// Disposal happens at most once: in no run is the row of a report deleted
/// twice.
pub proof fn lemma_deleted_at_most_once(
    s: PassView,
    events: Seq<PassEventView>,
    i: int,
    j: int,
    job: int,
)
    requires
        s.wf(),
        0 <= i < j < events.len(),
        any_deletes(answer(s, events, i), job),
    ensures
        !any_deletes(answer(s, events, j), job),
{
    let at_i = run(s, events.take(i));
    let at_j = run(s, events.take(j));
    lemma_run_wf(s, events.take(i));
    lemma_run_wf(s, events.take(j));
    let k = choose|k: int|
        0 <= k < answer(s, events, i).len() && #[trigger] answer(s, events, i)[k].deletes(job);
    lemma_delete_answers_acceptance(at_i, events[i], k, job);
    lemma_run_take(s, events, i);
    lemma_run_advances(s, events, i + 1, j, job);
    if any_deletes(answer(s, events, j), job) {
        let m = choose|m: int|
            0 <= m < answer(s, events, j).len() && #[trigger] answer(s, events, j)[m].deletes(job);
        lemma_delete_answers_acceptance(at_j, events[j], m, job);
    }
}

/// No artifact is archived twice in one pass: in no run is the artifact of a
/// report handed to the archive a second time.
pub proof fn lemma_submitted_at_most_once(
    s: PassView,
    events: Seq<PassEventView>,
    i: int,
    j: int,
    job: int,
)
    requires
        s.wf(),
        0 <= i < j < events.len(),
        any_submits(answer(s, events, i), job),
    ensures
        !any_submits(answer(s, events, j), job),
{
    let at_i = run(s, events.take(i));
    let at_j = run(s, events.take(j));
    lemma_run_wf(s, events.take(i));
    lemma_run_wf(s, events.take(j));
    let k = choose|k: int|
        0 <= k < answer(s, events, i).len() && #[trigger] answer(s, events, i)[k].submits(job);
    lemma_submit_answers_decoding(at_i, events[i], k, job);
    lemma_run_take(s, events, i);
    lemma_run_advances(s, events, i + 1, j, job);
    if any_submits(answer(s, events, j), job) {
        let m = choose|m: int|
            0 <= m < answer(s, events, j).len() && #[trigger] answer(s, events, j)[m].submits(job);
        lemma_submit_answers_decoding(at_j, events[j], m, job);
    }
}

/// A job that has got as far as the archive was handed to it earlier in the
/// run, unless the run started with the job already there.
pub proof fn lemma_submitting_was_submitted(
    s: PassView,
    events: Seq<PassEventView>,
    i: int,
    job: int,
)
    requires
        s.wf(),
        0 <= i <= events.len(),
        0 <= job < run(s, events.take(i)).steps.len(),
        run(s, events.take(i)).steps[job].was_submitted(),
        job < s.steps.len() ==> !s.steps[job].was_submitted(),
    ensures
        exists|h: int| 0 <= h < i && #[trigger] any_submits(answer(s, events, h), job),
    decreases i,
{
    if i == 0 {
        assert(events.take(0) =~= Seq::empty());
    } else {
        let before = run(s, events.take(i - 1));
        lemma_run_wf(s, events.take(i - 1));
        lemma_run_take(s, events, i - 1);
        if job < before.steps.len() && before.steps[job].was_submitted() {
            lemma_submitting_was_submitted(s, events, i - 1, job);
            let h = choose|h: int|
                0 <= h < i - 1 && #[trigger] any_submits(answer(s, events, h), job);
            assert(any_submits(answer(s, events, h), job));
        } else {
            lemma_reaches_archive_by_submit(before, events[i - 1], job);
            assert(any_submits(answer(s, events, i - 1), job));
        }
    }
}

/// A job reaches the archive in one transition only by being handed to it.
proof fn lemma_reaches_archive_by_submit(s: PassView, event: PassEventView, job: int)
    requires
        s.wf(),
        0 <= job < step(s, event).0.steps.len(),
        step(s, event).0.steps[job].was_submitted(),
        job < s.steps.len() ==> !s.steps[job].was_submitted(),
    ensures
        any_submits(step(s, event).1, job),
{
    if job < s.steps.len() {
        if s.steps[job] == JobStep::Decoding {
            lemma_active_job_counts(s, job);
        }
        if event.job() == Some(job) {
            assert(step(s, event).1[0].submits(job));
        }
    }
}

/// Never deleted without a prior successful archive submission: whenever a
/// run deletes the row of a report, the event answered is the archive's
/// acceptance of that report's artifact, and the artifact was handed to the
/// archive strictly earlier in the run. Its reason is `Stale`.
pub proof fn lemma_delete_follows_submit(
    s: PassView,
    events: Seq<PassEventView>,
    i: int,
    job: int,
)
    requires
        s.wf(),
        0 <= i < events.len(),
        any_deletes(answer(s, events, i), job),
        job < s.steps.len() ==> !s.steps[job].was_submitted(),
    ensures
        events[i] == (PassEventView::Submitted { job, accepted: true }),
        exists|h: int| 0 <= h < i && #[trigger] any_submits(answer(s, events, h), job),
{
    let at_i = run(s, events.take(i));
    lemma_run_wf(s, events.take(i));
    let k = choose|k: int|
        0 <= k < answer(s, events, i).len() && #[trigger] answer(s, events, i)[k].deletes(job);
    lemma_delete_answers_acceptance(at_i, events[i], k, job);
    lemma_submitting_was_submitted(s, events, i, job);
}

/// Disposal is exclusive: a row that a run deleted belongs to a report whose
/// artifact the archive accepted, at every later moment of the run. A report
/// that ends with its decoding failed or its artifact refused was therefore
/// never deleted: it is left pending, and it is not archived.
pub proof fn lemma_deleted_only_if_archived(
    s: PassView,
    events: Seq<PassEventView>,
    i: int,
    j: int,
    job: int,
)
    requires
        s.wf(),
        0 <= i < j <= events.len(),
        any_deletes(answer(s, events, i), job),
    ensures
        0 <= job < run(s, events.take(j)).steps.len(),
        run(s, events.take(j)).steps[job].is_archived(),
        run(s, events.take(j)).steps[job] != JobStep::DecodeFailed,
        run(s, events.take(j)).steps[job] != JobStep::SinkRefused,
{
    let at_i = run(s, events.take(i));
    lemma_run_wf(s, events.take(i));
    let k = choose|k: int|
        0 <= k < answer(s, events, i).len() && #[trigger] answer(s, events, i)[k].deletes(job);
    lemma_delete_answers_acceptance(at_i, events[i], k, job);
    lemma_run_take(s, events, i);
    lemma_run_advances(s, events, i + 1, j, job);
}

/// A pass that has not begun is well formed.
pub proof fn lemma_pass_at_wf(config: PurgerConfig, now: i64)
    requires
        config.wf(),
    ensures
        pass_at(config, now).wf(),
{
    assert(active_jobs(pass_at(config, now).steps) =~= Set::empty());
}

/// The cutoffs and the worker count of a pass never change.
pub proof fn lemma_run_keeps_settings(s: PassView, events: Seq<PassEventView>)
    ensures
        run(s, events).beacon_cutoff == s.beacon_cutoff,
        run(s, events).witness_cutoff == s.witness_cutoff,
        run(s, events).entropy_cutoff == s.entropy_cutoff,
        run(s, events).workers == s.workers,
    decreases events.len(),
{
    if events.len() > 0 {
        lemma_run_keeps_settings(s, events.drop_last());
    }
}

/// Whenever a pass at `now` asks for stale beacons, what the record store
/// selects in answer are the pending beacons whose age at `now` has reached
/// the beacon period, the base period plus 5400 seconds: a beacon one second
/// younger is not selected, a beacon of exactly that age is.
pub proof fn lemma_pass_selects_stale_beacons(
    config: PurgerConfig,
    now: i64,
    events: Seq<PassEventView>,
    i: int,
    k: int,
    store: RecordStoreView,
    report: ReportView,
)
    requires
        config.wf(),
        i64::MIN <= now - config.spec_beacon_stale_period() <= i64::MAX,
        0 <= i < events.len(),
        0 <= k < answer(pass_at(config, now), events, i).len(),
        store.reports.contains(report),
        report.kind == ReportKind::Beacon,
    ensures
        answer(pass_at(config, now), events, i)[k]
            matches PassCommandView::FindPendingBeacons { cutoff } ==> (store.pending_older_than(
            ReportKind::Beacon,
            cutoff,
        ).contains(report) <==> now - report.received_timestamp
            >= config.spec_base_stale_period() + 5400),
{
    let cutoff = (now - config.spec_beacon_stale_period()) as i64;
    lemma_run_keeps_settings(pass_at(config, now), events.take(i));
    lemma_selected_iff_older(store, ReportKind::Beacon, cutoff, report);
}

/// Whenever a pass at `now` asks for stale witnesses, what the record store
/// selects in answer are the pending witnesses whose age at `now` has
/// reached the witness period, the base period plus 6300 seconds.
pub proof fn lemma_pass_selects_stale_witnesses(
    config: PurgerConfig,
    now: i64,
    events: Seq<PassEventView>,
    i: int,
    k: int,
    store: RecordStoreView,
    report: ReportView,
)
    requires
        config.wf(),
        i64::MIN <= now - config.spec_witness_stale_period() <= i64::MAX,
        0 <= i < events.len(),
        0 <= k < answer(pass_at(config, now), events, i).len(),
        store.reports.contains(report),
        report.kind == ReportKind::Witness,
    ensures
        answer(pass_at(config, now), events, i)[k]
            matches PassCommandView::FindPendingWitnesses { cutoff } ==> (store.pending_older_than(
            ReportKind::Witness,
            cutoff,
        ).contains(report) <==> now - report.received_timestamp
            >= config.spec_base_stale_period() + 6300),
{
    let cutoff = (now - config.spec_witness_stale_period()) as i64;
    lemma_run_keeps_settings(pass_at(config, now), events.take(i));
    lemma_selected_iff_older(store, ReportKind::Witness, cutoff, report);
}

/// Whenever a pass at `now` asks for the bulk delete of entropy, what the
/// record store deletes is exactly the entropy whose age at `now` has
/// reached the entropy period, the base period plus 6300 seconds, and no
/// report.
pub proof fn lemma_pass_purges_stale_entropy(
    config: PurgerConfig,
    now: i64,
    events: Seq<PassEventView>,
    i: int,
    k: int,
    store: RecordStoreView,
    entropy: EntropyView,
)
    requires
        config.wf(),
        i64::MIN <= now - config.spec_entropy_stale_period() <= i64::MAX,
        0 <= i < events.len(),
        0 <= k < answer(pass_at(config, now), events, i).len(),
        store.entropy.contains(entropy),
    ensures
        answer(pass_at(config, now), events, i)[k] matches PassCommandView::PurgeEntropy {
            cutoff,
        } ==> {
            &&& store.purge_entropy(cutoff).reports == store.reports
            &&& store.purge_entropy(cutoff).entropy.contains(entropy) <==> now - entropy.timestamp
                < config.spec_base_stale_period() + 6300
        },
{
    let cutoff = (now - config.spec_entropy_stale_period()) as i64;
    lemma_run_keeps_settings(pass_at(config, now), events.take(i));
    let keep = is_newer_than(cutoff);
    let kept = store.entropy.filter(keep);
    if kept.contains(entropy) {
        let i = choose|i: int| 0 <= i < kept.len() && kept[i] == entropy;
        store.entropy.lemma_filter_pred(keep, i);
    }
    if keep(entropy) {
        let i = choose|i: int| 0 <= i < store.entropy.len() && store.entropy[i] == entropy;
        store.entropy.lemma_filter_contains(keep, i);
    }
}

impl Phase {
    /// The number of phases still ahead of a pass in this phase.
    pub open spec fn phases_left(self) -> nat {
        match self {
            Phase::Created => 6,
            Phase::QueryingBeacons => 5,
            Phase::Beacons => 4,
            Phase::QueryingWitnesses => 3,
            Phase::Witnesses => 2,
            Phase::PurgingEntropy => 1,
            Phase::Completed => 0,
            Phase::Failed => 0,
        }
    }
}

impl JobStep {
    /// The number of events a job at this step can still take.
    pub open spec fn events_left(self) -> nat {
        match self {
            JobStep::Queued => 4,
            JobStep::Decoding => 3,
            JobStep::Submitting => 2,
            JobStep::Deleting => 1,
            _ => 0,
        }
    }
}

/// The number of events the first `upto` jobs of `steps` can still take.
pub open spec fn work_left(steps: Seq<JobStep>, upto: int) -> nat
    decreases upto,
{
    if upto <= 0 {
        0
    } else {
        work_left(steps, upto - 1) + steps[upto - 1].events_left()
    }
}

/// Taking one job further takes as much off the work that is left.
proof fn lemma_work_left_update(steps: Seq<JobStep>, job: int, step: JobStep, upto: int)
    requires
        0 <= job < steps.len(),
        0 <= upto <= steps.len(),
    ensures
        work_left(steps.update(job, step), upto) == if job < upto {
            work_left(steps, upto) - steps[job].events_left() + step.events_left()
        } else {
            work_left(steps, upto) as int
        },
    decreases upto,
{
    if upto > 0 {
        lemma_work_left_update(steps, job, step, upto - 1);
    }
}

/// Where no job has more left than before, no more work is left than before.
proof fn lemma_work_left_monotone(before: Seq<JobStep>, after: Seq<JobStep>, upto: int)
    requires
        before.len() == after.len(),
        0 <= upto <= before.len(),
        forall|i: int| 0 <= i < upto ==> after[i].events_left() <= before[i].events_left(),
    ensures
        work_left(after, upto) <= work_left(before, upto),
    decreases upto,
{
    if upto > 0 {
        lemma_work_left_monotone(before, after, upto - 1);
    }
}

/// A pass cannot stall or loop. Every event either leaves the pass as it
/// was, or takes it to a later phase, or takes work off its jobs within the
/// phase; the request for shutdown, which only sets a flag, is the one
/// exception. Phases are finitely many and the work of the jobs is finite,
/// so no run of a pass goes on changing it for ever.
pub proof fn lemma_step_makes_progress(s: PassView, event: PassEventView)
    requires
        s.wf(),
        event != PassEventView::Shutdown,
    ensures
        ({
            let t = step(s, event).0;
            ||| t == s
            ||| t.phase.phases_left() < s.phase.phases_left()
            ||| t.phase == s.phase && work_left(t.steps, t.steps.len() as int) < work_left(
                s.steps,
                s.steps.len() as int,
            )
        }),
{
    let t = step(s, event).0;
    match event.job() {
        Some(job) => {
            if 0 <= job < s.steps.len() && t != s {
                lemma_active_job_counts(s, job);
                let len = s.steps.len() as int;
                if t.steps[job].is_active() {
                    lemma_work_left_update(s.steps, job, t.steps[job], len);
                    assert(t.steps =~= s.steps.update(job, t.steps[job]));
                } else {
                    let ended = s.with_ended(job, t.steps[job]);
                    lemma_own_event_decides(s, event, job);
                    lemma_work_left_update(s.steps, job, t.steps[job], len);
                    assert(ended.steps == s.steps.update(job, t.steps[job]));
                    assert(t == ended.resume().0);
                    lemma_work_left_monotone(ended.steps, t.steps, len);
                }
            }
        },
        None => {},
    }
}

/// Every artifact a pass hands to the archive is stamped `Stale`.
pub proof fn lemma_submits_only_stale(s: PassView, event: PassEventView, k: int)
    requires
        s.wf(),
        0 <= k < step(s, event).1.len(),
    ensures
        step(s, event).1[k] matches PassCommandView::Submit { envelope, .. } ==> envelope.reason()
            == InvalidReason::Stale,
{
    match step(s, event).1[k] {
        PassCommandView::Submit { job, envelope } => {
            assert(step(s, event).1[k].submits(job));
            lemma_submit_answers_decoding(s, event, k, job);
        },
        _ => {},
    }
}

} // verus!
