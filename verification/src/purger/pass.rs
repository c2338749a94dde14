//! One reconciliation pass as a state machine.
//!
//! A pass queries the stale beacons, reconciles them, queries the stale
//! witnesses, reconciles them, and purges stale entropy. Reconciling one
//! report means: decode its payload, hand the stale artifact to the archive,
//! and delete the row only once the archive has accepted the artifact.
//!
//! The pass performs no input or output. It is told what happened by a
//! [`PassEvent`] and answers with the [`PassCommand`]s to carry out next. The
//! caller runs the commands, concurrently where there are several, and
//! reports each result as the next event. What [`Pass::handle`] does is given
//! by the transition function [`step`].

use super::config::{stale_cutoff, PurgerConfig};
use super::report::{
    copy_bytes, report_views, stale_envelope, IngestReport, IngestReportView, InvalidReport,
    InvalidReportView, Report, ReportKind, ReportView,
};
use vstd::prelude::*;
use vstd::set_lib::{lemma_int_range, lemma_len_subset, lemma_set_disjoint_lens, set_int_range};

verus! {

/// How far the reconciliation of one report has come.
#[derive(Clone, Copy, Debug, PartialEq, Eq, Structural)]
pub enum JobStep {
    /// Selected as stale, not started.
    Queued,
    /// The payload is out for decoding.
    Decoding,
    /// The stale artifact is with the archive, not yet accepted.
    Submitting,
    /// The archive accepted the artifact; deletion of the row is under way.
    Deleting,
    /// The payload did not decode. The row is left as it was.
    DecodeFailed,
    /// The archive refused the artifact. The row is left as it was.
    SinkRefused,
    /// The artifact is archived but the deletion failed. The row is still
    /// pending and will be found again by the next pass.
    DeleteFailed,
    /// The artifact is archived and the row is deleted.
    Purged,
}

impl JobStep {
    /// The reconciliation is under way: started, not finished.
    pub open spec fn is_active(self) -> bool {
        self == JobStep::Decoding || self == JobStep::Submitting || self == JobStep::Deleting
    }

    /// The reconciliation has ended, in success or failure.
    pub open spec fn is_final(self) -> bool {
        self == JobStep::DecodeFailed || self == JobStep::SinkRefused || self
            == JobStep::DeleteFailed || self == JobStep::Purged
    }

    /// The archive has accepted the artifact of this report.
    pub open spec fn is_archived(self) -> bool {
        self == JobStep::Deleting || self == JobStep::DeleteFailed || self == JobStep::Purged
    }

    /// The artifact of this report has been handed to the archive, accepted
    /// or not.
    pub open spec fn was_submitted(self) -> bool {
        self == JobStep::Submitting || self == JobStep::SinkRefused || self.is_archived()
    }

    /// Position of the step on the way from selection to the end.
    pub open spec fn rank(self) -> nat {
        match self {
            JobStep::Queued => 0,
            JobStep::Decoding => 1,
            JobStep::Submitting => 2,
            JobStep::Deleting => 3,
            _ => 4,
        }
    }

    #[verifier::when_used_as_spec(is_final)]
    pub fn finished(self) -> (ended: bool)
        ensures
            ended == self.is_final(),
    {
        match self {
            JobStep::DecodeFailed | JobStep::SinkRefused | JobStep::DeleteFailed | JobStep::Purged => true,
            _ => false,
        }
    }
}

/// Where a pass stands.
#[derive(Clone, Copy, Debug, PartialEq, Eq, Structural)]
pub enum Phase {
    /// Not begun.
    Created,
    /// The query for stale beacons is out.
    QueryingBeacons,
    /// Stale beacons are being reconciled.
    Beacons,
    /// The query for stale witnesses is out.
    QueryingWitnesses,
    /// Stale witnesses are being reconciled.
    Witnesses,
    /// The bulk delete of stale entropy is out.
    PurgingEntropy,
    /// The pass has run to its end.
    Completed,
    /// A query for stale reports failed: the pass is abandoned.
    Failed,
}

/// What the caller reports to a pass.
#[derive(Clone, Debug, PartialEq, Eq)]
pub enum PassEvent {
    /// The pass may begin.
    Begin,
    /// The record store answered the query for stale reports.
    StaleReports(Vec<Report>),
    /// The record store failed to answer the query for stale reports.
    QueryFailed,
    /// The payload of a report was decoded, or could not be.
    Decoded { job: usize, ingest: Option<IngestReport> },
    /// The archive accepted or refused the artifact of a report.
    Submitted { job: usize, accepted: bool },
    /// The record store deleted the row of a report, or failed to.
    Deleted { job: usize, done: bool },
    /// The bulk delete of entropy ended, with the number of rows deleted
    /// unless it failed.
    EntropyPurged { purged: Option<u64> },
    /// Shutdown was requested.
    Shutdown,
}

/// What a [`PassEvent`] holds.
pub enum PassEventView {
    Begin,
    StaleReports(Seq<ReportView>),
    QueryFailed,
    Decoded { job: int, ingest: Option<IngestReportView> },
    Submitted { job: int, accepted: bool },
    Deleted { job: int, done: bool },
    EntropyPurged { purged: Option<u64> },
    Shutdown,
}

impl View for PassEvent {
    type V = PassEventView;

    open spec fn view(&self) -> PassEventView {
        match *self {
            PassEvent::Begin => PassEventView::Begin,
            PassEvent::StaleReports(reports) => PassEventView::StaleReports(report_views(reports@)),
            PassEvent::QueryFailed => PassEventView::QueryFailed,
            PassEvent::Decoded { job, ingest } => PassEventView::Decoded {
                job: job as int,
                ingest: match ingest {
                    Some(ingest) => Some(ingest@),
                    None => None,
                },
            },
            PassEvent::Submitted { job, accepted } => PassEventView::Submitted {
                job: job as int,
                accepted,
            },
            PassEvent::Deleted { job, done } => PassEventView::Deleted { job: job as int, done },
            PassEvent::EntropyPurged { purged } => PassEventView::EntropyPurged { purged },
            PassEvent::Shutdown => PassEventView::Shutdown,
        }
    }
}

/// What a pass asks its caller to do.
#[derive(Clone, Debug, PartialEq, Eq)]
pub enum PassCommand {
    /// Query the pending beacons received at or before `cutoff`.
    FindPendingBeacons { cutoff: i64 },
    /// Query the pending witnesses received at or before `cutoff`.
    FindPendingWitnesses { cutoff: i64 },
    /// Decode the payload of a report.
    Decode { job: usize, kind: ReportKind, report_data: Vec<u8> },
    /// Hand an artifact to the archive and await its acceptance.
    Submit { job: usize, envelope: InvalidReport },
    /// Delete the row with this identifier from the record store.
    Delete { job: usize, id: Vec<u8> },
    /// Delete all entropy created at or before `cutoff`.
    PurgeEntropy { cutoff: i64 },
}

/// What a [`PassCommand`] holds.
pub enum PassCommandView {
    FindPendingBeacons { cutoff: i64 },
    FindPendingWitnesses { cutoff: i64 },
    Decode { job: int, kind: ReportKind, report_data: Seq<u8> },
    Submit { job: int, envelope: InvalidReportView },
    Delete { job: int, id: Seq<u8> },
    PurgeEntropy { cutoff: i64 },
}

impl View for PassCommand {
    type V = PassCommandView;

    open spec fn view(&self) -> PassCommandView {
        match *self {
            PassCommand::FindPendingBeacons { cutoff } => PassCommandView::FindPendingBeacons {
                cutoff,
            },
            PassCommand::FindPendingWitnesses { cutoff } => PassCommandView::FindPendingWitnesses {
                cutoff,
            },
            PassCommand::Decode { job, kind, report_data } => PassCommandView::Decode {
                job: job as int,
                kind,
                report_data: report_data@,
            },
            PassCommand::Submit { job, envelope } => PassCommandView::Submit {
                job: job as int,
                envelope: envelope@,
            },
            PassCommand::Delete { job, id } => PassCommandView::Delete { job: job as int, id: id@ },
            PassCommand::PurgeEntropy { cutoff } => PassCommandView::PurgeEntropy { cutoff },
        }
    }
}

/// What a sequence of commands holds.
pub open spec fn command_views(commands: Seq<PassCommand>) -> Seq<PassCommandView> {
    Seq::new(commands.len(), |i: int| commands[i]@)
}

/// The state of a pass.
///
/// Job `i` is the reconciliation of `reports[i]`, at step `steps[i]`. Jobs
/// are started in order: those below `next` have been started.
#[verifier::ext_equal]
pub struct PassView {
    pub beacon_cutoff: i64,
    pub witness_cutoff: i64,
    pub entropy_cutoff: i64,
    /// Upper bound on the jobs in flight.
    pub workers: nat,
    pub phase: Phase,
    pub reports: Seq<ReportView>,
    pub steps: Seq<JobStep>,
    /// The first job not yet started.
    pub next: nat,
    /// The number of jobs under way.
    pub in_flight: nat,
    /// Whether shutdown was requested.
    pub shutdown: bool,
    /// What the bulk delete of entropy reported, once it has.
    pub entropy_purged: Option<u64>,
}

/// The jobs of `steps` that are under way.
pub open spec fn active_jobs(steps: Seq<JobStep>) -> Set<int> {
    Set::new(|i: int| 0 <= i < steps.len() && steps[i].is_active())
}

impl PassView {
    /// A pass that has not begun.
    pub open spec fn initial(
        beacon_cutoff: i64,
        witness_cutoff: i64,
        entropy_cutoff: i64,
        workers: nat,
    ) -> PassView {
        PassView {
            beacon_cutoff,
            witness_cutoff,
            entropy_cutoff,
            workers,
            phase: Phase::Created,
            reports: Seq::empty(),
            steps: Seq::empty(),
            next: 0,
            in_flight: 0,
            shutdown: false,
            entropy_purged: None,
        }
    }

    /// Reports are being reconciled.
    pub open spec fn pooling(self) -> bool {
        self.phase == Phase::Beacons || self.phase == Phase::Witnesses
    }

    /// The pass has ended, completed or failed.
    pub open spec fn is_finished(self) -> bool {
        self.phase == Phase::Completed || self.phase == Phase::Failed
    }

    /// What holds of every state a pass can reach.
    pub open spec fn wf(self) -> bool {
        &&& self.workers >= 1
        &&& self.steps.len() == self.reports.len()
        &&& self.next <= self.steps.len()
        &&& forall|i: int| 0 <= i < self.next ==> self.steps[i] != JobStep::Queued
        &&& forall|i: int| self.next <= i < self.steps.len() ==> self.steps[i] == JobStep::Queued
        &&& self.in_flight == active_jobs(self.steps).len()
        &&& self.in_flight <= self.workers
        &&& self.pooling() <==> self.in_flight > 0
        &&& !self.shutdown && !self.pooling() ==> self.next == self.steps.len()
        &&& !self.shutdown && self.pooling() ==> self.in_flight == self.workers || self.next
            == self.steps.len()
    }

    /// How many queued jobs may start now: none after shutdown or outside
    /// the reconciling phases, else as many as the free workers allow.
    pub open spec fn launch_count(self) -> nat {
        if self.shutdown || !self.pooling() || self.in_flight >= self.workers || self.next
            >= self.steps.len() {
            0
        } else if self.workers - self.in_flight <= self.steps.len() - self.next {
            (self.workers - self.in_flight) as nat
        } else {
            (self.steps.len() - self.next) as nat
        }
    }

    /// The state once those jobs have started.
    pub open spec fn launch(self) -> PassView {
        let count = self.launch_count();
        PassView {
            steps: Seq::new(
                self.steps.len(),
                |i: int|
                    if self.next <= i < self.next + count {
                        JobStep::Decoding
                    } else {
                        self.steps[i]
                    },
            ),
            next: self.next + count,
            in_flight: self.in_flight + count,
            ..self
        }
    }

    /// The command that starts job `job`.
    pub open spec fn decode_command(self, job: int) -> PassCommandView {
        PassCommandView::Decode {
            job,
            kind: self.reports[job].kind,
            report_data: self.reports[job].report_data,
        }
    }

    /// The commands that start those jobs, in order.
    pub open spec fn launch_commands(self) -> Seq<PassCommandView> {
        Seq::new(self.launch_count(), |i: int| self.decode_command(self.next + i))
    }

    /// Whether the reconciling phase has drained: nothing is in flight.
    pub open spec fn drained(self) -> bool {
        self.pooling() && self.in_flight == 0
    }

    /// The state once a drained phase has been left.
    pub open spec fn settle(self) -> PassView {
        if !self.drained() {
            self
        } else if self.phase == Phase::Beacons {
            PassView { phase: Phase::QueryingWitnesses, ..self }
        } else {
            PassView { phase: Phase::PurgingEntropy, ..self }
        }
    }

    /// The command that opens the phase after a drained one.
    pub open spec fn settle_commands(self) -> Seq<PassCommandView> {
        if !self.drained() {
            Seq::empty()
        } else if self.phase == Phase::Beacons {
            seq![PassCommandView::FindPendingWitnesses { cutoff: self.witness_cutoff }]
        } else {
            seq![PassCommandView::PurgeEntropy { cutoff: self.entropy_cutoff }]
        }
    }

    /// Starts what may start, then leaves the phase if it has drained.
    pub open spec fn resume(self) -> (PassView, Seq<PassCommandView>) {
        (self.launch().settle(), self.launch_commands() + self.launch().settle_commands())
    }

    /// The state with job `job` at `step`.
    pub open spec fn with_step(self, job: int, step: JobStep) -> PassView {
        PassView { steps: self.steps.update(job, step), ..self }
    }

    /// The state with job `job` ended at `step`, its worker free again.
    pub open spec fn with_ended(self, job: int, step: JobStep) -> PassView {
        PassView {
            steps: self.steps.update(job, step),
            in_flight: (self.in_flight - 1) as nat,
            ..self
        }
    }

    /// Whether `job` is a job of this pass at `step`.
    pub open spec fn job_at(self, job: int, step: JobStep) -> bool {
        0 <= job < self.steps.len() && self.steps[job] == step
    }

    /// The state with `reports` queued behind the jobs already there.
    pub open spec fn enqueue(self, reports: Seq<ReportView>, phase: Phase) -> PassView {
        PassView {
            phase,
            reports: self.reports + reports,
            steps: self.steps + Seq::new(reports.len(), |i: int| JobStep::Queued),
            ..self
        }
    }
}

/// The transition function of a pass: the state after `event` and the
/// commands issued in answer to it. An event that does not fit the state is
/// ignored.
pub open spec fn step(s: PassView, event: PassEventView) -> (PassView, Seq<PassCommandView>) {
    match event {
        PassEventView::Begin => {
            if s.phase == Phase::Created {
                (
                    PassView { phase: Phase::QueryingBeacons, ..s },
                    seq![PassCommandView::FindPendingBeacons { cutoff: s.beacon_cutoff }],
                )
            } else {
                (s, Seq::empty())
            }
        },
        PassEventView::StaleReports(reports) => {
            if s.phase == Phase::QueryingBeacons {
                s.enqueue(reports, Phase::Beacons).resume()
            } else if s.phase == Phase::QueryingWitnesses {
                s.enqueue(reports, Phase::Witnesses).resume()
            } else {
                (s, Seq::empty())
            }
        },
        PassEventView::QueryFailed => {
            if s.phase == Phase::QueryingBeacons || s.phase == Phase::QueryingWitnesses {
                (PassView { phase: Phase::Failed, ..s }, Seq::empty())
            } else {
                (s, Seq::empty())
            }
        },
        PassEventView::Decoded { job, ingest } => {
            if !s.job_at(job, JobStep::Decoding) {
                (s, Seq::empty())
            } else {
                match ingest {
                    Some(ingest) => (
                        s.with_step(job, JobStep::Submitting),
                        seq![
                            PassCommandView::Submit {
                                job,
                                envelope: stale_envelope(s.reports[job].kind, ingest),
                            },
                        ],
                    ),
                    None => s.with_ended(job, JobStep::DecodeFailed).resume(),
                }
            }
        },
        PassEventView::Submitted { job, accepted } => {
            if !s.job_at(job, JobStep::Submitting) {
                (s, Seq::empty())
            } else if accepted {
                (
                    s.with_step(job, JobStep::Deleting),
                    seq![PassCommandView::Delete { job, id: s.reports[job].id }],
                )
            } else {
                s.with_ended(job, JobStep::SinkRefused).resume()
            }
        },
        PassEventView::Deleted { job, done } => {
            if !s.job_at(job, JobStep::Deleting) {
                (s, Seq::empty())
            } else if done {
                s.with_ended(job, JobStep::Purged).resume()
            } else {
                s.with_ended(job, JobStep::DeleteFailed).resume()
            }
        },
        PassEventView::EntropyPurged { purged } => {
            if s.phase == Phase::PurgingEntropy {
                (PassView { phase: Phase::Completed, entropy_purged: purged, ..s }, Seq::empty())
            } else {
                (s, Seq::empty())
            }
        },
        PassEventView::Shutdown => (PassView { shutdown: true, ..s }, Seq::empty()),
    }
}

/// One reconciliation pass. Its state is private; [`Pass::view`] is what the
/// contracts speak of.
#[derive(Debug)]
pub struct Pass {
    beacon_cutoff: i64,
    witness_cutoff: i64,
    entropy_cutoff: i64,
    workers: usize,
    phase: Phase,
    reports: Vec<Report>,
    steps: Vec<JobStep>,
    next: usize,
    in_flight: usize,
    shutdown: bool,
    entropy_purged: Option<u64>,
}

impl View for Pass {
    type V = PassView;

    closed spec fn view(&self) -> PassView {
        PassView {
            beacon_cutoff: self.beacon_cutoff,
            witness_cutoff: self.witness_cutoff,
            entropy_cutoff: self.entropy_cutoff,
            workers: self.workers as nat,
            phase: self.phase,
            reports: report_views(self.reports@),
            steps: self.steps@,
            next: self.next as nat,
            in_flight: self.in_flight as nat,
            shutdown: self.shutdown,
            entropy_purged: self.entropy_purged,
        }
    }
}

/// What one pass found and did, for the log line at its end.
#[derive(Clone, Copy, Debug, PartialEq, Eq)]
pub struct PassSummary {
    /// Stale beacons found.
    pub stale_beacons: usize,
    /// Of those, archived and deleted.
    pub purged_beacons: usize,
    /// Stale witnesses found.
    pub stale_witnesses: usize,
    /// Of those, archived and deleted.
    pub purged_witnesses: usize,
    /// Entropy rows deleted, unless the bulk delete failed or did not run.
    pub purged_entropy: Option<u64>,
}

/// The number of jobs among the first `upto` whose report is of `kind`.
pub open spec fn count_found(reports: Seq<ReportView>, kind: ReportKind, upto: int) -> nat
    decreases upto,
{
    if upto <= 0 {
        0
    } else {
        count_found(reports, kind, upto - 1) + if reports[upto - 1].kind == kind {
            1nat
        } else {
            0nat
        }
    }
}

/// The number of jobs among the first `upto` whose report is of `kind` and
/// was archived and deleted.
pub open spec fn count_purged(
    reports: Seq<ReportView>,
    steps: Seq<JobStep>,
    kind: ReportKind,
    upto: int,
) -> nat
    decreases upto,
{
    if upto <= 0 {
        0
    } else {
        count_purged(reports, steps, kind, upto - 1) + if reports[upto - 1].kind == kind
            && steps[upto - 1] == JobStep::Purged {
            1nat
        } else {
            0nat
        }
    }
}

impl PassView {
    /// The summary of this state.
    pub open spec fn summary(self) -> PassSummary {
        PassSummary {
            stale_beacons: count_found(self.reports, ReportKind::Beacon, self.steps.len() as int)
                as usize,
            purged_beacons: count_purged(
                self.reports,
                self.steps,
                ReportKind::Beacon,
                self.steps.len() as int,
            ) as usize,
            stale_witnesses: count_found(
                self.reports,
                ReportKind::Witness,
                self.steps.len() as int,
            ) as usize,
            purged_witnesses: count_purged(
                self.reports,
                self.steps,
                ReportKind::Witness,
                self.steps.len() as int,
            ) as usize,
            purged_entropy: self.entropy_purged,
        }
    }
}

/// The pass at `now` under `config`, not yet begun: each cutoff is `now` less
/// the stale period of its kind.
pub open spec fn pass_at(config: PurgerConfig, now: i64) -> PassView {
    PassView::initial(
        (now - config.spec_beacon_stale_period()) as i64,
        (now - config.spec_witness_stale_period()) as i64,
        (now - config.spec_entropy_stale_period()) as i64,
        config.spec_workers() as nat,
    )
}

impl Pass {
    /// What holds of every pass: [`PassView::wf`] of its view.
    pub open spec fn wf(&self) -> bool {
        self@.wf()
    }

    /// Whether the three cutoffs of a pass at `now` fit an `i64`.
    pub open spec fn admits(config: &PurgerConfig, now: i64) -> bool {
        &&& i64::MIN <= now - config.spec_beacon_stale_period() <= i64::MAX
        &&& i64::MIN <= now - config.spec_witness_stale_period() <= i64::MAX
        &&& i64::MIN <= now - config.spec_entropy_stale_period() <= i64::MAX
    }

    /// A pass over the records that are stale at `now`, not yet begun. Each
    /// cutoff is `now` less the stale period of its kind. `None` when a
    /// cutoff does not fit an `i64`.
    pub fn new(config: &PurgerConfig, now: i64) -> (pass: Option<Pass>)
        requires
            config.wf(),
        ensures
            pass.is_some() <==> Self::admits(config, now),
            pass.is_some() ==> pass.unwrap().wf() && pass.unwrap()@ == pass_at(*config, now),
    {
        let beacon_cutoff = stale_cutoff(now, config.beacon_stale_period());
        let witness_cutoff = stale_cutoff(now, config.witness_stale_period());
        let entropy_cutoff = stale_cutoff(now, config.entropy_stale_period());
        match (beacon_cutoff, witness_cutoff, entropy_cutoff) {
            (Some(beacon_cutoff), Some(witness_cutoff), Some(entropy_cutoff)) => {
                let pass = Pass {
                    beacon_cutoff,
                    witness_cutoff,
                    entropy_cutoff,
                    workers: config.workers(),
                    phase: Phase::Created,
                    reports: Vec::new(),
                    steps: Vec::new(),
                    next: 0,
                    in_flight: 0,
                    shutdown: false,
                    entropy_purged: None,
                };
                proof {
                    assert(pass@ =~= pass_at(*config, now));
                    assert(active_jobs(pass@.steps) =~= Set::empty());
                }
                Some(pass)
            },
            _ => None,
        }
    }

    /// Where the pass stands.
    pub fn phase(&self) -> (phase: Phase)
        ensures
            phase == self@.phase,
    {
        self.phase
    }

    /// Whether the pass has ended, completed or failed.
    pub fn is_finished(&self) -> (finished: bool)
        ensures
            finished == self@.is_finished(),
    {
        self.phase == Phase::Completed || self.phase == Phase::Failed
    }

    /// Whether the pass was abandoned because a query for stale reports
    /// failed. The caller treats this as fatal.
    pub fn has_failed(&self) -> (failed: bool)
        ensures
            failed == (self@.phase == Phase::Failed),
    {
        self.phase == Phase::Failed
    }

    /// Whether shutdown was requested of this pass.
    pub fn is_shutting_down(&self) -> (shutdown: bool)
        ensures
            shutdown == self@.shutdown,
    {
        self.shutdown
    }

    /// The number of jobs under way.
    pub fn in_flight(&self) -> (count: usize)
        ensures
            count == self@.in_flight,
    {
        self.in_flight
    }

    /// The number of jobs, started or not.
    pub fn job_count(&self) -> (count: usize)
        ensures
            count == self@.steps.len(),
    {
        self.steps.len()
    }

    /// The step job `job` is at, if there is such a job.
    pub fn job_step(&self, job: usize) -> (step: Option<JobStep>)
        ensures
            step == if job < self@.steps.len() {
                Some(self@.steps[job as int])
            } else {
                None
            },
    {
        if job < self.steps.len() {
            Some(self.steps[job])
        } else {
            None
        }
    }

    /// The report job `job` reconciles, if there is such a job.
    pub fn job_report(&self, job: usize) -> (report: Option<&Report>)
        ensures
            match report {
                Some(report) => job < self@.reports.len() && report@ == self@.reports[job as int],
                None => job >= self@.reports.len(),
            },
    {
        if job < self.reports.len() {
            Some(&self.reports[job])
        } else {
            None
        }
    }

    /// Counts what the pass found and purged so far.
    pub fn summary(&self) -> (summary: PassSummary)
        requires
            self.wf(),
        ensures
            summary == self@.summary(),
    {
        let mut summary = PassSummary {
            stale_beacons: 0,
            purged_beacons: 0,
            stale_witnesses: 0,
            purged_witnesses: 0,
            purged_entropy: self.entropy_purged,
        };
        let mut i: usize = 0;
        while i < self.steps.len()
            invariant
                self.wf(),
                i <= self.steps.len(),
                summary.stale_beacons == count_found(self@.reports, ReportKind::Beacon, i as int),
                summary.stale_witnesses == count_found(
                    self@.reports,
                    ReportKind::Witness,
                    i as int,
                ),
                summary.purged_beacons == count_purged(
                    self@.reports,
                    self@.steps,
                    ReportKind::Beacon,
                    i as int,
                ),
                summary.purged_witnesses == count_purged(
                    self@.reports,
                    self@.steps,
                    ReportKind::Witness,
                    i as int,
                ),
                summary.stale_beacons <= i,
                summary.stale_witnesses <= i,
                summary.purged_beacons <= i,
                summary.purged_witnesses <= i,
                summary.purged_entropy == self@.entropy_purged,
            decreases self.steps.len() - i,
        {
            let purged = self.steps[i] == JobStep::Purged;
            match self.reports[i].kind {
                ReportKind::Beacon => {
                    summary.stale_beacons += 1;
                    if purged {
                        summary.purged_beacons += 1;
                    }
                },
                ReportKind::Witness => {
                    summary.stale_witnesses += 1;
                    if purged {
                        summary.purged_witnesses += 1;
                    }
                },
            }
            i += 1;
        }
        summary
    }

    /// Queues `reports` behind the jobs already there and enters `phase`.
    fn enqueue(&mut self, reports: Vec<Report>, phase: Phase)
        requires
            old(self).wf(),
        ensures
            final(self)@ == old(self)@.enqueue(report_views(reports@), phase),
    {
        let mut reports = reports;
        let ghost queued = report_views(reports@);
        let count: usize = reports.len();
        self.reports.append(&mut reports);
        let mut i: usize = 0;
        while i < count
            invariant
                i <= count,
                count == queued.len(),
                self.steps@ == old(self).steps@ + Seq::new(i as nat, |j: int| JobStep::Queued),
                report_views(self.reports@) == old(self)@.reports + queued,
                self.beacon_cutoff == old(self).beacon_cutoff,
                self.witness_cutoff == old(self).witness_cutoff,
                self.entropy_cutoff == old(self).entropy_cutoff,
                self.workers == old(self).workers,
                self.next == old(self).next,
                self.in_flight == old(self).in_flight,
                self.shutdown == old(self).shutdown,
                self.entropy_purged == old(self).entropy_purged,
            decreases count - i,
        {
            self.steps.push(JobStep::Queued);
            i += 1;
        }
        self.phase = phase;
    }

    /// Starts the queued jobs that may start now.
    fn launch(&mut self, commands: &mut Vec<PassCommand>)
        requires
            old(self)@.shaped(),
        ensures
            final(self)@ == old(self)@.launch(),
            command_views(final(commands)@) == command_views(old(commands)@) + old(
                self,
            )@.launch_commands(),
    {
        let ghost start = self@;
        let ghost before = command_views(commands@);
        let pooling = self.phase == Phase::Beacons || self.phase == Phase::Witnesses;
        if self.shutdown || !pooling {
            assert(self@ =~= start.launch());
            assert(command_views(commands@) =~= before + start.launch_commands());
            return;
        }
        while self.in_flight < self.workers && self.next < self.steps.len()
            invariant
                start.steps.len() == start.reports.len(),
                self.steps@.len() == start.steps.len(),
                start.next <= self.next <= self.steps@.len(),
                self.next - start.next <= start.launch_count(),
                self.in_flight == start.in_flight + (self.next - start.next),
                self.in_flight <= self.workers,
                report_views(self.reports@) == start.reports,
                self.steps@ == Seq::new(
                    start.steps.len(),
                    |i: int|
                        if start.next <= i < self.next {
                            JobStep::Decoding
                        } else {
                            start.steps[i]
                        },
                ),
                command_views(commands@) == before + Seq::new(
                    (self.next - start.next) as nat,
                    |i: int| start.decode_command(start.next + i),
                ),
                self.beacon_cutoff == start.beacon_cutoff,
                self.witness_cutoff == start.witness_cutoff,
                self.entropy_cutoff == start.entropy_cutoff,
                self.workers == start.workers,
                self.phase == start.phase,
                self.shutdown == start.shutdown,
                self.entropy_purged == start.entropy_purged,
                !start.shutdown,
                start.pooling(),
            decreases self.steps.len() - self.next,
        {
            let job: usize = self.next;
            let command = PassCommand::Decode {
                job,
                kind: self.reports[job].kind,
                report_data: copy_bytes(&self.reports[job].report_data),
            };
            assert(command@ == start.decode_command(job as int));
            let ghost issued = command_views(commands@);
            self.steps.set(job, JobStep::Decoding);
            self.next = self.next + 1;
            self.in_flight = self.in_flight + 1;
            commands.push(command);
            assert(command_views(commands@) =~= issued.push(start.decode_command(job as int)));
        }
        assert(self@ =~= start.launch());
        assert(command_views(commands@) =~= before + start.launch_commands());
    }

    /// Leaves the reconciling phase if nothing is in flight.
    fn settle(&mut self, commands: &mut Vec<PassCommand>)
        ensures
            final(self)@ == old(self)@.settle(),
            command_views(final(commands)@) == command_views(old(commands)@) + old(
                self,
            )@.settle_commands(),
    {
        let ghost before = command_views(commands@);
        if self.in_flight == 0 && self.phase == Phase::Beacons {
            self.phase = Phase::QueryingWitnesses;
            commands.push(PassCommand::FindPendingWitnesses { cutoff: self.witness_cutoff });
        } else if self.in_flight == 0 && self.phase == Phase::Witnesses {
            self.phase = Phase::PurgingEntropy;
            commands.push(PassCommand::PurgeEntropy { cutoff: self.entropy_cutoff });
        }
        assert(command_views(commands@) =~= before + old(self)@.settle_commands());
    }

    /// Starts what may start, then leaves the phase if it has drained.
    fn resume(&mut self, commands: &mut Vec<PassCommand>)
        requires
            old(self)@.shaped(),
            old(commands)@.len() == 0,
        ensures
            final(self)@ == old(self)@.resume().0,
            command_views(final(commands)@) == old(self)@.resume().1,
    {
        self.launch(commands);
        self.settle(commands);
        assert(command_views(commands@) =~= old(self)@.resume().1);
    }

    /// Ends job `job` at `step` and frees its worker.
    fn end_job(&mut self, job: usize, step: JobStep)
        requires
            old(self).wf(),
            job < old(self)@.steps.len(),
            old(self)@.steps[job as int].is_active(),
            step.is_final(),
        ensures
            final(self)@ == old(self)@.with_ended(job as int, step),
            final(self)@.shaped(),
    {
        proof {
            lemma_active_job_counts(self@, job as int);
            lemma_with_ended_shaped(self@, job as int, step);
        }
        self.steps.set(job, step);
        self.in_flight = self.in_flight - 1;
        assert(self@ =~= old(self)@.with_ended(job as int, step));
    }

    /// Takes in what happened and answers with what to do next: the
    /// transition [`step`].
    pub fn handle(&mut self, event: PassEvent) -> (commands: Vec<PassCommand>)
        requires
            old(self).wf(),
        ensures
            final(self).wf(),
            final(self)@ == step(old(self)@, event@).0,
            command_views(commands@) == step(old(self)@, event@).1,
    {
        let mut commands: Vec<PassCommand> = Vec::new();
        proof {
            lemma_step_preserves_wf(self@, event@);
            assert(command_views(commands@) =~= Seq::empty());
        }
        match event {
            PassEvent::Begin => {
                if self.phase == Phase::Created {
                    self.phase = Phase::QueryingBeacons;
                    commands.push(PassCommand::FindPendingBeacons { cutoff: self.beacon_cutoff });
                    assert(command_views(commands@) =~= step(old(self)@, event@).1);
                }
            },
            PassEvent::StaleReports(reports) => {
                if self.phase == Phase::QueryingBeacons {
                    proof {
                        lemma_enqueue_shaped(self@, report_views(reports@), Phase::Beacons);
                    }
                    self.enqueue(reports, Phase::Beacons);
                    self.resume(&mut commands);
                } else if self.phase == Phase::QueryingWitnesses {
                    proof {
                        lemma_enqueue_shaped(self@, report_views(reports@), Phase::Witnesses);
                    }
                    self.enqueue(reports, Phase::Witnesses);
                    self.resume(&mut commands);
                }
            },
            PassEvent::QueryFailed => {
                if self.phase == Phase::QueryingBeacons || self.phase == Phase::QueryingWitnesses {
                    self.phase = Phase::Failed;
                }
            },
            PassEvent::Decoded { job, ingest } => {
                if job < self.steps.len() && self.steps[job] == JobStep::Decoding {
                    match ingest {
                        Some(ingest) => {
                            let envelope = InvalidReport::stale(self.reports[job].kind, ingest);
                            self.steps.set(job, JobStep::Submitting);
                            commands.push(PassCommand::Submit { job, envelope });
                            assert(self@ =~= old(self)@.with_step(
                                job as int,
                                JobStep::Submitting,
                            ));
                            assert(command_views(commands@) =~= step(old(self)@, event@).1);
                        },
                        None => {
                            self.end_job(job, JobStep::DecodeFailed);
                            self.resume(&mut commands);
                        },
                    }
                }
            },
            PassEvent::Submitted { job, accepted } => {
                if job < self.steps.len() && self.steps[job] == JobStep::Submitting {
                    if accepted {
                        let id = copy_bytes(&self.reports[job].id);
                        self.steps.set(job, JobStep::Deleting);
                        commands.push(PassCommand::Delete { job, id });
                        assert(self@ =~= old(self)@.with_step(job as int, JobStep::Deleting));
                        assert(command_views(commands@) =~= step(old(self)@, event@).1);
                    } else {
                        self.end_job(job, JobStep::SinkRefused);
                        self.resume(&mut commands);
                    }
                }
            },
            PassEvent::Deleted { job, done } => {
                if job < self.steps.len() && self.steps[job] == JobStep::Deleting {
                    if done {
                        self.end_job(job, JobStep::Purged);
                    } else {
                        self.end_job(job, JobStep::DeleteFailed);
                    }
                    self.resume(&mut commands);
                }
            },
            PassEvent::EntropyPurged { purged } => {
                if self.phase == Phase::PurgingEntropy {
                    self.phase = Phase::Completed;
                    self.entropy_purged = purged;
                }
            },
            PassEvent::Shutdown => {
                self.shutdown = true;
            },
        }
        assert(self@ =~= step(old(self)@, event@).0);
        commands
    }
}

/// The jobs under way are finitely many, and all of them have been started.
pub proof fn lemma_active_jobs_finite(steps: Seq<JobStep>)
    ensures
        active_jobs(steps).finite(),
        active_jobs(steps).len() <= steps.len(),
{
    lemma_int_range(0, steps.len() as int);
    lemma_len_subset(active_jobs(steps), set_int_range(0, steps.len() as int));
}

/// A job under way occupies a worker.
pub proof fn lemma_active_job_counts(s: PassView, job: int)
    requires
        s.wf(),
        0 <= job < s.steps.len(),
        s.steps[job].is_active(),
    ensures
        s.in_flight >= 1,
        s.pooling(),
        job < s.next,
{
    lemma_active_jobs_finite(s.steps);
    assert(active_jobs(s.steps).contains(job));
    if active_jobs(s.steps).len() == 0 {
        active_jobs(s.steps).lemma_len0_is_empty();
    }
}

impl PassView {
    /// The part of [`PassView::wf`] that holds between the end of a job and
    /// the start of the next.
    pub open spec fn shaped(self) -> bool {
        &&& self.workers >= 1
        &&& self.steps.len() == self.reports.len()
        &&& self.next <= self.steps.len()
        &&& forall|i: int| 0 <= i < self.next ==> self.steps[i] != JobStep::Queued
        &&& forall|i: int| self.next <= i < self.steps.len() ==> self.steps[i] == JobStep::Queued
        &&& self.in_flight == active_jobs(self.steps).len()
        &&& self.in_flight <= self.workers
        &&& self.pooling()
    }
}

/// Starting what may start and leaving a drained phase restores
/// [`PassView::wf`].
pub proof fn lemma_resume_wf(s: PassView)
    requires
        s.shaped(),
    ensures
        s.resume().0.wf(),
{
    let count = s.launch_count();
    let launched = s.launch();
    let started = set_int_range(s.next as int, (s.next + count) as int);
    lemma_active_jobs_finite(s.steps);
    lemma_int_range(s.next as int, (s.next + count) as int);
    assert(active_jobs(s.steps).disjoint(started));
    lemma_set_disjoint_lens(active_jobs(s.steps), started);
    assert(active_jobs(launched.steps) =~= active_jobs(s.steps) + started);
    assert(launched.settle().steps == launched.steps);
}

/// Moving a job from one step under way to the next keeps [`PassView::wf`].
pub proof fn lemma_with_step_wf(s: PassView, job: int, step: JobStep)
    requires
        s.wf(),
        0 <= job < s.steps.len(),
        s.steps[job].is_active(),
        step.is_active(),
    ensures
        s.with_step(job, step).wf(),
{
    lemma_active_job_counts(s, job);
    assert(active_jobs(s.with_step(job, step).steps) =~= active_jobs(s.steps));
}

/// Ending a job frees its worker and leaves the state ready to resume.
pub proof fn lemma_with_ended_shaped(s: PassView, job: int, step: JobStep)
    requires
        s.wf(),
        0 <= job < s.steps.len(),
        s.steps[job].is_active(),
        step.is_final(),
    ensures
        s.with_ended(job, step).shaped(),
{
    lemma_active_job_counts(s, job);
    lemma_active_jobs_finite(s.steps);
    assert(active_jobs(s.with_ended(job, step).steps) =~= active_jobs(s.steps).remove(job));
}

/// Queueing reports behind the jobs of a pass that has nothing in flight
/// leaves the state ready to resume.
pub proof fn lemma_enqueue_shaped(s: PassView, reports: Seq<ReportView>, phase: Phase)
    requires
        s.wf(),
        !s.pooling(),
        phase == Phase::Beacons || phase == Phase::Witnesses,
    ensures
        s.enqueue(reports, phase).shaped(),
{
    assert(active_jobs(s.enqueue(reports, phase).steps) =~= active_jobs(s.steps));
}

/// Every transition keeps [`PassView::wf`]: at no time are more jobs in
/// flight than there are workers, jobs start in order, and a reconciling
/// phase lasts exactly as long as a job is in flight.
pub proof fn lemma_step_preserves_wf(s: PassView, event: PassEventView)
    requires
        s.wf(),
    ensures
        step(s, event).0.wf(),
{
    match event {
        PassEventView::StaleReports(reports) => {
            if s.phase == Phase::QueryingBeacons {
                lemma_enqueue_shaped(s, reports, Phase::Beacons);
                lemma_resume_wf(s.enqueue(reports, Phase::Beacons));
            } else if s.phase == Phase::QueryingWitnesses {
                lemma_enqueue_shaped(s, reports, Phase::Witnesses);
                lemma_resume_wf(s.enqueue(reports, Phase::Witnesses));
            }
        },
        PassEventView::Decoded { job, ingest } => {
            if s.job_at(job, JobStep::Decoding) {
                if ingest.is_some() {
                    lemma_with_step_wf(s, job, JobStep::Submitting);
                } else {
                    lemma_with_ended_shaped(s, job, JobStep::DecodeFailed);
                    lemma_resume_wf(s.with_ended(job, JobStep::DecodeFailed));
                }
            }
        },
        PassEventView::Submitted { job, accepted } => {
            if s.job_at(job, JobStep::Submitting) {
                if accepted {
                    lemma_with_step_wf(s, job, JobStep::Deleting);
                } else {
                    lemma_with_ended_shaped(s, job, JobStep::SinkRefused);
                    lemma_resume_wf(s.with_ended(job, JobStep::SinkRefused));
                }
            }
        },
        PassEventView::Deleted { job, done } => {
            if s.job_at(job, JobStep::Deleting) {
                if done {
                    lemma_with_ended_shaped(s, job, JobStep::Purged);
                    lemma_resume_wf(s.with_ended(job, JobStep::Purged));
                } else {
                    lemma_with_ended_shaped(s, job, JobStep::DeleteFailed);
                    lemma_resume_wf(s.with_ended(job, JobStep::DeleteFailed));
                }
            }
        },
        _ => {},
    }
}

} // verus!
