//! The records the purger works on, and the artifact it archives.

use vstd::prelude::*;

verus! {

/// The two kinds of pending report.
#[derive(Clone, Copy, Debug, PartialEq, Eq, Structural)]
pub enum ReportKind {
    /// A transmission.
    Beacon,
    /// A receipt of hearing a beacon.
    Witness,
}

/// Why a report was archived as invalid.
#[derive(Clone, Copy, Debug, PartialEq, Eq, Structural)]
pub enum InvalidReason {
    /// No reason recorded.
    ReasonNone,
    /// The report outlived its verification window without being resolved.
    Stale,
}

/// Which participant of a round an invalid report belongs to.
#[derive(Clone, Copy, Debug, PartialEq, Eq, Structural)]
pub enum InvalidParticipantSide {
    /// No side recorded.
    SideNone,
    /// The transmitting gateway.
    Beaconer,
    /// A gateway that heard the transmission.
    Witness,
}

/// A copy of `bytes`.
pub fn copy_bytes(bytes: &Vec<u8>) -> (copy: Vec<u8>)
    ensures
        copy@ == bytes@,
{
    let copy = bytes.clone();
    assert(copy@ =~= bytes@);
    copy
}

/// Whether two byte strings are equal.
pub fn same_bytes(a: &Vec<u8>, b: &Vec<u8>) -> (same: bool)
    ensures
        same == (a@ == b@),
{
    if a.len() != b.len() {
        return false;
    }
    let mut i: usize = 0;
    while i < a.len()
        invariant
            a.len() == b.len(),
            i <= a.len(),
            forall|j: int| 0 <= j < i ==> a@[j] == b@[j],
        decreases a.len() - i,
    {
        if a[i] != b[i] {
            return false;
        }
        i += 1;
    }
    assert(a@ =~= b@);
    true
}

/// A pending report as the record store holds it.
#[derive(Clone, Debug, PartialEq, Eq)]
pub struct Report {
    /// Content-derived identifier, unique per report.
    pub id: Vec<u8>,
    /// The serialized ingest envelope, opaque to the purger.
    pub report_data: Vec<u8>,
    /// When the report was ingested, in seconds.
    pub received_timestamp: i64,
    /// Beacon or witness.
    pub kind: ReportKind,
}

/// What a [`Report`] holds.
pub struct ReportView {
    pub id: Seq<u8>,
    pub report_data: Seq<u8>,
    pub received_timestamp: i64,
    pub kind: ReportKind,
}

impl View for Report {
    type V = ReportView;

    open spec fn view(&self) -> ReportView {
        ReportView {
            id: self.id@,
            report_data: self.report_data@,
            received_timestamp: self.received_timestamp,
            kind: self.kind,
        }
    }
}

impl Report {
    /// A copy of this report.
    pub fn duplicate(&self) -> (copy: Report)
        ensures
            copy@ == self@,
    {
        Report {
            id: copy_bytes(&self.id),
            report_data: copy_bytes(&self.report_data),
            received_timestamp: self.received_timestamp,
            kind: self.kind,
        }
    }
}

/// What a sequence of reports holds.
pub open spec fn report_views(reports: Seq<Report>) -> Seq<ReportView> {
    Seq::new(reports.len(), |i: int| reports[i]@)
}

/// An entropy value as the record store holds it.
#[derive(Clone, Debug, PartialEq, Eq)]
pub struct Entropy {
    /// Identifier of the value.
    pub id: Vec<u8>,
    /// When the value was created, in seconds.
    pub timestamp: i64,
}

/// What an [`Entropy`] holds.
pub struct EntropyView {
    pub id: Seq<u8>,
    pub timestamp: i64,
}

impl View for Entropy {
    type V = EntropyView;

    open spec fn view(&self) -> EntropyView {
        EntropyView { id: self.id@, timestamp: self.timestamp }
    }
}

/// What a sequence of entropy values holds.
pub open spec fn entropy_views(values: Seq<Entropy>) -> Seq<EntropyView> {
    Seq::new(values.len(), |i: int| values[i]@)
}

/// A report as decoded from `report_data`: what the archive needs of it.
#[derive(Clone, Debug, PartialEq, Eq)]
pub struct IngestReport {
    /// Reception time as the ingest envelope recorded it, in milliseconds.
    pub received_timestamp: u64,
    /// The gateway's own report, carried through untouched.
    pub report: Vec<u8>,
}

/// What an [`IngestReport`] holds.
pub struct IngestReportView {
    pub received_timestamp: u64,
    pub report: Seq<u8>,
}

impl View for IngestReport {
    type V = IngestReportView;

    open spec fn view(&self) -> IngestReportView {
        IngestReportView { received_timestamp: self.received_timestamp, report: self.report@ }
    }
}

/// The write-once artifact archived in place of a report that was never
/// verified.
#[derive(Clone, Debug, PartialEq, Eq)]
pub enum InvalidReport {
    Beacon { received_timestamp: u64, reason: InvalidReason, report: Vec<u8> },
    Witness {
        received_timestamp: u64,
        reason: InvalidReason,
        report: Vec<u8>,
        participant_side: InvalidParticipantSide,
    },
}

/// What an [`InvalidReport`] holds.
pub enum InvalidReportView {
    Beacon { received_timestamp: u64, reason: InvalidReason, report: Seq<u8> },
    Witness {
        received_timestamp: u64,
        reason: InvalidReason,
        report: Seq<u8>,
        participant_side: InvalidParticipantSide,
    },
}

impl View for InvalidReport {
    type V = InvalidReportView;

    open spec fn view(&self) -> InvalidReportView {
        match *self {
            InvalidReport::Beacon { received_timestamp, reason, report } => {
                InvalidReportView::Beacon { received_timestamp, reason, report: report@ }
            },
            InvalidReport::Witness { received_timestamp, reason, report, participant_side } => {
                InvalidReportView::Witness {
                    received_timestamp,
                    reason,
                    report: report@,
                    participant_side,
                }
            },
        }
    }
}

impl InvalidReportView {
    /// The kind of report this artifact stands for.
    pub open spec fn kind(self) -> ReportKind {
        match self {
            InvalidReportView::Beacon { .. } => ReportKind::Beacon,
            InvalidReportView::Witness { .. } => ReportKind::Witness,
        }
    }

    /// The reason stamped on the artifact.
    pub open spec fn reason(self) -> InvalidReason {
        match self {
            InvalidReportView::Beacon { reason, .. } => reason,
            InvalidReportView::Witness { reason, .. } => reason,
        }
    }

    /// The side marker, which only a witness artifact has.
    pub open spec fn participant_side(self) -> Option<InvalidParticipantSide> {
        match self {
            InvalidReportView::Beacon { .. } => None,
            InvalidReportView::Witness { participant_side, .. } => Some(participant_side),
        }
    }

    /// The reception time the artifact preserves.
    pub open spec fn received_timestamp(self) -> u64 {
        match self {
            InvalidReportView::Beacon { received_timestamp, .. } => received_timestamp,
            InvalidReportView::Witness { received_timestamp, .. } => received_timestamp,
        }
    }
}

/// The artifact for a stale report of `kind` that decoded to `ingest`: the
/// decoded report and its reception time unchanged, the reason `Stale`, and
/// for a witness the side `Witness`.
pub open spec fn stale_envelope(kind: ReportKind, ingest: IngestReportView) -> InvalidReportView {
    match kind {
        ReportKind::Beacon => InvalidReportView::Beacon {
            received_timestamp: ingest.received_timestamp,
            reason: InvalidReason::Stale,
            report: ingest.report,
        },
        ReportKind::Witness => InvalidReportView::Witness {
            received_timestamp: ingest.received_timestamp,
            reason: InvalidReason::Stale,
            report: ingest.report,
            participant_side: InvalidParticipantSide::Witness,
        },
    }
}

impl InvalidReport {
    /// Wraps a decoded stale report for the archive.
    pub fn stale(kind: ReportKind, ingest: IngestReport) -> (envelope: InvalidReport)
        ensures
            envelope@ == stale_envelope(kind, ingest@),
    {
        match kind {
            ReportKind::Beacon => InvalidReport::Beacon {
                received_timestamp: ingest.received_timestamp,
                reason: InvalidReason::Stale,
                report: ingest.report,
            },
            ReportKind::Witness => InvalidReport::Witness {
                received_timestamp: ingest.received_timestamp,
                reason: InvalidReason::Stale,
                report: ingest.report,
                participant_side: InvalidParticipantSide::Witness,
            },
        }
    }

    /// The kind of report this artifact stands for.
    pub fn kind(&self) -> (kind: ReportKind)
        ensures
            kind == self@.kind(),
    {
        match self {
            InvalidReport::Beacon { .. } => ReportKind::Beacon,
            InvalidReport::Witness { .. } => ReportKind::Witness,
        }
    }

    /// The reason stamped on the artifact.
    pub fn reason(&self) -> (reason: InvalidReason)
        ensures
            reason == self@.reason(),
    {
        match self {
            InvalidReport::Beacon { reason, .. } => *reason,
            InvalidReport::Witness { reason, .. } => *reason,
        }
    }
}

/// Every stale artifact carries the reason `Stale` and the reception time of
/// the decoded report; a witness artifact is marked with the witness side.
pub proof fn lemma_stale_envelope_stamps(kind: ReportKind, ingest: IngestReportView)
    ensures
        stale_envelope(kind, ingest).reason() == InvalidReason::Stale,
        stale_envelope(kind, ingest).kind() == kind,
        stale_envelope(kind, ingest).received_timestamp() == ingest.received_timestamp,
        stale_envelope(kind, ingest).participant_side() == match kind {
            ReportKind::Beacon => None,
            ReportKind::Witness => Some(InvalidParticipantSide::Witness),
        },
{
}

} // verus!
