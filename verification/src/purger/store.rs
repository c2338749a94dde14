//! The record store as the purger sees it, kept in memory.
//!
//! The purger asks four things of the record store: the pending beacons
//! older than a cutoff, the pending witnesses older than a cutoff, the
//! deletion of one report by its identifier, and the bulk deletion of the
//! entropy older than a cutoff. [`RecordStore`] answers them over plain
//! vectors. It is the reference for what a store behind the purger has to
//! do, and it is what the laws about selection and shrinkage are stated of.

use super::config::{cutoff_at, stale_at};
use super::report::{
    entropy_views, report_views, same_bytes, Entropy, EntropyView, Report, ReportKind, ReportView,
};
use vstd::prelude::*;

verus! {

/// Reports of `kind` received at or before `cutoff`. The boundary is
/// inclusive.
pub open spec fn is_pending_older_than(kind: ReportKind, cutoff: i64) -> spec_fn(ReportView) -> bool {
    |report: ReportView| report.kind == kind && report.received_timestamp <= cutoff
}

/// Reports with another identifier than `id`.
pub open spec fn has_other_id(id: Seq<u8>) -> spec_fn(ReportView) -> bool {
    |report: ReportView| report.id != id
}

/// Entropy created after `cutoff`.
pub open spec fn is_newer_than(cutoff: i64) -> spec_fn(EntropyView) -> bool {
    |entropy: EntropyView| entropy.timestamp > cutoff
}

/// What a [`RecordStore`] holds: its pending reports and its entropy, each
/// in order of insertion.
#[verifier::ext_equal]
pub struct RecordStoreView {
    pub reports: Seq<ReportView>,
    pub entropy: Seq<EntropyView>,
}

impl RecordStoreView {
    /// No two pending reports share an identifier.
    pub open spec fn wf(self) -> bool {
        forall|i: int, j: int|
            0 <= i < j < self.reports.len() ==> self.reports[i].id != self.reports[j].id
    }

    /// Whether a report with identifier `id` is pending.
    pub open spec fn holds(self, id: Seq<u8>) -> bool {
        exists|i: int| 0 <= i < self.reports.len() && #[trigger] self.reports[i].id == id
    }

    /// The pending reports of `kind` received at or before `cutoff`.
    pub open spec fn pending_older_than(self, kind: ReportKind, cutoff: i64) -> Seq<ReportView> {
        self.reports.filter(is_pending_older_than(kind, cutoff))
    }

    /// The store without the report `id`.
    pub open spec fn delete(self, id: Seq<u8>) -> RecordStoreView {
        RecordStoreView { reports: self.reports.filter(has_other_id(id)), ..self }
    }

    /// The store without the entropy created at or before `cutoff`.
    pub open spec fn purge_entropy(self, cutoff: i64) -> RecordStoreView {
        RecordStoreView { entropy: self.entropy.filter(is_newer_than(cutoff)), ..self }
    }
}

/// Filtering one element more either appends it or changes nothing.
proof fn lemma_filter_step<A>(s: Seq<A>, keep: spec_fn(A) -> bool, k: int)
    requires
        0 <= k < s.len(),
    ensures
        s.take(k + 1).filter(keep) == if keep(s[k]) {
            s.take(k).filter(keep).push(s[k])
        } else {
            s.take(k).filter(keep)
        },
{
    assert(s.take(k + 1) =~= s.take(k).push(s[k]));
    s.take(k).lemma_filter_push(s[k], keep);
}

/// An in-memory record store.
#[derive(Debug)]
pub struct RecordStore {
    reports: Vec<Report>,
    entropy: Vec<Entropy>,
}

impl View for RecordStore {
    type V = RecordStoreView;

    closed spec fn view(&self) -> RecordStoreView {
        RecordStoreView {
            reports: report_views(self.reports@),
            entropy: entropy_views(self.entropy@),
        }
    }
}

impl RecordStore {
    /// No two pending reports share an identifier.
    pub open spec fn wf(&self) -> bool {
        self@.wf()
    }

    /// An empty store.
    pub fn new() -> (store: RecordStore)
        ensures
            store.wf(),
            store@.reports.len() == 0,
            store@.entropy.len() == 0,
    {
        RecordStore { reports: Vec::new(), entropy: Vec::new() }
    }

    /// The number of pending reports.
    pub fn report_count(&self) -> (count: usize)
        ensures
            count == self@.reports.len(),
    {
        self.reports.len()
    }

    /// The number of entropy values.
    pub fn entropy_count(&self) -> (count: usize)
        ensures
            count == self@.entropy.len(),
    {
        self.entropy.len()
    }

    /// Whether a report with identifier `id` is pending.
    pub fn contains_report(&self, id: &Vec<u8>) -> (held: bool)
        ensures
            held == self@.holds(id@),
    {
        let mut i: usize = 0;
        while i < self.reports.len()
            invariant
                i <= self.reports.len(),
                forall|j: int| 0 <= j < i ==> (#[trigger] self@.reports[j]).id != id@,
            decreases self.reports.len() - i,
        {
            if same_bytes(&self.reports[i].id, id) {
                assert(self@.reports[i as int].id == id@);
                return true;
            }
            i += 1;
        }
        false
    }

    /// Takes in a pending report, unless one with the same identifier is
    /// pending already.
    pub fn insert_report(&mut self, report: Report) -> (inserted: bool)
        requires
            old(self).wf(),
        ensures
            final(self).wf(),
            inserted == !old(self)@.holds(report@.id),
            final(self)@ == if inserted {
                RecordStoreView { reports: old(self)@.reports.push(report@), ..old(self)@ }
            } else {
                old(self)@
            },
    {
        if self.contains_report(&report.id) {
            false
        } else {
            self.reports.push(report);
            assert(self@.reports =~= old(self)@.reports.push(report@));
            true
        }
    }

    /// Takes in an entropy value.
    pub fn insert_entropy(&mut self, entropy: Entropy)
        requires
            old(self).wf(),
        ensures
            final(self).wf(),
            final(self)@ == (RecordStoreView {
                entropy: old(self)@.entropy.push(entropy@),
                ..old(self)@
            }),
    {
        self.entropy.push(entropy);
        assert(self@.entropy =~= old(self)@.entropy.push(entropy@));
    }

    /// Copies of the pending reports of `kind` received at or before
    /// `cutoff`, in order of insertion.
    fn find_pending_older_than(&self, kind: ReportKind, cutoff: i64) -> (found: Vec<Report>)
        ensures
            report_views(found@) == self@.pending_older_than(kind, cutoff),
    {
        let ghost select = is_pending_older_than(kind, cutoff);
        let mut found: Vec<Report> = Vec::new();
        let mut i: usize = 0;
        assert(self@.reports.take(0) =~= Seq::empty());
        assert(Seq::<ReportView>::empty().filter(select) =~= Seq::empty()) by {
            reveal(Seq::filter);
        }
        while i < self.reports.len()
            invariant
                i <= self.reports.len(),
                select == is_pending_older_than(kind, cutoff),
                report_views(found@) == self@.reports.take(i as int).filter(select),
            decreases self.reports.len() - i,
        {
            let ghost before = report_views(found@);
            proof {
                lemma_filter_step(self@.reports, select, i as int);
            }
            if self.reports[i].kind == kind && self.reports[i].received_timestamp <= cutoff {
                found.push(self.reports[i].duplicate());
                assert(report_views(found@) =~= before.push(self@.reports[i as int]));
            }
            i += 1;
        }
        assert(self@.reports.take(self.reports.len() as int) =~= self@.reports);
        found
    }

    /// The pending beacons received at or before `cutoff`.
    pub fn find_pending_beacons_older_than(&self, cutoff: i64) -> (found: Vec<Report>)
        ensures
            report_views(found@) == self@.pending_older_than(ReportKind::Beacon, cutoff),
    {
        self.find_pending_older_than(ReportKind::Beacon, cutoff)
    }

    /// The pending witnesses received at or before `cutoff`.
    pub fn find_pending_witnesses_older_than(&self, cutoff: i64) -> (found: Vec<Report>)
        ensures
            report_views(found@) == self@.pending_older_than(ReportKind::Witness, cutoff),
    {
        self.find_pending_older_than(ReportKind::Witness, cutoff)
    }

    /// Deletes the report `id`: that one row and no other. Deleting a report
    /// that is not pending changes nothing.
    pub fn delete_report_by_id(&mut self, id: &Vec<u8>)
        requires
            old(self).wf(),
        ensures
            final(self).wf(),
            final(self)@ == old(self)@.delete(id@),
            final(self)@.reports.len() == old(self)@.reports.len() - if old(self)@.holds(id@) {
                1int
            } else {
                0int
            },
    {
        let ghost all = self@.reports;
        let ghost keep = has_other_id(id@);
        let ghost mut seen: int = 0;
        let mut i: usize = 0;
        assert(all.take(0) =~= Seq::empty());
        assert(Seq::<ReportView>::empty().filter(keep) =~= Seq::empty()) by {
            reveal(Seq::filter);
        }
        assert(self@.reports =~= all.take(0).filter(keep) + all.skip(0));
        while i < self.reports.len()
            invariant
                keep == has_other_id(id@),
                0 <= seen <= all.len(),
                i <= self.reports.len(),
                self.reports.len() - i == all.len() - seen,
                i == all.take(seen).filter(keep).len(),
                self@.reports == all.take(seen).filter(keep) + all.skip(seen),
                self@.entropy == old(self)@.entropy,
                self@.wf(),
                all == old(self)@.reports,
                old(self)@.wf(),
                seen == i || (seen == i + 1 && exists|k: int|
                    0 <= k < seen && #[trigger] all[k].id == id@),
                seen == i ==> forall|k: int| 0 <= k < seen ==> (#[trigger] all[k]).id != id@,
            decreases all.len() - seen,
        {
            let ghost current = self@.reports;
            proof {
                lemma_filter_step(all, keep, seen);
                assert(current[i as int] == all[seen]);
            }
            if same_bytes(&self.reports[i].id, id) {
                proof {
                    if seen != i {
                        let k = choose|k: int| 0 <= k < seen && #[trigger] all[k].id == id@;
                        assert(all[k].id != all[seen].id);
                    }
                    assert(all[seen].id == id@);
                }
                self.reports.remove(i);
                assert(self@.reports =~= current.remove(i as int));
                assert(self@.reports =~= all.take(seen + 1).filter(keep) + all.skip(seen + 1));
            } else {
                i += 1;
                assert(self@.reports =~= all.take(seen + 1).filter(keep) + all.skip(seen + 1));
            }
            proof {
                seen = seen + 1;
            }
        }
        assert(all.take(seen) =~= all);
        assert(self@.reports =~= all.filter(keep));
        assert(old(self)@.holds(id@) <==> seen == i + 1) by {
            if old(self)@.holds(id@) {
                let k = choose|k: int| 0 <= k < all.len() && #[trigger] all[k].id == id@;
                assert(all[k].id == id@);
            }
        }
    }

    /// Deletes the entropy created at or before `cutoff` and says how many
    /// values that were.
    pub fn purge_entropy_older_than(&mut self, cutoff: i64) -> (purged: u64)
        requires
            old(self).wf(),
        ensures
            final(self).wf(),
            final(self)@ == old(self)@.purge_entropy(cutoff),
            purged == old(self)@.entropy.len() - final(self)@.entropy.len(),
    {
        let ghost all = self@.entropy;
        let ghost keep = is_newer_than(cutoff);
        let ghost mut seen: int = 0;
        let mut i: usize = 0;
        let mut purged: u64 = 0;
        let total: usize = self.entropy.len();
        assert(all.len() == total);
        assert(all.take(0) =~= Seq::empty());
        assert(Seq::<EntropyView>::empty().filter(keep) =~= Seq::empty()) by {
            reveal(Seq::filter);
        }
        assert(self@.entropy =~= all.take(0).filter(keep) + all.skip(0));
        while i < self.entropy.len()
            invariant
                keep == is_newer_than(cutoff),
                0 <= seen <= all.len(),
                i <= self.entropy.len(),
                self.entropy.len() - i == all.len() - seen,
                i == all.take(seen).filter(keep).len(),
                purged == seen - i,
                all.len() <= usize::MAX,
                self@.entropy == all.take(seen).filter(keep) + all.skip(seen),
                self@.reports == old(self)@.reports,
            decreases all.len() - seen,
        {
            let ghost current = self@.entropy;
            proof {
                lemma_filter_step(all, keep, seen);
                assert(current[i as int] == all[seen]);
            }
            if self.entropy[i].timestamp <= cutoff {
                self.entropy.remove(i);
                purged += 1;
                assert(self@.entropy =~= current.remove(i as int));
                assert(self@.entropy =~= all.take(seen + 1).filter(keep) + all.skip(seen + 1));
            } else {
                i += 1;
                assert(self@.entropy =~= all.take(seen + 1).filter(keep) + all.skip(seen + 1));
            }
            proof {
                seen = seen + 1;
            }
        }
        assert(all.take(seen) =~= all);
        assert(self@.entropy =~= all.filter(keep));
        purged
    }
}

/// Selection is exact: a pending report is selected precisely when it is of
/// the kind asked for and was received at or before the cutoff.
pub proof fn lemma_selected_iff_older(
    store: RecordStoreView,
    kind: ReportKind,
    cutoff: i64,
    report: ReportView,
)
    ensures
        store.pending_older_than(kind, cutoff).contains(report) <==> store.reports.contains(report)
            && report.kind == kind && report.received_timestamp <= cutoff,
{
    let select = is_pending_older_than(kind, cutoff);
    let found = store.reports.filter(select);
    if found.contains(report) {
        store.reports.lemma_filter_contains_rev(select, report);
        let i = choose|i: int| 0 <= i < found.len() && found[i] == report;
        store.reports.lemma_filter_pred(select, i);
    }
    if store.reports.contains(report) && select(report) {
        let i = choose|i: int| 0 <= i < store.reports.len() && store.reports[i] == report;
        store.reports.lemma_filter_contains(select, i);
    }
}

/// With the cutoff of a pass, selection is staleness: a pending report is
/// selected precisely when its age has reached the stale period. One second
/// short of the period it is not selected; at the period it is.
pub proof fn lemma_selected_iff_stale(
    store: RecordStoreView,
    kind: ReportKind,
    now: i64,
    period: i64,
    cutoff: i64,
    report: ReportView,
)
    requires
        cutoff == cutoff_at(now, period),
        store.reports.contains(report),
        report.kind == kind,
    ensures
        store.pending_older_than(kind, cutoff).contains(report) <==> stale_at(
            now,
            report.received_timestamp,
            period,
        ),
        now - report.received_timestamp == period - 1 ==> !store.pending_older_than(
            kind,
            cutoff,
        ).contains(report),
        now - report.received_timestamp == period ==> store.pending_older_than(
            kind,
            cutoff,
        ).contains(report),
{
    lemma_selected_iff_older(store, kind, cutoff, report);
}

/// Deleting keeps every other report and keeps the store well formed.
pub proof fn lemma_delete_keeps_others(store: RecordStoreView, id: Seq<u8>, report: ReportView)
    ensures
        store.delete(id).reports.contains(report) <==> store.reports.contains(report) && report.id
            != id,
        !store.delete(id).holds(id),
        store.delete(id).entropy == store.entropy,
{
    let keep = has_other_id(id);
    let kept = store.reports.filter(keep);
    if kept.contains(report) {
        store.reports.lemma_filter_contains_rev(keep, report);
        let i = choose|i: int| 0 <= i < kept.len() && kept[i] == report;
        store.reports.lemma_filter_pred(keep, i);
    }
    if store.reports.contains(report) && keep(report) {
        let i = choose|i: int| 0 <= i < store.reports.len() && store.reports[i] == report;
        store.reports.lemma_filter_contains(keep, i);
    }
    if store.delete(id).holds(id) {
        let i = choose|i: int| 0 <= i < kept.len() && #[trigger] kept[i].id == id;
        store.reports.lemma_filter_pred(keep, i);
    }
}

/// Shrinkage: a deletion never adds to what a query selects, and a report
/// that was deleted is not selected again.
pub proof fn lemma_delete_shrinks_selection(
    store: RecordStoreView,
    id: Seq<u8>,
    kind: ReportKind,
    cutoff: i64,
    report: ReportView,
)
    ensures
        store.delete(id).pending_older_than(kind, cutoff).contains(report)
            <==> store.pending_older_than(kind, cutoff).contains(report) && report.id != id,
{
    lemma_selected_iff_older(store, kind, cutoff, report);
    lemma_selected_iff_older(store.delete(id), kind, cutoff, report);
    lemma_delete_keeps_others(store, id, report);
}

/// The store after the reports `ids` have been deleted one after the other.
pub open spec fn delete_all(store: RecordStoreView, ids: Seq<Seq<u8>>) -> RecordStoreView
    decreases ids.len(),
{
    if ids.len() == 0 {
        store
    } else {
        delete_all(store, ids.drop_last()).delete(ids.last())
    }
}

/// After a run of deletions a report is selected precisely when it was
/// selected before and is none of the reports deleted.
pub proof fn lemma_delete_all_shrinks_selection(
    store: RecordStoreView,
    ids: Seq<Seq<u8>>,
    kind: ReportKind,
    cutoff: i64,
    report: ReportView,
)
    ensures
        delete_all(store, ids).pending_older_than(kind, cutoff).contains(report)
            <==> store.pending_older_than(kind, cutoff).contains(report) && !ids.contains(
            report.id,
        ),
    decreases ids.len(),
{
    if ids.len() > 0 {
        let rest = ids.drop_last();
        lemma_delete_all_shrinks_selection(store, rest, kind, cutoff, report);
        lemma_delete_shrinks_selection(delete_all(store, rest), ids.last(), kind, cutoff, report);
        if ids.contains(report.id) {
            let i = choose|i: int| 0 <= i < ids.len() && ids[i] == report.id;
            if i < ids.len() - 1 {
                assert(rest[i] == report.id);
            }
        }
        if rest.contains(report.id) {
            let i = choose|i: int| 0 <= i < rest.len() && rest[i] == report.id;
            assert(ids[i] == report.id);
        }
        if ids.last() == report.id {
            assert(ids[ids.len() - 1] == report.id);
        }
    }
}

/// The identifiers of `reports`, in order.
pub open spec fn ids_of(reports: Seq<ReportView>) -> Seq<Seq<u8>> {
    Seq::new(reports.len(), |i: int| reports[i].id)
}

/// Idempotence of a pass in which every reconciliation succeeds: once the
/// reports that a query selected have been deleted, the same query, with
/// nothing ingested in between, selects nothing.
pub proof fn lemma_second_query_is_empty(store: RecordStoreView, kind: ReportKind, cutoff: i64)
    ensures
        delete_all(
            store,
            ids_of(store.pending_older_than(kind, cutoff)),
        ).pending_older_than(kind, cutoff).len() == 0,
{
    let selected = store.pending_older_than(kind, cutoff);
    assert forall|i: int| 0 <= i < selected.len() implies ids_of(selected).contains(
        (#[trigger] selected[i]).id,
    ) by {
        assert(ids_of(selected)[i] == selected[i].id);
    }
    lemma_purged_selection_is_empty(store, ids_of(selected), kind, cutoff);
}

/// A report that is not pending is not selected: what the verifier has
/// resolved and removed is never handed to the purger.
pub proof fn lemma_removed_is_not_selected(
    store: RecordStoreView,
    kind: ReportKind,
    cutoff: i64,
    report: ReportView,
)
    requires
        !store.reports.contains(report),
    ensures
        !store.pending_older_than(kind, cutoff).contains(report),
{
    lemma_selected_iff_older(store, kind, cutoff, report);
}

/// Idempotence: once every report that a query selected has been deleted,
/// the same query, with nothing ingested in between, selects nothing.
pub proof fn lemma_purged_selection_is_empty(
    store: RecordStoreView,
    ids: Seq<Seq<u8>>,
    kind: ReportKind,
    cutoff: i64,
)
    requires
        forall|i: int|
            0 <= i < store.pending_older_than(kind, cutoff).len() ==> ids.contains(
                (#[trigger] store.pending_older_than(kind, cutoff)[i]).id,
            ),
    ensures
        delete_all(store, ids).pending_older_than(kind, cutoff).len() == 0,
{
    let after = delete_all(store, ids).pending_older_than(kind, cutoff);
    if after.len() > 0 {
        let report = after[0];
        assert(after.contains(report));
        lemma_delete_all_shrinks_selection(store, ids, kind, cutoff, report);
        let before = store.pending_older_than(kind, cutoff);
        let i = choose|i: int| 0 <= i < before.len() && before[i] == report;
        assert(ids.contains(before[i].id));
    }
}

} // verus!
