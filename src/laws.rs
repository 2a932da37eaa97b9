use vstd::prelude::*;

use crate::diff::{
    changed_entry, depot_changes_new, depot_changes_old, entry_changed, report_of,
};
use crate::model::{
    ChangedManifestView, DepotView, ManifestEntryView, Snapshot, SnapshotView, TrackedRecord,
};
use crate::tracking::rotated;

verus! {

/// Comparing snapshots with the same contents gives reports with the same
/// contents, so two comparisons of the same pair of generations agree.
pub proof fn diff_is_deterministic(latest_a: Snapshot, old_a: Snapshot, latest_b: Snapshot, old_b: Snapshot)
    requires
        latest_a@ == latest_b@,
        old_a@ == old_b@,
    ensures
        report_of(latest_a@, old_a@) == report_of(latest_b@, old_b@),
{
}

/// A fetched snapshot equal to the current generation leaves the record as
/// it was, and so the report between its generations is the one it was.
pub proof fn rotation_without_change(fetched: Snapshot, record: TrackedRecord)
    requires
        fetched@ == record@.current,
    ensures
        rotated(fetched@, record@) == record@,
        report_of(rotated(fetched@, record@).current, rotated(fetched@, record@).old) == report_of(
            record@.current,
            record@.old,
        ),
{
}

/// A depot that the old generation has and the current one lacks appears on
/// neither side of the report.
pub proof fn removed_depot_not_reported(latest: SnapshotView, old: SnapshotView, d: Seq<char>)
    requires
        old.depots.contains_key(d),
        !latest.depots.contains_key(d),
    ensures
        !report_of(latest, old).depots_new.contains_key(d),
        !report_of(latest, old).depots_old.contains_key(d),
{
}

/// For a manifest key with no change among the encrypted manifests, what a
/// depot reports of it depends on its plain manifests alone.
pub proof fn manifests_independent_of_encrypted(
    latest_a: DepotView,
    old_a: DepotView,
    latest_b: DepotView,
    old_b: DepotView,
    m: Seq<char>,
)
    requires
        latest_a.manifests == latest_b.manifests,
        old_a.manifests == old_b.manifests,
        !entry_changed(latest_a.encrypted_manifests, old_a.encrypted_manifests, m),
        !entry_changed(latest_b.encrypted_manifests, old_b.encrypted_manifests, m),
    ensures
        depot_changes_new(latest_a, old_a).contains_key(m) == entry_changed(
            latest_a.manifests,
            old_a.manifests,
            m,
        ),
        depot_changes_new(latest_b, old_b).contains_key(m) == entry_changed(
            latest_a.manifests,
            old_a.manifests,
            m,
        ),
        depot_changes_old(latest_a, old_a).contains_key(m) == entry_changed(
            latest_a.manifests,
            old_a.manifests,
            m,
        ),
        depot_changes_old(latest_b, old_b).contains_key(m) == entry_changed(
            latest_a.manifests,
            old_a.manifests,
            m,
        ),
        entry_changed(latest_a.manifests, old_a.manifests, m) ==> {
            &&& depot_changes_new(latest_a, old_a)[m] == changed_entry(
                latest_a.manifests[m],
                old_a.manifests[m],
            )
            &&& depot_changes_new(latest_b, old_b)[m] == depot_changes_new(latest_a, old_a)[m]
            &&& depot_changes_old(latest_a, old_a)[m] == old_a.manifests[m]
            &&& depot_changes_old(latest_b, old_b)[m] == depot_changes_old(latest_a, old_a)[m]
        },
{
}

/// A manifest key with a change among the encrypted manifests is reported
/// with that change, whatever the plain manifests hold.
pub proof fn encrypted_independent_of_manifests(
    latest_a: DepotView,
    old_a: DepotView,
    latest_b: DepotView,
    old_b: DepotView,
    m: Seq<char>,
)
    requires
        latest_a.encrypted_manifests == latest_b.encrypted_manifests,
        old_a.encrypted_manifests == old_b.encrypted_manifests,
        entry_changed(latest_a.encrypted_manifests, old_a.encrypted_manifests, m),
    ensures
        depot_changes_new(latest_a, old_a).contains_key(m),
        depot_changes_new(latest_b, old_b).contains_key(m),
        depot_changes_new(latest_a, old_a)[m] == changed_entry(
            latest_a.encrypted_manifests[m],
            old_a.encrypted_manifests[m],
        ),
        depot_changes_new(latest_b, old_b)[m] == depot_changes_new(latest_a, old_a)[m],
        depot_changes_old(latest_a, old_a)[m] == old_a.encrypted_manifests[m],
        depot_changes_old(latest_b, old_b)[m] == depot_changes_old(latest_a, old_a)[m],
{
}

/// A snapshot compared with itself gives an empty report, with equal change
/// numbers.
pub proof fn diff_with_itself_is_empty(s: SnapshotView)
    ensures
        report_of(s, s).depots_new == Map::<Seq<char>, Map<Seq<char>, ChangedManifestView>>::empty(),
        report_of(s, s).depots_old == Map::<Seq<char>, Map<Seq<char>, ManifestEntryView>>::empty(),
        report_of(s, s).latest == report_of(s, s).old,
{
    assert forall|d: Seq<char>| s.depots.contains_key(d) implies depot_changes_new(
        s.depots[d],
        s.depots[d],
    ) == Map::<Seq<char>, ChangedManifestView>::empty() by {
        assert(depot_changes_new(s.depots[d], s.depots[d]) =~= Map::<
            Seq<char>,
            ChangedManifestView,
        >::empty());
    }
    assert(report_of(s, s).depots_new =~= Map::<Seq<char>, Map<Seq<char>, ChangedManifestView>>::empty());
    assert(report_of(s, s).depots_old =~= Map::<Seq<char>, Map<Seq<char>, ManifestEntryView>>::empty());
}

} // verus!
