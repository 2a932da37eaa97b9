use vstd::prelude::*;

use crate::keyed_map::{DeepEq, KeyedMap};
use crate::model::{
    ChangeReport, ChangeReportView, ChangedManifest, ChangedManifestView, DepotView,
    ManifestEntry, ManifestEntryView, Snapshot, SnapshotView,
};

verus! {

/// The report entry for a manifest whose entry went from `old` to `latest`.
pub open spec fn changed_entry(latest: ManifestEntryView, old: ManifestEntryView) -> ChangedManifestView {
    ChangedManifestView {
        gid: latest.gid,
        download: latest.download,
        size: latest.size,
        old_gid: old.gid,
    }
}

/// Whether `k` is a key of both mappings with unequal entries.
pub open spec fn entry_changed(
    latest: Map<Seq<char>, ManifestEntryView>,
    old: Map<Seq<char>, ManifestEntryView>,
    k: Seq<char>,
) -> bool {
    latest.contains_key(k) && old.contains_key(k) && latest[k] != old[k]
}

/// The new side of the changed entries among the keys in `keys`.
pub open spec fn changes_new_among(
    latest: Map<Seq<char>, ManifestEntryView>,
    old: Map<Seq<char>, ManifestEntryView>,
    keys: Set<Seq<char>>,
) -> Map<Seq<char>, ChangedManifestView> {
    Map::new(
        |k: Seq<char>| keys.contains(k) && entry_changed(latest, old, k),
        |k: Seq<char>| changed_entry(latest[k], old[k]),
    )
}

/// The old side of the changed entries among the keys in `keys`.
pub open spec fn changes_old_among(
    latest: Map<Seq<char>, ManifestEntryView>,
    old: Map<Seq<char>, ManifestEntryView>,
    keys: Set<Seq<char>>,
) -> Map<Seq<char>, ManifestEntryView> {
    Map::new(|k: Seq<char>| keys.contains(k) && entry_changed(latest, old, k), |k: Seq<char>| old[k])
}

/// The new side of every entry present in both mappings whose value differs.
pub open spec fn manifest_changes_new(
    latest: Map<Seq<char>, ManifestEntryView>,
    old: Map<Seq<char>, ManifestEntryView>,
) -> Map<Seq<char>, ChangedManifestView> {
    changes_new_among(latest, old, latest.dom())
}

/// The old side of every entry present in both mappings whose value differs.
pub open spec fn manifest_changes_old(
    latest: Map<Seq<char>, ManifestEntryView>,
    old: Map<Seq<char>, ManifestEntryView>,
) -> Map<Seq<char>, ManifestEntryView> {
    changes_old_among(latest, old, latest.dom())
}

/// The changes of a depot, new side: those of `manifests`, then those of
/// `encryptedManifests`, the latter winning on a key found in both.
pub open spec fn depot_changes_new(latest: DepotView, old: DepotView) -> Map<
    Seq<char>,
    ChangedManifestView,
> {
    manifest_changes_new(latest.manifests, old.manifests).union_prefer_right(
        manifest_changes_new(latest.encrypted_manifests, old.encrypted_manifests),
    )
}

/// The changes of a depot, old side, merged as in `depot_changes_new`.
pub open spec fn depot_changes_old(latest: DepotView, old: DepotView) -> Map<
    Seq<char>,
    ManifestEntryView,
> {
    manifest_changes_old(latest.manifests, old.manifests).union_prefer_right(
        manifest_changes_old(latest.encrypted_manifests, old.encrypted_manifests),
    )
}

/// Whether depot `d` is in both snapshots and has at least one changed entry.
pub open spec fn depot_reported(latest: SnapshotView, old: SnapshotView, d: Seq<char>) -> bool {
    old.depots.contains_key(d) && latest.depots.contains_key(d) && depot_changes_new(
        latest.depots[d],
        old.depots[d],
    ) != Map::<Seq<char>, ChangedManifestView>::empty()
}

pub open spec fn depots_new_among(latest: SnapshotView, old: SnapshotView, keys: Set<Seq<char>>) -> Map<
    Seq<char>,
    Map<Seq<char>, ChangedManifestView>,
> {
    Map::new(
        |d: Seq<char>| keys.contains(d) && depot_reported(latest, old, d),
        |d: Seq<char>| depot_changes_new(latest.depots[d], old.depots[d]),
    )
}

pub open spec fn depots_old_among(latest: SnapshotView, old: SnapshotView, keys: Set<Seq<char>>) -> Map<
    Seq<char>,
    Map<Seq<char>, ManifestEntryView>,
> {
    Map::new(
        |d: Seq<char>| keys.contains(d) && depot_reported(latest, old, d),
        |d: Seq<char>| depot_changes_old(latest.depots[d], old.depots[d]),
    )
}

/// The change report between the generations `old` and `latest`.
pub open spec fn report_of(latest: SnapshotView, old: SnapshotView) -> ChangeReportView {
    ChangeReportView {
        latest: latest.change_number,
        old: old.change_number,
        depots_new: depots_new_among(latest, old, old.depots.dom()),
        depots_old: depots_old_among(latest, old, old.depots.dom()),
    }
}

/// Adds to the two buckets the entries present in both `latest_manifests`
/// and `old_manifests` whose values differ: the new side with the old gid,
/// and the old entry as it was.
pub fn collect_differences(
    latest_manifests: &KeyedMap<ManifestEntry>,
    old_manifests: &KeyedMap<ManifestEntry>,
    new_differences: &mut KeyedMap<ChangedManifest>,
    old_differences: &mut KeyedMap<ManifestEntry>,
)
    ensures
        final(new_differences)@ == old(new_differences)@.union_prefer_right(
            manifest_changes_new(latest_manifests@, old_manifests@),
        ),
        final(old_differences)@ == old(old_differences)@.union_prefer_right(
            manifest_changes_old(latest_manifests@, old_manifests@),
        ),
{
    let ghost init_new = new_differences@;
    let ghost init_old = old_differences@;
    let ghost lat = latest_manifests@;
    let ghost old_m = old_manifests@;
    let n = latest_manifests.len();
    let mut i: usize = 0;
    while i < n
        invariant
            n == latest_manifests.key_seq().len(),
            i <= n,
            lat == latest_manifests@,
            old_m == old_manifests@,
            latest_manifests.key_seq().no_duplicates(),
            forall|k: Seq<char>| #[trigger]
                lat.contains_key(k) <==> latest_manifests.key_seq().contains(k),
            new_differences@ == init_new.union_prefer_right(
                changes_new_among(lat, old_m, latest_manifests.key_seq().take(i as int).to_set()),
            ),
            old_differences@ == init_old.union_prefer_right(
                changes_old_among(lat, old_m, latest_manifests.key_seq().take(i as int).to_set()),
            ),
        decreases n - i,
    {
        let ghost prev_keys = latest_manifests.key_seq().take(i as int).to_set();
        let ghost next_keys = latest_manifests.key_seq().take(i + 1).to_set();
        let key = latest_manifests.key_at(i);
        let latest_manifest = latest_manifests.value_at(i);
        proof {
            assert(latest_manifests.key_seq().take(i + 1) =~= latest_manifests.key_seq().take(
                i as int,
            ).push(key@));
            latest_manifests.key_seq().take(i as int).lemma_push_to_set_commute(key@);
            assert(latest_manifests.key_seq().contains(key@));
        }
        match old_manifests.get(key) {
            Some(old_manifest) => {
                if !latest_manifest.deep_eq(old_manifest) {
                    let changed = ChangedManifest {
                        gid: latest_manifest.gid.clone(),
                        download: latest_manifest.download.clone(),
                        size: latest_manifest.size,
                        old_gid: old_manifest.gid.clone(),
                    };
                    new_differences.insert(key.clone(), changed);
                    old_differences.insert(key.clone(), old_manifest.clone());
                    proof {
                        assert(entry_changed(lat, old_m, key@));
                        assert(changes_new_among(lat, old_m, next_keys) =~= changes_new_among(
                            lat,
                            old_m,
                            prev_keys,
                        ).insert(key@, changed_entry(lat[key@], old_m[key@])));
                        assert(changes_old_among(lat, old_m, next_keys) =~= changes_old_among(
                            lat,
                            old_m,
                            prev_keys,
                        ).insert(key@, old_m[key@]));
                        assert(new_differences@ =~= init_new.union_prefer_right(
                            changes_new_among(lat, old_m, next_keys),
                        ));
                        assert(old_differences@ =~= init_old.union_prefer_right(
                            changes_old_among(lat, old_m, next_keys),
                        ));
                    }
                } else {
                    proof {
                        assert(changes_new_among(lat, old_m, next_keys) =~= changes_new_among(
                            lat,
                            old_m,
                            prev_keys,
                        ));
                        assert(changes_old_among(lat, old_m, next_keys) =~= changes_old_among(
                            lat,
                            old_m,
                            prev_keys,
                        ));
                    }
                }
            },
            None => {
                proof {
                    assert(changes_new_among(lat, old_m, next_keys) =~= changes_new_among(
                        lat,
                        old_m,
                        prev_keys,
                    ));
                    assert(changes_old_among(lat, old_m, next_keys) =~= changes_old_among(
                        lat,
                        old_m,
                        prev_keys,
                    ));
                }
            },
        }
        i = i + 1;
    }
    proof {
        assert(latest_manifests.key_seq().take(n as int) =~= latest_manifests.key_seq());
        assert(latest_manifests.key_seq().to_set() =~= lat.dom());
    }
}

/// The change report between the generations `old_data` and `latest_data`:
/// for each depot of `old_data` that `latest_data` also has, the manifest
/// entries of either kind present on both sides whose values differ.
pub fn diff_comparer(latest_data: &Snapshot, old_data: &Snapshot) -> (r: ChangeReport)
    ensures
        r@ == report_of(latest_data@, old_data@),
{
    let ghost lat = latest_data@;
    let ghost old_s = old_data@;
    let mut new_differences: KeyedMap<KeyedMap<ChangedManifest>> = KeyedMap::new();
    let mut old_differences: KeyedMap<KeyedMap<ManifestEntry>> = KeyedMap::new();
    let old_depots = &old_data.depots;
    let n = old_depots.len();
    proof {
        assert(new_differences@ =~= depots_new_among(lat, old_s, old_depots.key_seq().take(0).to_set()));
        assert(old_differences@ =~= depots_old_among(lat, old_s, old_depots.key_seq().take(0).to_set()));
    }
    let mut i: usize = 0;
    while i < n
        invariant
            n == old_depots.key_seq().len(),
            i <= n,
            lat == latest_data@,
            old_s == old_data@,
            old_depots == &old_data.depots,
            old_depots.key_seq().no_duplicates(),
            forall|k: Seq<char>| #[trigger]
                old_s.depots.contains_key(k) <==> old_depots.key_seq().contains(k),
            new_differences@ == depots_new_among(lat, old_s, old_depots.key_seq().take(i as int).to_set()),
            old_differences@ == depots_old_among(lat, old_s, old_depots.key_seq().take(i as int).to_set()),
        decreases n - i,
    {
        let ghost prev_keys = old_depots.key_seq().take(i as int).to_set();
        let ghost next_keys = old_depots.key_seq().take(i + 1).to_set();
        let key = old_depots.key_at(i);
        let old_depot = old_depots.value_at(i);
        proof {
            assert(old_depots.key_seq().take(i + 1) =~= old_depots.key_seq().take(i as int).push(key@));
            old_depots.key_seq().take(i as int).lemma_push_to_set_commute(key@);
            assert(old_depots.key_seq().contains(key@));
        }
        match latest_data.depots.get(key) {
            Some(latest_depot) => {
                let mut depot_differences: KeyedMap<ChangedManifest> = KeyedMap::new();
                let mut old_depot_differences: KeyedMap<ManifestEntry> = KeyedMap::new();
                collect_differences(
                    &latest_depot.manifests,
                    &old_depot.manifests,
                    &mut depot_differences,
                    &mut old_depot_differences,
                );
                collect_differences(
                    &latest_depot.encrypted_manifests,
                    &old_depot.encrypted_manifests,
                    &mut depot_differences,
                    &mut old_depot_differences,
                );
                let ghost dn = depot_changes_new(lat.depots[key@], old_s.depots[key@]);
                let ghost dold = depot_changes_old(lat.depots[key@], old_s.depots[key@]);
                proof {
                    assert(depot_differences@ =~= dn);
                    assert(old_depot_differences@ =~= dold);
                    assert(dn.dom() =~= dold.dom());
                }
                if !depot_differences.is_empty() {
                    new_differences.insert(key.clone(), depot_differences);
                }
                if !old_depot_differences.is_empty() {
                    old_differences.insert(key.clone(), old_depot_differences);
                }
                proof {
                    if dn != Map::<Seq<char>, ChangedManifestView>::empty() {
                        assert(dold != Map::<Seq<char>, ManifestEntryView>::empty()) by {
                            if dold == Map::<Seq<char>, ManifestEntryView>::empty() {
                                assert(dn =~= Map::<Seq<char>, ChangedManifestView>::empty());
                            }
                        }
                        assert(depot_reported(lat, old_s, key@));
                        assert(new_differences@ =~= depots_new_among(lat, old_s, next_keys));
                        assert(old_differences@ =~= depots_old_among(lat, old_s, next_keys));
                    } else {
                        assert(dold =~= Map::<Seq<char>, ManifestEntryView>::empty());
                        assert(!depot_reported(lat, old_s, key@));
                        assert(new_differences@ =~= depots_new_among(lat, old_s, next_keys));
                        assert(old_differences@ =~= depots_old_among(lat, old_s, next_keys));
                    }
                }
            },
            None => {
                proof {
                    assert(new_differences@ =~= depots_new_among(lat, old_s, next_keys));
                    assert(old_differences@ =~= depots_old_among(lat, old_s, next_keys));
                }
            },
        }
        i = i + 1;
    }
    proof {
        assert(old_depots.key_seq().take(n as int) =~= old_depots.key_seq());
        assert(old_depots.key_seq().to_set() =~= old_s.depots.dom());
    }
    ChangeReport {
        latest: latest_data.change_number,
        old: old_data.change_number,
        depots_new: new_differences,
        depots_old: old_differences,
    }
}

} // verus!
