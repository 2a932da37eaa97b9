use data_engine::diff::diff_comparer;
use data_engine::keyed_map::{DeepEq, KeyedMap};
use data_engine::model::{Depot, ManifestEntry, Snapshot, TrackedRecord};
use data_engine::tracking::{extract_data_from_value, rotate, track_cycle, update_app_info};

fn one_manifest(change_number: i64, gid: &str) -> Snapshot {
    let mut d = Depot::new();
    d.manifests.insert("m1".to_string(), ManifestEntry::new(gid.to_string(), "x".to_string(), 10));
    let mut s = Snapshot::new(change_number);
    s.depots.insert("d1".to_string(), d);
    s
}

#[test]
fn rotation_without_change_keeps_record() {
    let record = TrackedRecord { old: one_manifest(1, "1"), current: one_manifest(2, "2") };
    let before = diff_comparer(&record.current, &record.old);
    let rotated = rotate(one_manifest(2, "2"), record.clone());
    assert!(rotated.old.deep_eq(&record.old));
    assert!(rotated.current.deep_eq(&record.current));
    let after = diff_comparer(&rotated.current, &rotated.old);
    assert_eq!(format!("{:?}", before), format!("{:?}", after));
}

#[test]
fn rotation_shifts_generations() {
    let record = TrackedRecord { old: one_manifest(1, "1"), current: one_manifest(2, "2") };
    let rotated = rotate(one_manifest(3, "3"), record.clone());
    assert!(rotated.old.deep_eq(&record.current));
    assert!(rotated.current.deep_eq(&one_manifest(3, "3")));
}

#[test]
fn rotation_on_change_number_alone() {
    let record = TrackedRecord { old: one_manifest(1, "1"), current: one_manifest(2, "2") };
    let rotated = rotate(one_manifest(5, "2"), record.clone());
    assert_eq!(rotated.old.change_number, 2);
    assert_eq!(rotated.current.change_number, 5);
}

#[test]
fn snapshot_equality_ignores_insertion_order() {
    let mut a = Depot::new();
    a.manifests.insert("m1".to_string(), ManifestEntry::new("1".to_string(), "x".to_string(), 1));
    a.manifests.insert("m2".to_string(), ManifestEntry::new("2".to_string(), "y".to_string(), 2));
    let mut b = Depot::new();
    b.manifests.insert("m2".to_string(), ManifestEntry::new("2".to_string(), "y".to_string(), 2));
    b.manifests.insert("m1".to_string(), ManifestEntry::new("1".to_string(), "x".to_string(), 1));
    assert!(a.deep_eq(&b));
    b.encrypted_manifests.insert("m1".to_string(), ManifestEntry::new("1".to_string(), "x".to_string(), 1));
    assert!(!a.deep_eq(&b));
}

#[test]
fn keyed_map_insert_replaces_and_remove_takes() {
    let mut m: KeyedMap<ManifestEntry> = KeyedMap::new();
    assert!(m.is_empty());
    m.insert("k".to_string(), ManifestEntry::new("1".to_string(), "x".to_string(), 1));
    m.insert("k".to_string(), ManifestEntry::new("2".to_string(), "y".to_string(), 2));
    assert_eq!(m.len(), 1);
    assert_eq!(m.get(&"k".to_string()).unwrap().gid, "2");
    let taken = m.remove(&"k".to_string()).unwrap();
    assert_eq!(taken.size, 2);
    assert!(m.is_empty());
    assert!(m.remove(&"k".to_string()).is_none());
}

#[test]
fn extract_and_update_round_trip() {
    let mut app: KeyedMap<TrackedRecord> = KeyedMap::new();
    update_app_info(&mut app, "440".to_string(), one_manifest(2, "2"), one_manifest(1, "1"));
    let record = app.remove(&"440".to_string()).unwrap();
    let (old, latest) = extract_data_from_value(record);
    assert_eq!(old.change_number, 1);
    assert_eq!(latest.change_number, 2);
}

#[test]
fn cycle_not_found_leaves_store() {
    let mut app: KeyedMap<TrackedRecord> = KeyedMap::new();
    update_app_info(&mut app, "440".to_string(), one_manifest(2, "2"), one_manifest(1, "1"));
    let report = track_cycle(&mut app, "440".to_string(), None);
    assert!(report.is_none());
    assert_eq!(app.len(), 1);
    assert_eq!(app.get(&"440".to_string()).unwrap().current.change_number, 2);
}

#[test]
fn first_cycle_starts_from_empty_record() {
    let mut app: KeyedMap<TrackedRecord> = KeyedMap::new();
    let report = track_cycle(&mut app, "440".to_string(), Some(one_manifest(7, "1"))).unwrap();
    assert_eq!(report.latest, 7);
    assert_eq!(report.old, 0);
    assert!(report.depots_new.is_empty());
    let record = app.get(&"440".to_string()).unwrap();
    assert_eq!(record.old.change_number, 0);
    assert!(record.old.depots.is_empty());
    assert_eq!(record.current.change_number, 7);
}

#[test]
fn cycles_report_change_then_keep_it() {
    let mut app: KeyedMap<TrackedRecord> = KeyedMap::new();
    track_cycle(&mut app, "440".to_string(), Some(one_manifest(7, "1")));
    let report = track_cycle(&mut app, "440".to_string(), Some(one_manifest(8, "2"))).unwrap();
    assert_eq!(report.latest, 8);
    assert_eq!(report.old, 7);
    let changed = report.depots_new.get(&"d1".to_string()).unwrap().get(&"m1".to_string()).unwrap();
    assert_eq!(changed.gid, "2");
    assert_eq!(changed.old_gid, "1");
    // The same state again: no new generation, the same report.
    let again = track_cycle(&mut app, "440".to_string(), Some(one_manifest(8, "2"))).unwrap();
    assert_eq!(format!("{:?}", report), format!("{:?}", again));
    assert_eq!(app.get(&"440".to_string()).unwrap().old.change_number, 7);
}
