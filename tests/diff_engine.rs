use data_engine::diff::{collect_differences, diff_comparer};
use data_engine::keyed_map::KeyedMap;
use data_engine::model::{ChangedManifest, Depot, ManifestEntry, Snapshot};

fn entry(gid: &str, download: &str, size: u64) -> ManifestEntry {
    ManifestEntry::new(gid.to_string(), download.to_string(), size)
}

fn depot(manifests: Vec<(&str, ManifestEntry)>, encrypted: Vec<(&str, ManifestEntry)>) -> Depot {
    let mut d = Depot::new();
    for (k, e) in manifests {
        d.manifests.insert(k.to_string(), e);
    }
    for (k, e) in encrypted {
        d.encrypted_manifests.insert(k.to_string(), e);
    }
    d
}

fn snapshot(change_number: i64, depots: Vec<(&str, Depot)>) -> Snapshot {
    let mut s = Snapshot::new(change_number);
    for (k, d) in depots {
        s.depots.insert(k.to_string(), d);
    }
    s
}

fn key(s: &str) -> String {
    s.to_string()
}

#[test]
fn intersection_only_comparison() {
    let old = snapshot(1, vec![("d1", depot(vec![("m1", entry("a", "x", 1))], vec![]))]);
    let current = snapshot(
        2,
        vec![("d1", depot(vec![("m1", entry("a", "x", 1)), ("m2", entry("b", "y", 2))], vec![]))],
    );
    let report = diff_comparer(&current, &old);
    assert!(report.depots_new.is_empty());
    assert!(report.depots_old.is_empty());
    assert_eq!(report.latest, 2);
    assert_eq!(report.old, 1);
}

#[test]
fn removed_manifest_not_reported() {
    let old = snapshot(
        1,
        vec![("d1", depot(vec![("m1", entry("a", "x", 1)), ("m2", entry("b", "y", 2))], vec![]))],
    );
    let current = snapshot(2, vec![("d1", depot(vec![("m1", entry("a", "x", 1))], vec![]))]);
    let report = diff_comparer(&current, &old);
    assert!(report.depots_new.is_empty());
    assert!(report.depots_old.is_empty());
}

#[test]
fn change_detection() {
    let old = snapshot(10, vec![("d1", depot(vec![("m1", entry("1", "x", 10))], vec![]))]);
    let current = snapshot(11, vec![("d1", depot(vec![("m1", entry("2", "y", 20))], vec![]))]);
    let report = diff_comparer(&current, &old);
    assert_eq!(report.latest, 11);
    assert_eq!(report.old, 10);
    assert_eq!(report.depots_new.len(), 1);
    assert_eq!(report.depots_old.len(), 1);
    let new_d1 = report.depots_new.get(&key("d1")).unwrap();
    assert_eq!(new_d1.len(), 1);
    let changed: &ChangedManifest = new_d1.get(&key("m1")).unwrap();
    assert_eq!(changed.gid, "2");
    assert_eq!(changed.download, "y");
    assert_eq!(changed.size, 20);
    assert_eq!(changed.old_gid, "1");
    let old_d1 = report.depots_old.get(&key("d1")).unwrap();
    assert_eq!(old_d1.len(), 1);
    let before = old_d1.get(&key("m1")).unwrap();
    assert_eq!(before.gid, "1");
    assert_eq!(before.download, "x");
    assert_eq!(before.size, 10);
}

#[test]
fn size_alone_counts_as_change() {
    let old = snapshot(1, vec![("d1", depot(vec![("m1", entry("7", "x", 10))], vec![]))]);
    let current = snapshot(1, vec![("d1", depot(vec![("m1", entry("7", "x", 11))], vec![]))]);
    let report = diff_comparer(&current, &old);
    let changed = report.depots_new.get(&key("d1")).unwrap().get(&key("m1")).unwrap();
    assert_eq!(changed.size, 11);
    assert_eq!(changed.old_gid, "7");
}

#[test]
fn removed_depot_exclusion() {
    let old = snapshot(
        1,
        vec![
            ("d1", depot(vec![("m1", entry("1", "x", 10))], vec![])),
            ("d2", depot(vec![("m1", entry("1", "x", 10))], vec![])),
        ],
    );
    let current = snapshot(2, vec![("d2", depot(vec![("m1", entry("2", "x", 10))], vec![]))]);
    let report = diff_comparer(&current, &old);
    assert!(!report.depots_new.contains_key(&key("d1")));
    assert!(!report.depots_old.contains_key(&key("d1")));
    assert!(report.depots_new.contains_key(&key("d2")));
    assert!(report.depots_old.contains_key(&key("d2")));
}

#[test]
fn new_depot_not_reported() {
    let old = snapshot(1, vec![]);
    let current = snapshot(2, vec![("d1", depot(vec![("m1", entry("1", "x", 10))], vec![]))]);
    let report = diff_comparer(&current, &old);
    assert!(report.depots_new.is_empty());
    assert!(report.depots_old.is_empty());
}

#[test]
fn independent_namespaces() {
    let old = snapshot(
        1,
        vec![("d1", depot(vec![("m1", entry("1", "x", 10))], vec![("e1", entry("5", "p", 50))]))],
    );
    let current = snapshot(
        2,
        vec![("d1", depot(vec![("m1", entry("1", "x", 10))], vec![("e1", entry("6", "q", 60))]))],
    );
    let report = diff_comparer(&current, &old);
    let new_d1 = report.depots_new.get(&key("d1")).unwrap();
    assert_eq!(new_d1.len(), 1);
    assert!(!new_d1.contains_key(&key("m1")));
    let changed = new_d1.get(&key("e1")).unwrap();
    assert_eq!(changed.gid, "6");
    assert_eq!(changed.old_gid, "5");
    let old_d1 = report.depots_old.get(&key("d1")).unwrap();
    assert_eq!(old_d1.get(&key("e1")).unwrap().gid, "5");
}

#[test]
fn same_key_in_both_namespaces_not_matched_across() {
    // "m1" is plain on one side and encrypted on the other: no common key.
    let old = snapshot(1, vec![("d1", depot(vec![("m1", entry("1", "x", 10))], vec![]))]);
    let current = snapshot(1, vec![("d1", depot(vec![], vec![("m1", entry("2", "y", 20))]))]);
    let report = diff_comparer(&current, &old);
    assert!(report.depots_new.is_empty());
}

#[test]
fn encrypted_change_wins_on_shared_key() {
    let old = snapshot(
        1,
        vec![("d1", depot(vec![("m1", entry("1", "x", 10))], vec![("m1", entry("3", "z", 30))]))],
    );
    let current = snapshot(
        2,
        vec![("d1", depot(vec![("m1", entry("2", "y", 20))], vec![("m1", entry("4", "w", 40))]))],
    );
    let report = diff_comparer(&current, &old);
    let changed = report.depots_new.get(&key("d1")).unwrap().get(&key("m1")).unwrap();
    assert_eq!(changed.gid, "4");
    assert_eq!(changed.old_gid, "3");
    let before = report.depots_old.get(&key("d1")).unwrap().get(&key("m1")).unwrap();
    assert_eq!(before.gid, "3");
}

#[test]
fn diff_with_itself_is_empty() {
    let s = snapshot(
        42,
        vec![
            ("d1", depot(vec![("m1", entry("1", "x", 10))], vec![("e1", entry("5", "p", 50))])),
            ("d2", depot(vec![("m2", entry("2", "y", 20))], vec![])),
        ],
    );
    let report = diff_comparer(&s, &s);
    assert!(report.depots_new.is_empty());
    assert!(report.depots_old.is_empty());
    assert_eq!(report.latest, 42);
    assert_eq!(report.old, 42);
}

#[test]
fn diff_twice_gives_identical_reports() {
    let old = snapshot(
        1,
        vec![
            ("d1", depot(vec![("m1", entry("1", "x", 10)), ("m2", entry("2", "x", 10))], vec![])),
            ("d2", depot(vec![], vec![("e1", entry("5", "p", 50))])),
        ],
    );
    let current = snapshot(
        2,
        vec![
            ("d1", depot(vec![("m1", entry("9", "x", 10)), ("m2", entry("2", "x", 10))], vec![])),
            ("d2", depot(vec![], vec![("e1", entry("6", "p", 50))])),
        ],
    );
    let first = diff_comparer(&current, &old);
    let second = diff_comparer(&current, &old);
    assert_eq!(format!("{:?}", first), format!("{:?}", second));
    assert_eq!(first.depots_new.len(), 2);
}

#[test]
fn collect_differences_adds_to_existing_buckets() {
    let mut latest: KeyedMap<ManifestEntry> = KeyedMap::new();
    latest.insert(key("m1"), entry("2", "y", 20));
    latest.insert(key("m2"), entry("3", "z", 30));
    let mut old: KeyedMap<ManifestEntry> = KeyedMap::new();
    old.insert(key("m1"), entry("1", "x", 10));
    old.insert(key("m2"), entry("3", "z", 30));
    let mut new_differences: KeyedMap<ChangedManifest> = KeyedMap::new();
    new_differences.insert(
        key("k0"),
        ChangedManifest { gid: key("a"), download: key("b"), size: 1, old_gid: key("c") },
    );
    let mut old_differences: KeyedMap<ManifestEntry> = KeyedMap::new();
    collect_differences(&latest, &old, &mut new_differences, &mut old_differences);
    assert_eq!(new_differences.len(), 2);
    assert!(new_differences.contains_key(&key("k0")));
    assert_eq!(new_differences.get(&key("m1")).unwrap().old_gid, "1");
    assert!(!new_differences.contains_key(&key("m2")));
    assert_eq!(old_differences.len(), 1);
    assert_eq!(old_differences.get(&key("m1")).unwrap().download, "x");
}
