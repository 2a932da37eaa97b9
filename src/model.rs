use vstd::prelude::*;

use crate::keyed_map::{DeepEq, KeyedMap};

verus! {

/// One versioned artifact of a depot.
#[derive(Debug)]
pub struct ManifestEntry {
    pub gid: String,
    pub download: String,
    pub size: u64,
}

pub struct ManifestEntryView {
    pub gid: Seq<char>,
    pub download: Seq<char>,
    pub size: u64,
}

impl View for ManifestEntry {
    type V = ManifestEntryView;

    open spec fn view(&self) -> ManifestEntryView {
        ManifestEntryView { gid: self.gid@, download: self.download@, size: self.size }
    }
}

impl Clone for ManifestEntry {
    fn clone(&self) -> (r: Self)
        ensures
            r == *self,
    {
        ManifestEntry { gid: self.gid.clone(), download: self.download.clone(), size: self.size }
    }
}

impl DeepEq for ManifestEntry {
    fn deep_eq(&self, other: &Self) -> (r: bool) {
        self.gid == other.gid && self.download == other.download && self.size == other.size
    }
}

impl ManifestEntry {
    pub fn new(gid: String, download: String, size: u64) -> (r: Self)
        ensures
            r@ == (ManifestEntryView { gid: gid@, download: download@, size }),
    {
        ManifestEntry { gid, download, size }
    }
}

/// A named sub-state: two independent mappings from manifest keys to entries.
#[derive(Clone, Debug)]
pub struct Depot {
    pub manifests: KeyedMap<ManifestEntry>,
    pub encrypted_manifests: KeyedMap<ManifestEntry>,
}

pub struct DepotView {
    pub manifests: Map<Seq<char>, ManifestEntryView>,
    pub encrypted_manifests: Map<Seq<char>, ManifestEntryView>,
}

impl View for Depot {
    type V = DepotView;

    open spec fn view(&self) -> DepotView {
        DepotView { manifests: self.manifests@, encrypted_manifests: self.encrypted_manifests@ }
    }
}

impl DeepEq for Depot {
    fn deep_eq(&self, other: &Self) -> (r: bool) {
        self.manifests.deep_eq(&other.manifests) && self.encrypted_manifests.deep_eq(
            &other.encrypted_manifests,
        )
    }
}

impl Depot {
    /// A depot with no manifests of either kind.
    pub fn new() -> (r: Self)
        ensures
            r@.manifests == Map::<Seq<char>, ManifestEntryView>::empty(),
            r@.encrypted_manifests == Map::<Seq<char>, ManifestEntryView>::empty(),
    {
        Depot { manifests: KeyedMap::new(), encrypted_manifests: KeyedMap::new() }
    }
}

/// The whole state of one tracked identifier at one generation.
#[derive(Clone, Debug)]
pub struct Snapshot {
    pub change_number: i64,
    pub depots: KeyedMap<Depot>,
}

pub struct SnapshotView {
    pub change_number: i64,
    pub depots: Map<Seq<char>, DepotView>,
}

impl View for Snapshot {
    type V = SnapshotView;

    open spec fn view(&self) -> SnapshotView {
        SnapshotView { change_number: self.change_number, depots: self.depots@ }
    }
}

impl DeepEq for Snapshot {
    fn deep_eq(&self, other: &Self) -> (r: bool) {
        self.change_number == other.change_number && self.depots.deep_eq(&other.depots)
    }
}

impl Snapshot {
    /// A snapshot with the given change number and no depots.
    pub fn new(change_number: i64) -> (r: Self)
        ensures
            r@.change_number == change_number,
            r@.depots == Map::<Seq<char>, DepotView>::empty(),
    {
        Snapshot { change_number, depots: KeyedMap::new() }
    }
}

/// The two generations kept for one identifier.
#[derive(Clone, Debug)]
pub struct TrackedRecord {
    pub old: Snapshot,
    pub current: Snapshot,
}

pub struct TrackedRecordView {
    pub old: SnapshotView,
    pub current: SnapshotView,
}

impl View for TrackedRecord {
    type V = TrackedRecordView;

    open spec fn view(&self) -> TrackedRecordView {
        TrackedRecordView { old: self.old@, current: self.current@ }
    }
}

impl DeepEq for TrackedRecord {
    fn deep_eq(&self, other: &Self) -> (r: bool) {
        self.old.deep_eq(&other.old) && self.current.deep_eq(&other.current)
    }
}

/// The state before anything has been fetched: change number zero, no depots.
pub open spec fn empty_snapshot() -> SnapshotView {
    SnapshotView { change_number: 0, depots: Map::empty() }
}

impl TrackedRecord {
    /// The record of an identifier that has never been tracked.
    pub fn empty() -> (r: Self)
        ensures
            r@ == (TrackedRecordView { old: empty_snapshot(), current: empty_snapshot() }),
    {
        TrackedRecord { old: Snapshot::new(0), current: Snapshot::new(0) }
    }
}

/// The new side of a changed manifest entry, with the gid it had before.
#[derive(Clone, Debug)]
pub struct ChangedManifest {
    pub gid: String,
    pub download: String,
    pub size: u64,
    pub old_gid: String,
}

pub struct ChangedManifestView {
    pub gid: Seq<char>,
    pub download: Seq<char>,
    pub size: u64,
    pub old_gid: Seq<char>,
}

impl View for ChangedManifest {
    type V = ChangedManifestView;

    open spec fn view(&self) -> ChangedManifestView {
        ChangedManifestView {
            gid: self.gid@,
            download: self.download@,
            size: self.size,
            old_gid: self.old_gid@,
        }
    }
}

impl DeepEq for ChangedManifest {
    fn deep_eq(&self, other: &Self) -> (r: bool) {
        self.gid == other.gid && self.download == other.download && self.size == other.size
            && self.old_gid == other.old_gid
    }
}

/// What changed between two generations, per depot and manifest key.
#[derive(Clone, Debug)]
pub struct ChangeReport {
    pub latest: i64,
    pub old: i64,
    pub depots_new: KeyedMap<KeyedMap<ChangedManifest>>,
    pub depots_old: KeyedMap<KeyedMap<ManifestEntry>>,
}

pub struct ChangeReportView {
    pub latest: i64,
    pub old: i64,
    pub depots_new: Map<Seq<char>, Map<Seq<char>, ChangedManifestView>>,
    pub depots_old: Map<Seq<char>, Map<Seq<char>, ManifestEntryView>>,
}

impl View for ChangeReport {
    type V = ChangeReportView;

    open spec fn view(&self) -> ChangeReportView {
        ChangeReportView {
            latest: self.latest,
            old: self.old,
            depots_new: self.depots_new@,
            depots_old: self.depots_old@,
        }
    }
}

} // verus!
