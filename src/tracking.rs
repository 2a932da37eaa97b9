use vstd::prelude::*;

use crate::diff::{diff_comparer, report_of};
use crate::keyed_map::{DeepEq, KeyedMap};
use crate::model::{
    empty_snapshot, ChangeReport, Snapshot, SnapshotView, TrackedRecord, TrackedRecordView,
};

verus! {

/// The record after `fetched` has been seen: unchanged when `fetched` equals
/// the current generation, otherwise shifted by one generation.
pub open spec fn rotated(fetched: SnapshotView, record: TrackedRecordView) -> TrackedRecordView {
    if fetched == record.current {
        record
    } else {
        TrackedRecordView { old: record.current, current: fetched }
    }
}

/// The stored record of `appid`, or the empty record when there is none.
pub open spec fn stored_or_empty(app: Map<Seq<char>, TrackedRecordView>, appid: Seq<char>) -> TrackedRecordView {
    if app.contains_key(appid) {
        app[appid]
    } else {
        TrackedRecordView { old: empty_snapshot(), current: empty_snapshot() }
    }
}

/// Promotes `fetched` to the current generation and the previous current
/// one to the old generation, unless `fetched` equals the current one, in
/// which case the record comes back as it was.
pub fn rotate(fetched: Snapshot, record: TrackedRecord) -> (r: TrackedRecord)
    ensures
        r@ == rotated(fetched@, record@),
        fetched@ == record@.current ==> r == record,
{
    if fetched.deep_eq(&record.current) {
        record
    } else {
        TrackedRecord { old: record.current, current: fetched }
    }
}

/// Splits a record into its old and its current generation.
pub fn extract_data_from_value(v: TrackedRecord) -> (r: (Snapshot, Snapshot))
    ensures
        r.0@ == v@.old,
        r.1@ == v@.current,
{
    (v.old, v.current)
}

/// Stores the record of `appid` with the given generations, replacing any
/// record it had.
pub fn update_app_info(
    app: &mut KeyedMap<TrackedRecord>,
    appid: String,
    latest_data: Snapshot,
    old_data: Snapshot,
)
    ensures
        final(app)@ == old(app)@.insert(
            appid@,
            TrackedRecordView { old: old_data@, current: latest_data@ },
        ),
{
    app.insert(appid, TrackedRecord { old: old_data, current: latest_data });
}

/// One tracking cycle of `appid` over the stored records `app`, given what
/// the remote source returned (`None`: the identifier is unknown there).
/// On `None` nothing changes and no report is made. Otherwise the stored
/// record (or the empty one) is rotated with the fetched snapshot, stored
/// back, and the report between its two generations is returned.
pub fn track_cycle(app: &mut KeyedMap<TrackedRecord>, appid: String, fetched: Option<Snapshot>) -> (r:
    Option<ChangeReport>)
    ensures
        r.is_some() == fetched.is_some(),
        fetched.is_none() ==> final(app)@ == old(app)@,
        fetched.is_some() ==> ({
            let rec = rotated(fetched.unwrap()@, stored_or_empty(old(app)@, appid@));
            &&& final(app)@ == old(app)@.insert(appid@, rec)
            &&& r.unwrap()@ == report_of(rec.current, rec.old)
        }),
{
    match fetched {
        None => None,
        Some(fetched) => {
            let ghost pre = app@;
            let record = match app.remove(&appid) {
                Some(record) => record,
                None => TrackedRecord::empty(),
            };
            let record = rotate(fetched, record);
            let (old_data, latest_data) = extract_data_from_value(record);
            let report = diff_comparer(&latest_data, &old_data);
            update_app_info(app, appid, latest_data, old_data);
            proof {
                assert(app@ =~= pre.insert(appid@, rotated(fetched@, stored_or_empty(pre, appid@))));
            }
            Some(report)
        },
    }
}

} // verus!
