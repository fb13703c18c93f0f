use vstd::prelude::*;
use crate::records::{TrackerStatsAccount, distinct_days, has_snapshot, snapshot_index};

verus! {

/// Whether the aggregate can take the event without leaving `u32`: `prior` is
/// the count the owner had already recorded for the day, if any, and
/// `first_ever` whether the owner had recorded nothing for the tracker.
pub open spec fn stats_fit(stats: Option<TrackerStatsAccount>, prior: Option<u32>, first_ever: bool, count: u32) -> bool {
    match stats {
        None => true,
        Some(s) => match prior {
            Some(prev) => prev <= s.total_count && s.total_count - prev + count <= u32::MAX,
            None => s.total_count + count <= u32::MAX && (first_ever ==> s.unique_users + 1 <= u32::MAX),
        },
    }
}

/// The daily aggregate after an owner records `count` for `day`. A new
/// aggregate counts the owner; on an existing one a new entry adds the count
/// and adds one distinct owner only on the owner's first-ever entry for the
/// tracker, and a replaced entry changes the total by the difference of the
/// counts.
pub open spec fn stats_after(
    stats: Option<TrackerStatsAccount>,
    tracker_id: u32,
    day: u64,
    prior: Option<u32>,
    first_ever: bool,
    count: u32,
) -> TrackerStatsAccount {
    match stats {
        None => TrackerStatsAccount { tracker_id, date: day, total_count: count, unique_users: 1 },
        Some(s) => match prior {
            Some(prev) => TrackerStatsAccount {
                total_count: (s.total_count - prev + count) as u32,
                ..s
            },
            None => TrackerStatsAccount {
                total_count: (s.total_count + count) as u32,
                unique_users: if first_ever {
                    (s.unique_users + 1) as u32
                } else {
                    s.unique_users
                },
                ..s
            },
        },
    }
}

/// The aggregate index after `snap` is mirrored into it: the snapshot of its
/// day is replaced if there is one, else `snap` is appended.
pub open spec fn snapshots_after(s: Seq<TrackerStatsAccount>, snap: TrackerStatsAccount) -> Seq<TrackerStatsAccount> {
    if has_snapshot(s, snap.date) {
        s.update(snapshot_index(s, snap.date), snap)
    } else {
        s.push(snap)
    }
}

/// Mirroring keeps one snapshot per day: the snapshot of the mirrored day is
/// the mirrored one, and every other day keeps its snapshot.
pub proof fn lemma_snapshots_after(s: Seq<TrackerStatsAccount>, snap: TrackerStatsAccount)
    requires
        distinct_days(s),
    ensures
        distinct_days(snapshots_after(s, snap)),
        has_snapshot(snapshots_after(s, snap), snap.date),
        snapshots_after(s, snap)[snapshot_index(snapshots_after(s, snap), snap.date)] == snap,
        forall|d: u64| d != snap.date ==> (has_snapshot(snapshots_after(s, snap), d) <==> has_snapshot(s, d)),
        forall|d: u64| d != snap.date && has_snapshot(s, d) ==> snapshots_after(s, snap)[snapshot_index(
            snapshots_after(s, snap),
            d,
        )] == s[snapshot_index(s, d)],
        has_snapshot(s, snap.date) ==> snapshots_after(s, snap).len() == s.len(),
        !has_snapshot(s, snap.date) ==> snapshots_after(s, snap).len() == s.len() + 1,
{
    let r = snapshots_after(s, snap);
    let k = if has_snapshot(s, snap.date) { snapshot_index(s, snap.date) } else { s.len() as int };
    assert(r[k] == snap);
    assert forall|i: int| 0 <= i < r.len() && i != k implies r[i] == s[i] by {}
    assert(distinct_days(r));
    assert(has_snapshot(r, snap.date));
    let c = snapshot_index(r, snap.date);
    assert(r[c].date == snap.date);
    assert(c == k);
    assert forall|d: u64| d != snap.date implies (has_snapshot(r, d) <==> has_snapshot(s, d)) by {
        if has_snapshot(r, d) {
            let j = choose|j: int| 0 <= j < r.len() && r[j].date == d;
            assert(s[j].date == d);
        }
        if has_snapshot(s, d) {
            let j = choose|j: int| 0 <= j < s.len() && s[j].date == d;
            assert(r[j].date == d);
        }
    }
    assert forall|d: u64| d != snap.date && has_snapshot(s, d) implies r[snapshot_index(r, d)] == s[snapshot_index(s, d)] by {
        let j = snapshot_index(s, d);
        assert(r[j].date == d);
        let jr = snapshot_index(r, d);
        assert(r[jr].date == d);
        assert(jr == j);
    }
}

/// Computes the daily aggregate after an owner records `count` for `day`.
pub fn next_stats(
    stats: Option<TrackerStatsAccount>,
    tracker_id: u32,
    day: u64,
    prior: Option<u32>,
    first_ever: bool,
    count: u32,
) -> (r: Option<TrackerStatsAccount>)
    ensures
        r.is_some() == stats_fit(stats, prior, first_ever, count),
        r matches Some(a) ==> a == stats_after(stats, tracker_id, day, prior, first_ever, count),
{
    if stats.is_none() {
        return Some(TrackerStatsAccount { tracker_id, date: day, total_count: count, unique_users: 1 });
    }
    let s = stats.unwrap();
    if prior.is_some() {
        let prev = prior.unwrap();
        if s.total_count < prev || s.total_count - prev > u32::MAX - count {
            None
        } else {
            Some(TrackerStatsAccount { total_count: s.total_count - prev + count, ..s })
        }
    } else if s.total_count > u32::MAX - count || (first_ever && s.unique_users == u32::MAX) {
        None
    } else if first_ever {
        Some(
            TrackerStatsAccount {
                total_count: s.total_count + count,
                unique_users: s.unique_users + 1,
                ..s
            },
        )
    } else {
        Some(TrackerStatsAccount { total_count: s.total_count + count, ..s })
    }
}

/// Finds the snapshot for `day`.
pub fn find_snapshot(stats: &Vec<TrackerStatsAccount>, day: u64) -> (r: Option<usize>)
    requires
        distinct_days(stats@),
    ensures
        r is None <==> !has_snapshot(stats@, day),
        r matches Some(i) ==> i < stats@.len() && stats@[i as int].date == day
            && snapshot_index(stats@, day) == i,
{
    let mut i: usize = 0;
    while i < stats.len()
        invariant
            i <= stats@.len(),
            distinct_days(stats@),
            forall|j: int| 0 <= j < i ==> stats@[j].date != day,
        decreases stats@.len() - i,
    {
        if stats[i].date == day {
            proof {
                let k = snapshot_index(stats@, day);
                assert(has_snapshot(stats@, day));
                assert(stats@[k].date == day);
            }
            return Some(i);
        }
        i = i + 1;
    }
    None
}

/// Mirrors `snap` into the aggregate index.
pub fn upsert_snapshot(stats: &mut Vec<TrackerStatsAccount>, snap: TrackerStatsAccount)
    requires
        distinct_days(old(stats)@),
        has_snapshot(old(stats)@, snap.date) || old(stats)@.len() < usize::MAX,
    ensures
        final(stats)@ == snapshots_after(old(stats)@, snap),
        distinct_days(final(stats)@),
{
    match find_snapshot(stats, snap.date) {
        Some(i) => {
            stats.set(i, snap);
        },
        None => {
            stats.push(snap);
        },
    }
}

} // verus!
