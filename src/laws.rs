use vstd::prelude::*;
use crate::day::normalized;
use crate::engine::{EventRecords, event_error, event_result};
use crate::ledger::lemma_tracks_after;
use crate::records::{
    Track, TrackerStatsAccount, DuplicatePolicy, TrackingError, MAX_TRACKS, MAX_DAILY_STATS,
    sorted_desc, has_day, day_index, has_snapshot, snapshot_index,
};
use crate::stats::lemma_snapshots_after;
use crate::streak::streak_after;
use crate::records::{OwnerKey, distinct_days};

verus! {

/// The records of an event hold, if any, the aggregate of the event's day.
pub open spec fn addressed(m: EventRecords, date: u64) -> bool {
    m.stats matches Some(s) ==> s.date == normalized(date)
}

/// An accepted event leaves well-formed records addressed by its day: the
/// ledger holds its entry, every other day of the ledger keeps its entry, and
/// the streak's last day is the event's day.
pub proof fn lemma_event_result(m: EventRecords, tracker_id: u32, count: u32, date: u64)
    requires
        m.wf(),
        addressed(m, date),
        event_error(m, tracker_id, count, date) is None,
    ensures
        event_result(m, tracker_id, count, date).wf(),
        addressed(event_result(m, tracker_id, count, date), date),
        has_day(event_result(m, tracker_id, count, date).tracks(), normalized(date)),
        event_result(m, tracker_id, count, date).prior(normalized(date)) == Some(count),
        has_snapshot(event_result(m, tracker_id, count, date).snapshots(), normalized(date)),
        event_result(m, tracker_id, count, date).streak matches Some(s) && s.last_streak_date == normalized(
            date,
        ),
        event_result(m, tracker_id, count, date).stats matches Some(s) && count <= s.total_count,
{
    let day = normalized(date);
    let m2 = event_result(m, tracker_id, count, date);
    lemma_tracks_after(m.tracks(), Track { date: day, count });
    let stats = m2.stats->Some_0;
    assert(stats.date == day);
    lemma_snapshots_after(m.snapshots(), stats);
    assert(m2.tracks().len() <= MAX_TRACKS);
    assert(m2.snapshots().len() <= MAX_DAILY_STATS);
}

/// Under `Overwrite`, a second event for the same day leaves exactly one
/// entry for the day, with the second count, and moves the day's total by the
/// second count less the first; the number of owners stays.
pub proof fn lemma_overwrite_replaces(m: EventRecords, tracker_id: u32, c1: u32, c2: u32, date: u64)
    requires
        m.wf(),
        addressed(m, date),
        m.policy == DuplicatePolicy::Overwrite,
        event_error(m, tracker_id, c1, date) is None,
        event_result(m, tracker_id, c1, date).stats matches Some(s) && s.total_count - c1 + c2 <= u32::MAX,
    ensures
        ({
            let day = normalized(date);
            let m1 = event_result(m, tracker_id, c1, date);
            let m2 = event_result(m1, tracker_id, c2, date);
            &&& event_error(m1, tracker_id, c2, date) is None
            &&& has_day(m2.tracks(), day)
            &&& m2.tracks()[day_index(m2.tracks(), day)].count == c2
            &&& forall|i: int, j: int|
                0 <= i < m2.tracks().len() && 0 <= j < m2.tracks().len() && m2.tracks()[i].date == day
                    && m2.tracks()[j].date == day ==> i == j
            &&& m2.tracks().len() == m1.tracks().len()
            &&& m2.stats->Some_0.total_count == m1.stats->Some_0.total_count - c1 + c2
            &&& m2.stats->Some_0.unique_users == m1.stats->Some_0.unique_users
        }),
{
    let day = normalized(date);
    let m1 = event_result(m, tracker_id, c1, date);
    lemma_event_result(m, tracker_id, c1, date);
    assert(event_error(m1, tracker_id, c2, date) is None);
    lemma_event_result(m1, tracker_id, c2, date);
    lemma_tracks_after(m1.tracks(), Track { date: day, count: c2 });
    let m2 = event_result(m1, tracker_id, c2, date);
    assert(sorted_desc(m2.tracks()));
    assert forall|i: int, j: int|
        0 <= i < m2.tracks().len() && 0 <= j < m2.tracks().len() && m2.tracks()[i].date == day
            && m2.tracks()[j].date == day implies i == j by {
        if i < j {
            assert(m2.tracks()[i].date > m2.tracks()[j].date);
        } else if j < i {
            assert(m2.tracks()[j].date > m2.tracks()[i].date);
        }
    }
}

/// Under `Reject`, a second event for a day already recorded is refused with
/// `DuplicateDateEntry`.
pub proof fn lemma_reject_refuses_second(m: EventRecords, tracker_id: u32, c1: u32, c2: u32, date: u64)
    requires
        m.wf(),
        addressed(m, date),
        m.policy == DuplicatePolicy::Reject,
        event_error(m, tracker_id, c1, date) is None,
    ensures
        event_error(event_result(m, tracker_id, c1, date), tracker_id, c2, date) == Some(
            TrackingError::DuplicateDateEntry,
        ),
{
    lemma_event_result(m, tracker_id, c1, date);
}

/// Two owners recording the same tracker on the same day, the day's aggregate
/// not yet created and the second owner recording the tracker for the first
/// time: it counts two owners and the sum of their counts.
pub proof fn lemma_distinct_owners_counted(
    a: EventRecords,
    b: EventRecords,
    tracker_id: u32,
    ca: u32,
    cb: u32,
    date: u64,
)
    requires
        a.user != b.user,
        a.wf(),
        b.wf(),
        a.stats is None,
        event_error(a, tracker_id, ca, date) is None,
        b.stats == event_result(a, tracker_id, ca, date).stats,
        b.index == event_result(a, tracker_id, ca, date).index,
        b.tracks().len() == 0,
        event_error(b, tracker_id, cb, date) is None,
    ensures
        event_result(b, tracker_id, cb, date).stats == Some(
            TrackerStatsAccount {
                tracker_id,
                date: normalized(date),
                total_count: (ca + cb) as u32,
                unique_users: 2,
            },
        ),
{
}

/// An owner counts once in all towards the number of owners of the tracker's
/// days: their first-ever entry on an existing aggregate adds one owner, and
/// any later event of theirs, on the same day or another, adds none.
pub proof fn lemma_same_owner_counted_once(
    m: EventRecords,
    n: EventRecords,
    tracker_id: u32,
    c1: u32,
    c2: u32,
    d1: u64,
    d2: u64,
)
    requires
        m.wf(),
        addressed(m, d1),
        event_error(m, tracker_id, c1, d1) is None,
        n.user == m.user,
        n.ledger == event_result(m, tracker_id, c1, d1).ledger,
        n.stats is Some,
        addressed(n, d2),
        event_error(n, tracker_id, c2, d2) is None,
    ensures
        m.tracks().len() == 0 && m.stats is Some ==> event_result(m, tracker_id, c1, d1).stats->Some_0.unique_users
            == m.stats->Some_0.unique_users + 1,
        event_result(n, tracker_id, c2, d2).stats->Some_0.unique_users == n.stats->Some_0.unique_users,
{
    lemma_event_result(m, tracker_id, c1, d1);
    let m1 = event_result(m, tracker_id, c1, d1);
    assert(n.tracks() == m1.tracks());
    assert(has_day(m1.tracks(), normalized(d1)));
    assert(n.tracks().len() > 0);
}

/// After an accepted event the index holds exactly one snapshot for each day
/// it held and for the event's day, the one of the event's day equal to the
/// live aggregate, and those of the other days unchanged.
pub proof fn lemma_index_mirrors_aggregate(m: EventRecords, tracker_id: u32, count: u32, date: u64)
    requires
        m.wf(),
        addressed(m, date),
        event_error(m, tracker_id, count, date) is None,
    ensures
        ({
            let day = normalized(date);
            let m2 = event_result(m, tracker_id, count, date);
            &&& m2.wf()
            &&& m2.snapshots()[snapshot_index(m2.snapshots(), day)] == m2.stats->Some_0
            &&& forall|d: u64| has_snapshot(m2.snapshots(), d) <==> (has_snapshot(m.snapshots(), d) || d == day)
            &&& forall|d: u64| d != day && has_snapshot(m.snapshots(), d)
                ==> m2.snapshots()[snapshot_index(m2.snapshots(), d)] == m.snapshots()[snapshot_index(m.snapshots(), d)]
        }),
{
    let day = normalized(date);
    let m2 = event_result(m, tracker_id, count, date);
    lemma_event_result(m, tracker_id, count, date);
    lemma_snapshots_after(m.snapshots(), m2.stats->Some_0);
}

/// The index of a tracker mirrors its live daily aggregates, given as a map
/// from day to aggregate: one snapshot for each day of the map and none
/// other, each equal to the aggregate of its day.
pub open spec fn mirrors(index: Seq<TrackerStatsAccount>, live: Map<u64, TrackerStatsAccount>) -> bool {
    &&& distinct_days(index)
    &&& forall|d: u64| has_snapshot(index, d) <==> live.contains_key(d)
    &&& forall|d: u64| #[trigger] live.contains_key(d) ==> live[d].date == d && index[snapshot_index(index, d)] == live[d]
}

/// The aggregate of the event's day among the live aggregates, if any.
pub open spec fn live_of(live: Map<u64, TrackerStatsAccount>, day: u64) -> Option<TrackerStatsAccount> {
    if live.contains_key(day) {
        Some(live[day])
    } else {
        None
    }
}

/// Before any event the index and the live aggregates are both empty, and
/// the one mirrors the other.
pub proof fn lemma_mirrors_empty()
    ensures
        mirrors(Seq::empty(), Map::empty()),
{
}

/// Every accepted event keeps the index mirroring the live aggregates, and
/// adds its day to the days they hold: so over any history of events the
/// index holds exactly one snapshot per day ever recorded, equal to that
/// day's aggregate.
pub proof fn lemma_index_history_step(
    m: EventRecords,
    live: Map<u64, TrackerStatsAccount>,
    tracker_id: u32,
    count: u32,
    date: u64,
)
    requires
        m.wf(),
        mirrors(m.snapshots(), live),
        m.stats == live_of(live, normalized(date)),
        event_error(m, tracker_id, count, date) is None,
    ensures
        ({
            let m2 = event_result(m, tracker_id, count, date);
            let live2 = live.insert(normalized(date), m2.stats->Some_0);
            &&& mirrors(m2.snapshots(), live2)
            &&& live2.dom() == live.dom().insert(normalized(date))
            &&& m2.stats == live_of(live2, normalized(date))
        }),
{
    let day = normalized(date);
    if live.contains_key(day) {
        assert(live[day].date == day);
    }
    assert(addressed(m, date));
    lemma_index_mirrors_aggregate(m, tracker_id, count, date);
    lemma_event_result(m, tracker_id, count, date);
    let m2 = event_result(m, tracker_id, count, date);
    let live2 = live.insert(day, m2.stats->Some_0);
    assert(m2.stats->Some_0.date == day);
    assert forall|d: u64| #[trigger] live2.contains_key(d) implies live2[d].date == d && m2.snapshots()[snapshot_index(
        m2.snapshots(),
        d,
    )] == live2[d] by {
        if d != day {
            assert(has_snapshot(m.snapshots(), d));
        }
    }
    assert forall|d: u64| has_snapshot(m2.snapshots(), d) <==> live2.contains_key(d) by {
        if d != day {
            assert(has_snapshot(m.snapshots(), d) <==> live.contains_key(d));
        }
    }
    assert(live2.dom() =~= live.dom().insert(day));
}

/// From no streak, events with a positive count on three consecutive days
/// make a streak of three, the longest so far; an event two days after the
/// third restarts the streak at one and keeps the longest at three.
pub proof fn lemma_streak_growth_and_reset(user: OwnerKey, tracker_id: u32, day: u64, count: u32)
    requires
        count > 0,
        day + 4 * 86400 <= u64::MAX,
    ensures
        ({
            let s1 = streak_after(None, user, tracker_id, day, count);
            let s2 = streak_after(Some(s1), user, tracker_id, (day + 86400) as u64, count);
            let s3 = streak_after(Some(s2), user, tracker_id, (day + 2 * 86400) as u64, count);
            let s4 = streak_after(Some(s3), user, tracker_id, (day + 4 * 86400) as u64, count);
            &&& s3.streak == 3 && s3.longest_streak == 3
            &&& s3.longest_streak_date == day + 2 * 86400
            &&& s4.streak == 1 && s4.longest_streak == 3
            &&& s4.last_streak_date == day + 4 * 86400
        }),
{
}

} // verus!
