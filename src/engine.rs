use vstd::prelude::*;
use crate::day::{normalize, normalized};
use crate::ledger::{find_track, upsert_track, tracks_after, lemma_tracks_after};
use crate::records::{
    OwnerKey, Track, Tracker, TrackingData, TrackerStatsAccount, TrackerStatsList,
    TrackerStreakAccount, DuplicatePolicy, TrackingError, MAX_TRACKS, MAX_DAILY_STATS,
    sorted_desc, has_day, day_index, distinct_days, has_snapshot,
};
use crate::stats::{next_stats, stats_fit, stats_after, find_snapshot, upsert_snapshot, snapshots_after};
use crate::streak::{next_streak, out_of_order, streak_fits, streak_after};

verus! {

/// What a ledger record holds.
pub struct LedgerModel {
    pub user: OwnerKey,
    pub tracker_id: u32,
    pub tracks: Seq<Track>,
}

/// What an aggregate index record holds.
pub struct IndexModel {
    pub tracker_id: u32,
    pub stats: Seq<TrackerStatsAccount>,
}

/// What the records of one event hold; `None` stands for a record not yet
/// created.
pub struct EventRecords {
    pub user: OwnerKey,
    pub tracker_id: u32,
    pub policy: DuplicatePolicy,
    pub ledger: Option<LedgerModel>,
    pub stats: Option<TrackerStatsAccount>,
    pub index: Option<IndexModel>,
    pub streak: Option<TrackerStreakAccount>,
}

/// The records that one event reads and writes: the owner's ledger and streak
/// for the tracker, and the tracker's aggregate of the event's day and its
/// aggregate index. `None` stands for a record not yet created.
pub struct AddTrackingData {
    pub user: OwnerKey,
    pub tracker: Tracker,
    pub policy: DuplicatePolicy,
    pub tracking_data: Option<TrackingData>,
    pub tracker_stats: Option<TrackerStatsAccount>,
    pub tracker_stats_list: Option<TrackerStatsList>,
    pub tracker_streak: Option<TrackerStreakAccount>,
}

impl AddTrackingData {
    pub open spec fn model(&self) -> EventRecords {
        EventRecords {
            user: self.user,
            tracker_id: self.tracker.id,
            policy: self.policy,
            ledger: match self.tracking_data {
                Some(d) => Some(LedgerModel { user: d.user, tracker_id: d.tracker_id, tracks: d.tracks@ }),
                None => None,
            },
            stats: self.tracker_stats,
            index: match self.tracker_stats_list {
                Some(l) => Some(IndexModel { tracker_id: l.tracker_id, stats: l.stats@ }),
                None => None,
            },
            streak: self.tracker_streak,
        }
    }

    /// The ledger holds at most `MAX_TRACKS` entries sorted newest first, and
    /// the index at most `MAX_DAILY_STATS` snapshots of distinct days.
    pub open spec fn wf(&self) -> bool {
        self.model().wf()
    }
}

impl EventRecords {
    pub open spec fn wf(&self) -> bool {
        &&& sorted_desc(self.tracks())
        &&& self.tracks().len() <= MAX_TRACKS
        &&& distinct_days(self.snapshots())
        &&& self.snapshots().len() <= MAX_DAILY_STATS
    }

    /// The ledger's entries; none before the ledger is created.
    pub open spec fn tracks(&self) -> Seq<Track> {
        match self.ledger {
            Some(l) => l.tracks,
            None => Seq::empty(),
        }
    }

    /// The index's snapshots; none before the index is created.
    pub open spec fn snapshots(&self) -> Seq<TrackerStatsAccount> {
        match self.index {
            Some(i) => i.stats,
            None => Seq::empty(),
        }
    }

    /// The count the owner has already recorded for `day`, if any.
    pub open spec fn prior(&self, day: u64) -> Option<u32> {
        if has_day(self.tracks(), day) {
            Some(self.tracks()[day_index(self.tracks(), day)].count)
        } else {
            None
        }
    }
}

/// Why an event is refused, if it is: the tracker must be the one addressed,
/// a second event for a day is refused under `Reject`, no event may come
/// before the streak's last day, and no record may outgrow its capacity or a
/// counter `u32`.
pub open spec fn event_error(m: EventRecords, tracker_id: u32, count: u32, date: u64) -> Option<TrackingError> {
    let day = normalized(date);
    if m.tracker_id != tracker_id {
        Some(TrackingError::UnknownTracker)
    } else if has_day(m.tracks(), day) && m.policy == DuplicatePolicy::Reject {
        Some(TrackingError::DuplicateDateEntry)
    } else if out_of_order(m.streak, day) {
        Some(TrackingError::OutOfOrderDate)
    } else if !has_day(m.tracks(), day) && m.tracks().len() >= MAX_TRACKS {
        Some(TrackingError::LedgerFull)
    } else if !has_snapshot(m.snapshots(), day) && m.snapshots().len() >= MAX_DAILY_STATS {
        Some(TrackingError::AggregateFull)
    } else if !stats_fit(m.stats, m.prior(day), m.tracks().len() == 0, count) || !streak_fits(m.streak, day, count) {
        Some(TrackingError::CounterOverflow)
    } else {
        None
    }
}

/// The records after an accepted event: the ledger holds the entry, the
/// day's aggregate counts it, the index mirrors the aggregate, and the streak
/// has taken its step.
pub open spec fn event_result(m: EventRecords, tracker_id: u32, count: u32, date: u64) -> EventRecords {
    let day = normalized(date);
    let stats = stats_after(m.stats, tracker_id, day, m.prior(day), m.tracks().len() == 0, count);
    EventRecords {
        ledger: Some(
            LedgerModel {
                user: match m.ledger {
                    Some(l) => l.user,
                    None => m.user,
                },
                tracker_id: match m.ledger {
                    Some(l) => l.tracker_id,
                    None => tracker_id,
                },
                tracks: tracks_after(m.tracks(), Track { date: day, count }),
            },
        ),
        stats: Some(stats),
        index: Some(
            IndexModel {
                tracker_id: match m.index {
                    Some(i) => i.tracker_id,
                    None => tracker_id,
                },
                stats: snapshots_after(m.snapshots(), stats),
            },
        ),
        streak: Some(streak_after(m.streak, m.user, tracker_id, day, count)),
        ..m
    }
}

/// Records that the owner reported `count` for the day of timestamp `date`
/// on the tracker: all four records change together, or none does.
pub fn add_tracking_data(ctx: &mut AddTrackingData, tracker_id: u32, count: u32, date: u64) -> (r: Result<(), TrackingError>)
    requires
        old(ctx).wf(),
        old(ctx).tracker_stats matches Some(s) ==> s.tracker_id == tracker_id && s.date == normalized(date),
    ensures
        final(ctx).wf(),
        final(ctx).tracker == old(ctx).tracker,
        match event_error(old(ctx).model(), tracker_id, count, date) {
            Some(e) => r == Err::<(), TrackingError>(e) && *final(ctx) == *old(ctx),
            None => r is Ok && final(ctx).model() == event_result(old(ctx).model(), tracker_id, count, date),
        },
{
    let ghost m = ctx.model();
    if ctx.tracker.id != tracker_id {
        return Err(TrackingError::UnknownTracker);
    }
    let day = normalize(date);
    let found = match &ctx.tracking_data {
        Some(d) => find_track(&d.tracks, day),
        None => None,
    };
    let n_tracks: usize = match &ctx.tracking_data {
        Some(d) => d.tracks.len(),
        None => 0,
    };
    let prior: Option<u32> = match found {
        Some(i) => match &ctx.tracking_data {
            Some(d) => Some(d.tracks[i].count),
            None => None,
        },
        None => None,
    };
    assert(prior == m.prior(day));
    if found.is_some() && ctx.policy == DuplicatePolicy::Reject {
        return Err(TrackingError::DuplicateDateEntry);
    }
    if let Some(st) = ctx.tracker_streak {
        if day < st.last_streak_date {
            return Err(TrackingError::OutOfOrderDate);
        }
    }
    if found.is_none() && n_tracks >= MAX_TRACKS {
        return Err(TrackingError::LedgerFull);
    }
    let snap_found = match &ctx.tracker_stats_list {
        Some(l) => find_snapshot(&l.stats, day),
        None => None,
    };
    let n_snaps: usize = match &ctx.tracker_stats_list {
        Some(l) => l.stats.len(),
        None => 0,
    };
    if snap_found.is_none() && n_snaps >= MAX_DAILY_STATS {
        return Err(TrackingError::AggregateFull);
    }
    let stats = match next_stats(ctx.tracker_stats, tracker_id, day, prior, n_tracks == 0, count) {
        Some(s) => s,
        None => {
            return Err(TrackingError::CounterOverflow);
        },
    };
    if let Some(st) = ctx.tracker_streak {
        if day - st.last_streak_date == 86400 && count > 0 && st.streak == u32::MAX {
            return Err(TrackingError::CounterOverflow);
        }
    }
    assert(event_error(m, tracker_id, count, date) is None);
    let streak = next_streak(ctx.tracker_streak, ctx.user, tracker_id, day, count);

    let track = Track { date: day, count };
    proof {
        lemma_tracks_after(m.tracks(), track);
    }
    match &mut ctx.tracking_data {
        Some(d) => {
            upsert_track(&mut d.tracks, track);
        },
        None => {
            let mut tracks: Vec<Track> = Vec::new();
            upsert_track(&mut tracks, track);
            ctx.tracking_data = Some(TrackingData { user: ctx.user, tracker_id, tracks });
        },
    }
    ctx.tracker_stats = Some(stats);
    match &mut ctx.tracker_stats_list {
        Some(l) => {
            upsert_snapshot(&mut l.stats, stats);
        },
        None => {
            let mut list: Vec<TrackerStatsAccount> = Vec::new();
            upsert_snapshot(&mut list, stats);
            ctx.tracker_stats_list = Some(TrackerStatsList { tracker_id, stats: list });
        },
    }
    ctx.tracker_streak = Some(streak);
    Ok(())
}

} // verus!
