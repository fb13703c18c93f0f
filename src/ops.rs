use vstd::prelude::*;
use vstd::utf8::encode_utf8;
use crate::day::{normalize, normalized};
use crate::records::{
    OwnerKey, Track, Tracker, TrackerRegistry, TrackerStats, TrackerStatsAccount,
    TrackerStatsList, TrackerStreakAccount, TrackingData, TrackingError, MAX_TRACKERS,
    MAX_TITLE_LEN, MAX_DESCRIPTION_LEN,
};

verus! {

/// The registry record, if it was created.
pub struct Initialize {
    pub tracker_registry: Option<TrackerRegistry>,
}

/// The record at the address of a title, if there is one, and the registry.
pub struct CreateTracker {
    pub tracker: Option<Tracker>,
    pub tracker_registry: TrackerRegistry,
}

/// The registry.
pub struct GetAllTrackers {
    pub tracker_registry: TrackerRegistry,
}

/// An owner's ledger for a tracker.
pub struct GetUserTrackingData {
    pub tracking_data: TrackingData,
    pub user: OwnerKey,
}

/// The aggregate record of a (tracker, day), if it was created, and the
/// tracker.
pub struct GetTrackerStats {
    pub tracker_stats: Option<TrackerStatsAccount>,
    pub tracker: Tracker,
}

/// An owner's streak record for a tracker, if it was created.
pub struct GetUserStreak {
    pub tracker_streak: Option<TrackerStreakAccount>,
    pub user: OwnerKey,
}

/// A tracker's aggregate index, if it was created.
pub struct GetAllTrackerStats {
    pub tracker_stats_list: Option<TrackerStatsList>,
}

/// Whether `title` is among the registered titles.
pub open spec fn registered(names: Seq<String>, title: Seq<char>) -> bool {
    exists|i: int| 0 <= i < names.len() && names[i]@ == title
}

/// Creates the registry, empty; it can be created once only.
pub fn initialize(ctx: &mut Initialize) -> (r: Result<(), TrackingError>)
    ensures
        old(ctx).tracker_registry is Some ==> r == Err::<(), TrackingError>(TrackingError::AlreadyInitialized)
            && *final(ctx) == *old(ctx),
        old(ctx).tracker_registry is None ==> r is Ok && (final(ctx).tracker_registry matches Some(g)
            && g.tracker_names@.len() == 0),
{
    if ctx.tracker_registry.is_some() {
        return Err(TrackingError::AlreadyInitialized);
    }
    ctx.tracker_registry = Some(TrackerRegistry::default());
    Ok(())
}

/// Whether one of `names` is `title`.
pub fn contains_title(names: &Vec<String>, title: &String) -> (r: bool)
    ensures
        r == registered(names@, title@),
{
    let mut i: usize = 0;
    while i < names.len()
        invariant
            i <= names@.len(),
            forall|j: int| 0 <= j < i ==> names@[j]@ != title@,
        decreases names@.len() - i,
    {
        if names[i] == *title {
            return true;
        }
        i = i + 1;
    }
    false
}

/// Creates a tracker and appends its title to the registry. Its id is one
/// more than the number of trackers before it, so no two trackers share an
/// id. A title over `MAX_TITLE_LEN` bytes or a description over
/// `MAX_DESCRIPTION_LEN` bytes is refused.
pub fn create_tracker(ctx: &mut CreateTracker, title: String, description: String) -> (r: Result<u32, TrackingError>)
    requires
        old(ctx).tracker_registry.wf(),
    ensures
        final(ctx).tracker_registry.wf(),
        ({
            let names = old(ctx).tracker_registry.tracker_names@;
            if !(Tracker { id: 0, title, description }).wf() {
                r == Err::<u32, TrackingError>(TrackingError::FieldTooLong) && *final(ctx) == *old(ctx)
            } else if old(ctx).tracker is Some || registered(names, title@) {
                r == Err::<u32, TrackingError>(TrackingError::DuplicateTitle) && *final(ctx) == *old(ctx)
            } else if names.len() >= MAX_TRACKERS {
                r == Err::<u32, TrackingError>(TrackingError::RegistryFull) && *final(ctx) == *old(ctx)
            } else {
                &&& r == Ok::<u32, TrackingError>((names.len() + 1) as u32)
                &&& final(ctx).tracker == Some(Tracker { id: (names.len() + 1) as u32, title, description })
                &&& final(ctx).tracker->Some_0.wf()
                &&& final(ctx).tracker_registry.tracker_names@ == names.push(title)
            }
        }),
{
    let title_len = title.as_str().as_bytes().len();
    let description_len = description.as_str().as_bytes().len();
    assert(title_len == encode_utf8(title@).len());
    assert(description_len == encode_utf8(description@).len());
    if title_len > MAX_TITLE_LEN || description_len > MAX_DESCRIPTION_LEN {
        return Err(TrackingError::FieldTooLong);
    }
    if ctx.tracker.is_some() || contains_title(&ctx.tracker_registry.tracker_names, &title) {
        return Err(TrackingError::DuplicateTitle);
    }
    let n = ctx.tracker_registry.tracker_names.len();
    if n >= MAX_TRACKERS {
        return Err(TrackingError::RegistryFull);
    }
    let id = (n + 1) as u32;
    ctx.tracker_registry.tracker_names.push(title.clone());
    ctx.tracker = Some(Tracker { id, title, description });
    Ok(id)
}

/// A copy of each element, in order.
pub fn copy_all<T: Copy>(v: &Vec<T>) -> (r: Vec<T>)
    ensures
        r@ == v@,
{
    let mut r: Vec<T> = Vec::new();
    let mut i: usize = 0;
    while i < v.len()
        invariant
            i <= v@.len(),
            r@ == v@.subrange(0, i as int),
        decreases v@.len() - i,
    {
        r.push(v[i]);
        i = i + 1;
        assert(r@ == v@.subrange(0, i as int));
    }
    assert(r@ == v@);
    r
}

/// The registered titles, in registration order.
pub fn get_all_trackers(ctx: &GetAllTrackers) -> (r: Vec<String>)
    ensures
        r@ == ctx.tracker_registry.tracker_names@,
{
    let names = &ctx.tracker_registry.tracker_names;
    let mut r: Vec<String> = Vec::new();
    let mut i: usize = 0;
    while i < names.len()
        invariant
            i <= names@.len(),
            r@ == names@.subrange(0, i as int),
        decreases names@.len() - i,
    {
        r.push(names[i].clone());
        i = i + 1;
        assert(r@ == names@.subrange(0, i as int));
    }
    assert(r@ == names@);
    r
}

/// The owner's entries for the tracker, newest first.
pub fn get_user_tracking_data(ctx: &GetUserTrackingData, tracker_id: u32) -> (r: Result<Vec<Track>, TrackingError>)
    ensures
        ctx.tracking_data.tracker_id != tracker_id ==> r == Err::<Vec<Track>, TrackingError>(
            TrackingError::UnknownTracker,
        ),
        ctx.tracking_data.tracker_id == tracker_id ==> (r matches Ok(v) && v@ == ctx.tracking_data.tracks@),
{
    if ctx.tracking_data.tracker_id != tracker_id {
        return Err(TrackingError::UnknownTracker);
    }
    Ok(copy_all(&ctx.tracking_data.tracks))
}

/// The total count and number of distinct owners of the tracker on the day
/// of `date`; zeros where nothing was recorded.
pub fn get_tracker_stats(ctx: &GetTrackerStats, tracker_id: u32, date: u64) -> (r: Result<TrackerStats, TrackingError>)
    ensures
        ctx.tracker.id != tracker_id ==> r == Err::<TrackerStats, TrackingError>(TrackingError::UnknownTracker),
        ctx.tracker.id == tracker_id ==> r == Ok::<TrackerStats, TrackingError>(
            match ctx.tracker_stats {
                Some(s) => if s.tracker_id == tracker_id && s.date == normalized(date) {
                    TrackerStats { total_count: s.total_count, unique_users: s.unique_users }
                } else {
                    TrackerStats { total_count: 0, unique_users: 0 }
                },
                None => TrackerStats { total_count: 0, unique_users: 0 },
            },
        ),
{
    if ctx.tracker.id != tracker_id {
        return Err(TrackingError::UnknownTracker);
    }
    let day = normalize(date);
    match ctx.tracker_stats {
        Some(s) => {
            if s.tracker_id == tracker_id && s.date == day {
                Ok(TrackerStats { total_count: s.total_count, unique_users: s.unique_users })
            } else {
                Ok(TrackerStats { total_count: 0, unique_users: 0 })
            }
        },
        None => Ok(TrackerStats { total_count: 0, unique_users: 0 }),
    }
}

/// The owner's streak record for the tracker; all zeros where the owner has
/// recorded nothing.
pub fn get_user_streak(ctx: &GetUserStreak, tracker_id: u32) -> (r: Result<TrackerStreakAccount, TrackingError>)
    ensures
        match ctx.tracker_streak {
            Some(s) => if s.tracker_id == tracker_id {
                r == Ok::<TrackerStreakAccount, TrackingError>(s)
            } else {
                r == Err::<TrackerStreakAccount, TrackingError>(TrackingError::UnknownTracker)
            },
            None => r == Ok::<TrackerStreakAccount, TrackingError>(
                TrackerStreakAccount {
                    user: ctx.user,
                    tracker_id,
                    streak: 0,
                    last_streak_date: 0,
                    longest_streak: 0,
                    longest_streak_date: 0,
                },
            ),
        },
{
    match ctx.tracker_streak {
        Some(s) => {
            if s.tracker_id != tracker_id {
                return Err(TrackingError::UnknownTracker);
            }
            Ok(s)
        },
        None => Ok(
            TrackerStreakAccount {
                user: ctx.user,
                tracker_id,
                streak: 0,
                last_streak_date: 0,
                longest_streak: 0,
                longest_streak_date: 0,
            },
        ),
    }
}

/// The snapshot of each daily aggregate of the tracker; none where nothing
/// was recorded.
pub fn get_all_tracker_stats(ctx: &GetAllTrackerStats, tracker_id: u32) -> (r: Result<Vec<TrackerStatsAccount>, TrackingError>)
    ensures
        match ctx.tracker_stats_list {
            Some(l) => if l.tracker_id == tracker_id {
                r matches Ok(v) && v@ == l.stats@
            } else {
                r == Err::<Vec<TrackerStatsAccount>, TrackingError>(TrackingError::UnknownTracker)
            },
            None => r matches Ok(v) && v@.len() == 0,
        },
{
    match &ctx.tracker_stats_list {
        Some(l) => {
            if l.tracker_id != tracker_id {
                return Err(TrackingError::UnknownTracker);
            }
            Ok(copy_all(&l.stats))
        },
        None => Ok(Vec::new()),
    }
}

} // verus!
