use vstd::prelude::*;
use crate::records::{OwnerKey, TrackerStreakAccount};

verus! {

/// Whether an event for `day` comes before the last day of the streak.
pub open spec fn out_of_order(st: Option<TrackerStreakAccount>, day: u64) -> bool {
    st matches Some(s) && day < s.last_streak_date
}

/// Whether `day` is the day right after `last`.
pub open spec fn next_day(last: u64, day: u64) -> bool {
    day as int == last + 86400
}

/// Whether the streak can take the event without leaving `u32`.
pub open spec fn streak_fits(st: Option<TrackerStreakAccount>, day: u64, count: u32) -> bool {
    match st {
        Some(s) => next_day(s.last_streak_date, day) && count > 0 ==> s.streak < u32::MAX,
        None => true,
    }
}

/// The streak record after an accepted event for `day` with `count`.
pub open spec fn streak_after(
    st: Option<TrackerStreakAccount>,
    user: OwnerKey,
    tracker_id: u32,
    day: u64,
    count: u32,
) -> TrackerStreakAccount {
    match st {
        None => TrackerStreakAccount {
            user,
            tracker_id,
            streak: 1,
            last_streak_date: day,
            longest_streak: 1,
            longest_streak_date: day,
        },
        Some(s) => if day == s.last_streak_date {
            s
        } else if next_day(s.last_streak_date, day) && count > 0 {
            if s.streak + 1 > s.longest_streak {
                TrackerStreakAccount {
                    streak: (s.streak + 1) as u32,
                    last_streak_date: day,
                    longest_streak: (s.streak + 1) as u32,
                    longest_streak_date: day,
                    ..s
                }
            } else {
                TrackerStreakAccount { streak: (s.streak + 1) as u32, last_streak_date: day, ..s }
            }
        } else if next_day(s.last_streak_date, day) {
            TrackerStreakAccount { streak: 0, last_streak_date: day, ..s }
        } else {
            TrackerStreakAccount { streak: 1, last_streak_date: day, ..s }
        },
    }
}

/// Computes the streak record after an accepted event.
pub fn next_streak(
    st: Option<TrackerStreakAccount>,
    user: OwnerKey,
    tracker_id: u32,
    day: u64,
    count: u32,
) -> (r: TrackerStreakAccount)
    requires
        !out_of_order(st, day),
        streak_fits(st, day, count),
    ensures
        r == streak_after(st, user, tracker_id, day, count),
{
    match st {
        None => TrackerStreakAccount {
            user,
            tracker_id,
            streak: 1,
            last_streak_date: day,
            longest_streak: 1,
            longest_streak_date: day,
        },
        Some(s) => {
            let gap = day - s.last_streak_date;
            if gap == 0 {
                s
            } else if gap == 86400 && count > 0 {
                let streak = s.streak + 1;
                if streak > s.longest_streak {
                    TrackerStreakAccount {
                        streak,
                        last_streak_date: day,
                        longest_streak: streak,
                        longest_streak_date: day,
                        ..s
                    }
                } else {
                    TrackerStreakAccount { streak, last_streak_date: day, ..s }
                }
            } else if gap == 86400 {
                TrackerStreakAccount { streak: 0, last_streak_date: day, ..s }
            } else {
                TrackerStreakAccount { streak: 1, last_streak_date: day, ..s }
            }
        },
    }
}

} // verus!
