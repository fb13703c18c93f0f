use tracking::address::RecordKey;
use tracking::day::normalize;
use tracking::engine::{add_tracking_data, AddTrackingData};
use tracking::ops::{
    create_tracker, get_all_tracker_stats, get_all_trackers, get_tracker_stats,
    get_user_streak, get_user_tracking_data, initialize, CreateTracker, GetAllTrackerStats,
    GetAllTrackers, GetTrackerStats, GetUserStreak, GetUserTrackingData, Initialize,
};
use tracking::records::{
    DuplicatePolicy, Track, Tracker, TrackerRegistry, TrackerStatsAccount, TrackingError,
};

const DAY: u64 = 86400;
const BASE: u64 = 19_000 * DAY;
const ALICE: [u8; 32] = [1u8; 32];
const BOB: [u8; 32] = [2u8; 32];

fn tracker(id: u32) -> Tracker {
    Tracker { id, title: "water".to_string(), description: "glasses per day".to_string() }
}

fn ctx(user: [u8; 32], policy: DuplicatePolicy) -> AddTrackingData {
    AddTrackingData {
        user,
        tracker: tracker(1),
        policy,
        tracking_data: None,
        tracker_stats: None,
        tracker_stats_list: None,
        tracker_streak: None,
    }
}

/// Loads the aggregate of the day of `date` the way a store addressed by
/// (tracker, day) would: only the record of that day.
fn with_day_stats(mut c: AddTrackingData, all: &[TrackerStatsAccount], date: u64) -> AddTrackingData {
    let day = normalize(date);
    c.tracker_stats = all.iter().copied().find(|s| s.date == day);
    c
}

fn record(c: &mut AddTrackingData, days: &mut Vec<TrackerStatsAccount>, count: u32, date: u64) -> Result<(), TrackingError> {
    let day = normalize(date);
    c.tracker_stats = days.iter().copied().find(|s| s.date == day);
    let r = add_tracking_data(c, 1, count, date);
    if let Some(s) = c.tracker_stats {
        if let Some(slot) = days.iter_mut().find(|x| x.date == s.date) {
            *slot = s;
        } else {
            days.push(s);
        }
    }
    r
}

#[test]
fn normalize_truncates_to_midnight() {
    assert_eq!(normalize(0), 0);
    assert_eq!(normalize(86399), 0);
    assert_eq!(normalize(86400), 86400);
    assert_eq!(normalize(BASE + 3 * 3600 + 17), BASE);
    assert_eq!(normalize(u64::MAX), (u64::MAX / DAY) * DAY);
}

#[test]
fn normalize_is_idempotent_and_monotonic() {
    let samples = [0u64, 1, 86399, 86400, 86401, BASE + 5, BASE + DAY - 1, u64::MAX - 1, u64::MAX];
    for &a in samples.iter() {
        assert_eq!(normalize(normalize(a)), normalize(a));
        for &b in samples.iter() {
            if a <= b {
                assert!(normalize(a) <= normalize(b));
            }
        }
    }
}

#[test]
fn first_event_creates_all_records() {
    let mut c = ctx(ALICE, DuplicatePolicy::Overwrite);
    assert_eq!(add_tracking_data(&mut c, 1, 4, BASE + 500), Ok(()));
    let d = c.tracking_data.as_ref().unwrap();
    assert_eq!(d.user, ALICE);
    assert_eq!(d.tracker_id, 1);
    assert_eq!(d.tracks, vec![Track { date: BASE, count: 4 }]);
    assert_eq!(
        c.tracker_stats,
        Some(TrackerStatsAccount { tracker_id: 1, date: BASE, total_count: 4, unique_users: 1 })
    );
    assert_eq!(c.tracker_stats_list.as_ref().unwrap().stats, vec![c.tracker_stats.unwrap()]);
    let st = c.tracker_streak.unwrap();
    assert_eq!((st.streak, st.last_streak_date, st.longest_streak, st.longest_streak_date), (1, BASE, 1, BASE));
}

#[test]
fn overwrite_replaces_entry_and_moves_total() {
    let mut c = ctx(ALICE, DuplicatePolicy::Overwrite);
    assert_eq!(add_tracking_data(&mut c, 1, 3, BASE), Ok(()));
    assert_eq!(add_tracking_data(&mut c, 1, 8, BASE + 100), Ok(()));
    let tracks = &c.tracking_data.as_ref().unwrap().tracks;
    assert_eq!(tracks, &vec![Track { date: BASE, count: 8 }]);
    let s = c.tracker_stats.unwrap();
    assert_eq!((s.total_count, s.unique_users), (8, 1));
    assert_eq!(c.tracker_stats_list.as_ref().unwrap().stats, vec![s]);
}

#[test]
fn overwrite_with_smaller_count_lowers_total() {
    let mut alice = ctx(ALICE, DuplicatePolicy::Overwrite);
    let mut bob = ctx(BOB, DuplicatePolicy::Overwrite);
    let mut days = Vec::new();
    assert_eq!(record(&mut alice, &mut days, 10, BASE), Ok(()));
    bob.tracker_stats_list = alice.tracker_stats_list.clone();
    assert_eq!(record(&mut bob, &mut days, 6, BASE), Ok(()));
    alice.tracker_stats_list = bob.tracker_stats_list.clone();
    assert_eq!(record(&mut alice, &mut days, 2, BASE), Ok(()));
    let s = alice.tracker_stats.unwrap();
    assert_eq!((s.total_count, s.unique_users), (8, 2));
}

#[test]
fn strict_policy_refuses_second_event_for_a_day() {
    let mut c = ctx(ALICE, DuplicatePolicy::Reject);
    assert_eq!(add_tracking_data(&mut c, 1, 3, BASE), Ok(()));
    let tracks = c.tracking_data.clone().unwrap().tracks;
    let stats = c.tracker_stats;
    let list = c.tracker_stats_list.clone().unwrap().stats;
    let streak = c.tracker_streak;
    assert_eq!(add_tracking_data(&mut c, 1, 9, BASE + 7), Err(TrackingError::DuplicateDateEntry));
    assert_eq!(c.tracking_data.unwrap().tracks, tracks);
    assert_eq!(c.tracker_stats, stats);
    assert_eq!(c.tracker_stats_list.unwrap().stats, list);
    assert_eq!(c.tracker_streak, streak);
}

#[test]
fn streak_grows_on_consecutive_days() {
    let mut c = ctx(ALICE, DuplicatePolicy::Overwrite);
    let mut days = Vec::new();
    for i in 0..3u64 {
        assert_eq!(record(&mut c, &mut days, 5, BASE + i * DAY), Ok(()));
    }
    let st = c.tracker_streak.unwrap();
    assert_eq!(st.streak, 3);
    assert_eq!(st.longest_streak, 3);
    assert_eq!(st.longest_streak_date, BASE + 2 * DAY);
}

#[test]
fn streak_resets_after_a_gap() {
    let mut c = ctx(ALICE, DuplicatePolicy::Overwrite);
    let mut days = Vec::new();
    for i in 0..3u64 {
        assert_eq!(record(&mut c, &mut days, 5, BASE + i * DAY), Ok(()));
    }
    assert_eq!(record(&mut c, &mut days, 5, BASE + 4 * DAY), Ok(()));
    let st = c.tracker_streak.unwrap();
    assert_eq!(st.streak, 1);
    assert_eq!(st.longest_streak, 3);
    assert_eq!(st.last_streak_date, BASE + 4 * DAY);
}

#[test]
fn zero_count_next_day_breaks_streak() {
    let mut c = ctx(ALICE, DuplicatePolicy::Overwrite);
    let mut days = Vec::new();
    assert_eq!(record(&mut c, &mut days, 5, BASE), Ok(()));
    assert_eq!(record(&mut c, &mut days, 5, BASE + DAY), Ok(()));
    assert_eq!(record(&mut c, &mut days, 0, BASE + 2 * DAY), Ok(()));
    let st = c.tracker_streak.unwrap();
    assert_eq!((st.streak, st.longest_streak, st.last_streak_date), (0, 2, BASE + 2 * DAY));
}

#[test]
fn same_day_resubmission_keeps_streak() {
    let mut c = ctx(ALICE, DuplicatePolicy::Overwrite);
    let mut days = Vec::new();
    assert_eq!(record(&mut c, &mut days, 5, BASE), Ok(()));
    assert_eq!(record(&mut c, &mut days, 5, BASE + DAY), Ok(()));
    let before = c.tracker_streak;
    assert_eq!(record(&mut c, &mut days, 9, BASE + DAY + 60), Ok(()));
    assert_eq!(c.tracker_streak, before);
}

#[test]
fn backdated_event_is_refused() {
    let mut c = ctx(ALICE, DuplicatePolicy::Overwrite);
    let mut days = Vec::new();
    assert_eq!(record(&mut c, &mut days, 5, BASE + 3 * DAY), Ok(()));
    let ledger = c.tracking_data.clone().unwrap().tracks;
    assert_eq!(record(&mut c, &mut days, 5, BASE + DAY), Err(TrackingError::OutOfOrderDate));
    assert_eq!(c.tracking_data.unwrap().tracks, ledger);
    assert_eq!(days.len(), 1);
}

#[test]
fn two_owners_same_day_are_two_owners() {
    let mut alice = ctx(ALICE, DuplicatePolicy::Overwrite);
    let mut bob = ctx(BOB, DuplicatePolicy::Overwrite);
    let mut days = Vec::new();
    assert_eq!(record(&mut alice, &mut days, 3, BASE), Ok(()));
    bob.tracker_stats_list = alice.tracker_stats_list.clone();
    assert_eq!(record(&mut bob, &mut days, 4, BASE + 10), Ok(()));
    let s = bob.tracker_stats.unwrap();
    assert_eq!((s.total_count, s.unique_users), (7, 2));
}

#[test]
fn same_owner_counts_once_per_day() {
    let mut alice = ctx(ALICE, DuplicatePolicy::Overwrite);
    let mut days = Vec::new();
    assert_eq!(record(&mut alice, &mut days, 3, BASE), Ok(()));
    assert_eq!(record(&mut alice, &mut days, 4, BASE + 5), Ok(()));
    assert_eq!(days.len(), 1);
    assert_eq!((days[0].total_count, days[0].unique_users), (4, 1));
}

#[test]
fn same_owner_counts_once_across_days() {
    let mut alice = ctx(ALICE, DuplicatePolicy::Overwrite);
    let mut bob = ctx(BOB, DuplicatePolicy::Overwrite);
    let mut days = Vec::new();
    // Bob opens the second day's aggregate.
    assert_eq!(record(&mut bob, &mut days, 5, BASE + DAY), Ok(()));
    // Alice's first-ever entry creates the first day's aggregate.
    alice.tracker_stats_list = bob.tracker_stats_list.clone();
    assert_eq!(record(&mut alice, &mut days, 3, BASE), Ok(()));
    // Alice's second day adds her count but no second owner count.
    assert_eq!(record(&mut alice, &mut days, 2, BASE + DAY), Ok(()));
    let first = days.iter().find(|s| s.date == BASE).unwrap();
    let second = days.iter().find(|s| s.date == BASE + DAY).unwrap();
    assert_eq!((first.total_count, first.unique_users), (3, 1));
    assert_eq!((second.total_count, second.unique_users), (7, 1));
}

#[test]
fn first_ever_entry_on_existing_aggregate_adds_an_owner() {
    let mut c = ctx(ALICE, DuplicatePolicy::Overwrite);
    c.tracker_stats = Some(TrackerStatsAccount { tracker_id: 1, date: BASE, total_count: 10, unique_users: 2 });
    assert_eq!(add_tracking_data(&mut c, 1, 4, BASE + 1), Ok(()));
    let s = c.tracker_stats.unwrap();
    assert_eq!((s.total_count, s.unique_users), (14, 3));
}

#[test]
fn index_has_one_snapshot_per_day_equal_to_live_stats() {
    let mut alice = ctx(ALICE, DuplicatePolicy::Overwrite);
    let mut bob = ctx(BOB, DuplicatePolicy::Overwrite);
    let mut days = Vec::new();
    assert_eq!(record(&mut alice, &mut days, 3, BASE), Ok(()));
    assert_eq!(record(&mut alice, &mut days, 1, BASE + DAY), Ok(()));
    bob.tracker_stats_list = alice.tracker_stats_list.clone();
    assert_eq!(record(&mut bob, &mut days, 6, BASE + 20), Ok(()));
    alice.tracker_stats_list = bob.tracker_stats_list.clone();
    assert_eq!(record(&mut alice, &mut days, 2, BASE + DAY + 30), Ok(()));
    let list = alice.tracker_stats_list.clone().unwrap();
    let all = get_all_tracker_stats(&GetAllTrackerStats { tracker_stats_list: Some(list) }, 1).unwrap();
    assert_eq!(all.len(), 2);
    for snap in all.iter() {
        let q = GetTrackerStats { tracker_stats: days.iter().copied().find(|s| s.date == snap.date), tracker: tracker(1) };
        let live = get_tracker_stats(&q, 1, snap.date).unwrap();
        assert_eq!((snap.total_count, snap.unique_users), (live.total_count, live.unique_users));
        assert_eq!(all.iter().filter(|s| s.date == snap.date).count(), 1);
    }
    let first = all.iter().find(|s| s.date == BASE).unwrap();
    assert_eq!((first.total_count, first.unique_users), (9, 2));
    let second = all.iter().find(|s| s.date == BASE + DAY).unwrap();
    assert_eq!((second.total_count, second.unique_users), (2, 1));
}

#[test]
fn ledger_is_sorted_newest_first() {
    let mut c = ctx(ALICE, DuplicatePolicy::Overwrite);
    let mut days = Vec::new();
    for i in [0u64, 2, 5, 6] {
        assert_eq!(record(&mut c, &mut days, (i + 1) as u32, BASE + i * DAY + 99), Ok(()));
    }
    let q = GetUserTrackingData { tracking_data: c.tracking_data.clone().unwrap(), user: ALICE };
    let got = get_user_tracking_data(&q, 1).unwrap();
    let dates: Vec<u64> = got.iter().map(|t| t.date).collect();
    assert_eq!(dates, vec![BASE + 6 * DAY, BASE + 5 * DAY, BASE + 2 * DAY, BASE]);
    assert_eq!(get_user_tracking_data(&q, 2), Err(TrackingError::UnknownTracker));
}

#[test]
fn unknown_tracker_is_refused() {
    let mut c = ctx(ALICE, DuplicatePolicy::Overwrite);
    assert_eq!(add_tracking_data(&mut c, 2, 3, BASE), Err(TrackingError::UnknownTracker));
    assert!(c.tracking_data.is_none());
    assert!(c.tracker_stats.is_none());
    assert!(c.tracker_stats_list.is_none());
    assert!(c.tracker_streak.is_none());
}

#[test]
fn full_ledger_is_refused() {
    let mut c = ctx(ALICE, DuplicatePolicy::Overwrite);
    let mut days = Vec::new();
    for i in 0..100u64 {
        assert_eq!(record(&mut c, &mut days, 1, BASE + i * DAY), Ok(()));
    }
    assert_eq!(record(&mut c, &mut days, 1, BASE + 100 * DAY), Err(TrackingError::LedgerFull));
    assert_eq!(c.tracking_data.as_ref().unwrap().tracks.len(), 100);
    assert_eq!(record(&mut c, &mut days, 7, BASE + 99 * DAY), Ok(()));
}

#[test]
fn full_index_is_refused() {
    let mut c = ctx(ALICE, DuplicatePolicy::Overwrite);
    let list: Vec<TrackerStatsAccount> = (0..100u64)
        .map(|i| TrackerStatsAccount { tracker_id: 1, date: BASE + i * DAY, total_count: 1, unique_users: 1 })
        .collect();
    c.tracker_stats_list = Some(tracking::records::TrackerStatsList { tracker_id: 1, stats: list });
    let c = with_day_stats(c, &[], BASE + 200 * DAY);
    let mut c = c;
    assert_eq!(add_tracking_data(&mut c, 1, 1, BASE + 200 * DAY), Err(TrackingError::AggregateFull));
    assert!(c.tracking_data.is_none());
}

#[test]
fn total_overflow_is_refused() {
    let mut c = ctx(ALICE, DuplicatePolicy::Overwrite);
    c.tracker_stats = Some(TrackerStatsAccount { tracker_id: 1, date: BASE, total_count: u32::MAX - 1, unique_users: 3 });
    assert_eq!(add_tracking_data(&mut c, 1, 2, BASE), Err(TrackingError::CounterOverflow));
    assert_eq!(add_tracking_data(&mut c, 1, 1, BASE), Ok(()));
    let s = c.tracker_stats.unwrap();
    assert_eq!((s.total_count, s.unique_users), (u32::MAX, 4));
}

#[test]
fn registry_lifecycle() {
    let mut init = Initialize { tracker_registry: None };
    assert_eq!(initialize(&mut init), Ok(()));
    assert_eq!(initialize(&mut init), Err(TrackingError::AlreadyInitialized));
    let mut registry = init.tracker_registry.unwrap();
    assert!(registry.tracker_names.is_empty());

    let mut c = CreateTracker { tracker: None, tracker_registry: registry };
    assert_eq!(create_tracker(&mut c, "water".to_string(), "glasses".to_string()), Ok(1));
    let t = c.tracker.clone().unwrap();
    assert_eq!((t.id, t.title.as_str(), t.description.as_str()), (1, "water", "glasses"));
    assert_eq!(create_tracker(&mut c, "run".to_string(), "km".to_string()), Err(TrackingError::DuplicateTitle));
    registry = c.tracker_registry;

    let mut c = CreateTracker { tracker: None, tracker_registry: registry };
    assert_eq!(create_tracker(&mut c, "water".to_string(), "again".to_string()), Err(TrackingError::DuplicateTitle));
    assert_eq!(create_tracker(&mut c, "run".to_string(), "km".to_string()), Ok(2));
    registry = c.tracker_registry;
    let names = get_all_trackers(&GetAllTrackers { tracker_registry: registry });
    assert_eq!(names, vec!["water".to_string(), "run".to_string()]);
}

#[test]
fn oversized_fields_are_refused() {
    let mut c = CreateTracker { tracker: None, tracker_registry: TrackerRegistry { tracker_names: Vec::new() } };
    assert_eq!(create_tracker(&mut c, "x".repeat(33), "d".to_string()), Err(TrackingError::FieldTooLong));
    assert_eq!(create_tracker(&mut c, "t".to_string(), "d".repeat(101)), Err(TrackingError::FieldTooLong));
    // Two bytes each in UTF-8: 17 characters are 34 bytes.
    assert_eq!(create_tracker(&mut c, "é".repeat(17), "d".to_string()), Err(TrackingError::FieldTooLong));
    assert!(c.tracker.is_none());
    assert!(c.tracker_registry.tracker_names.is_empty());
    assert_eq!(create_tracker(&mut c, "x".repeat(32), "d".repeat(100)), Ok(1));
}

#[test]
fn full_registry_is_refused() {
    let names: Vec<String> = (0..100).map(|i| format!("t{}", i)).collect();
    let mut c = CreateTracker { tracker: None, tracker_registry: TrackerRegistry { tracker_names: names } };
    assert_eq!(create_tracker(&mut c, "extra".to_string(), "".to_string()), Err(TrackingError::RegistryFull));
    assert_eq!(c.tracker_registry.tracker_names.len(), 100);
    assert!(c.tracker.is_none());
}

#[test]
fn queries_on_missing_records_give_zeros() {
    let q = GetTrackerStats { tracker_stats: None, tracker: tracker(1) };
    let s = get_tracker_stats(&q, 1, BASE).unwrap();
    assert_eq!((s.total_count, s.unique_users), (0, 0));
    assert_eq!(get_tracker_stats(&q, 9, BASE).err(), Some(TrackingError::UnknownTracker));
    let st = get_user_streak(&GetUserStreak { tracker_streak: None, user: ALICE }, 1).unwrap();
    assert_eq!((st.streak, st.longest_streak, st.longest_streak_date), (0, 0, 0));
    let all = get_all_tracker_stats(&GetAllTrackerStats { tracker_stats_list: None }, 1).unwrap();
    assert!(all.is_empty());
}

#[test]
fn streak_query_returns_record() {
    let mut c = ctx(ALICE, DuplicatePolicy::Overwrite);
    let mut days = Vec::new();
    assert_eq!(record(&mut c, &mut days, 5, BASE), Ok(()));
    assert_eq!(record(&mut c, &mut days, 5, BASE + DAY), Ok(()));
    let q = GetUserStreak { tracker_streak: c.tracker_streak, user: ALICE };
    let st = get_user_streak(&q, 1).unwrap();
    assert_eq!((st.streak, st.longest_streak, st.longest_streak_date), (2, 2, BASE + DAY));
    assert_eq!(get_user_streak(&q, 5).err(), Some(TrackingError::UnknownTracker));
}

#[test]
fn seeds_encode_ids_at_full_width() {
    let a = RecordKey::TrackingData { user: ALICE, tracker_id: 1 }.seeds();
    let b = RecordKey::TrackingData { user: ALICE, tracker_id: 257 }.seeds();
    assert_eq!(a[0], b"tracking_data".to_vec());
    assert_eq!(a[1], ALICE.to_vec());
    assert_eq!(a[2], vec![1, 0, 0, 0]);
    assert_eq!(b[2], vec![1, 1, 0, 0]);
    assert_ne!(a, b);
    let s = RecordKey::TrackerStats { tracker_id: 7, date: BASE }.seeds();
    assert_eq!(s[2], BASE.to_le_bytes().to_vec());
    let t = RecordKey::Tracker { title: "water".to_string() }.seeds();
    assert_eq!(t, vec![b"tracker".to_vec(), b"water".to_vec()]);
}

#[test]
fn address_matches_program_derivation() {
    let program = [9u8; 32];
    let key = RecordKey::TrackerStreak { user: BOB, tracker_id: 3 };
    let (addr, bump) = key.address(&program).unwrap();
    let seeds = key.seeds();
    let parts: Vec<&[u8]> = seeds.iter().map(|s| s.as_slice()).collect();
    let (expected, expected_bump) = anchor_lang::prelude::Pubkey::find_program_address(
        &parts,
        &anchor_lang::prelude::Pubkey::new_from_array(program),
    );
    assert_eq!(addr, expected.to_bytes());
    assert_eq!(bump, expected_bump);
    assert_ne!(addr, program);
    let other = RecordKey::TrackerStreak { user: BOB, tracker_id: 259 }.address(&program).unwrap();
    assert_ne!(addr, other.0);
}

#[test]
fn long_title_has_no_address() {
    let program = [9u8; 32];
    let long = "x".repeat(33);
    assert!(RecordKey::Tracker { title: long }.address(&program).is_none());
    assert!(RecordKey::Tracker { title: "x".repeat(32) }.address(&program).is_some());
    assert!(RecordKey::Registry.address(&program).is_some());
}
