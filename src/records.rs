use vstd::prelude::*;
use vstd::utf8::encode_utf8;

verus! {

/// Largest number of entries one owner's ledger for one tracker may hold.
pub const MAX_TRACKS: usize = 100;

/// Largest number of daily snapshots one tracker's aggregate index may hold.
pub const MAX_DAILY_STATS: usize = 100;

/// Largest number of trackers the registry may hold.
pub const MAX_TRACKERS: usize = 100;

/// Largest size in bytes of a tracker's title.
pub const MAX_TITLE_LEN: usize = 32;

/// Largest size in bytes of a tracker's description.
pub const MAX_DESCRIPTION_LEN: usize = 100;

/// An owner's identity: the 32 bytes of their public key.
pub type OwnerKey = [u8; 32];

/// One ledger entry: the count reported for a normalized day.
#[derive(Clone, Copy, Debug, PartialEq, Eq, Structural)]
pub struct Track {
    pub date: u64,
    pub count: u32,
}

/// Total count and number of distinct owners of one tracker on one day.
#[derive(Clone, Copy, Debug, PartialEq, Eq, Structural)]
pub struct TrackerStats {
    pub total_count: u32,
    pub unique_users: u32,
}

/// The daily aggregate record of one (tracker, day).
#[derive(Clone, Copy, Debug, PartialEq, Eq, Structural)]
pub struct TrackerStatsAccount {
    pub tracker_id: u32,
    pub date: u64,
    pub total_count: u32,
    pub unique_users: u32,
}

/// The streak record of one (owner, tracker).
#[derive(Clone, Copy, Debug, PartialEq, Eq)]
pub struct TrackerStreakAccount {
    pub user: OwnerKey,
    pub tracker_id: u32,
    pub streak: u32,
    pub last_streak_date: u64,
    pub longest_streak: u32,
    pub longest_streak_date: u64,
}

/// The ledger of one (owner, tracker): entries sorted by day, newest first.
#[derive(Clone, Debug)]
pub struct TrackingData {
    pub user: OwnerKey,
    pub tracker_id: u32,
    pub tracks: Vec<Track>,
}

/// A tracker of the catalog.
#[derive(Clone, Debug)]
pub struct Tracker {
    pub id: u32,
    pub title: String,
    pub description: String,
}

/// The append-only list of tracker titles, in registration order.
#[derive(Clone, Debug)]
pub struct TrackerRegistry {
    pub tracker_names: Vec<String>,
}

/// The aggregate index of one tracker: a snapshot of each daily aggregate.
#[derive(Clone, Debug)]
pub struct TrackerStatsList {
    pub tracker_id: u32,
    pub stats: Vec<TrackerStatsAccount>,
}

/// A day together with the address of its daily aggregate record.
#[derive(Clone, Copy, Debug, PartialEq, Eq)]
pub struct TrackerStatsDateInfo {
    pub date: u64,
    pub stats_pda: [u8; 32],
}

/// Which of two rules applies to a second event for a day already recorded.
#[derive(Clone, Copy, Debug, PartialEq, Eq, Structural)]
pub enum DuplicatePolicy {
    /// The new count replaces the old one.
    Overwrite,
    /// The event is refused with `DuplicateDateEntry`.
    Reject,
}

/// Why an operation was refused. A refused operation changes no record.
#[derive(Clone, Copy, Debug, PartialEq, Eq, Structural)]
pub enum TrackingError {
    UnknownTracker,
    DuplicateTitle,
    DuplicateDateEntry,
    OutOfOrderDate,
    RegistryFull,
    LedgerFull,
    AggregateFull,
    AlreadyInitialized,
    CounterOverflow,
    FieldTooLong,
}

/// Entries sorted by day, strictly decreasing: so at most one per day.
pub open spec fn sorted_desc(s: Seq<Track>) -> bool {
    forall|i: int, j: int| 0 <= i < j < s.len() ==> s[i].date > s[j].date
}

/// Whether the entries hold one for `day`.
pub open spec fn has_day(s: Seq<Track>, day: u64) -> bool {
    exists|i: int| 0 <= i < s.len() && s[i].date == day
}

/// The position of the entry for `day`, where there is one.
pub open spec fn day_index(s: Seq<Track>, day: u64) -> int {
    choose|i: int| 0 <= i < s.len() && s[i].date == day
}

/// Snapshots with pairwise distinct days.
pub open spec fn distinct_days(s: Seq<TrackerStatsAccount>) -> bool {
    forall|i: int, j: int| 0 <= i < s.len() && 0 <= j < s.len() && i != j ==> s[i].date != s[j].date
}

/// Whether the snapshots hold one for `day`.
pub open spec fn has_snapshot(s: Seq<TrackerStatsAccount>, day: u64) -> bool {
    exists|i: int| 0 <= i < s.len() && s[i].date == day
}

/// The position of the snapshot for `day`, where there is one.
pub open spec fn snapshot_index(s: Seq<TrackerStatsAccount>, day: u64) -> int {
    choose|i: int| 0 <= i < s.len() && s[i].date == day
}

impl TrackingData {
    pub open spec fn wf(&self) -> bool {
        sorted_desc(self.tracks@) && self.tracks@.len() <= MAX_TRACKS
    }
}

impl Tracker {
    /// The title and description fit the sizes the record reserves for them.
    pub open spec fn wf(&self) -> bool {
        encode_utf8(self.title@).len() <= MAX_TITLE_LEN && encode_utf8(self.description@).len()
            <= MAX_DESCRIPTION_LEN
    }
}

impl TrackerStatsList {
    pub open spec fn wf(&self) -> bool {
        distinct_days(self.stats@) && self.stats@.len() <= MAX_DAILY_STATS
    }
}

impl TrackerRegistry {
    pub open spec fn wf(&self) -> bool {
        self.tracker_names@.len() <= MAX_TRACKERS
    }
}

impl Default for TrackerRegistry {
    fn default() -> (r: TrackerRegistry)
        ensures
            r.tracker_names@.len() == 0,
    {
        TrackerRegistry { tracker_names: Vec::new() }
    }
}

} // verus!
