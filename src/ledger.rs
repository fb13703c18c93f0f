use vstd::prelude::*;
use crate::records::{Track, sorted_desc, has_day, day_index};

verus! {

/// Whether `k` splits the entries into those newer than `day` (before `k`)
/// and those older than it (from `k` on).
pub open spec fn splits_at(s: Seq<Track>, day: u64, k: int) -> bool {
    &&& 0 <= k <= s.len()
    &&& forall|j: int| 0 <= j < k ==> s[j].date > day
    &&& forall|j: int| k <= j < s.len() ==> s[j].date < day
}

/// Where an entry for `day` goes in entries sorted newest first.
pub open spec fn insertion_point(s: Seq<Track>, day: u64) -> int {
    choose|k: int| splits_at(s, day, k)
}

/// The entries after recording `t`: the entry for its day is replaced if
/// there is one, else `t` is inserted where the order keeps it.
pub open spec fn tracks_after(s: Seq<Track>, t: Track) -> Seq<Track> {
    if has_day(s, t.date) {
        s.update(day_index(s, t.date), t)
    } else {
        s.insert(insertion_point(s, t.date), t)
    }
}

/// In sorted entries the entry for a day is found at one position only.
pub proof fn lemma_day_index_unique(s: Seq<Track>, day: u64, i: int)
    requires
        sorted_desc(s),
        0 <= i < s.len(),
        s[i].date == day,
    ensures
        has_day(s, day),
        day_index(s, day) == i,
{
    let k = day_index(s, day);
    assert(s[k].date == day);
    if k < i {
        assert(s[k].date > s[i].date);
    } else if i < k {
        assert(s[i].date > s[k].date);
    }
}

/// Recording keeps entries sorted, and the entry for the recorded day is the
/// recorded one; every other day keeps its entry.
pub proof fn lemma_tracks_after(s: Seq<Track>, t: Track)
    requires
        sorted_desc(s),
    ensures
        sorted_desc(tracks_after(s, t)),
        has_day(tracks_after(s, t), t.date),
        tracks_after(s, t)[day_index(tracks_after(s, t), t.date)] == t,
        forall|d: u64| d != t.date ==> (has_day(tracks_after(s, t), d) <==> has_day(s, d)),
        has_day(s, t.date) ==> tracks_after(s, t).len() == s.len(),
        !has_day(s, t.date) ==> tracks_after(s, t).len() == s.len() + 1,
{
    let r = tracks_after(s, t);
    if has_day(s, t.date) {
        let i = day_index(s, t.date);
        assert(s[i].date == t.date);
        assert(sorted_desc(r));
        assert(r[i] == t);
        lemma_day_index_unique(r, t.date, i);
        assert forall|d: u64| d != t.date implies (has_day(r, d) <==> has_day(s, d)) by {
            if has_day(r, d) {
                let j = choose|j: int| 0 <= j < r.len() && r[j].date == d;
                assert(s[j].date == d);
            }
            if has_day(s, d) {
                let j = choose|j: int| 0 <= j < s.len() && s[j].date == d;
                assert(r[j].date == d);
            }
        }
    } else {
        lemma_insertion_point(s, t.date);
        let k = insertion_point(s, t.date);
        assert(r[k] == t);
        assert(sorted_desc(r)) by {
            assert forall|i: int, j: int| 0 <= i < j < r.len() implies r[i].date > r[j].date by {
                if j < k {
                    assert(r[i] == s[i] && r[j] == s[j]);
                } else if j == k {
                    assert(r[i] == s[i]);
                } else if i == k {
                    assert(r[j] == s[j - 1]);
                } else if i < k {
                    assert(r[i] == s[i] && r[j] == s[j - 1]);
                } else {
                    assert(r[i] == s[i - 1] && r[j] == s[j - 1]);
                }
            }
        }
        lemma_day_index_unique(r, t.date, k);
        assert forall|d: u64| d != t.date implies (has_day(r, d) <==> has_day(s, d)) by {
            if has_day(r, d) {
                let j = choose|j: int| 0 <= j < r.len() && r[j].date == d;
                if j < k {
                    assert(s[j].date == d);
                } else {
                    assert(s[j - 1].date == d);
                }
            }
            if has_day(s, d) {
                let j = choose|j: int| 0 <= j < s.len() && s[j].date == d;
                if j < k {
                    assert(r[j].date == d);
                } else {
                    assert(r[j + 1].date == d);
                }
            }
        }
    }
}

/// Sorted entries without an entry for `day` split at one point only.
pub proof fn lemma_insertion_point(s: Seq<Track>, day: u64)
    requires
        sorted_desc(s),
        !has_day(s, day),
    ensures
        splits_at(s, day, insertion_point(s, day)),
{
    lemma_split_from(s, day, 0);
}

proof fn lemma_split_from(s: Seq<Track>, day: u64, k: int)
    requires
        sorted_desc(s),
        !has_day(s, day),
        0 <= k <= s.len(),
        forall|j: int| 0 <= j < k ==> s[j].date > day,
    ensures
        exists|c: int| splits_at(s, day, c),
    decreases s.len() - k,
{
    if k < s.len() && s[k].date > day {
        lemma_split_from(s, day, k + 1);
    } else {
        assert forall|j: int| k <= j < s.len() implies s[j].date < day by {
            assert(s[k].date != day);
            if j > k {
                assert(s[k].date > s[j].date);
            }
            assert(s[j].date != day);
        }
        assert(splits_at(s, day, k));
    }
}

/// Finds the entry for `day`.
pub fn find_track(tracks: &Vec<Track>, day: u64) -> (r: Option<usize>)
    requires
        sorted_desc(tracks@),
    ensures
        r is None <==> !has_day(tracks@, day),
        r matches Some(i) ==> i < tracks@.len() && tracks@[i as int].date == day && day_index(
            tracks@,
            day,
        ) == i,
{
    let mut i: usize = 0;
    while i < tracks.len()
        invariant
            i <= tracks@.len(),
            sorted_desc(tracks@),
            forall|j: int| 0 <= j < i ==> tracks@[j].date != day,
        decreases tracks@.len() - i,
    {
        if tracks[i].date == day {
            proof {
                lemma_day_index_unique(tracks@, day, i as int);
            }
            return Some(i);
        }
        i = i + 1;
    }
    None
}

/// Records `t` in entries sorted newest first, replacing the entry for its
/// day if there is one.
pub fn upsert_track(tracks: &mut Vec<Track>, t: Track)
    requires
        sorted_desc(old(tracks)@),
        has_day(old(tracks)@, t.date) || old(tracks)@.len() < usize::MAX,
    ensures
        final(tracks)@ == tracks_after(old(tracks)@, t),
        sorted_desc(final(tracks)@),
        has_day(final(tracks)@, t.date),
{
    proof {
        lemma_tracks_after(tracks@, t);
    }
    match find_track(tracks, t.date) {
        Some(i) => {
            tracks.set(i, t);
        },
        None => {
            let ghost s = tracks@;
            let mut k: usize = 0;
            while k < tracks.len() && tracks[k].date > t.date
                invariant
                    s == tracks@,
                    sorted_desc(s),
                    !has_day(s, t.date),
                    k <= tracks@.len(),
                    forall|j: int| 0 <= j < k ==> tracks@[j].date > t.date,
                decreases tracks@.len() - k,
            {
                k = k + 1;
            }
            proof {
                lemma_insertion_point(s, t.date);
                let c = insertion_point(s, t.date);
                if c < k {
                    assert(s[c].date > t.date);
                } else if k < c {
                    assert(s[k as int].date > t.date);
                }
            }
            tracks.insert(k, t);
        },
    }
}

} // verus!
