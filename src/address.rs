use vstd::prelude::*;
use vstd::slice::slice_to_vec;
use vstd::utf8::{encode_utf8, encode_utf8_decode_utf8};
use crate::records::OwnerKey;

verus! {

/// The address of a program-derived record: it depends on the seeds and the
/// program id alone; `None` where no address exists for them.
pub uninterp spec fn program_address_of(seeds: Seq<Seq<u8>>, program: Seq<u8>) -> Option<(Seq<u8>, u8)>;

/// Relies on anchor_lang's `Pubkey::try_find_program_address`: the address and
/// bump seed derived from the seeds under the program, a function of them
/// alone; none where there are 16 seeds or more, or a seed is longer than 32
/// bytes.
#[verifier::external_body]
fn find_program_address(seeds: &Vec<Vec<u8>>, program_id: &[u8; 32]) -> (r: Option<([u8; 32], u8)>)
    ensures
        match r {
            Some(p) => program_address_of(seeds.deep_view(), program_id@) == Some((p.0@, p.1)),
            None => program_address_of(seeds.deep_view(), program_id@) is None,
        },
        seeds@.len() >= 16 ==> r is None,
        (exists|i: int| 0 <= i < seeds@.len() && seeds@[i]@.len() > 32) ==> r is None,
{
    let parts: Vec<&[u8]> = seeds.iter().map(|s| s.as_slice()).collect();
    let program = anchor_lang::prelude::Pubkey::new_from_array(*program_id);
    anchor_lang::prelude::Pubkey::try_find_program_address(&parts, &program).map(|(k, b)| (k.to_bytes(), b))
}

/// The logical key of each kind of record.
#[derive(Clone, Debug)]
pub enum RecordKey {
    Registry,
    Tracker { title: String },
    TrackingData { user: OwnerKey, tracker_id: u32 },
    TrackerStats { tracker_id: u32, date: u64 },
    TrackerStatsList { tracker_id: u32 },
    TrackerStreak { user: OwnerKey, tracker_id: u32 },
}

/// A `u32` as its four bytes, least significant first.
pub open spec fn le_u32(x: u32) -> Seq<u8> {
    seq![x as u8, (x >> 8u32) as u8, (x >> 16u32) as u8, (x >> 24u32) as u8]
}

/// A `u64` as its eight bytes, least significant first.
pub open spec fn le_u64(x: u64) -> Seq<u8> {
    seq![
        x as u8,
        (x >> 8u64) as u8,
        (x >> 16u64) as u8,
        (x >> 24u64) as u8,
        (x >> 32u64) as u8,
        (x >> 40u64) as u8,
        (x >> 48u64) as u8,
        (x >> 56u64) as u8,
    ]
}

/// The seeds of a record: its namespace, then each part of its key at full
/// width.
pub open spec fn seeds_of(k: RecordKey) -> Seq<Seq<u8>> {
    match k {
        RecordKey::Registry => seq![encode_utf8("tracker_registry"@)],
        RecordKey::Tracker { title } => seq![encode_utf8("tracker"@), encode_utf8(title@)],
        RecordKey::TrackingData { user, tracker_id } => seq![
            encode_utf8("tracking_data"@),
            user@,
            le_u32(tracker_id),
        ],
        RecordKey::TrackerStats { tracker_id, date } => seq![
            encode_utf8("tracker_stats"@),
            le_u32(tracker_id),
            le_u64(date),
        ],
        RecordKey::TrackerStatsList { tracker_id } => seq![encode_utf8("tracker_stats_list"@), le_u32(tracker_id)],
        RecordKey::TrackerStreak { user, tracker_id } => seq![
            encode_utf8("tracker_streak"@),
            user@,
            le_u32(tracker_id),
        ],
    }
}

/// What identifies a key: its kind and the view of each of its parts.
pub open spec fn key_parts(k: RecordKey) -> (int, Seq<char>, Seq<u8>, u32, u64) {
    match k {
        RecordKey::Registry => (0, Seq::empty(), Seq::empty(), 0, 0),
        RecordKey::Tracker { title } => (1, title@, Seq::empty(), 0, 0),
        RecordKey::TrackingData { user, tracker_id } => (2, Seq::empty(), user@, tracker_id, 0),
        RecordKey::TrackerStats { tracker_id, date } => (3, Seq::empty(), Seq::empty(), tracker_id, date),
        RecordKey::TrackerStatsList { tracker_id } => (4, Seq::empty(), Seq::empty(), tracker_id, 0),
        RecordKey::TrackerStreak { user, tracker_id } => (5, Seq::empty(), user@, tracker_id, 0),
    }
}

/// The encoding of a `u32` gives it back.
pub proof fn lemma_le_u32_injective(x: u32, y: u32)
    requires
        le_u32(x) == le_u32(y),
    ensures
        x == y,
{
    assert(le_u32(x)[0] == le_u32(y)[0]);
    assert(le_u32(x)[1] == le_u32(y)[1]);
    assert(le_u32(x)[2] == le_u32(y)[2]);
    assert(le_u32(x)[3] == le_u32(y)[3]);
    assert((x as u8 == y as u8 && (x >> 8u32) as u8 == (y >> 8u32) as u8 && (x >> 16u32) as u8 == (y
        >> 16u32) as u8 && (x >> 24u32) as u8 == (y >> 24u32) as u8) ==> x == y) by (bit_vector);
}

/// The encoding of a `u64` gives it back.
pub proof fn lemma_le_u64_injective(x: u64, y: u64)
    requires
        le_u64(x) == le_u64(y),
    ensures
        x == y,
{
    assert(le_u64(x)[0] == le_u64(y)[0]);
    assert(le_u64(x)[1] == le_u64(y)[1]);
    assert(le_u64(x)[2] == le_u64(y)[2]);
    assert(le_u64(x)[3] == le_u64(y)[3]);
    assert(le_u64(x)[4] == le_u64(y)[4]);
    assert(le_u64(x)[5] == le_u64(y)[5]);
    assert(le_u64(x)[6] == le_u64(y)[6]);
    assert(le_u64(x)[7] == le_u64(y)[7]);
    assert((x as u8 == y as u8 && (x >> 8u64) as u8 == (y >> 8u64) as u8 && (x >> 16u64) as u8 == (y
        >> 16u64) as u8 && (x >> 24u64) as u8 == (y >> 24u64) as u8 && (x >> 32u64) as u8 == (y
        >> 32u64) as u8 && (x >> 40u64) as u8 == (y >> 40u64) as u8 && (x >> 48u64) as u8 == (y
        >> 48u64) as u8 && (x >> 56u64) as u8 == (y >> 56u64) as u8) ==> x == y) by (bit_vector);
}

/// Two keys of one kind with the same seeds are the same key: numeric parts
/// are written at full width, so no two ids or days share seeds.
pub proof fn lemma_seeds_injective(k1: RecordKey, k2: RecordKey)
    requires
        key_parts(k1).0 == key_parts(k2).0,
        seeds_of(k1) == seeds_of(k2),
    ensures
        key_parts(k1) == key_parts(k2),
{
    match k1 {
        RecordKey::Registry => {},
        RecordKey::Tracker { title: t1 } => {
            if let RecordKey::Tracker { title: t2 } = k2 {
                assert(seeds_of(k1)[1] == seeds_of(k2)[1]);
                encode_utf8_decode_utf8(t1@);
                encode_utf8_decode_utf8(t2@);
            }
        },
        RecordKey::TrackingData { user: u1, tracker_id: i1 } => {
            if let RecordKey::TrackingData { user: u2, tracker_id: i2 } = k2 {
                assert(seeds_of(k1)[1] == seeds_of(k2)[1]);
                assert(seeds_of(k1)[2] == seeds_of(k2)[2]);
                lemma_le_u32_injective(i1, i2);
            }
        },
        RecordKey::TrackerStats { tracker_id: i1, date: d1 } => {
            if let RecordKey::TrackerStats { tracker_id: i2, date: d2 } = k2 {
                assert(seeds_of(k1)[1] == seeds_of(k2)[1]);
                assert(seeds_of(k1)[2] == seeds_of(k2)[2]);
                lemma_le_u32_injective(i1, i2);
                lemma_le_u64_injective(d1, d2);
            }
        },
        RecordKey::TrackerStatsList { tracker_id: i1 } => {
            if let RecordKey::TrackerStatsList { tracker_id: i2 } = k2 {
                assert(seeds_of(k1)[1] == seeds_of(k2)[1]);
                lemma_le_u32_injective(i1, i2);
            }
        },
        RecordKey::TrackerStreak { user: u1, tracker_id: i1 } => {
            if let RecordKey::TrackerStreak { user: u2, tracker_id: i2 } = k2 {
                assert(seeds_of(k1)[1] == seeds_of(k2)[1]);
                assert(seeds_of(k1)[2] == seeds_of(k2)[2]);
                lemma_le_u32_injective(i1, i2);
            }
        },
    }
}

fn u32_le_bytes(x: u32) -> (r: Vec<u8>)
    ensures
        r@ == le_u32(x),
{
    let r = vec![x as u8, (x >> 8u32) as u8, (x >> 16u32) as u8, (x >> 24u32) as u8];
    assert(r@ == le_u32(x));
    r
}

fn u64_le_bytes(x: u64) -> (r: Vec<u8>)
    ensures
        r@ == le_u64(x),
{
    let r = vec![
        x as u8,
        (x >> 8u64) as u8,
        (x >> 16u64) as u8,
        (x >> 24u64) as u8,
        (x >> 32u64) as u8,
        (x >> 40u64) as u8,
        (x >> 48u64) as u8,
        (x >> 56u64) as u8,
    ];
    assert(r@ == le_u64(x));
    r
}

fn text_bytes(s: &str) -> (r: Vec<u8>)
    ensures
        r@ == encode_utf8(s@),
{
    slice_to_vec(s.as_bytes())
}

fn key_bytes(user: &OwnerKey) -> (r: Vec<u8>)
    ensures
        r@ == user@,
{
    slice_to_vec(user.as_slice())
}

impl RecordKey {
    /// The seeds from which the record's address is derived.
    pub fn seeds(&self) -> (r: Vec<Vec<u8>>)
        ensures
            r.deep_view() == seeds_of(*self),
    {
        let r = match self {
            RecordKey::Registry => vec![text_bytes("tracker_registry")],
            RecordKey::Tracker { title } => vec![text_bytes("tracker"), text_bytes(title.as_str())],
            RecordKey::TrackingData { user, tracker_id } => vec![
                text_bytes("tracking_data"),
                key_bytes(user),
                u32_le_bytes(*tracker_id),
            ],
            RecordKey::TrackerStats { tracker_id, date } => vec![
                text_bytes("tracker_stats"),
                u32_le_bytes(*tracker_id),
                u64_le_bytes(*date),
            ],
            RecordKey::TrackerStatsList { tracker_id } => vec![
                text_bytes("tracker_stats_list"),
                u32_le_bytes(*tracker_id),
            ],
            RecordKey::TrackerStreak { user, tracker_id } => vec![
                text_bytes("tracker_streak"),
                key_bytes(user),
                u32_le_bytes(*tracker_id),
            ],
        };
        proof {
            let d = r.deep_view();
            assert forall|i: int| 0 <= i < d.len() implies d[i] == r@[i]@ by {
                assert(d[i] =~= r@[i]@);
            }
            assert(d =~= seeds_of(*self));
        }
        r
    }

    /// The address of the record under the program, with its bump seed;
    /// `None` where none can be derived (a title longer than 32 bytes).
    pub fn address(&self, program_id: &[u8; 32]) -> (r: Option<([u8; 32], u8)>)
        ensures
            match r {
                Some(p) => program_address_of(seeds_of(*self), program_id@) == Some((p.0@, p.1)),
                None => program_address_of(seeds_of(*self), program_id@) is None,
            },
    {
        let seeds = self.seeds();
        find_program_address(&seeds, program_id)
    }
}

} // verus!
