//! The record store: a key-addressed, versioned store in which every
//! persisted record of the marketplace lives. It enforces create-once
//! semantics per key, and updates commit only against the version the
//! writer read (optimistic concurrency).
//!
//! Each record's slot is derived deterministically from its namespace
//! tag and key material by [`address`], so any caller can compute where
//! a record lives without a directory lookup; [`lemma_address_injective`]
//! shows that distinct keys never share a slot.

use vstd::prelude::*;
use crate::records::bytes32_eq;
use crate::records::KeyV;
use crate::records::RecV;
use crate::records::Record;
use crate::records::RecordKey;
use crate::records::StoreError;

verus! {

/// Namespace tag of user records in the address space.
pub const USER_NS: u8 = 0;

/// Namespace tag of charger records in the address space.
pub const CHARGER_NS: u8 = 1;

/// Namespace tag of match records in the address space.
pub const MATCH_NS: u8 = 2;

/// The namespace tag of a key.
pub open spec fn ns_tag(k: KeyV) -> u8 {
    match k {
        KeyV::User { .. } => USER_NS,
        KeyV::Charger { .. } => CHARGER_NS,
        KeyV::Match { .. } => MATCH_NS,
    }
}

/// The eight little-endian bytes of a 64-bit integer.
pub open spec fn u64_le_bytes(n: u64) -> Seq<u8> {
    Seq::new(8, |i: int| ((n >> ((8 * i) as u64)) & 0xff) as u8)
}

/// The key material of a key: the bytes that, behind the namespace
/// tag, make the record's slot unique.
pub open spec fn key_material(k: KeyV) -> Seq<u8> {
    match k {
        KeyV::User { user_id_hash } => user_id_hash,
        KeyV::Charger { user_id_hash, charger_id } => user_id_hash + u64_le_bytes(charger_id),
        KeyV::Match { user_id_hash, charger_id } => user_id_hash + u64_le_bytes(charger_id),
    }
}

/// The slot of a record: its namespace tag followed by its key
/// material.
pub open spec fn address_spec(k: KeyV) -> Seq<u8> {
    seq![ns_tag(k)] + key_material(k)
}

/// Computes the slot of the record keyed by `key`.
pub fn address(key: &RecordKey) -> (r: Vec<u8>)
    ensures
        r@ == address_spec(key@),
{
    let mut out: Vec<u8> = Vec::new();
    match key {
        RecordKey::User { user_id_hash } => {
            out.push(USER_NS);
            push_bytes32(&mut out, user_id_hash);
        },
        RecordKey::Charger { user_id_hash, charger_id } => {
            out.push(CHARGER_NS);
            push_bytes32(&mut out, user_id_hash);
            push_u64_le(&mut out, *charger_id);
        },
        RecordKey::Match { user_id_hash, charger_id } => {
            out.push(MATCH_NS);
            push_bytes32(&mut out, user_id_hash);
            push_u64_le(&mut out, *charger_id);
        },
    }
    proof {
        assert(out@ =~= address_spec(key@));
    }
    out
}

/// Appends a 32-byte digest to a buffer.
fn push_bytes32(out: &mut Vec<u8>, b: &[u8; 32])
    ensures
        final(out)@ == old(out)@ + b@,
{
    let ghost base = out@;
    let mut i: usize = 0;
    while i < 32
        invariant
            i <= 32,
            out@ =~= base + b@.take(i as int),
        decreases 32 - i,
    {
        out.push(b[i]);
        i += 1;
    }
    proof {
        assert(b@.take(32) =~= b@);
    }
}

/// Appends the little-endian bytes of an integer to a buffer.
fn push_u64_le(out: &mut Vec<u8>, n: u64)
    ensures
        final(out)@ == old(out)@ + u64_le_bytes(n),
{
    let ghost base = out@;
    let mut i: usize = 0;
    while i < 8
        invariant
            i <= 8,
            out@ =~= base + u64_le_bytes(n).take(i as int),
        decreases 8 - i,
    {
        let sh: u64 = 8 * (i as u64);
        proof {
            assert(((n >> sh) & 0xff) < 256) by (bit_vector);
        }
        out.push(((n >> sh) & 0xff) as u8);
        i += 1;
    }
    proof {
        assert(u64_le_bytes(n).take(8) =~= u64_le_bytes(n));
    }
}

/// Splitting a concatenation whose right parts have equal length
/// recovers both parts.
proof fn lemma_split_concat(h1: Seq<u8>, t1: Seq<u8>, h2: Seq<u8>, t2: Seq<u8>)
    requires
        h1 + t1 == h2 + t2,
        t1.len() == t2.len(),
    ensures
        h1 == h2,
        t1 == t2,
{
    assert((h1 + t1).len() == h1.len() + t1.len());
    assert((h2 + t2).len() == h2.len() + t2.len());
    assert(h1.len() == h2.len());
    assert(h1 =~= h2) by {
        assert forall|j: int| 0 <= j < h1.len() implies h1[j] == h2[j] by {
            assert((h1 + t1)[j] == h1[j]);
            assert((h2 + t2)[j] == h2[j]);
        }
    }
    assert(t1 =~= t2) by {
        assert forall|j: int| 0 <= j < t1.len() implies t1[j] == t2[j] by {
            assert((h1 + t1)[h1.len() + j] == t1[j]);
            assert((h2 + t2)[h2.len() + j] == t2[j]);
        }
    }
}

/// The little-endian encoding of a 64-bit integer determines it.
proof fn lemma_u64_le_bytes_injective(a: u64, b: u64)
    requires
        u64_le_bytes(a) == u64_le_bytes(b),
    ensures
        a == b,
{
    assert(u64_le_bytes(a)[0] == ((a >> ((8 * 0) as u64)) & 0xff) as u8);
    assert(u64_le_bytes(b)[0] == ((b >> ((8 * 0) as u64)) & 0xff) as u8);
    assert(((8 * 0) as u64) == 0u64);
    assert(((a >> 0u64) & 0xff) as u8 == ((b >> 0u64) & 0xff) as u8);
    assert(u64_le_bytes(a)[1] == ((a >> ((8 * 1) as u64)) & 0xff) as u8);
    assert(u64_le_bytes(b)[1] == ((b >> ((8 * 1) as u64)) & 0xff) as u8);
    assert(((8 * 1) as u64) == 8u64);
    assert(((a >> 8u64) & 0xff) as u8 == ((b >> 8u64) & 0xff) as u8);
    assert(u64_le_bytes(a)[2] == ((a >> ((8 * 2) as u64)) & 0xff) as u8);
    assert(u64_le_bytes(b)[2] == ((b >> ((8 * 2) as u64)) & 0xff) as u8);
    assert(((8 * 2) as u64) == 16u64);
    assert(((a >> 16u64) & 0xff) as u8 == ((b >> 16u64) & 0xff) as u8);
    assert(u64_le_bytes(a)[3] == ((a >> ((8 * 3) as u64)) & 0xff) as u8);
    assert(u64_le_bytes(b)[3] == ((b >> ((8 * 3) as u64)) & 0xff) as u8);
    assert(((8 * 3) as u64) == 24u64);
    assert(((a >> 24u64) & 0xff) as u8 == ((b >> 24u64) & 0xff) as u8);
    assert(u64_le_bytes(a)[4] == ((a >> ((8 * 4) as u64)) & 0xff) as u8);
    assert(u64_le_bytes(b)[4] == ((b >> ((8 * 4) as u64)) & 0xff) as u8);
    assert(((8 * 4) as u64) == 32u64);
    assert(((a >> 32u64) & 0xff) as u8 == ((b >> 32u64) & 0xff) as u8);
    assert(u64_le_bytes(a)[5] == ((a >> ((8 * 5) as u64)) & 0xff) as u8);
    assert(u64_le_bytes(b)[5] == ((b >> ((8 * 5) as u64)) & 0xff) as u8);
    assert(((8 * 5) as u64) == 40u64);
    assert(((a >> 40u64) & 0xff) as u8 == ((b >> 40u64) & 0xff) as u8);
    assert(u64_le_bytes(a)[6] == ((a >> ((8 * 6) as u64)) & 0xff) as u8);
    assert(u64_le_bytes(b)[6] == ((b >> ((8 * 6) as u64)) & 0xff) as u8);
    assert(((8 * 6) as u64) == 48u64);
    assert(((a >> 48u64) & 0xff) as u8 == ((b >> 48u64) & 0xff) as u8);
    assert(u64_le_bytes(a)[7] == ((a >> ((8 * 7) as u64)) & 0xff) as u8);
    assert(u64_le_bytes(b)[7] == ((b >> ((8 * 7) as u64)) & 0xff) as u8);
    assert(((8 * 7) as u64) == 56u64);
    assert(((a >> 56u64) & 0xff) as u8 == ((b >> 56u64) & 0xff) as u8);
    assert(a == b) by (bit_vector)
        requires
            ((a >> 0u64) & 0xff) as u8 == ((b >> 0u64) & 0xff) as u8,
            ((a >> 8u64) & 0xff) as u8 == ((b >> 8u64) & 0xff) as u8,
            ((a >> 16u64) & 0xff) as u8 == ((b >> 16u64) & 0xff) as u8,
            ((a >> 24u64) & 0xff) as u8 == ((b >> 24u64) & 0xff) as u8,
            ((a >> 32u64) & 0xff) as u8 == ((b >> 32u64) & 0xff) as u8,
            ((a >> 40u64) & 0xff) as u8 == ((b >> 40u64) & 0xff) as u8,
            ((a >> 48u64) & 0xff) as u8 == ((b >> 48u64) & 0xff) as u8,
            ((a >> 56u64) & 0xff) as u8 == ((b >> 56u64) & 0xff) as u8,
    ;
}

/// Distinct keys occupy distinct slots: deterministic addressing loses
/// nothing against lookup by key.
pub proof fn lemma_address_injective(k1: KeyV, k2: KeyV)
    requires
        address_spec(k1) == address_spec(k2),
    ensures
        k1 == k2,
{
    assert(address_spec(k1).len() == 1 + key_material(k1).len());
    assert(address_spec(k2).len() == 1 + key_material(k2).len());
    lemma_split_concat(
        seq![ns_tag(k1)],
        key_material(k1),
        seq![ns_tag(k2)],
        key_material(k2),
    );
    assert(ns_tag(k1) == ns_tag(k2)) by {
        assert(seq![ns_tag(k1)][0] == seq![ns_tag(k2)][0]);
    }
    match (k1, k2) {
        (KeyV::User { user_id_hash: h1 }, KeyV::User { user_id_hash: h2 }) => {
            assert(h1 == h2);
        },
        (
            KeyV::Charger { user_id_hash: h1, charger_id: c1 },
            KeyV::Charger { user_id_hash: h2, charger_id: c2 },
        ) => {
            lemma_split_concat(h1, u64_le_bytes(c1), h2, u64_le_bytes(c2));
            lemma_u64_le_bytes_injective(c1, c2);
        },
        (
            KeyV::Match { user_id_hash: h1, charger_id: c1 },
            KeyV::Match { user_id_hash: h2, charger_id: c2 },
        ) => {
            lemma_split_concat(h1, u64_le_bytes(c1), h2, u64_le_bytes(c2));
            lemma_u64_le_bytes_injective(c1, c2);
        },
        _ => {
            assert(false);
        },
    }
}

/// One slot of the store: a key, the current value, and the version
/// that successful updates bump.
struct StoreEntry {
    key: RecordKey,
    rec: Record,
    version: u64,
}

/// The records held by a sequence of entries, later entries winning.
spec fn seq_contents(s: Seq<StoreEntry>) -> Map<KeyV, RecV>
    decreases s.len(),
{
    if s.len() == 0 {
        Map::empty()
    } else {
        seq_contents(s.drop_last()).insert(s.last().key@, s.last().rec@)
    }
}

/// The versions held by a sequence of entries, later entries winning.
spec fn seq_versions(s: Seq<StoreEntry>) -> Map<KeyV, u64>
    decreases s.len(),
{
    if s.len() == 0 {
        Map::empty()
    } else {
        seq_versions(s.drop_last()).insert(s.last().key@, s.last().version)
    }
}

/// A key is held exactly when some entry carries it.
proof fn lemma_contents_contains(s: Seq<StoreEntry>, k: KeyV)
    ensures
        seq_contents(s).contains_key(k) <==> (exists|i: int|
            0 <= i < s.len() && s[i].key@ == k),
    decreases s.len(),
{
    if s.len() > 0 {
        lemma_contents_contains(s.drop_last(), k);
        if seq_contents(s).contains_key(k) && k != s.last().key@ {
            let i = choose|i: int| 0 <= i < s.drop_last().len() && s.drop_last()[i].key@ == k;
            assert(s[i].key@ == k);
        }
        if exists|i: int| 0 <= i < s.len() && s[i].key@ == k {
            let i = choose|i: int| 0 <= i < s.len() && s[i].key@ == k;
            if i < s.len() - 1 {
                assert(s.drop_last()[i].key@ == k);
            }
        }
    }
}

/// Distinctness of the keys of the entries up to `n`.
spec fn distinct_keys(s: Seq<StoreEntry>) -> bool {
    forall|p: int, q: int|
        0 <= p < q < s.len() ==> (#[trigger] s[p].key@) != (#[trigger] s[q].key@)
}

/// Under distinct keys, the entry at an index is what the store holds
/// for its key.
proof fn lemma_contents_at_index(s: Seq<StoreEntry>, i: int)
    requires
        0 <= i < s.len(),
        distinct_keys(s),
    ensures
        seq_contents(s).contains_key(s[i].key@),
        seq_contents(s)[s[i].key@] == s[i].rec@,
        seq_versions(s).contains_key(s[i].key@),
        seq_versions(s)[s[i].key@] == s[i].version,
    decreases s.len(),
{
    if i < s.len() - 1 {
        assert(distinct_keys(s.drop_last()));
        lemma_contents_at_index(s.drop_last(), i);
        assert(s.drop_last()[i] == s[i]);
        assert(s[i].key@ != s[s.len() - 1].key@);
    }
}

/// Appending a fresh entry inserts its record.
proof fn lemma_contents_push(s: Seq<StoreEntry>, e: StoreEntry)
    ensures
        seq_contents(s.push(e)) == seq_contents(s).insert(e.key@, e.rec@),
        seq_versions(s.push(e)) == seq_versions(s).insert(e.key@, e.version),
{
    assert(s.push(e).drop_last() =~= s);
    assert(s.push(e).last() == e);
}

/// Overwriting the entry that carries a key inserts its record.
proof fn lemma_contents_update(s: Seq<StoreEntry>, i: int, e: StoreEntry)
    requires
        0 <= i < s.len(),
        e.key@ == s[i].key@,
        distinct_keys(s),
    ensures
        seq_contents(s.update(i, e)) == seq_contents(s).insert(e.key@, e.rec@),
        seq_versions(s.update(i, e)) == seq_versions(s).insert(e.key@, e.version),
    decreases s.len(),
{
    let t = s.update(i, e);
    if i == s.len() - 1 {
        assert(t.drop_last() =~= s.drop_last());
        assert(t.last() == e);
        assert(seq_contents(t) =~= seq_contents(s).insert(e.key@, e.rec@));
        assert(seq_versions(t) =~= seq_versions(s).insert(e.key@, e.version));
    } else {
        assert(t.drop_last() =~= s.drop_last().update(i, e));
        assert(t.last() == s.last());
        assert(distinct_keys(s.drop_last()));
        assert(s.drop_last()[i] == s[i]);
        lemma_contents_update(s.drop_last(), i, e);
        assert(s[i].key@ != s[s.len() - 1].key@);
        assert(seq_contents(t) =~= seq_contents(s).insert(e.key@, e.rec@));
        assert(seq_versions(t) =~= seq_versions(s).insert(e.key@, e.version));
    }
}

/// The version written by a successful update, one past the version
/// read, wrapping at the numeric limit.
pub open spec fn next_version(v: u64) -> u64 {
    if v == u64::MAX {
        0
    } else {
        (v + 1) as u64
    }
}

/// The key-addressed, versioned store holding every persisted record.
/// Its view is the map from key to current record; [`Self::versions`]
/// gives the version each key was last committed at.
pub struct RecordStore {
    entries: Vec<StoreEntry>,
}

impl View for RecordStore {
    type V = Map<KeyV, RecV>;

    closed spec fn view(&self) -> Map<KeyV, RecV> {
        seq_contents(self.entries@)
    }
}

impl RecordStore {
    /// The version each held key was last committed at.
    pub closed spec fn versions(&self) -> Map<KeyV, u64> {
        seq_versions(self.entries@)
    }

    /// Each key occupies at most one slot.
    pub closed spec fn wf(&self) -> bool {
        distinct_keys(self.entries@)
    }

    /// An empty store.
    pub fn new() -> (s: Self)
        ensures
            s.wf(),
            s@ == Map::<KeyV, RecV>::empty(),
            s.versions() == Map::<KeyV, u64>::empty(),
    {
        RecordStore { entries: Vec::new() }
    }

    /// The slot carrying `key`, if any.
    fn find_index(&self, key: &RecordKey) -> (r: Option<usize>)
        ensures
            match r {
                Some(i) => i < self.entries@.len() && self.entries@[i as int].key@ == key@,
                None => forall|i: int|
                    0 <= i < self.entries@.len() ==> (#[trigger] self.entries@[i].key@) != key@,
            },
    {
        let mut i: usize = 0;
        while i < self.entries.len()
            invariant
                i <= self.entries@.len(),
                forall|j: int| 0 <= j < i ==> (#[trigger] self.entries@[j].key@) != key@,
            decreases self.entries@.len() - i,
        {
            if key_eq(&self.entries[i].key, key) {
                return Some(i);
            }
            i += 1;
        }
        None
    }

    /// Creates the record for a key not yet held; reports
    /// `AlreadyExists` without any effect where the key is held.
    pub fn create(&mut self, key: RecordKey, rec: Record) -> (r: Result<(), StoreError>)
        requires
            old(self).wf(),
        ensures
            final(self).wf(),
            match r {
                Ok(()) => !old(self)@.contains_key(key@)
                    && final(self)@ == old(self)@.insert(key@, rec@)
                    && final(self).versions() == old(self).versions().insert(key@, 0u64),
                Err(e) => e == StoreError::AlreadyExists && old(self)@.contains_key(key@)
                    && final(self)@ == old(self)@
                    && final(self).versions() == old(self).versions(),
            },
    {
        match self.find_index(&key) {
            Some(i) => {
                proof {
                    lemma_contents_contains(self.entries@, key@);
                }
                Err(StoreError::AlreadyExists)
            },
            None => {
                proof {
                    lemma_contents_contains(self.entries@, key@);
                }
                let ghost olds = self.entries@;
                let e = StoreEntry { key, rec, version: 0 };
                let ghost ge = e;
                self.entries.push(e);
                proof {
                    lemma_contents_push(olds, ge);
                    assert forall|p: int, q: int|
                        0 <= p < q < self.entries@.len() implies (
                    #[trigger] self.entries@[p].key@) != (#[trigger] self.entries@[q].key@) by {
                        if q < olds.len() {
                            assert(olds[p].key@ != olds[q].key@);
                        } else {
                            assert(olds[p].key@ != ge.key@);
                        }
                    }
                }
                Ok(())
            },
        }
    }

    /// Reads the record and version held for a key.
    pub fn get(&self, key: &RecordKey) -> (r: Option<(Record, u64)>)
        requires
            self.wf(),
        ensures
            match r {
                Some(p) => self@.contains_key(key@) && p.0@ == self@[key@] && p.1
                    == self.versions()[key@],
                None => !self@.contains_key(key@),
            },
    {
        match self.find_index(key) {
            Some(i) => {
                proof {
                    lemma_contents_at_index(self.entries@, i as int);
                }
                let e = &self.entries[i];
                Some((e.rec.dup(), e.version))
            },
            None => {
                proof {
                    lemma_contents_contains(self.entries@, key@);
                }
                None
            },
        }
    }

    /// Replaces the record held for a key, provided the caller passes
    /// the version it read: a commit by another writer since that read
    /// is reported as `ConcurrentModification`, an unheld key as
    /// `NotFound`, and in either case nothing changes.
    pub fn update(&mut self, key: &RecordKey, rec: Record, expected_version: u64) -> (r: Result<
        (),
        StoreError,
    >)
        requires
            old(self).wf(),
        ensures
            final(self).wf(),
            r is Ok <==> (old(self)@.contains_key(key@) && old(self).versions()[key@]
                == expected_version),
            r is Ok ==> final(self)@ == old(self)@.insert(key@, rec@) && final(self).versions()
                == old(self).versions().insert(key@, next_version(expected_version)),
            !(r is Ok) ==> final(self)@ == old(self)@
                && final(self).versions() == old(self).versions(),
            r == Result::<(), StoreError>::Err(StoreError::NotFound)
                <==> !old(self)@.contains_key(key@),
            r == Result::<(), StoreError>::Err(StoreError::ConcurrentModification)
                <==> (old(self)@.contains_key(key@)
                && old(self).versions()[key@] != expected_version),
    {
        match self.find_index(key) {
            None => {
                proof {
                    lemma_contents_contains(self.entries@, key@);
                }
                Err(StoreError::NotFound)
            },
            Some(i) => {
                proof {
                    lemma_contents_at_index(self.entries@, i as int);
                }
                if self.entries[i].version != expected_version {
                    Err(StoreError::ConcurrentModification)
                } else {
                    let nv: u64 = if expected_version == u64::MAX {
                        0
                    } else {
                        expected_version + 1
                    };
                    let ghost olds = self.entries@;
                    let e = StoreEntry { key: *key, rec, version: nv };
                    let ghost ge = e;
                    self.entries.set(i, e);
                    proof {
                        lemma_contents_update(olds, i as int, ge);
                        assert forall|p: int, q: int|
                            0 <= p < q < self.entries@.len() implies (
                        #[trigger] self.entries@[p].key@) != (
                        #[trigger] self.entries@[q].key@) by {
                            assert(self.entries@[p].key@ == olds[p].key@);
                            assert(self.entries@[q].key@ == olds[q].key@);
                            assert(olds[p].key@ != olds[q].key@);
                        }
                    }
                    Ok(())
                }
            },
        }
    }
}

/// Compares two record keys by value.
pub fn key_eq(a: &RecordKey, b: &RecordKey) -> (r: bool)
    ensures
        r == (a@ == b@),
{
    match (a, b) {
        (RecordKey::User { user_id_hash: h1 }, RecordKey::User { user_id_hash: h2 }) => bytes32_eq(
            h1,
            h2,
        ),
        (
            RecordKey::Charger { user_id_hash: h1, charger_id: c1 },
            RecordKey::Charger { user_id_hash: h2, charger_id: c2 },
        ) => bytes32_eq(h1, h2) && *c1 == *c2,
        (
            RecordKey::Match { user_id_hash: h1, charger_id: c1 },
            RecordKey::Match { user_id_hash: h2, charger_id: c2 },
        ) => bytes32_eq(h1, h2) && *c1 == *c2,
        _ => false,
    }
}

} // verus!
