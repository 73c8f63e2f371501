//! The key-value store: a map from byte keys to byte values with
//! reservation semantics.
//!
//! `reserve_key` atomically claims a key that holds neither a value nor
//! another reservation; `put` turns the claim into a committed value.
//! A `KeyReservation` can only be made by `reserve_key`, so a `put`
//! without a prior reservation cannot be expressed by a client of this
//! module.

use vstd::prelude::*;

use crate::kv_manager::error::{InnerKvError, KvError, KvResult};

verus! {

/// One slot of the store: either a committed value, or the marker that
/// stands for the key between `reserve_key` and `put`.
#[derive(Debug)]
pub enum KvEntry {
    Reserved,
    Value(Vec<u8>),
}

/// Mathematical image of one slot.
pub enum KvEntryV {
    Reserved,
    Value(Seq<u8>),
}

/// The store's mathematical model: a map from key bytes to slots.
pub type KvMap = Map<Seq<u8>, KvEntryV>;

pub open spec fn entry_view(e: KvEntry) -> KvEntryV {
    match e {
        KvEntry::Reserved => KvEntryV::Reserved,
        KvEntry::Value(v) => KvEntryV::Value(v@),
    }
}

/// The map described by an association list, later pairs taking
/// precedence.
pub open spec fn entries_map(s: Seq<(Vec<u8>, KvEntry)>) -> KvMap
    decreases s.len(),
{
    if s.len() == 0 {
        Map::empty()
    } else {
        entries_map(s.drop_last()).insert(s.last().0@, entry_view(s.last().1))
    }
}

/// A key holds a committed value (a bare reservation does not count).
pub open spec fn kv_committed(m: KvMap, k: Seq<u8>) -> bool {
    m.contains_key(k) && m[k] is Value
}

/// The committed value under a key.
pub open spec fn kv_value(m: KvMap, k: Seq<u8>) -> Seq<u8> {
    m[k]->Value_0
}

/// A key can be reserved iff it holds neither a value nor a reservation.
pub open spec fn kv_can_reserve(m: KvMap, k: Seq<u8>) -> bool {
    !m.contains_key(k)
}

/// The store after a successful `reserve_key`.
pub open spec fn kv_after_reserve(m: KvMap, k: Seq<u8>) -> KvMap {
    m.insert(k, KvEntryV::Reserved)
}

/// The store after a `put` of value `v` under key `k`.
pub open spec fn kv_after_put(m: KvMap, k: Seq<u8>, v: Seq<u8>) -> KvMap {
    m.insert(k, KvEntryV::Value(v))
}

/// Of two reservations of one key, exactly one succeeds: once a
/// reservation of `k` is in place, a second `reserve_key(k)` must fail.
pub proof fn lemma_reserve_is_exclusive(m: KvMap, k: Seq<u8>)
    requires
        kv_can_reserve(m, k),
    ensures
        !kv_can_reserve(kv_after_reserve(m, k), k),
{
}

/// After `put(reserve_key(k), v)`, the key is committed and reads back
/// as exactly `v`.
pub proof fn lemma_put_then_get(m: KvMap, k: Seq<u8>, v: Seq<u8>)
    ensures
        kv_committed(kv_after_put(kv_after_reserve(m, k), k, v), k),
        kv_value(kv_after_put(kv_after_reserve(m, k), k, v), k) == v,
{
}

/// A committed key can never be reserved again: a later ceremony for the
/// same key fails before it can write.
pub proof fn lemma_committed_blocks_reserve(m: KvMap, k: Seq<u8>)
    requires
        kv_committed(m, k),
    ensures
        !kv_can_reserve(m, k),
{
}

/// Exclusive claim on one key, held between `reserve_key` and `put`.
/// Only `reserve_key` constructs one; `put` and `unreserve_key` consume
/// it.
#[derive(Debug)]
pub struct KeyReservation {
    pub(crate) key: Vec<u8>,
}

impl KeyReservation {
    /// The key this reservation claims.
    pub closed spec fn key_id(self) -> Seq<u8> {
        self.key@
    }
}

/// Byte-wise equality of two keys.
pub fn bytes_eq(a: &Vec<u8>, b: &Vec<u8>) -> (r: bool)
    ensures
        r == (a@ == b@),
{
    if a.len() != b.len() {
        return false;
    }
    let n = a.len();
    let mut i: usize = 0;
    while i < n
        invariant
            n == a@.len(),
            n == b@.len(),
            0 <= i <= n,
            forall|j: int| 0 <= j < i ==> a@[j] == b@[j],
        decreases n - i,
    {
        if a[i] != b[i] {
            return false;
        }
        i += 1;
    }
    proof {
        assert(a@ =~= b@);
    }
    true
}

/// Copy of a byte vector.
pub fn copy_bytes(a: &Vec<u8>) -> (r: Vec<u8>)
    ensures
        r@ == a@,
{
    let n = a.len();
    let mut r: Vec<u8> = Vec::new();
    let mut i: usize = 0;
    while i < n
        invariant
            n == a@.len(),
            0 <= i <= n,
            r@ =~= a@.subrange(0, i as int),
        decreases n - i,
    {
        r.push(a[i]);
        i += 1;
    }
    proof {
        assert(r@ =~= a@);
    }
    r
}

spec fn distinct_keys(s: Seq<(Vec<u8>, KvEntry)>) -> bool {
    forall|i: int, j: int| #![auto] 0 <= i < j < s.len() ==> s[i].0@ != s[j].0@
}

proof fn lemma_map_of_index(s: Seq<(Vec<u8>, KvEntry)>, i: int)
    requires
        distinct_keys(s),
        0 <= i < s.len(),
    ensures
        entries_map(s).contains_key(s[i].0@),
        entries_map(s)[s[i].0@] == entry_view(s[i].1),
    decreases s.len(),
{
    if i < s.len() - 1 {
        assert(distinct_keys(s.drop_last()));
        lemma_map_of_index(s.drop_last(), i);
        assert(s.drop_last()[i] == s[i]);
        assert(s.last().0@ != s[i].0@);
    }
}

proof fn lemma_map_absent(s: Seq<(Vec<u8>, KvEntry)>, k: Seq<u8>)
    requires
        forall|i: int| 0 <= i < s.len() ==> s[i].0@ != k,
    ensures
        !entries_map(s).contains_key(k),
    decreases s.len(),
{
    if s.len() > 0 {
        lemma_map_absent(s.drop_last(), k);
    }
}

proof fn lemma_map_remove(s: Seq<(Vec<u8>, KvEntry)>, i: int)
    requires
        distinct_keys(s),
        0 <= i < s.len(),
    ensures
        entries_map(s.remove(i)) =~= entries_map(s).remove(s[i].0@),
    decreases s.len(),
{
    let k = s[i].0@;
    if i == s.len() - 1 {
        assert(s.remove(i) =~= s.drop_last());
        assert(forall|j: int| 0 <= j < s.drop_last().len() ==> s.drop_last()[j].0@ != k);
        lemma_map_absent(s.drop_last(), k);
        assert(entries_map(s.drop_last()).remove(k) =~= entries_map(s.drop_last()));
    } else {
        let t = s.remove(i);
        assert(t.last() == s.last());
        assert(t.drop_last() =~= s.drop_last().remove(i));
        assert(distinct_keys(s.drop_last()));
        assert(s.drop_last()[i] == s[i]);
        lemma_map_remove(s.drop_last(), i);
        assert(s.last().0@ != k);
    }
}

/// The store: an association list with distinct keys, seen as a map.
pub struct KvStore {
    entries: Vec<(Vec<u8>, KvEntry)>,
}

impl View for KvStore {
    type V = KvMap;

    closed spec fn view(&self) -> KvMap {
        entries_map(self.entries@)
    }
}

impl KvStore {
    #[verifier::type_invariant]
    spec fn wf(self) -> bool {
        distinct_keys(self.entries@)
    }

    /// An empty store.
    pub fn new() -> (s: Self)
        ensures
            s@ == Map::<Seq<u8>, KvEntryV>::empty(),
    {
        let s = KvStore { entries: Vec::new() };
        proof {
            assert(s@ =~= Map::<Seq<u8>, KvEntryV>::empty());
        }
        s
    }

    fn find(&self, key: &Vec<u8>) -> (r: Option<usize>)
        ensures
            match r {
                Some(i) => {
                    &&& 0 <= i < self.entries@.len()
                    &&& self.entries@[i as int].0@ == key@
                    &&& self@.contains_key(key@)
                    &&& self@[key@] == entry_view(self.entries@[i as int].1)
                },
                None => {
                    &&& forall|j: int|
                        0 <= j < self.entries@.len() ==> self.entries@[j].0@ != key@
                    &&& !self@.contains_key(key@)
                },
            },
    {
        proof {
            use_type_invariant(&*self);
        }
        let n = self.entries.len();
        let mut i: usize = 0;
        while i < n
            invariant
                n == self.entries@.len(),
                0 <= i <= n,
                forall|j: int| 0 <= j < i ==> self.entries@[j].0@ != key@,
                distinct_keys(self.entries@),
            decreases n - i,
        {
            if bytes_eq(&self.entries[i].0, key) {
                proof {
                    lemma_map_of_index(self.entries@, i as int);
                }
                return Some(i);
            }
            i += 1;
        }
        proof {
            lemma_map_absent(self.entries@, key@);
        }
        None
    }

    /// Whether a committed value is present under `key`. A bare
    /// reservation does not count as existence for clients, though it
    /// blocks other reservations.
    pub fn exists_key(&self, key: &Vec<u8>) -> (r: KvResult<bool>)
        ensures
            r matches Ok(b) && b == kv_committed(self@, key@),
    {
        match self.find(key) {
            None => Ok(false),
            Some(i) => match &self.entries[i].1 {
                KvEntry::Reserved => Ok(false),
                KvEntry::Value(_) => Ok(true),
            },
        }
    }

    /// Claim `key` for a single later `put`. Fails iff the key already
    /// holds a value or a reservation; of two reservations of one key,
    /// exactly one succeeds.
    pub fn reserve_key(&mut self, key: Vec<u8>) -> (r: KvResult<KeyReservation>)
        ensures
            kv_can_reserve(old(self)@, key@) ==> {
                &&& r matches Ok(res) && res.key_id() == key@
                &&& final(self)@ == kv_after_reserve(old(self)@, key@)
            },
            !kv_can_reserve(old(self)@, key@) ==> {
                &&& r matches Err(KvError::ReserveErr(InnerKvError::LogicalErr(_)))
                &&& final(self)@ == old(self)@
            },
    {
        proof {
            use_type_invariant(&*self);
        }
        match self.find(&key) {
            Some(_) => Err(KvError::ReserveErr(InnerKvError::LogicalErr(
                ("key already reserved").to_owned(),
            ))),
            None => {
                let ghost old_entries = self.entries@;
                let entry_key = copy_bytes(&key);
                let mut entries: Vec<(Vec<u8>, KvEntry)> = Vec::new();
                std::mem::swap(&mut entries, &mut self.entries);
                entries.push((entry_key, KvEntry::Reserved));
                proof {
                    assert(entries@.drop_last() =~= old_entries);
                }
                self.entries = entries;
                proof {
                    assert(self@ =~= kv_after_reserve(entries_map(old_entries), key@));
                }
                Ok(KeyReservation { key })
            },
        }
    }

    /// Release a reservation without writing; the key becomes free
    /// again.
    pub fn unreserve_key(&mut self, reservation: KeyReservation)
        requires
            old(self)@.contains_key(reservation.key_id()),
            old(self)@[reservation.key_id()] is Reserved,
        ensures
            final(self)@ == old(self)@.remove(reservation.key_id()),
    {
        proof {
            use_type_invariant(&*self);
        }
        match self.find(&reservation.key) {
            Some(i) => {
                let ghost old_entries = self.entries@;
                let mut entries: Vec<(Vec<u8>, KvEntry)> = Vec::new();
                std::mem::swap(&mut entries, &mut self.entries);
                entries.remove(i);
                proof {
                    lemma_map_remove(old_entries, i as int);
                    assert(distinct_keys(old_entries.remove(i as int)));
                }
                self.entries = entries;
            },
            None => {
                proof {
                    assert(false);
                }
            },
        }
    }

    /// Replace the reservation's marker with a committed value. The
    /// reservation is consumed: each one admits a single `put`, and a
    /// `put` without a prior `reserve_key` cannot be written.
    pub fn put(&mut self, reservation: KeyReservation, value: Vec<u8>) -> (r: KvResult<()>)
        requires
            old(self)@.contains_key(reservation.key_id()),
            old(self)@[reservation.key_id()] is Reserved,
        ensures
            r is Ok,
            final(self)@ == kv_after_put(old(self)@, reservation.key_id(), value@),
    {
        proof {
            use_type_invariant(&*self);
        }
        match self.find(&reservation.key) {
            Some(i) => {
                let ghost old_entries = self.entries@;
                let mut entries: Vec<(Vec<u8>, KvEntry)> = Vec::new();
                std::mem::swap(&mut entries, &mut self.entries);
                entries.remove(i);
                proof {
                    lemma_map_remove(old_entries, i as int);
                    assert(distinct_keys(old_entries.remove(i as int)));
                }
                let ghost removed_entries = entries@;
                entries.push((reservation.key, KvEntry::Value(value)));
                proof {
                    assert(entries@.drop_last() =~= removed_entries);
                }
                self.entries = entries;
                proof {
                    assert(self@ =~= kv_after_put(entries_map(old_entries), reservation.key@, value@));
                }
                Ok(())
            },
            None => {
                proof {
                    assert(false);
                }
                Err(KvError::PutErr(InnerKvError::LogicalErr(("unreachable").to_owned())))
            },
        }
    }

    /// Read the committed value under `key`. Fails iff no committed
    /// value is present (a bare reservation reads as missing).
    pub fn get(&self, key: &Vec<u8>) -> (r: KvResult<Vec<u8>>)
        ensures
            kv_committed(self@, key@) ==> {
                &&& r matches Ok(v) && v@ == kv_value(self@, key@)
            },
            !kv_committed(self@, key@) ==> r matches Err(
                KvError::GetErr(InnerKvError::LogicalErr(_)),
            ),
    {
        match self.find(key) {
            Some(i) => match &self.entries[i].1 {
                KvEntry::Value(v) => Ok(copy_bytes(v)),
                KvEntry::Reserved => Err(KvError::GetErr(InnerKvError::LogicalErr(
                    ("key is reserved but holds no value").to_owned(),
                ))),
            },
            None => Err(KvError::GetErr(InnerKvError::LogicalErr(
                ("key does not exist").to_owned(),
            ))),
        }
    }

    /// Delete the committed value under `key` and hand it back. Fails
    /// iff no committed value is present; a bare reservation is not
    /// touched.
    pub fn remove(&mut self, key: &Vec<u8>) -> (r: KvResult<Vec<u8>>)
        ensures
            kv_committed(old(self)@, key@) ==> {
                &&& r matches Ok(v) && v@ == kv_value(old(self)@, key@)
                &&& final(self)@ == old(self)@.remove(key@)
            },
            !kv_committed(old(self)@, key@) ==> {
                &&& r matches Err(KvError::GetErr(InnerKvError::LogicalErr(_)))
                &&& final(self)@ == old(self)@
            },
    {
        proof {
            use_type_invariant(&*self);
        }
        match self.find(key) {
            Some(i) => match &self.entries[i].1 {
                KvEntry::Value(_) => {
                    let ghost old_entries = self.entries@;
                    let mut entries: Vec<(Vec<u8>, KvEntry)> = Vec::new();
                    std::mem::swap(&mut entries, &mut self.entries);
                    let (_, entry) = entries.remove(i);
                    proof {
                        lemma_map_remove(old_entries, i as int);
                        assert(distinct_keys(old_entries.remove(i as int)));
                    }
                    self.entries = entries;
                    match entry {
                        KvEntry::Value(v) => Ok(v),
                        KvEntry::Reserved => {
                            proof {
                                assert(false);
                            }
                            Err(KvError::GetErr(InnerKvError::LogicalErr(
                                ("unreachable").to_owned(),
                            )))
                        },
                    }
                },
                KvEntry::Reserved => Err(KvError::GetErr(InnerKvError::LogicalErr(
                    ("key is reserved but holds no value").to_owned(),
                ))),
            },
            None => Err(KvError::GetErr(InnerKvError::LogicalErr(
                ("key does not exist").to_owned(),
            ))),
        }
    }
}

} // verus!
