//! The key-value manager: owns the store that holds the mnemonic
//! material and the per-key share bundles, and exposes the typed
//! operations the service needs.

use vstd::prelude::*;

pub mod error;
pub mod kv;
pub mod value;

use crate::gg20::types::{party_info_wf, PartyInfo, PartyInfoV};
use crate::kv_manager::error::{InnerKvError, KvError, KvResult};
use crate::kv_manager::kv::{
    kv_after_put, kv_after_reserve, kv_can_reserve, kv_committed, kv_value, KeyReservation,
    KvEntryV, KvMap, KvStore,
};
use crate::kv_manager::value::{
    decode_party_info, encode_party_info, party_info_bounded, spec_decode_party_info,
    spec_encode_party_info,
};
use crate::mnemonic::SecretRecoveryKey;
use crate::{TofndError, TofndResult};

verus! {

/// The byte key under which the mnemonic material is stored; reserved
/// for the manager itself.
pub open spec fn mnemonic_key() -> Seq<u8> {
    seq![109u8, 110u8, 101u8, 109u8, 111u8, 110u8, 105u8, 99u8]
}

/// The reserved mnemonic key as a byte vector.
pub fn mnemonic_key_bytes() -> (r: Vec<u8>)
    ensures
        r@ == mnemonic_key(),
{
    let mut r: Vec<u8> = Vec::new();
    r.push(109u8);
    r.push(110u8);
    r.push(101u8);
    r.push(109u8);
    r.push(111u8);
    r.push(110u8);
    r.push(105u8);
    r.push(99u8);
    proof {
        assert(r@ =~= mnemonic_key());
    }
    r
}

/// Owns the store; all sessions go through it.
pub struct KvManager {
    kv: KvStore,
}

impl View for KvManager {
    type V = KvMap;

    closed spec fn view(&self) -> KvMap {
        self.kv@
    }
}

impl KvManager {
    /// A manager over an empty store.
    pub fn new() -> (r: KvManager)
        ensures
            r@ == Map::<Seq<u8>, KvEntryV>::empty(),
    {
        KvManager { kv: KvStore::new() }
    }

    /// Whether a committed value is present under `key`.
    pub fn exists_key(&self, key: &Vec<u8>) -> (r: KvResult<bool>)
        ensures
            r matches Ok(b) && b == kv_committed(self@, key@),
    {
        self.kv.exists_key(key)
    }

    /// Claim `key` for a single later `put`.
    pub fn reserve_key(&mut self, key: Vec<u8>) -> (r: KvResult<KeyReservation>)
        ensures
            kv_can_reserve(old(self)@, key@) ==> {
                &&& r matches Ok(res) && res.key_id() == key@
                &&& final(self)@ == kv_after_reserve(old(self)@, key@)
            },
            !kv_can_reserve(old(self)@, key@) ==> {
                &&& r matches Err(KvError::ReserveErr(InnerKvError::LogicalErr(_)))
                &&& final(self)@ == old(self)@
            },
    {
        self.kv.reserve_key(key)
    }

    /// Release a reservation without writing.
    pub fn unreserve_key(&mut self, reservation: KeyReservation)
        requires
            old(self)@.contains_key(reservation.key_id()),
            old(self)@[reservation.key_id()] is Reserved,
        ensures
            final(self)@ == old(self)@.remove(reservation.key_id()),
    {
        self.kv.unreserve_key(reservation)
    }

    /// Turn a reservation into a committed raw value.
    pub fn put(&mut self, reservation: KeyReservation, value: Vec<u8>) -> (r: KvResult<()>)
        requires
            old(self)@.contains_key(reservation.key_id()),
            old(self)@[reservation.key_id()] is Reserved,
        ensures
            r is Ok,
            final(self)@ == kv_after_put(old(self)@, reservation.key_id(), value@),
    {
        self.kv.put(reservation, value)
    }

    /// Read the committed raw value under `key`.
    pub fn get(&self, key: &Vec<u8>) -> (r: KvResult<Vec<u8>>)
        ensures
            kv_committed(self@, key@) ==> {
                &&& r matches Ok(v) && v@ == kv_value(self@, key@)
            },
            !kv_committed(self@, key@) ==> r matches Err(
                KvError::GetErr(InnerKvError::LogicalErr(_)),
            ),
    {
        self.kv.get(key)
    }

    /// Delete the committed value under `key` and hand it back.
    pub fn remove(&mut self, key: &Vec<u8>) -> (r: KvResult<Vec<u8>>)
        ensures
            kv_committed(old(self)@, key@) ==> {
                &&& r matches Ok(v) && v@ == kv_value(old(self)@, key@)
                &&& final(self)@ == old(self)@.remove(key@)
            },
            !kv_committed(old(self)@, key@) ==> {
                &&& r matches Err(KvError::GetErr(InnerKvError::LogicalErr(_)))
                &&& final(self)@ == old(self)@
            },
    {
        self.kv.remove(key)
    }

    /// Encode a share bundle and commit it under the reserved key.
    pub fn put_party_info(&mut self, reservation: KeyReservation, info: &PartyInfo) -> (r:
        KvResult<()>)
        requires
            old(self)@.contains_key(reservation.key_id()),
            old(self)@[reservation.key_id()] is Reserved,
        ensures
            r is Ok,
            final(self)@ == kv_after_put(
                old(self)@,
                reservation.key_id(),
                spec_encode_party_info(info@),
            ),
    {
        let bytes = encode_party_info(info);
        self.kv.put(reservation, bytes)
    }

    /// Read back and decode the share bundle under `key`, rejecting
    /// records whose embedded invariants are violated.
    pub fn get_party_info(&self, key: &Vec<u8>) -> (r: KvResult<PartyInfo>)
        ensures
            !kv_committed(self@, key@) ==> r matches Err(
                KvError::GetErr(InnerKvError::LogicalErr(_)),
            ),
            kv_committed(self@, key@) && spec_decode_party_info(kv_value(self@, key@)) is None
                ==> r matches Err(KvError::GetErr(InnerKvError::DeserializationErr)),
            kv_committed(self@, key@) && spec_decode_party_info(kv_value(self@, key@)) is Some
                ==> (r matches Ok(p) && Some(p@) == spec_decode_party_info(
                kv_value(self@, key@),
            )),
    {
        match self.kv.get(key) {
            Err(err) => Err(err),
            Ok(bytes) => match decode_party_info(&bytes) {
                None => Err(KvError::GetErr(InnerKvError::DeserializationErr)),
                Some(p) => Ok(p),
            },
        }
    }

    /// The seed the protocol consumes: the stored mnemonic material,
    /// exactly 64 bytes of it.
    pub fn seed(&self) -> (r: TofndResult<SecretRecoveryKey>)
        ensures
            !kv_committed(self@, mnemonic_key()) ==> r matches Err(TofndError::MnemonicMissing),
            kv_committed(self@, mnemonic_key()) && kv_value(self@, mnemonic_key()).len() != 64
                ==> r matches Err(TofndError::Deserialization),
            kv_committed(self@, mnemonic_key()) && kv_value(self@, mnemonic_key()).len() == 64
                ==> (r matches Ok(s) && s@ == kv_value(self@, mnemonic_key())),
    {
        let key = mnemonic_key_bytes();
        match self.kv.get(&key) {
            Err(_) => Err(TofndError::MnemonicMissing),
            Ok(bytes) => match SecretRecoveryKey::from_bytes(bytes) {
                None => Err(TofndError::Deserialization),
                Some(s) => Ok(s),
            },
        }
    }
}

/// After a share bundle is stored under a freshly reserved key, reading
/// that key back decodes to exactly the bundle that was stored.
pub proof fn lemma_party_info_round_trip_in_store(m: KvMap, k: Seq<u8>, p: PartyInfoV)
    requires
        party_info_wf(p),
        party_info_bounded(p),
    ensures
        ({
            let m2 = kv_after_put(kv_after_reserve(m, k), k, spec_encode_party_info(p));
            &&& kv_committed(m2, k)
            &&& spec_decode_party_info(kv_value(m2, k)) == Some(p)
        }),
{
    crate::kv_manager::value::lemma_party_info_round_trip(p);
}

} // verus!
