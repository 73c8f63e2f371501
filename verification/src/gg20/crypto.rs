//! The library's view of the cryptographic backend. Key material is
//! derived deterministically from the secret recovery key and a
//! per-share session nonce; recovery-info lists travel in the
//! backend's serialized form.

use vstd::prelude::*;

use crate::kv_manager::kv::copy_bytes;
use crate::kv_manager::value::u32_le;

verus! {

/// What the backend's deserializer reads out of a recovery-info blob:
/// a list of per-share byte strings, or nothing for malformed bytes.
/// The result depends on the bytes alone.
pub uninterp spec fn share_infos_of(b: Seq<u8>) -> Option<Seq<Seq<u8>>>;

/// Relies on tofn's sdk::api::deserialize (bincode with fixed options):
/// deserializing a byte-string list is a function of the input bytes
/// alone; malformed input yields `None`.
#[verifier::external_body]
pub(crate) fn deserialize_share_infos(b: &Vec<u8>) -> (r: Option<Vec<Vec<u8>>>)
    ensures
        (r is Some) == (share_infos_of(b@) is Some),
        r matches Some(v) ==> Some(v.deep_view()) == share_infos_of(b@),
{
    tofn::sdk::api::deserialize::<Vec<tofn::sdk::api::BytesVec>>(b.as_slice())
}

/// The verifying key of the key pair that the backend derives from
/// 64 bytes of secret recovery material and a session nonce, or
/// nothing where derivation fails. The result depends on the two
/// arguments alone.
pub uninterp spec fn derived_verifying_key(seed: Seq<u8>, nonce: Seq<u8>) -> Option<Seq<u8>>;

/// Relies on tofn's ecdsa::keygen: the key pair is a deterministic
/// function of the secret recovery key and the session nonce (a
/// ChaCha20 stream seeded by an HMAC of both), and its public part is
/// the 33-byte SEC1-encoded verifying key. keygen rejects nonces
/// shorter than 4 or longer than 256 bytes.
#[verifier::external_body]
pub(crate) fn derive_share_verifying_key(seed_bytes: &Vec<u8>, nonce: &Vec<u8>) -> (r: Option<
    Vec<u8>,
>)
    requires
        seed_bytes@.len() == 64,
    ensures
        (r is Some) == (derived_verifying_key(seed_bytes@, nonce@) is Some),
        r matches Some(v) ==> (Some(v@) == derived_verifying_key(seed_bytes@, nonce@)
            && v@.len() == 33),
        nonce@.len() < 4 || nonce@.len() > 256 ==> r is None,
{
    let srk = match tofn::sdk::api::SecretRecoveryKey::try_from(seed_bytes.as_slice()) {
        Ok(k) => k,
        Err(_) => return None,
    };
    match tofn::ecdsa::keygen(&srk, nonce.as_slice()) {
        Ok(keypair) => Some(keypair.encoded_verifying_key().to_vec()),
        Err(_) => None,
    }
}

/// The session nonce of one share: the key identifier followed by the
/// share index, little-endian.
pub open spec fn share_nonce(uid: Seq<u8>, i: int) -> Seq<u8> {
    uid + u32_le(i as u32)
}

/// Build the session nonce of share `i` of key `uid`.
pub fn share_nonce_bytes(uid: &Vec<u8>, i: u32) -> (r: Vec<u8>)
    ensures
        r@ == share_nonce(uid@, i as int),
{
    let mut r = copy_bytes(uid);
    crate::kv_manager::value::push_u32_le(&mut r, i);
    r
}

} // verus!
