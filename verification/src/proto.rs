//! Wire-level records of the RPC surface, as plain values. The
//! transport and the generated stubs live outside the library; the
//! service validates and acts on these.

use vstd::prelude::*;

verus! {

/// The first frame of a keygen stream: the new key identifier, the
/// ordered roster, the per-party share counts, this party's position
/// and the threshold.
#[derive(Debug, Clone)]
pub struct KeygenInit {
    pub new_key_uid: Vec<u8>,
    pub party_uids: Vec<Vec<u8>>,
    pub party_share_counts: Vec<u32>,
    pub my_party_index: u32,
    pub threshold: u32,
}

/// The client-held outcome of a keygen ceremony, handed back for share
/// recovery.
#[derive(Debug, Clone)]
pub struct KeygenOutput {
    pub pub_key: Vec<u8>,
    pub group_recover_info: Vec<u8>,
    pub private_recover_info: Vec<u8>,
}

/// A request to reinstall this party's shares for one key.
#[derive(Debug)]
pub struct RecoverRequest {
    pub keygen_init: Option<KeygenInit>,
    pub keygen_output: Option<KeygenOutput>,
}

/// The first frame of a sign stream.
#[derive(Debug, Clone)]
pub struct SignInit {
    pub new_sig_uid: Vec<u8>,
    pub key_uid: Vec<u8>,
    pub party_uids: Vec<Vec<u8>>,
    pub message_to_sign: Vec<u8>,
}

/// One peer message relayed by the client into a running session.
#[derive(Debug, Clone)]
pub struct TrafficIn {
    pub from_party_uid: Vec<u8>,
    pub payload: Vec<u8>,
    pub is_broadcast: bool,
}

/// Answer of the key-presence query.
#[derive(Debug, PartialEq, Eq, Structural)]
pub enum KeyPresenceResponse {
    Present,
    Absent,
    Fail,
}

} // verus!
