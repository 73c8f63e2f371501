//! The threshold-signing service: recovery of key shares, init
//! validation, and key presence.

use vstd::prelude::*;

pub mod crypto;
pub mod keygen;
pub mod recover;
pub mod session;
pub mod sign;
pub mod types;

use crate::config::Config;
use crate::kv_manager::kv::kv_committed;
use crate::kv_manager::KvManager;
use crate::proto::KeyPresenceResponse;

verus! {

/// The service instance: owns the store manager and the configuration;
/// every session goes through it.
pub struct Gg20Service {
    pub kv_manager: KvManager,
    pub cfg: Config,
}

impl Gg20Service {
    pub fn new(kv_manager: KvManager, cfg: Config) -> (r: Gg20Service)
        ensures
            r.kv_manager@ == kv_manager@,
            r.cfg == cfg,
    {
        Gg20Service { kv_manager, cfg }
    }

    /// The key-presence query: `Present` iff a committed share bundle
    /// exists under `key_uid`; never writes.
    pub fn handle_key_presence(&self, key_uid: &Vec<u8>) -> (r: KeyPresenceResponse)
        ensures
            r == (if kv_committed(self.kv_manager@, key_uid@) {
                KeyPresenceResponse::Present
            } else {
                KeyPresenceResponse::Absent
            }),
    {
        match self.kv_manager.exists_key(key_uid) {
            Ok(true) => KeyPresenceResponse::Present,
            Ok(false) => KeyPresenceResponse::Absent,
            Err(_) => KeyPresenceResponse::Fail,
        }
    }
}

} // verus!
