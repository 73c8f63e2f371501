//! One party of a threshold-ECDSA signing daemon: the encrypted
//! key-value store's reservation discipline, the mnemonic lifecycle
//! that feeds the seed, validation of keygen and sign init records,
//! the share-recovery flow, and the stable binary format of the
//! persisted share bundles. Process bring-up, the streaming RPC
//! transport and the cryptographic backend live outside; the backend
//! is called through a small set of trusted declarations.

use vstd::prelude::*;

pub mod config;
pub mod encrypted_sled;
pub mod gg20;
pub mod kv_manager;
pub mod mnemonic;
pub mod proto;

verus! {

/// Result type shared by the service-level operations.
pub type TofndResult<T> = Result<T, TofndError>;

/// Service-level failure kinds.
#[derive(Debug)]
pub enum TofndError {
    /// The recovery request carried no keygen init record.
    MissingKeygenInit,
    /// The recovery request carried no keygen output record.
    MissingKeygenOutput,
    /// A malformed init record or a malformed argument of one.
    InvalidArgument,
    /// A key-value store operation failed.
    Kv(crate::kv_manager::error::KvError),
    /// No mnemonic material is present in the store.
    MnemonicMissing,
    /// A mnemonic record is already present in the store.
    MnemonicAlreadyPresent,
    /// A stored or received record could not be decoded.
    Deserialization,
    /// Recovery of one secret key share failed.
    ShareRecoveryFailed { share_index: usize },
}

} // verus!
