//! Failure kinds of the key-value store layers.

use vstd::prelude::*;

verus! {

/// Relies on tokio's oneshot channels: `RecvError` is the error returned
/// when the sending half of a oneshot channel is dropped before a value
/// is sent. The store only carries the value through; nothing is assumed
/// about it.
#[verifier::external_type_specification]
#[verifier::external_body]
pub struct ExRecvError(tokio::sync::oneshot::error::RecvError);

/// Failures of the key-value store, as its callers see them.
#[derive(Debug)]
pub enum KvError {
    /// The store could not be opened.
    InitErr(crate::encrypted_sled::Error),
    /// A reply channel of the store's service task was closed early.
    RecvErr(tokio::sync::oneshot::error::RecvError),
    /// A request could not be sent to the store's service task.
    SendErr(String),
    /// `reserve_key` failed.
    ReserveErr(InnerKvError),
    /// `put` failed.
    PutErr(InnerKvError),
    /// `get` failed.
    GetErr(InnerKvError),
    /// `exists` failed.
    ExistsErr(InnerKvError),
}

pub type KvResult<Success> = Result<Success, KvError>;

/// Failures of the inner store, before they are tagged with the
/// operation that met them.
#[derive(Debug)]
pub enum InnerKvError {
    /// The storage engine failed.
    SledErr(crate::encrypted_sled::Error),
    /// The operation contradicts the store's state, e.g. a reservation
    /// of a key that is already held.
    LogicalErr(String),
    /// A value could not be encoded for storage.
    SerializationErr,
    /// Stored bytes could not be decoded.
    DeserializationErr,
}

pub type InnerKvResult<Success> = Result<Success, InnerKvError>;

} // verus!
