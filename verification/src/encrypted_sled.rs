use vstd::prelude::*;

verus! {

/// How the passphrase that unlocks the on-disk store is obtained at
/// process start.
#[derive(Clone, Copy, Debug, PartialEq, Eq, Structural)]
pub enum PasswordMethod {
    /// Read the passphrase from a terminal with no echo.
    Prompt,
    /// Use a fixed placeholder passphrase; meant for tests only.
    NoPassword,
}

/// Failure kinds of the encrypted storage engine that backs the
/// key-value store.
#[derive(Debug)]
pub enum Error {
    /// The passphrase does not decrypt the store's sentinel record.
    WrongPassword,
    /// Any other engine-level failure, carried as text.
    Engine(String),
}

} // verus!
