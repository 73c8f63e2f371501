//! The mnemonic lifecycle: the secret recovery material is created or
//! imported once, stored under the reserved key, and exported on
//! demand. The daemon's seed is derived from it alone.

use vstd::prelude::*;

use crate::kv_manager::kv::{kv_after_put, kv_after_reserve, kv_committed, kv_value, KvMap};
use crate::kv_manager::{mnemonic_key, mnemonic_key_bytes, KvManager};
use crate::{TofndError, TofndResult};

verus! {

/// The mnemonic command selected at process start.
#[derive(Clone, Copy, Debug, PartialEq, Eq, Structural)]
pub enum Cmd {
    Existing,
    Create,
    Import,
    Export,
}

/// The command a given name selects, if any.
pub open spec fn cmd_of(s: Seq<char>) -> Option<Cmd> {
    if s == "existing"@ {
        Some(Cmd::Existing)
    } else if s == "create"@ {
        Some(Cmd::Create)
    } else if s == "import"@ {
        Some(Cmd::Import)
    } else if s == "export"@ {
        Some(Cmd::Export)
    } else {
        None
    }
}

impl Cmd {
    /// The command named by `s`; any other name is rejected.
    pub fn from_string(s: &str) -> (r: TofndResult<Cmd>)
        ensures
            (r is Ok) == (cmd_of(s@) is Some),
            r matches Ok(c) ==> Some(c) == cmd_of(s@),
            r matches Err(e) ==> e is InvalidArgument,
    {
        proof {
            reveal_strlit("existing");
            reveal_strlit("create");
            reveal_strlit("import");
            reveal_strlit("export");
            assert("existing"@.len() == 8);
            assert("create"@.len() == 6);
            assert("import"@.len() == 6);
            assert("export"@.len() == 6);
            assert("import"@ != "create"@) by {
                assert("import"@[0] == 'i' && "create"@[0] == 'c');
            };
            assert("export"@ != "create"@) by {
                assert("export"@[0] == 'e' && "create"@[0] == 'c');
            };
            assert("export"@ != "import"@) by {
                assert("export"@[0] == 'e' && "import"@[0] == 'i');
            };
        }
        let t = s.to_owned();
        if t == ("existing").to_owned() {
            Ok(Cmd::Existing)
        } else if t == ("create").to_owned() {
            Ok(Cmd::Create)
        } else if t == ("import").to_owned() {
            Ok(Cmd::Import)
        } else if t == ("export").to_owned() {
            Ok(Cmd::Export)
        } else {
            Err(TofndError::InvalidArgument)
        }
    }
}

/// The 64-byte seed that keygen and recovery consume. Derived from the
/// stored mnemonic material and held only in memory.
pub struct SecretRecoveryKey {
    bytes: Vec<u8>,
}

impl View for SecretRecoveryKey {
    type V = Seq<u8>;

    closed spec fn view(&self) -> Seq<u8> {
        self.bytes@
    }
}

impl SecretRecoveryKey {
    #[verifier::type_invariant]
    spec fn wf(self) -> bool {
        self.bytes@.len() == 64
    }

    /// Wrap exactly 64 bytes of seed material.
    pub fn from_bytes(bytes: Vec<u8>) -> (r: Option<SecretRecoveryKey>)
        ensures
            bytes@.len() == 64 ==> (r matches Some(s) && s@ == bytes@),
            bytes@.len() != 64 ==> r is None,
    {
        if bytes.len() == 64 {
            Some(SecretRecoveryKey { bytes })
        } else {
            None
        }
    }

    /// The seed bytes; always 64 of them.
    pub fn as_bytes(&self) -> (r: &Vec<u8>)
        ensures
            r@ == self@,
            r@.len() == 64,
    {
        proof {
            use_type_invariant(&*self);
        }
        &self.bytes
    }
}

/// Store fresh or imported seed material under the reserved mnemonic
/// key. The mnemonic is written at most once: a second insert fails
/// and leaves the store unchanged.
pub fn handle_insert(kv: &mut KvManager, secret_bytes: Vec<u8>) -> (r: TofndResult<()>)
    ensures
        secret_bytes@.len() != 64 ==> {
            &&& r matches Err(TofndError::InvalidArgument)
            &&& final(kv)@ == old(kv)@
        },
        secret_bytes@.len() == 64 && old(kv)@.contains_key(mnemonic_key()) ==> {
            &&& r matches Err(TofndError::MnemonicAlreadyPresent)
            &&& final(kv)@ == old(kv)@
        },
        secret_bytes@.len() == 64 && !old(kv)@.contains_key(mnemonic_key()) ==> {
            &&& r is Ok
            &&& final(kv)@ == kv_after_put(
                kv_after_reserve(old(kv)@, mnemonic_key()),
                mnemonic_key(),
                secret_bytes@,
            )
        },
{
    if secret_bytes.len() != 64 {
        return Err(TofndError::InvalidArgument);
    }
    let key = mnemonic_key_bytes();
    match kv.reserve_key(key) {
        Err(_) => Err(TofndError::MnemonicAlreadyPresent),
        Ok(reservation) => match kv.put(reservation, secret_bytes) {
            Ok(()) => Ok(()),
            Err(err) => Err(TofndError::Kv(err)),
        },
    }
}

/// Require that seed material is already present; change nothing.
pub fn handle_existing(kv: &KvManager) -> (r: TofndResult<()>)
    ensures
        kv_committed(kv@, mnemonic_key()) ==> r is Ok,
        !kv_committed(kv@, mnemonic_key()) ==> r matches Err(TofndError::MnemonicMissing),
{
    let key = mnemonic_key_bytes();
    match kv.exists_key(&key) {
        Ok(true) => Ok(()),
        _ => Err(TofndError::MnemonicMissing),
    }
}

/// Read the stored seed material for a plaintext export; change
/// nothing.
pub fn handle_export(kv: &KvManager) -> (r: TofndResult<Vec<u8>>)
    ensures
        kv_committed(kv@, mnemonic_key()) ==> (r matches Ok(v) && v@ == kv_value(
            kv@,
            mnemonic_key(),
        )),
        !kv_committed(kv@, mnemonic_key()) ==> r matches Err(TofndError::MnemonicMissing),
{
    let key = mnemonic_key_bytes();
    match kv.get(&key) {
        Ok(v) => Ok(v),
        Err(_) => Err(TofndError::MnemonicMissing),
    }
}

/// Mnemonic round trip: material exported from one store and imported
/// into a fresh store reads back unchanged, so the seed derived after
/// the import equals the seed before the export, byte for byte.
pub proof fn lemma_mnemonic_round_trip(m: KvMap, fresh: KvMap)
    requires
        kv_committed(m, mnemonic_key()),
        !fresh.contains_key(mnemonic_key()),
    ensures
        ({
            let imported = kv_after_put(
                kv_after_reserve(fresh, mnemonic_key()),
                mnemonic_key(),
                kv_value(m, mnemonic_key()),
            );
            &&& kv_committed(imported, mnemonic_key())
            &&& kv_value(imported, mnemonic_key()) == kv_value(m, mnemonic_key())
        }),
{
}

} // verus!
