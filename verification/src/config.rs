//! Runtime configuration and the pure part of command-line handling:
//! defaults, port parsing and flag interpretation. Reading the actual
//! command line is left to the binary around the library.

use vstd::prelude::*;

use crate::encrypted_sled::PasswordMethod;
use crate::mnemonic::{cmd_of, Cmd};
use crate::{TofndError, TofndResult};

verus! {

/// The daemon's startup configuration.
#[derive(Debug, Clone)]
pub struct Config {
    pub port: u16,
    pub safe_keygen: bool,
    pub mnemonic_cmd: Cmd,
    pub tofnd_path: String,
    pub password_method: PasswordMethod,
}

impl Default for Config {
    /// The defaults: port 50051, safe key generation, the `existing`
    /// mnemonic command, the `.tofnd` directory, and a prompted
    /// password.
    fn default() -> (c: Config)
        ensures
            c.port == 50051,
            c.safe_keygen == true,
            c.mnemonic_cmd == Cmd::Existing,
            c.tofnd_path@ == ".tofnd"@,
            c.password_method == PasswordMethod::Prompt,
    {
        Config {
            port: 50051,
            safe_keygen: true,
            mnemonic_cmd: Cmd::Existing,
            tofnd_path: (".tofnd").to_owned(),
            password_method: PasswordMethod::Prompt,
        }
    }
}

pub open spec fn is_dec_digit(c: u8) -> bool {
    48 <= c <= 57
}

/// The number written in decimal digits, most significant first.
pub open spec fn dec_value(s: Seq<u8>) -> int
    decreases s.len(),
{
    if s.len() == 0 {
        0
    } else {
        dec_value(s.drop_last()) * 10 + (s.last() - 48)
    }
}

/// A non-empty, all-digit string whose value fits a port number.
pub open spec fn valid_port_str(s: Seq<u8>) -> bool {
    &&& s.len() > 0
    &&& forall|i: int| 0 <= i < s.len() ==> is_dec_digit(#[trigger] s[i])
    &&& dec_value(s) <= 65535
}

proof fn lemma_dec_value_nonneg(s: Seq<u8>)
    requires
        forall|i: int| 0 <= i < s.len() ==> is_dec_digit(#[trigger] s[i]),
    ensures
        dec_value(s) >= 0,
    decreases s.len(),
{
    if s.len() > 0 {
        lemma_dec_value_nonneg(s.drop_last());
    }
}

proof fn lemma_dec_value_monotone(s: Seq<u8>, i: int)
    requires
        forall|j: int| 0 <= j < s.len() ==> is_dec_digit(#[trigger] s[j]),
        0 <= i <= s.len(),
    ensures
        dec_value(s) >= dec_value(s.subrange(0, i)),
    decreases s.len() - i,
{
    if i < s.len() {
        let t = s.subrange(0, i + 1);
        assert(t.drop_last() =~= s.subrange(0, i));
        lemma_dec_value_nonneg(s.subrange(0, i));
        assert(dec_value(t) == dec_value(s.subrange(0, i)) * 10 + (t.last() - 48));
        lemma_dec_value_monotone(s, i + 1);
    } else {
        assert(s.subrange(0, i) =~= s);
    }
}

/// Parse a port number from decimal digits; rejects anything else.
pub fn parse_port(s: &Vec<u8>) -> (r: Option<u16>)
    ensures
        valid_port_str(s@) ==> (r matches Some(p) && p as int == dec_value(s@)),
        !valid_port_str(s@) ==> r is None,
{
    let n = s.len();
    if n == 0 {
        return None;
    }
    let mut acc: u32 = 0;
    let mut i: usize = 0;
    while i < n
        invariant
            n == s@.len(),
            0 <= i <= n,
            forall|j: int| 0 <= j < i ==> is_dec_digit(#[trigger] s@[j]),
            acc as int == dec_value(s@.subrange(0, i as int)),
            acc <= 65535,
        decreases n - i,
    {
        let c = s[i];
        if c < 48 || c > 57 {
            return None;
        }
        let d = (c - 48) as u32;
        let next: u32 = acc * 10 + d;
        proof {
            assert(s@.subrange(0, i + 1).drop_last() =~= s@.subrange(0, i as int));
            assert(dec_value(s@.subrange(0, i + 1)) == acc * 10 + d);
        }
        if next > 65535 {
            proof {
                if valid_port_str(s@) {
                    lemma_dec_value_monotone(s@, i + 1);
                    assert(false);
                }
            }
            return None;
        }
        acc = next;
        i += 1;
    }
    proof {
        assert(s@.subrange(0, n as int) =~= s@);
    }
    Some(acc as u16)
}

/// Build the configuration from the raw command-line pieces: the port
/// text, the two flags, the mnemonic command name and the home
/// directory. Rejects a malformed port and an unknown command name.
pub fn config_from_cli(
    port_str: &Vec<u8>,
    use_unsafe_primes: bool,
    mnemonic_str: &str,
    directory: String,
    no_password: bool,
) -> (r: TofndResult<Config>)
    ensures
        (r is Ok) == (valid_port_str(port_str@) && cmd_of(mnemonic_str@) is Some),
        r matches Ok(c) ==> {
            &&& c.port as int == dec_value(port_str@)
            &&& c.safe_keygen == !use_unsafe_primes
            &&& Some(c.mnemonic_cmd) == cmd_of(mnemonic_str@)
            &&& c.tofnd_path == directory
            &&& c.password_method == (if no_password {
                PasswordMethod::NoPassword
            } else {
                PasswordMethod::Prompt
            })
        },
        r matches Err(e) ==> e is InvalidArgument,
{
    let port = match parse_port(port_str) {
        None => {
            return Err(TofndError::InvalidArgument);
        },
        Some(p) => p,
    };
    let mnemonic_cmd = match Cmd::from_string(mnemonic_str) {
        Err(_) => {
            return Err(TofndError::InvalidArgument);
        },
        Ok(c) => c,
    };
    Ok(Config {
        port,
        safe_keygen: !use_unsafe_primes,
        mnemonic_cmd,
        tofnd_path: directory,
        password_method: if no_password {
            PasswordMethod::NoPassword
        } else {
            PasswordMethod::Prompt
        },
    })
}

} // verus!
