//! The first step of a sign session: validate the init, load this
//! party's share bundle, and surface an absent bundle as the dedicated
//! recovery hint.

use vstd::prelude::*;

use crate::gg20::types::PartyInfo;
use crate::gg20::Gg20Service;
use crate::kv_manager::error::{InnerKvError, KvError};
use crate::kv_manager::kv::{bytes_eq, kv_committed, kv_value};
use crate::kv_manager::value::spec_decode_party_info;
use crate::proto::SignInit;
use crate::{TofndError, TofndResult};

verus! {

/// What the session does after reading a sign init.
#[derive(Debug)]
pub enum SignInitOutcome {
    /// No share bundle exists for the requested key: the session sends
    /// exactly one NeedRecover frame and closes without writing.
    NeedRecover,
    /// The share bundle to sign with.
    Proceed(PartyInfo),
}

/// `xs` appears within `ys`, in `ys`'s order.
pub open spec fn is_subsequence(xs: Seq<Seq<u8>>, ys: Seq<Seq<u8>>) -> bool
    decreases xs.len() + ys.len(),
{
    if xs.len() == 0 {
        true
    } else if ys.len() == 0 {
        false
    } else if xs.first() == ys.first() {
        is_subsequence(xs.drop_first(), ys.drop_first())
    } else {
        is_subsequence(xs, ys.drop_first())
    }
}

/// Whether the byte lists of `xs` appear within `ys` in order.
pub fn check_subsequence(xs: &Vec<Vec<u8>>, ys: &Vec<Vec<u8>>) -> (r: bool)
    ensures
        r == is_subsequence(xs.deep_view(), ys.deep_view()),
{
    let ghost xv = xs.deep_view();
    let ghost yv = ys.deep_view();
    let n = xs.len();
    let m = ys.len();
    let mut i: usize = 0;
    let mut j: usize = 0;
    proof {
        assert(xv.skip(0) =~= xv);
        assert(yv.skip(0) =~= yv);
    }
    while i < n && j < m
        invariant
            n == xs@.len(),
            m == ys@.len(),
            xv == xs.deep_view(),
            yv == ys.deep_view(),
            xv.len() == n,
            yv.len() == m,
            0 <= i <= n,
            0 <= j <= m,
            is_subsequence(xv, yv) == is_subsequence(
                xv.skip(i as int),
                yv.skip(j as int),
            ),
        decreases m - j,
    {
        proof {
            assert(xv.skip(i as int).first() == xv[i as int]);
            assert(yv.skip(j as int).first() == yv[j as int]);
            assert(xv[i as int] == xs@[i as int]@);
            assert(yv[j as int] == ys@[j as int]@);
            assert(xv.skip(i as int).drop_first() =~= xv.skip(i + 1));
            assert(yv.skip(j as int).drop_first() =~= yv.skip(j + 1));
        }
        if bytes_eq(&xs[i], &ys[j]) {
            i += 1;
            j += 1;
        } else {
            j += 1;
        }
    }
    proof {
        if i == n {
            assert(xv.skip(i as int).len() == 0);
        } else {
            assert(yv.skip(j as int).len() == 0);
            assert(xv.skip(i as int).len() > 0);
        }
    }
    i == n
}

impl Gg20Service {
    /// First step of a sign stream: the digest must be exactly 32
    /// bytes; an absent share bundle for `key_uid` yields the single
    /// NeedRecover answer and nothing is written; the signers must
    /// appear within the stored roster in its order.
    pub fn handle_sign_init(&self, init: &SignInit) -> (r: TofndResult<SignInitOutcome>)
        ensures
            init.message_to_sign@.len() != 32 ==> r matches Err(TofndError::InvalidArgument),
            init.message_to_sign@.len() == 32 && !kv_committed(self.kv_manager@, init.key_uid@)
                ==> r matches Ok(SignInitOutcome::NeedRecover),
            init.message_to_sign@.len() == 32 && kv_committed(self.kv_manager@, init.key_uid@)
                && spec_decode_party_info(kv_value(self.kv_manager@, init.key_uid@)) is None
                ==> r matches Err(
                TofndError::Kv(KvError::GetErr(InnerKvError::DeserializationErr)),
            ),
            init.message_to_sign@.len() == 32 && kv_committed(self.kv_manager@, init.key_uid@)
                && (spec_decode_party_info(kv_value(self.kv_manager@, init.key_uid@)) matches
            Some(b) && !is_subsequence(init.party_uids.deep_view(), b.party_uids)) ==> r matches
                Err(TofndError::InvalidArgument),
            init.message_to_sign@.len() == 32 && kv_committed(self.kv_manager@, init.key_uid@)
                && (spec_decode_party_info(kv_value(self.kv_manager@, init.key_uid@)) matches
            Some(b) && is_subsequence(init.party_uids.deep_view(), b.party_uids)) ==> (r matches
                Ok(SignInitOutcome::Proceed(p)) && Some(p@) == spec_decode_party_info(
                kv_value(self.kv_manager@, init.key_uid@),
            )),
    {
        if init.message_to_sign.len() != 32 {
            return Err(TofndError::InvalidArgument);
        }
        match self.kv_manager.get_party_info(&init.key_uid) {
            Ok(bundle) => {
                if check_subsequence(&init.party_uids, &bundle.tofnd.party_uids) {
                    Ok(SignInitOutcome::Proceed(bundle))
                } else {
                    Err(TofndError::InvalidArgument)
                }
            },
            Err(KvError::GetErr(InnerKvError::LogicalErr(_))) => Ok(SignInitOutcome::NeedRecover),
            Err(err) => Err(TofndError::Kv(err)),
        }
    }
}

} // verus!
