//! Validation of keygen init records, and the first step of a keygen
//! session: claim the new key identifier before any outbound traffic.

use vstd::prelude::*;

use crate::gg20::types::KeygenInitSanitized;
use crate::gg20::Gg20Service;
use crate::kv_manager::error::{InnerKvError, KvError};
use crate::kv_manager::kv::{bytes_eq, copy_bytes, kv_after_reserve, KeyReservation};
use crate::proto::KeygenInit;
use crate::{TofndError, TofndResult};

verus! {

/// No two parties carry the same identifier.
pub open spec fn all_distinct(uids: Seq<Seq<u8>>) -> bool {
    forall|i: int, j: int| #![auto] 0 <= i < j < uids.len() ==> uids[i] != uids[j]
}

/// The total number of shares over all parties.
pub open spec fn sum_counts(s: Seq<u32>) -> int
    decreases s.len(),
{
    if s.len() == 0 {
        0
    } else {
        sum_counts(s.drop_last()) + s.last()
    }
}

/// What a keygen init record must satisfy: a named key, a non-empty
/// roster of distinct parties, one positive share count per party, the
/// party's own index in range, and enough shares to cover the
/// threshold.
pub open spec fn valid_keygen_init(
    new_key_uid: Seq<u8>,
    party_uids: Seq<Seq<u8>>,
    party_share_counts: Seq<u32>,
    my_index: int,
    threshold: u32,
) -> bool {
    &&& new_key_uid.len() > 0
    &&& party_uids.len() > 0
    &&& all_distinct(party_uids)
    &&& party_share_counts.len() == party_uids.len()
    &&& 0 <= my_index < party_uids.len()
    &&& forall|i: int|
        0 <= i < party_share_counts.len() ==> #[trigger] party_share_counts[i] > 0
    &&& threshold + 1 <= sum_counts(party_share_counts)
}

/// `valid_keygen_init` over the fields of a raw init record.
pub open spec fn valid_keygen_init_rec(init: KeygenInit) -> bool {
    valid_keygen_init(
        init.new_key_uid@,
        init.party_uids.deep_view(),
        init.party_share_counts@,
        init.my_party_index as int,
        init.threshold,
    )
}

impl Gg20Service {
    /// Validate a raw keygen init record; a record that fails any of
    /// the checks is rejected as an invalid argument.
    pub fn keygen_sanitize_args(init: KeygenInit) -> (r: TofndResult<KeygenInitSanitized>)
        ensures
            valid_keygen_init_rec(init) ==> (r matches Ok(s) && {
                &&& s.new_key_uid@ == init.new_key_uid@
                &&& s.party_uids.deep_view() == init.party_uids.deep_view()
                &&& s.party_share_counts@ == init.party_share_counts@
                &&& s.my_index as int == init.my_party_index as int
                &&& s.threshold == init.threshold
            }),
            !valid_keygen_init_rec(init) ==> r matches Err(TofndError::InvalidArgument),
    {
        if init.new_key_uid.len() == 0 {
            return Err(TofndError::InvalidArgument);
        }
        let n = init.party_uids.len();
        if n == 0 {
            return Err(TofndError::InvalidArgument);
        }
        if init.party_share_counts.len() != n {
            return Err(TofndError::InvalidArgument);
        }
        if (init.my_party_index as usize) >= n {
            return Err(TofndError::InvalidArgument);
        }
        let ghost uids = init.party_uids.deep_view();
        let mut i: usize = 0;
        while i < n
            invariant
                n == init.party_uids@.len(),
                uids == init.party_uids.deep_view(),
                uids.len() == n,
                0 <= i <= n,
                forall|a: int, b: int| #![auto] 0 <= a < b < n && a < i ==> uids[a] != uids[b],
            decreases n - i,
        {
            let mut j: usize = i + 1;
            while j < n
                invariant
                    n == init.party_uids@.len(),
                    uids == init.party_uids.deep_view(),
                    uids.len() == n,
                    0 <= i < j <= n,
                    forall|b: int| i < b < j ==> uids[i as int] != #[trigger] uids[b],
                decreases n - j,
            {
                if bytes_eq(&init.party_uids[i], &init.party_uids[j]) {
                    proof {
                        assert(uids[i as int] == init.party_uids@[i as int]@);
                        assert(uids[j as int] == init.party_uids@[j as int]@);
                    }
                    return Err(TofndError::InvalidArgument);
                }
                proof {
                    assert(uids[i as int] == init.party_uids@[i as int]@);
                    assert(uids[j as int] == init.party_uids@[j as int]@);
                }
                j += 1;
            }
            i += 1;
        }
        let mut k: usize = 0;
        let mut total: u128 = 0;
        while k < n
            invariant
                n == init.party_share_counts@.len(),
                0 <= k <= n,
                forall|j: int| 0 <= j < k ==> #[trigger] init.party_share_counts@[j] > 0,
                total as int == sum_counts(init.party_share_counts@.subrange(0, k as int)),
                total <= (k as int) * 0xffff_ffff,
            decreases n - k,
        {
            let c = init.party_share_counts[k];
            if c == 0 {
                return Err(TofndError::InvalidArgument);
            }
            proof {
                assert(init.party_share_counts@.subrange(0, k + 1).drop_last()
                    =~= init.party_share_counts@.subrange(0, k as int));
            }
            total = total + (c as u128);
            k += 1;
        }
        proof {
            assert(init.party_share_counts@.subrange(0, n as int) =~= init.party_share_counts@);
        }
        if (init.threshold as u128) + 1 > total {
            return Err(TofndError::InvalidArgument);
        }
        Ok(KeygenInitSanitized {
            new_key_uid: init.new_key_uid,
            party_uids: init.party_uids,
            party_share_counts: init.party_share_counts,
            my_index: init.my_party_index as usize,
            threshold: init.threshold,
        })
    }

    /// First step of a keygen session: validate the init and claim the
    /// new key identifier, before any outbound protocol traffic exists.
    /// A duplicate keygen — the identifier already committed or already
    /// reserved — fails here and writes nothing.
    pub fn handle_keygen_init(&mut self, init: KeygenInit) -> (r: TofndResult<
        (KeygenInitSanitized, KeyReservation),
    >)
        ensures
            final(self).cfg == old(self).cfg,
            !valid_keygen_init_rec(init) ==> {
                &&& r matches Err(TofndError::InvalidArgument)
                &&& final(self).kv_manager@ == old(self).kv_manager@
            },
            valid_keygen_init_rec(init) && old(self).kv_manager@.contains_key(init.new_key_uid@)
                ==> {
                &&& r matches Err(TofndError::Kv(KvError::ReserveErr(InnerKvError::LogicalErr(_))))
                &&& final(self).kv_manager@ == old(self).kv_manager@
            },
            valid_keygen_init_rec(init) && !old(self).kv_manager@.contains_key(
                init.new_key_uid@,
            ) ==> (r matches Ok(p) && {
                &&& p.0.new_key_uid@ == init.new_key_uid@
                &&& p.0.party_uids.deep_view() == init.party_uids.deep_view()
                &&& p.0.party_share_counts@ == init.party_share_counts@
                &&& p.0.my_index as int == init.my_party_index as int
                &&& p.0.threshold == init.threshold
                &&& p.1.key_id() == init.new_key_uid@
                &&& final(self).kv_manager@ == kv_after_reserve(
                    old(self).kv_manager@,
                    init.new_key_uid@,
                )
            }),
    {
        let sanitized = match Self::keygen_sanitize_args(init) {
            Err(err) => {
                return Err(err);
            },
            Ok(s) => s,
        };
        let key = copy_bytes(&sanitized.new_key_uid);
        match self.kv_manager.reserve_key(key) {
            Err(err) => Err(TofndError::Kv(err)),
            Ok(reservation) => Ok((sanitized, reservation)),
        }
    }
}

} // verus!
