//! The share-recovery flow. A recovery request carries the keygen init
//! record and the client-held keygen output; the daemon re-derives this
//! party's share key material from its own seed, checks it against the
//! supplied recovery info, and reinstalls the share bundle under a
//! fresh reservation. A request for a key that is already present
//! succeeds without touching the store.

use vstd::prelude::*;

use crate::gg20::crypto::{
    derive_share_verifying_key, derived_verifying_key, deserialize_share_infos, share_infos_of,
    share_nonce, share_nonce_bytes,
};
use crate::gg20::keygen::valid_keygen_init_rec;
use crate::gg20::types::{KeygenInitSanitized, PartyInfo, PartyInfoV};
use crate::gg20::Gg20Service;
use crate::kv_manager::error::{InnerKvError, KvError};
use crate::kv_manager::kv::{
    bytes_eq, copy_bytes, kv_after_put, kv_after_reserve, kv_committed, kv_value,
};
use crate::kv_manager::mnemonic_key;
use crate::kv_manager::value::spec_encode_party_info;
use crate::mnemonic::SecretRecoveryKey;
use crate::proto::{KeygenOutput, RecoverRequest};
use crate::{TofndError, TofndResult};

verus! {

/// Share `i` recovers: the key material derived from the seed and the
/// share's session nonce is exactly the supplied recovery info.
pub open spec fn share_ok(seed: Seq<u8>, uid: Seq<u8>, infos: Seq<Seq<u8>>, i: int) -> bool {
    derived_verifying_key(seed, share_nonce(uid, i)) == Some(infos[i])
}

/// Every share of the list recovers.
pub open spec fn all_shares_ok(seed: Seq<u8>, uid: Seq<u8>, infos: Seq<Seq<u8>>) -> bool {
    forall|i: int| 0 <= i < infos.len() ==> #[trigger] share_ok(seed, uid, infos, i)
}

/// The bundle that a successful recovery stores: the recovered share
/// material together with the sanitized roster.
pub open spec fn stored_party_info(init: KeygenInitSanitized, shares: Seq<Seq<u8>>) -> PartyInfoV {
    PartyInfoV {
        shares,
        party_uids: init.party_uids.deep_view(),
        share_counts: init.party_share_counts@,
        index: init.my_index as int,
    }
}

impl Gg20Service {
    /// Re-derive this party's share key material from the seed and
    /// check it, share by share, against the supplied recovery info.
    /// The info list must decode and must hold exactly one entry per
    /// share this party owns; the first share that fails to recover
    /// aborts the whole recovery with its index.
    pub fn recover_secret_key_shares(
        &self,
        secret_recovery_key: &SecretRecoveryKey,
        init: &KeygenInitSanitized,
        output: &KeygenOutput,
    ) -> (r: TofndResult<Vec<Vec<u8>>>)
        ensures
            init.my_index >= init.party_share_counts@.len() ==> r matches Err(
                TofndError::InvalidArgument,
            ),
            init.my_index < init.party_share_counts@.len() && init.party_share_counts@[
                init.my_index as int] == 0 ==> r matches Err(TofndError::InvalidArgument),
            init.my_index < init.party_share_counts@.len() && init.party_share_counts@[
                init.my_index as int] > 0 && share_infos_of(output.private_recover_info@) is None
                ==> r matches Err(TofndError::Deserialization),
            init.my_index < init.party_share_counts@.len() && init.party_share_counts@[
                init.my_index as int] > 0 && (share_infos_of(output.private_recover_info@)
                matches Some(infos) && infos.len() != init.party_share_counts@[
                init.my_index as int]) ==> r matches Err(TofndError::InvalidArgument),
            init.my_index < init.party_share_counts@.len() && init.party_share_counts@[
                init.my_index as int] > 0 && (share_infos_of(output.private_recover_info@)
                matches Some(infos) && infos.len() == init.party_share_counts@[
                init.my_index as int]) ==> match r {
                Ok(v) => {
                    let infos = share_infos_of(output.private_recover_info@)->Some_0;
                    &&& v.deep_view() == infos
                    &&& all_shares_ok(secret_recovery_key@, init.new_key_uid@, infos)
                },
                Err(TofndError::ShareRecoveryFailed { share_index }) => {
                    let infos = share_infos_of(output.private_recover_info@)->Some_0;
                    &&& 0 <= share_index < infos.len()
                    &&& !share_ok(secret_recovery_key@, init.new_key_uid@, infos,
                    share_index as int)
                    &&& forall|j: int|
                        0 <= j < share_index ==> #[trigger] share_ok(
                            secret_recovery_key@,
                            init.new_key_uid@,
                            infos,
                            j,
                        )
                },
                _ => false,
            },
    {
        if init.my_index >= init.party_share_counts.len() {
            return Err(TofndError::InvalidArgument);
        }
        let my_share_count = init.party_share_counts[init.my_index];
        if my_share_count == 0 {
            return Err(TofndError::InvalidArgument);
        }
        let private_info_vec = match deserialize_share_infos(&output.private_recover_info) {
            None => {
                return Err(TofndError::Deserialization);
            },
            Some(v) => v,
        };
        if (private_info_vec.len() as u64) != (my_share_count as u64) {
            return Err(TofndError::InvalidArgument);
        }
        let ghost infos = private_info_vec.deep_view();
        let ghost seed = secret_recovery_key@;
        let ghost uid = init.new_key_uid@;
        let seed_bytes = secret_recovery_key.as_bytes();
        let n = private_info_vec.len();
        let mut shares: Vec<Vec<u8>> = Vec::new();
        let mut i: usize = 0;
        while i < n
            invariant
                init.my_index < init.party_share_counts@.len(),
                init.party_share_counts@[init.my_index as int] > 0,
                share_infos_of(output.private_recover_info@) == Some(infos),
                infos.len() == init.party_share_counts@[init.my_index as int],
                n == private_info_vec@.len(),
                n <= 0xffff_ffff,
                infos == private_info_vec.deep_view(),
                infos.len() == n,
                seed == secret_recovery_key@,
                seed_bytes@ == seed,
                seed_bytes@.len() == 64,
                uid == init.new_key_uid@,
                0 <= i <= n,
                shares.deep_view() == infos.subrange(0, i as int),
                forall|j: int| 0 <= j < i ==> #[trigger] share_ok(seed, uid, infos, j),
            decreases n - i,
        {
            proof {
                assert(infos[i as int] == private_info_vec@[i as int]@);
            }
            let nonce = share_nonce_bytes(&init.new_key_uid, i as u32);
            match derive_share_verifying_key(seed_bytes, &nonce) {
                None => {
                    return Err(TofndError::ShareRecoveryFailed { share_index: i });
                },
                Some(vk) => {
                    if !bytes_eq(&vk, &private_info_vec[i]) {
                        return Err(TofndError::ShareRecoveryFailed { share_index: i });
                    }
                    let ghost old_shares = shares.deep_view();
                    let ghost vk_view = vk@;
                    shares.push(vk);
                    proof {
                        assert(shares.deep_view() =~~= old_shares.push(vk_view));
                        assert(shares.deep_view() =~= infos.subrange(0, i + 1));
                    }
                },
            }
            i += 1;
        }
        proof {
            assert(infos.subrange(0, n as int) =~= infos);
        }
        Ok(shares)
    }

    /// Reserve the new key identifier and commit the assembled share
    /// bundle under it. Fails, writing nothing, iff the identifier is
    /// already taken by a value or a reservation.
    pub fn update_share_kv_store(
        &mut self,
        keygen_init_sanitized: KeygenInitSanitized,
        secret_key_shares: Vec<Vec<u8>>,
    ) -> (r: TofndResult<()>)
        ensures
            final(self).cfg == old(self).cfg,
            old(self).kv_manager@.contains_key(keygen_init_sanitized.new_key_uid@) ==> {
                &&& r matches Err(
                    TofndError::Kv(KvError::ReserveErr(InnerKvError::LogicalErr(_))),
                )
                &&& final(self).kv_manager@ == old(self).kv_manager@
            },
            !old(self).kv_manager@.contains_key(keygen_init_sanitized.new_key_uid@) ==> {
                &&& r is Ok
                &&& final(self).kv_manager@ == kv_after_put(
                    kv_after_reserve(old(self).kv_manager@, keygen_init_sanitized.new_key_uid@),
                    keygen_init_sanitized.new_key_uid@,
                    spec_encode_party_info(
                        stored_party_info(keygen_init_sanitized, secret_key_shares.deep_view()),
                    ),
                )
            },
    {
        let key = copy_bytes(&keygen_init_sanitized.new_key_uid);
        let reservation = match self.kv_manager.reserve_key(key) {
            Err(err) => {
                return Err(TofndError::Kv(err));
            },
            Ok(rv) => rv,
        };
        let kv_data = PartyInfo::get_party_info(
            secret_key_shares,
            keygen_init_sanitized.party_uids,
            keygen_init_sanitized.party_share_counts,
            keygen_init_sanitized.my_index,
        );
        match self.kv_manager.put_party_info(reservation, &kv_data) {
            Ok(()) => Ok(()),
            Err(err) => Err(TofndError::Kv(err)),
        }
    }

    /// Serve one recovery request, start to finish. A request whose
    /// key identifier already holds a committed bundle succeeds without
    /// mutating the store; every failure leaves the store unchanged.
    pub fn handle_recover(&mut self, request: RecoverRequest) -> (r: TofndResult<()>)
        ensures
            final(self).cfg == old(self).cfg,
            request.keygen_init is None ==> {
                &&& r matches Err(TofndError::MissingKeygenInit)
                &&& final(self).kv_manager@ == old(self).kv_manager@
            },
            ({
                let ki = request.keygen_init->Some_0;
                request.keygen_init is Some && !valid_keygen_init_rec(ki) ==> {
                    &&& r matches Err(TofndError::InvalidArgument)
                    &&& final(self).kv_manager@ == old(self).kv_manager@
                }
            }),
            ({
                let ki = request.keygen_init->Some_0;
                request.keygen_init is Some && valid_keygen_init_rec(ki)
                    && request.keygen_output is None ==> {
                    &&& r matches Err(TofndError::MissingKeygenOutput)
                    &&& final(self).kv_manager@ == old(self).kv_manager@
                }
            }),
            ({
                let m = old(self).kv_manager@;
                let ki = request.keygen_init->Some_0;
                request.keygen_init is Some && valid_keygen_init_rec(ki)
                    && request.keygen_output is Some && kv_committed(m, ki.new_key_uid@) ==> {
                    &&& r is Ok
                    &&& final(self).kv_manager@ == m
                }
            }),
            ({
                let m = old(self).kv_manager@;
                let ki = request.keygen_init->Some_0;
                request.keygen_init is Some && valid_keygen_init_rec(ki)
                    && request.keygen_output is Some && !kv_committed(m, ki.new_key_uid@)
                    && !kv_committed(m, mnemonic_key()) ==> {
                    &&& r matches Err(TofndError::MnemonicMissing)
                    &&& final(self).kv_manager@ == m
                }
            }),
            ({
                let m = old(self).kv_manager@;
                let ki = request.keygen_init->Some_0;
                request.keygen_init is Some && valid_keygen_init_rec(ki)
                    && request.keygen_output is Some && !kv_committed(m, ki.new_key_uid@)
                    && kv_committed(m, mnemonic_key()) && kv_value(m, mnemonic_key()).len()
                    != 64 ==> {
                    &&& r matches Err(TofndError::Deserialization)
                    &&& final(self).kv_manager@ == m
                }
            }),
            ({
                let m = old(self).kv_manager@;
                let ki = request.keygen_init->Some_0;
                let ko = request.keygen_output->Some_0;
                request.keygen_init is Some && valid_keygen_init_rec(ki)
                    && request.keygen_output is Some && !kv_committed(m, ki.new_key_uid@)
                    && recover_seed_ok(m) && share_infos_of(ko.private_recover_info@) is None
                    ==> {
                    &&& r matches Err(TofndError::Deserialization)
                    &&& final(self).kv_manager@ == m
                }
            }),
            ({
                let m = old(self).kv_manager@;
                let ki = request.keygen_init->Some_0;
                let ko = request.keygen_output->Some_0;
                let infos = share_infos_of(ko.private_recover_info@)->Some_0;
                request.keygen_init is Some && valid_keygen_init_rec(ki)
                    && request.keygen_output is Some && !kv_committed(m, ki.new_key_uid@)
                    && recover_seed_ok(m) && share_infos_of(ko.private_recover_info@) is Some
                    && infos.len() != ki.party_share_counts@[ki.my_party_index as int] ==> {
                    &&& r matches Err(TofndError::InvalidArgument)
                    &&& final(self).kv_manager@ == m
                }
            }),
            ({
                let m = old(self).kv_manager@;
                let ki = request.keygen_init->Some_0;
                let ko = request.keygen_output->Some_0;
                let infos = share_infos_of(ko.private_recover_info@)->Some_0;
                request.keygen_init is Some && valid_keygen_init_rec(ki)
                    && request.keygen_output is Some && !kv_committed(m, ki.new_key_uid@)
                    && recover_seed_ok(m) && share_infos_of(ko.private_recover_info@) is Some
                    && infos.len() == ki.party_share_counts@[ki.my_party_index as int]
                    && !all_shares_ok(recover_seed(m), ki.new_key_uid@, infos) ==> {
                    &&& r matches Err(TofndError::ShareRecoveryFailed { .. })
                    &&& final(self).kv_manager@ == m
                }
            }),
            ({
                let m = old(self).kv_manager@;
                let ki = request.keygen_init->Some_0;
                let ko = request.keygen_output->Some_0;
                let infos = share_infos_of(ko.private_recover_info@)->Some_0;
                request.keygen_init is Some && valid_keygen_init_rec(ki)
                    && request.keygen_output is Some && !kv_committed(m, ki.new_key_uid@)
                    && recover_seed_ok(m) && share_infos_of(ko.private_recover_info@) is Some
                    && infos.len() == ki.party_share_counts@[ki.my_party_index as int]
                    && all_shares_ok(recover_seed(m), ki.new_key_uid@, infos) && m.contains_key(
                    ki.new_key_uid@,
                ) ==> {
                    &&& r matches Err(
                        TofndError::Kv(KvError::ReserveErr(InnerKvError::LogicalErr(_))),
                    )
                    &&& final(self).kv_manager@ == m
                }
            }),
            ({
                let m = old(self).kv_manager@;
                let ki = request.keygen_init->Some_0;
                let ko = request.keygen_output->Some_0;
                let infos = share_infos_of(ko.private_recover_info@)->Some_0;
                request.keygen_init is Some && valid_keygen_init_rec(ki)
                    && request.keygen_output is Some && !kv_committed(m, ki.new_key_uid@)
                    && recover_seed_ok(m) && share_infos_of(ko.private_recover_info@) is Some
                    && infos.len() == ki.party_share_counts@[ki.my_party_index as int]
                    && all_shares_ok(recover_seed(m), ki.new_key_uid@, infos) && !m.contains_key(
                    ki.new_key_uid@,
                ) ==> {
                    &&& r is Ok
                    &&& final(self).kv_manager@ == kv_after_put(
                        kv_after_reserve(m, ki.new_key_uid@),
                        ki.new_key_uid@,
                        spec_encode_party_info(
                            PartyInfoV {
                                shares: infos,
                                party_uids: ki.party_uids.deep_view(),
                                share_counts: ki.party_share_counts@,
                                index: ki.my_party_index as int,
                            },
                        ),
                    )
                }
            }),
    {
        let keygen_init = match request.keygen_init {
            None => {
                return Err(TofndError::MissingKeygenInit);
            },
            Some(ki) => ki,
        };
        let keygen_init = match Self::keygen_sanitize_args(keygen_init) {
            Err(err) => {
                return Err(err);
            },
            Ok(s) => s,
        };
        let keygen_output = match request.keygen_output {
            None => {
                return Err(TofndError::MissingKeygenOutput);
            },
            Some(ko) => ko,
        };
        match self.kv_manager.exists_key(&keygen_init.new_key_uid) {
            Ok(true) => {
                return Ok(());
            },
            Ok(false) => {},
            Err(err) => {
                return Err(TofndError::Kv(err));
            },
        }
        let secret_recovery_key = match self.kv_manager.seed() {
            Err(err) => {
                return Err(err);
            },
            Ok(s) => s,
        };
        let secret_key_shares = match self.recover_secret_key_shares(
            &secret_recovery_key,
            &keygen_init,
            &keygen_output,
        ) {
            Err(err) => {
                return Err(err);
            },
            Ok(v) => v,
        };
        self.update_share_kv_store(keygen_init, secret_key_shares)
    }
}

/// What a successful recovery stores can be read back: the bundle
/// assembled from a validated init record and a share list that
/// matches this party's share count is well-formed, so the store's
/// reader accepts it and decoding its stored encoding yields the
/// bundle unchanged.
pub proof fn lemma_recovered_bundle_reads_back(ki: crate::proto::KeygenInit, infos: Seq<Seq<u8>>)
    requires
        valid_keygen_init_rec(ki),
        infos.len() == ki.party_share_counts@[ki.my_party_index as int],
        crate::kv_manager::value::party_info_bounded(
            PartyInfoV {
                shares: infos,
                party_uids: ki.party_uids.deep_view(),
                share_counts: ki.party_share_counts@,
                index: ki.my_party_index as int,
            },
        ),
    ensures
        ({
            let bundle = PartyInfoV {
                shares: infos,
                party_uids: ki.party_uids.deep_view(),
                share_counts: ki.party_share_counts@,
                index: ki.my_party_index as int,
            };
            &&& crate::gg20::types::party_info_wf(bundle)
            &&& crate::kv_manager::value::spec_decode_party_info(spec_encode_party_info(bundle))
                == Some(bundle)
        }),
{
    let bundle = PartyInfoV {
        shares: infos,
        party_uids: ki.party_uids.deep_view(),
        share_counts: ki.party_share_counts@,
        index: ki.my_party_index as int,
    };
    assert(crate::gg20::types::party_info_wf(bundle));
    crate::kv_manager::value::lemma_party_info_round_trip(bundle);
}

/// The stored seed material is present and usable.
pub open spec fn recover_seed_ok(m: crate::kv_manager::kv::KvMap) -> bool {
    kv_committed(m, mnemonic_key()) && kv_value(m, mnemonic_key()).len() == 64
}

/// The seed bytes that recovery derives from.
pub open spec fn recover_seed(m: crate::kv_manager::kv::KvMap) -> Seq<u8> {
    kv_value(m, mnemonic_key())
}

} // verus!
