//! Domain types of the service: the persisted per-key share bundle and
//! the validated keygen init record.

use vstd::prelude::*;

verus! {

/// The roster of one keygen ceremony: the ordered party identifiers,
/// how many shares each party holds, and this party's position.
#[derive(Debug)]
pub struct TofndInfo {
    pub party_uids: Vec<Vec<u8>>,
    pub share_counts: Vec<u32>,
    pub index: usize,
}

/// The persisted outcome of one keygen ceremony for this party: the
/// per-share key material together with the roster it belongs to.
/// Written exactly once per key identifier; never mutated in place.
#[derive(Debug)]
pub struct PartyInfo {
    pub shares: Vec<Vec<u8>>,
    pub tofnd: TofndInfo,
}

/// Mathematical image of a `PartyInfo`.
pub struct PartyInfoV {
    pub shares: Seq<Seq<u8>>,
    pub party_uids: Seq<Seq<u8>>,
    pub share_counts: Seq<u32>,
    pub index: int,
}

impl View for PartyInfo {
    type V = PartyInfoV;

    open spec fn view(&self) -> PartyInfoV {
        PartyInfoV {
            shares: self.shares.deep_view(),
            party_uids: self.tofnd.party_uids.deep_view(),
            share_counts: self.tofnd.share_counts@,
            index: self.tofnd.index as int,
        }
    }
}

/// The embedded invariants of a share bundle: a non-empty roster, one
/// share count per party, this party's index in range, every count
/// positive, and exactly as many shares as this party's count.
pub open spec fn party_info_wf(p: PartyInfoV) -> bool {
    &&& p.party_uids.len() > 0
    &&& p.share_counts.len() == p.party_uids.len()
    &&& 0 <= p.index < p.party_uids.len()
    &&& forall|i: int| 0 <= i < p.share_counts.len() ==> #[trigger] p.share_counts[i] > 0
    &&& p.shares.len() == p.share_counts[p.index]
}

impl PartyInfo {
    /// Bundle recovered share material with the roster it belongs to.
    pub fn get_party_info(
        shares: Vec<Vec<u8>>,
        uids: Vec<Vec<u8>>,
        share_counts: Vec<u32>,
        tofnd_index: usize,
    ) -> (r: PartyInfo)
        ensures
            r@.shares == shares.deep_view(),
            r@.party_uids == uids.deep_view(),
            r@.share_counts == share_counts@,
            r@.index == tofnd_index as int,
    {
        PartyInfo {
            shares,
            tofnd: TofndInfo { party_uids: uids, share_counts, index: tofnd_index },
        }
    }
}

/// A keygen init record that passed validation: identifiers are
/// distinct, the index is in range, the counts are positive and their
/// sum covers the threshold.
#[derive(Debug)]
pub struct KeygenInitSanitized {
    pub new_key_uid: Vec<u8>,
    pub party_uids: Vec<Vec<u8>>,
    pub party_share_counts: Vec<u32>,
    pub my_index: usize,
    pub threshold: u32,
}

} // verus!
