use tofnd::gg20::types::{PartyInfo, TofndInfo};
use tofnd::kv_manager::value::{decode_party_info, encode_party_info};

fn bundle(shares: Vec<Vec<u8>>, uids: Vec<&str>, counts: Vec<u32>, index: usize) -> PartyInfo {
    PartyInfo {
        shares,
        tofnd: TofndInfo {
            party_uids: uids.into_iter().map(|u| u.as_bytes().to_vec()).collect(),
            share_counts: counts,
            index,
        },
    }
}

#[test]
fn encode_decode_roundtrip() {
    let info = bundle(
        vec![vec![1, 2, 3], vec![], vec![255; 40]],
        vec!["A", "B"],
        vec![3, 1],
        0,
    );
    let bytes = encode_party_info(&info);
    let back = decode_party_info(&bytes).unwrap();
    assert_eq!(back.shares, info.shares);
    assert_eq!(back.tofnd.party_uids, info.tofnd.party_uids);
    assert_eq!(back.tofnd.share_counts, info.tofnd.share_counts);
    assert_eq!(back.tofnd.index, info.tofnd.index);
}

#[test]
fn encode_is_length_prefixed() {
    let info = bundle(vec![vec![9]], vec!["A"], vec![1], 0);
    let bytes = encode_party_info(&info);
    // share list count = 1, first share length = 1, little-endian u64s
    assert_eq!(&bytes[0..8], &[1, 0, 0, 0, 0, 0, 0, 0]);
    assert_eq!(&bytes[8..16], &[1, 0, 0, 0, 0, 0, 0, 0]);
    assert_eq!(bytes[16], 9);
}

#[test]
fn decode_rejects_truncated_record() {
    let info = bundle(vec![vec![1, 2, 3]], vec!["A"], vec![3], 0);
    let mut bytes = encode_party_info(&info);
    bytes.pop();
    assert!(decode_party_info(&bytes).is_none());
}

#[test]
fn decode_rejects_trailing_bytes() {
    let info = bundle(vec![vec![1, 2, 3]], vec!["A"], vec![3], 0);
    let mut bytes = encode_party_info(&info);
    bytes.push(0);
    assert!(decode_party_info(&bytes).is_none());
}

#[test]
fn decode_rejects_zero_share_count() {
    let info = bundle(vec![], vec!["A"], vec![0], 0);
    let bytes = encode_party_info(&info);
    assert!(decode_party_info(&bytes).is_none());
}

#[test]
fn decode_rejects_index_out_of_range() {
    let info = bundle(vec![vec![1]], vec!["A"], vec![1], 5);
    let bytes = encode_party_info(&info);
    assert!(decode_party_info(&bytes).is_none());
}

#[test]
fn decode_rejects_share_count_mismatch() {
    // the bundle claims two shares for this party but carries one
    let info = bundle(vec![vec![1]], vec!["A"], vec![2], 0);
    let bytes = encode_party_info(&info);
    assert!(decode_party_info(&bytes).is_none());
}

#[test]
fn decode_rejects_empty_roster() {
    let info = bundle(vec![], vec![], vec![], 0);
    let bytes = encode_party_info(&info);
    assert!(decode_party_info(&bytes).is_none());
}

#[test]
fn decode_rejects_garbage() {
    assert!(decode_party_info(&vec![]).is_none());
    assert!(decode_party_info(&vec![7; 5]).is_none());
}
