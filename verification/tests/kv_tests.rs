use tofnd::gg20::types::PartyInfo;
use tofnd::kv_manager::error::{InnerKvError, KvError};
use tofnd::kv_manager::KvManager;

fn key(s: &str) -> Vec<u8> {
    s.as_bytes().to_vec()
}

#[test]
fn reserve_put_get_roundtrip() {
    let mut kv = KvManager::new();
    let reservation = kv.reserve_key(key("alpha")).unwrap();
    kv.put(reservation, vec![1, 2, 3]).unwrap();
    assert!(kv.exists_key(&key("alpha")).unwrap());
    assert_eq!(kv.get(&key("alpha")).unwrap(), vec![1, 2, 3]);
}

#[test]
fn second_reserve_fails() {
    let mut kv = KvManager::new();
    let _reservation = kv.reserve_key(key("alpha")).unwrap();
    let second = kv.reserve_key(key("alpha"));
    assert!(matches!(
        second,
        Err(KvError::ReserveErr(InnerKvError::LogicalErr(_)))
    ));
}

#[test]
fn committed_key_blocks_reserve() {
    let mut kv = KvManager::new();
    let reservation = kv.reserve_key(key("alpha")).unwrap();
    kv.put(reservation, vec![9]).unwrap();
    assert!(matches!(
        kv.reserve_key(key("alpha")),
        Err(KvError::ReserveErr(InnerKvError::LogicalErr(_)))
    ));
}

#[test]
fn reservation_is_not_existence() {
    let mut kv = KvManager::new();
    let _reservation = kv.reserve_key(key("alpha")).unwrap();
    assert!(!kv.exists_key(&key("alpha")).unwrap());
    assert!(matches!(
        kv.get(&key("alpha")),
        Err(KvError::GetErr(InnerKvError::LogicalErr(_)))
    ));
}

#[test]
fn unreserve_frees_the_key() {
    let mut kv = KvManager::new();
    let reservation = kv.reserve_key(key("alpha")).unwrap();
    kv.unreserve_key(reservation);
    assert!(!kv.exists_key(&key("alpha")).unwrap());
    let again = kv.reserve_key(key("alpha"));
    assert!(again.is_ok());
}

#[test]
fn remove_returns_value_and_frees() {
    let mut kv = KvManager::new();
    let reservation = kv.reserve_key(key("alpha")).unwrap();
    kv.put(reservation, vec![4, 5]).unwrap();
    assert_eq!(kv.remove(&key("alpha")).unwrap(), vec![4, 5]);
    assert!(!kv.exists_key(&key("alpha")).unwrap());
    assert!(matches!(
        kv.remove(&key("alpha")),
        Err(KvError::GetErr(InnerKvError::LogicalErr(_)))
    ));
}

#[test]
fn distinct_keys_do_not_interfere() {
    let mut kv = KvManager::new();
    let ra = kv.reserve_key(key("a")).unwrap();
    let rb = kv.reserve_key(key("b")).unwrap();
    kv.put(ra, vec![1]).unwrap();
    kv.put(rb, vec![2]).unwrap();
    assert_eq!(kv.get(&key("a")).unwrap(), vec![1]);
    assert_eq!(kv.get(&key("b")).unwrap(), vec![2]);
}

fn sample_party_info() -> PartyInfo {
    PartyInfo::get_party_info(
        vec![vec![0xAA; 33], vec![0xBB; 33]],
        vec![key("alice"), key("bob"), key("carol")],
        vec![2, 1, 3],
        0,
    )
}

#[test]
fn party_info_store_roundtrip() {
    let mut kv = KvManager::new();
    let reservation = kv.reserve_key(key("gus")).unwrap();
    let info = sample_party_info();
    kv.put_party_info(reservation, &info).unwrap();
    let read = kv.get_party_info(&key("gus")).unwrap();
    assert_eq!(read.shares, vec![vec![0xAA; 33], vec![0xBB; 33]]);
    assert_eq!(
        read.tofnd.party_uids,
        vec![key("alice"), key("bob"), key("carol")]
    );
    assert_eq!(read.tofnd.share_counts, vec![2, 1, 3]);
    assert_eq!(read.tofnd.index, 0);
}

#[test]
fn get_party_info_rejects_corrupt_record() {
    let mut kv = KvManager::new();
    let reservation = kv.reserve_key(key("gus")).unwrap();
    kv.put(reservation, vec![0xFF, 0x00, 0x01]).unwrap();
    assert!(matches!(
        kv.get_party_info(&key("gus")),
        Err(KvError::GetErr(InnerKvError::DeserializationErr))
    ));
}

#[test]
fn get_party_info_missing_key() {
    let kv = KvManager::new();
    assert!(matches!(
        kv.get_party_info(&key("gus")),
        Err(KvError::GetErr(InnerKvError::LogicalErr(_)))
    ));
}
