use tofnd::kv_manager::KvManager;
use tofnd::mnemonic::{handle_existing, handle_export, handle_insert};
use tofnd::TofndError;

#[test]
fn insert_then_seed() {
    let mut kv = KvManager::new();
    handle_insert(&mut kv, vec![7; 64]).unwrap();
    let seed = kv.seed().unwrap();
    assert_eq!(seed.as_bytes(), &vec![7; 64]);
}

#[test]
fn mnemonic_is_written_at_most_once() {
    let mut kv = KvManager::new();
    handle_insert(&mut kv, vec![7; 64]).unwrap();
    assert!(matches!(
        handle_insert(&mut kv, vec![8; 64]),
        Err(TofndError::MnemonicAlreadyPresent)
    ));
    // the first material is untouched
    assert_eq!(kv.seed().unwrap().as_bytes(), &vec![7; 64]);
}

#[test]
fn insert_rejects_wrong_length() {
    let mut kv = KvManager::new();
    assert!(matches!(
        handle_insert(&mut kv, vec![7; 63]),
        Err(TofndError::InvalidArgument)
    ));
    assert!(matches!(
        handle_insert(&mut kv, vec![]),
        Err(TofndError::InvalidArgument)
    ));
}

#[test]
fn existing_requires_material() {
    let mut kv = KvManager::new();
    assert!(matches!(
        handle_existing(&kv),
        Err(TofndError::MnemonicMissing)
    ));
    handle_insert(&mut kv, vec![1; 64]).unwrap();
    assert!(handle_existing(&kv).is_ok());
}

#[test]
fn seed_missing_without_material() {
    let kv = KvManager::new();
    assert!(matches!(kv.seed(), Err(TofndError::MnemonicMissing)));
}

#[test]
fn export_import_roundtrip_preserves_seed() {
    // create in one home, export, import the exported bytes in a fresh
    // home: the seed must be byte-for-byte equal
    let mut first = KvManager::new();
    handle_insert(&mut first, (0..64).collect()).unwrap();
    let exported = handle_export(&first).unwrap();

    let mut second = KvManager::new();
    handle_insert(&mut second, exported).unwrap();

    assert_eq!(
        first.seed().unwrap().as_bytes(),
        second.seed().unwrap().as_bytes()
    );
}

#[test]
fn export_requires_material() {
    let kv = KvManager::new();
    assert!(matches!(
        handle_export(&kv),
        Err(TofndError::MnemonicMissing)
    ));
}

#[test]
fn seed_rejects_wrong_length_material() {
    // material written behind the manager's back with the wrong size
    let mut kv = KvManager::new();
    let reservation = kv.reserve_key(b"mnemonic".to_vec()).unwrap();
    kv.put(reservation, vec![1; 10]).unwrap();
    assert!(matches!(kv.seed(), Err(TofndError::Deserialization)));
}
