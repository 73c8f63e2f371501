use tofnd::config::Config;
use tofnd::gg20::Gg20Service;
use tofnd::kv_manager::error::{InnerKvError, KvError};
use tofnd::kv_manager::KvManager;
use tofnd::mnemonic::handle_insert;
use tofnd::proto::{KeygenInit, KeygenOutput, RecoverRequest};
use tofnd::TofndError;

const SEED: [u8; 64] = [7; 64];
const KEY_UID: &[u8] = b"Gus-test-key";

fn service_with_seed() -> Gg20Service {
    let mut kv = KvManager::new();
    handle_insert(&mut kv, SEED.to_vec()).unwrap();
    Gg20Service::new(kv, Config::default())
}

fn sample_init() -> KeygenInit {
    KeygenInit {
        new_key_uid: KEY_UID.to_vec(),
        party_uids: vec![b"A".to_vec(), b"B".to_vec(), b"C".to_vec(), b"D".to_vec()],
        party_share_counts: vec![1, 1, 1, 1],
        my_party_index: 0,
        threshold: 2,
    }
}

/// The share key material the daemon is expected to re-derive: tofn's
/// deterministic keygen on the seed and the per-share nonce.
fn expected_vk(uid: &[u8], share_index: u32) -> Vec<u8> {
    let srk = tofn::sdk::api::SecretRecoveryKey::try_from(&SEED[..]).unwrap();
    let mut nonce = uid.to_vec();
    nonce.extend_from_slice(&share_index.to_le_bytes());
    let keypair = tofn::ecdsa::keygen(&srk, &nonce).unwrap();
    keypair.encoded_verifying_key().to_vec()
}

fn sample_output(share_vks: &Vec<Vec<u8>>) -> KeygenOutput {
    KeygenOutput {
        pub_key: share_vks[0].clone(),
        group_recover_info: vec![],
        private_recover_info: tofn::sdk::api::serialize(share_vks).unwrap(),
    }
}

#[test]
fn recover_success_installs_bundle() {
    let mut service = service_with_seed();
    let vks = vec![expected_vk(KEY_UID, 0)];
    let request = RecoverRequest {
        keygen_init: Some(sample_init()),
        keygen_output: Some(sample_output(&vks)),
    };
    service.handle_recover(request).unwrap();
    assert!(service.kv_manager.exists_key(&KEY_UID.to_vec()).unwrap());
    let bundle = service.kv_manager.get_party_info(&KEY_UID.to_vec()).unwrap();
    assert_eq!(bundle.shares, vks);
    assert_eq!(bundle.tofnd.index, 0);
    assert_eq!(bundle.tofnd.share_counts, vec![1, 1, 1, 1]);
}

#[test]
fn recover_multi_share_party() {
    let mut service = service_with_seed();
    let init = KeygenInit {
        party_share_counts: vec![2, 1, 1, 1],
        ..sample_init()
    };
    let vks = vec![expected_vk(KEY_UID, 0), expected_vk(KEY_UID, 1)];
    let request = RecoverRequest {
        keygen_init: Some(init),
        keygen_output: Some(sample_output(&vks)),
    };
    service.handle_recover(request).unwrap();
    let bundle = service.kv_manager.get_party_info(&KEY_UID.to_vec()).unwrap();
    assert_eq!(bundle.shares, vks);
}

#[test]
fn recover_is_idempotent() {
    let mut service = service_with_seed();
    let vks = vec![expected_vk(KEY_UID, 0)];
    let request = RecoverRequest {
        keygen_init: Some(sample_init()),
        keygen_output: Some(sample_output(&vks)),
    };
    service.handle_recover(request).unwrap();
    // a replay with an arbitrary output succeeds and changes nothing
    let replay = RecoverRequest {
        keygen_init: Some(sample_init()),
        keygen_output: Some(KeygenOutput {
            pub_key: vec![],
            group_recover_info: vec![],
            private_recover_info: vec![0xDE, 0xAD],
        }),
    };
    service.handle_recover(replay).unwrap();
    let bundle = service.kv_manager.get_party_info(&KEY_UID.to_vec()).unwrap();
    assert_eq!(bundle.shares, vks);
}

#[test]
fn recover_missing_init_field() {
    let mut service = service_with_seed();
    let request = RecoverRequest {
        keygen_init: None,
        keygen_output: Some(sample_output(&vec![expected_vk(KEY_UID, 0)])),
    };
    assert!(matches!(
        service.handle_recover(request),
        Err(TofndError::MissingKeygenInit)
    ));
}

#[test]
fn recover_missing_output_field() {
    let mut service = service_with_seed();
    let request = RecoverRequest {
        keygen_init: Some(sample_init()),
        keygen_output: None,
    };
    assert!(matches!(
        service.handle_recover(request),
        Err(TofndError::MissingKeygenOutput)
    ));
}

#[test]
fn recover_rejects_duplicate_party_uids() {
    let mut service = service_with_seed();
    let init = KeygenInit {
        party_uids: vec![b"A".to_vec(), b"A".to_vec(), b"C".to_vec(), b"D".to_vec()],
        ..sample_init()
    };
    let request = RecoverRequest {
        keygen_init: Some(init),
        keygen_output: Some(sample_output(&vec![expected_vk(KEY_UID, 0)])),
    };
    assert!(matches!(
        service.handle_recover(request),
        Err(TofndError::InvalidArgument)
    ));
    assert!(!service.kv_manager.exists_key(&KEY_UID.to_vec()).unwrap());
}

#[test]
fn recover_rejects_low_threshold_coverage() {
    let mut service = service_with_seed();
    let init = KeygenInit {
        threshold: 4,
        ..sample_init()
    };
    let request = RecoverRequest {
        keygen_init: Some(init),
        keygen_output: Some(sample_output(&vec![expected_vk(KEY_UID, 0)])),
    };
    assert!(matches!(
        service.handle_recover(request),
        Err(TofndError::InvalidArgument)
    ));
}

#[test]
fn recover_fails_on_wrong_share_info() {
    let mut service = service_with_seed();
    let mut vk = expected_vk(KEY_UID, 0);
    vk[0] ^= 0xFF;
    let request = RecoverRequest {
        keygen_init: Some(sample_init()),
        keygen_output: Some(sample_output(&vec![vk])),
    };
    assert!(matches!(
        service.handle_recover(request),
        Err(TofndError::ShareRecoveryFailed { share_index: 0 })
    ));
    assert!(!service.kv_manager.exists_key(&KEY_UID.to_vec()).unwrap());
}

#[test]
fn recover_fails_on_wrong_share_count() {
    let mut service = service_with_seed();
    let vks = vec![expected_vk(KEY_UID, 0), expected_vk(KEY_UID, 1)];
    let request = RecoverRequest {
        keygen_init: Some(sample_init()), // this party owns one share
        keygen_output: Some(sample_output(&vks)),
    };
    assert!(matches!(
        service.handle_recover(request),
        Err(TofndError::InvalidArgument)
    ));
}

#[test]
fn recover_fails_on_undecodable_recovery_info() {
    let mut service = service_with_seed();
    let request = RecoverRequest {
        keygen_init: Some(sample_init()),
        keygen_output: Some(KeygenOutput {
            pub_key: vec![],
            group_recover_info: vec![],
            private_recover_info: vec![],
        }),
    };
    assert!(matches!(
        service.handle_recover(request),
        Err(TofndError::Deserialization)
    ));
}

#[test]
fn recover_requires_mnemonic() {
    let mut service = Gg20Service::new(KvManager::new(), Config::default());
    let request = RecoverRequest {
        keygen_init: Some(sample_init()),
        keygen_output: Some(sample_output(&vec![expected_vk(KEY_UID, 0)])),
    };
    assert!(matches!(
        service.handle_recover(request),
        Err(TofndError::MnemonicMissing)
    ));
}

#[test]
fn recover_fails_while_key_is_reserved() {
    let mut service = service_with_seed();
    let _reservation = service.kv_manager.reserve_key(KEY_UID.to_vec()).unwrap();
    let request = RecoverRequest {
        keygen_init: Some(sample_init()),
        keygen_output: Some(sample_output(&vec![expected_vk(KEY_UID, 0)])),
    };
    assert!(matches!(
        service.handle_recover(request),
        Err(TofndError::Kv(KvError::ReserveErr(
            InnerKvError::LogicalErr(_)
        )))
    ));
}
