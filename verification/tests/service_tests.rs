use tofnd::config::Config;
use tofnd::gg20::sign::SignInitOutcome;
use tofnd::gg20::Gg20Service;
use tofnd::kv_manager::error::{InnerKvError, KvError};
use tofnd::kv_manager::KvManager;
use tofnd::mnemonic::handle_insert;
use tofnd::proto::{KeyPresenceResponse, KeygenInit, KeygenOutput, RecoverRequest, SignInit};
use tofnd::TofndError;

const SEED: [u8; 64] = [7; 64];
const KEY_UID: &[u8] = b"Gus-test-key";

fn service_with_seed() -> Gg20Service {
    let mut kv = KvManager::new();
    handle_insert(&mut kv, SEED.to_vec()).unwrap();
    Gg20Service::new(kv, Config::default())
}

fn sample_init() -> KeygenInit {
    KeygenInit {
        new_key_uid: KEY_UID.to_vec(),
        party_uids: vec![b"A".to_vec(), b"B".to_vec(), b"C".to_vec(), b"D".to_vec()],
        party_share_counts: vec![1, 1, 1, 1],
        my_party_index: 0,
        threshold: 2,
    }
}

/// Install the share bundle for `KEY_UID` through the recovery path.
fn install_bundle(service: &mut Gg20Service) -> Vec<u8> {
    let srk = tofn::sdk::api::SecretRecoveryKey::try_from(&SEED[..]).unwrap();
    let mut nonce = KEY_UID.to_vec();
    nonce.extend_from_slice(&0u32.to_le_bytes());
    let vk = tofn::ecdsa::keygen(&srk, &nonce)
        .unwrap()
        .encoded_verifying_key()
        .to_vec();
    let request = RecoverRequest {
        keygen_init: Some(sample_init()),
        keygen_output: Some(KeygenOutput {
            pub_key: vk.clone(),
            group_recover_info: vec![],
            private_recover_info: tofn::sdk::api::serialize(&vec![vk.clone()]).unwrap(),
        }),
    };
    service.handle_recover(request).unwrap();
    vk
}

fn sample_sign_init(message: Vec<u8>, signers: Vec<&[u8]>) -> SignInit {
    SignInit {
        new_sig_uid: b"sig-1".to_vec(),
        key_uid: KEY_UID.to_vec(),
        party_uids: signers.into_iter().map(|s| s.to_vec()).collect(),
        message_to_sign: message,
    }
}

#[test]
fn key_presence_reports_absence_and_presence() {
    let mut service = service_with_seed();
    assert_eq!(
        service.handle_key_presence(&KEY_UID.to_vec()),
        KeyPresenceResponse::Absent
    );
    install_bundle(&mut service);
    assert_eq!(
        service.handle_key_presence(&KEY_UID.to_vec()),
        KeyPresenceResponse::Present
    );
}

#[test]
fn keygen_init_reserves_the_key() {
    let mut service = service_with_seed();
    let (sanitized, _reservation) = service.handle_keygen_init(sample_init()).unwrap();
    assert_eq!(sanitized.new_key_uid, KEY_UID.to_vec());
    assert_eq!(sanitized.my_index, 0);
    // the reservation blocks a duplicate keygen before any traffic
    assert!(matches!(
        service.handle_keygen_init(sample_init()),
        Err(TofndError::Kv(KvError::ReserveErr(
            InnerKvError::LogicalErr(_)
        )))
    ));
}

#[test]
fn duplicate_keygen_after_commit_fails() {
    let mut service = service_with_seed();
    install_bundle(&mut service);
    assert!(matches!(
        service.handle_keygen_init(sample_init()),
        Err(TofndError::Kv(KvError::ReserveErr(
            InnerKvError::LogicalErr(_)
        )))
    ));
}

#[test]
fn keygen_init_rejects_invalid_records() {
    let mut service = service_with_seed();
    let empty_uid = KeygenInit {
        new_key_uid: vec![],
        ..sample_init()
    };
    assert!(matches!(
        service.handle_keygen_init(empty_uid),
        Err(TofndError::InvalidArgument)
    ));
    let index_out_of_range = KeygenInit {
        my_party_index: 4,
        ..sample_init()
    };
    assert!(matches!(
        service.handle_keygen_init(index_out_of_range),
        Err(TofndError::InvalidArgument)
    ));
    let zero_count = KeygenInit {
        party_share_counts: vec![1, 0, 1, 1],
        ..sample_init()
    };
    assert!(matches!(
        service.handle_keygen_init(zero_count),
        Err(TofndError::InvalidArgument)
    ));
    let misaligned_counts = KeygenInit {
        party_share_counts: vec![1, 1, 1],
        ..sample_init()
    };
    assert!(matches!(
        service.handle_keygen_init(misaligned_counts),
        Err(TofndError::InvalidArgument)
    ));
}

#[test]
fn sign_init_rejects_short_message() {
    let mut service = service_with_seed();
    install_bundle(&mut service);
    let init = sample_sign_init(vec![0x2A; 31], vec![b"A", b"B", b"C"]);
    assert!(matches!(
        service.handle_sign_init(&init),
        Err(TofndError::InvalidArgument)
    ));
}

#[test]
fn sign_init_for_absent_key_needs_recover() {
    let service = service_with_seed();
    let init = sample_sign_init(vec![0x2A; 32], vec![b"A", b"B", b"C"]);
    assert!(matches!(
        service.handle_sign_init(&init),
        Ok(SignInitOutcome::NeedRecover)
    ));
    // nothing was written
    assert_eq!(
        service.handle_key_presence(&KEY_UID.to_vec()),
        KeyPresenceResponse::Absent
    );
}

#[test]
fn sign_init_loads_the_bundle() {
    let mut service = service_with_seed();
    let vk = install_bundle(&mut service);
    let init = sample_sign_init(vec![0x2A; 32], vec![b"A", b"C", b"D"]);
    match service.handle_sign_init(&init) {
        Ok(SignInitOutcome::Proceed(bundle)) => {
            assert_eq!(bundle.shares, vec![vk]);
        }
        other => panic!("unexpected outcome: {:?}", other),
    }
}

#[test]
fn sign_init_rejects_out_of_order_signers() {
    let mut service = service_with_seed();
    install_bundle(&mut service);
    let init = sample_sign_init(vec![0x2A; 32], vec![b"C", b"A"]);
    assert!(matches!(
        service.handle_sign_init(&init),
        Err(TofndError::InvalidArgument)
    ));
    let unknown = sample_sign_init(vec![0x2A; 32], vec![b"A", b"E"]);
    assert!(matches!(
        service.handle_sign_init(&unknown),
        Err(TofndError::InvalidArgument)
    ));
}

#[test]
fn sign_after_bundle_deletion_needs_recover() {
    let mut service = service_with_seed();
    let vk = install_bundle(&mut service);
    // the party's bundle is deleted, as after a lost disk
    service.kv_manager.remove(&KEY_UID.to_vec()).unwrap();
    let init = sample_sign_init(vec![0x2A; 32], vec![b"A", b"B", b"C", b"D"]);
    assert!(matches!(
        service.handle_sign_init(&init),
        Ok(SignInitOutcome::NeedRecover)
    ));
    // recovery reinstalls the bundle and sign can proceed again
    install_bundle(&mut service);
    match service.handle_sign_init(&init) {
        Ok(SignInitOutcome::Proceed(bundle)) => assert_eq!(bundle.shares, vec![vk]),
        other => panic!("unexpected outcome: {:?}", other),
    }
}
