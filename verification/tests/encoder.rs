use my_algo_pay::encode::to_my_algo_transaction;
use my_algo_pay::model::{
    Address, AssetAccept, AssetClawback, AssetConfiguration, AssetFreeze, AssetTransfer,
    KeyRegistration, PayError, Payment, Transaction, TransactionType,
};
use my_algo_pay::wire::WireValue;

fn addr(s: &str) -> Address {
    Address { text: s.to_string() }
}

fn base_txn(txn_type: TransactionType) -> Transaction {
    Transaction {
        fee: 10,
        first_valid: 500,
        last_valid: 510,
        genesis_id: "testnet-v1.0".to_string(),
        genesis_hash: vec![7u8; 32],
        group: None,
        lease: None,
        note: None,
        sender: addr("SENDERADDR"),
        rekey_to: None,
        txn_type,
    }
}

fn get_str(w: &WireValue, k: &str) -> String {
    w.obj_get(k).unwrap().as_str().unwrap().clone()
}

#[test]
fn payment_common_fields_and_tag() {
    let t = base_txn(TransactionType::Payment(Payment {
        amount: 1000,
        receiver: addr("RECEIVERADDR"),
        close_remainder_to: None,
    }));
    let w = to_my_algo_transaction(&t).unwrap();
    assert_eq!(w.obj_get("fee").unwrap().as_num(), Some(10));
    assert_eq!(w.obj_get("flatFee").unwrap().as_bool(), Some(true));
    assert_eq!(w.obj_get("firstRound").unwrap().as_num(), Some(500));
    assert_eq!(w.obj_get("lastRound").unwrap().as_num(), Some(510));
    assert_eq!(get_str(&w, "from"), "SENDERADDR");
    assert_eq!(get_str(&w, "genesisId"), "testnet-v1.0");
    assert_eq!(get_str(&w, "genesisHash"), data_encoding::BASE64.encode(&[7u8; 32]));
    assert_eq!(get_str(&w, "type"), "pay");
    assert_eq!(w.obj_get("amount").unwrap().as_num(), Some(1000));
    assert_eq!(get_str(&w, "to"), "RECEIVERADDR");
    assert!(w.obj_get("group").is_none());
    assert!(w.obj_get("lease").is_none());
    assert!(w.obj_get("note").is_none());
    assert!(w.obj_get("rekeyTo").is_none());
    assert!(w.obj_get("closeRemainderTo").is_none());
}

#[test]
fn payment_close_remainder_present_and_absent() {
    let absent = base_txn(TransactionType::Payment(Payment {
        amount: 1,
        receiver: addr("RECEIVERADDR"),
        close_remainder_to: None,
    }));
    let w = to_my_algo_transaction(&absent).unwrap();
    assert!(w.obj_get("closeRemainderTo").is_none());

    let present = base_txn(TransactionType::Payment(Payment {
        amount: 1,
        receiver: addr("RECEIVERADDR"),
        close_remainder_to: Some(addr("CLOSEADDR")),
    }));
    let w2 = to_my_algo_transaction(&present).unwrap();
    assert_eq!(get_str(&w2, "closeRemainderTo"), "CLOSEADDR");
}

#[test]
fn optional_common_fields_appear_when_present() {
    let mut t = base_txn(TransactionType::Payment(Payment {
        amount: 1,
        receiver: addr("RECEIVERADDR"),
        close_remainder_to: None,
    }));
    t.group = Some(vec![1u8; 32]);
    t.lease = Some(vec![2u8; 32]);
    t.note = Some(vec![9, 8, 7]);
    t.rekey_to = Some(addr("REKEYADDR"));
    let w = to_my_algo_transaction(&t).unwrap();
    assert_eq!(get_str(&w, "group"), data_encoding::BASE64.encode(&[1u8; 32]));
    assert_eq!(get_str(&w, "lease"), data_encoding::BASE64.encode(&[2u8; 32]));
    assert_eq!(
        w.obj_get("note").unwrap().as_bytes().unwrap().as_slice(),
        &[9u8, 8, 7]
    );
    assert_eq!(get_str(&w, "rekeyTo"), "REKEYADDR");
}

#[test]
fn asset_transfer_and_accept_share_tag_but_not_amount() {
    let transfer = base_txn(TransactionType::AssetTransfer(AssetTransfer {
        asset_index: 77,
        receiver: addr("RECEIVERADDR"),
        amount: 42,
        close_to: None,
    }));
    let wt = to_my_algo_transaction(&transfer).unwrap();
    assert_eq!(get_str(&wt, "type"), "axfer");
    assert_eq!(wt.obj_get("assetIndex").unwrap().as_num(), Some(77));
    assert_eq!(wt.obj_get("amount").unwrap().as_num(), Some(42));
    assert!(wt.obj_get("assetSender").is_none());
    assert!(wt.obj_get("closeRemainderTo").is_none());

    let accept = base_txn(TransactionType::AssetAccept(AssetAccept {
        asset_index: 77,
        receiver: addr("RECEIVERADDR"),
    }));
    let wa = to_my_algo_transaction(&accept).unwrap();
    assert_eq!(get_str(&wa, "type"), "axfer");
    assert_eq!(wa.obj_get("assetIndex").unwrap().as_num(), Some(77));
    assert!(wa.obj_get("amount").is_none());
    assert!(wa.obj_get("assetSender").is_none());
}

#[test]
fn application_call_is_unsupported() {
    let t = base_txn(TransactionType::ApplicationCall);
    let r = to_my_algo_transaction(&t);
    assert!(matches!(r, Err(PayError::UnsupportedVariant)));
}

#[test]
fn wrong_sized_hash_is_an_encoding_failure() {
    let mut t = base_txn(TransactionType::Payment(Payment {
        amount: 1,
        receiver: addr("RECEIVERADDR"),
        close_remainder_to: None,
    }));
    t.genesis_hash = vec![7u8; 31];
    let r = to_my_algo_transaction(&t);
    assert!(matches!(r, Err(PayError::EncodingFailure)));
}

#[test]
fn key_registration_encodes_keys_base32_and_drops_absent_fields() {
    let t = base_txn(TransactionType::KeyRegistration(KeyRegistration {
        vote_key: Some(vec![3u8; 32]),
        selection_key: None,
        vote_first: Some(100),
        vote_last: None,
        vote_key_dilution: Some(5),
    }));
    let w = to_my_algo_transaction(&t).unwrap();
    assert_eq!(get_str(&w, "type"), "keyreg");
    assert_eq!(get_str(&w, "voteKey"), data_encoding::BASE32.encode(&[3u8; 32]));
    assert!(w.obj_get("selectionKey").is_none());
    assert_eq!(w.obj_get("voteFirst").unwrap().as_num(), Some(100));
    assert!(w.obj_get("voteLast").is_none());
    assert_eq!(w.obj_get("voteKeyDilution").unwrap().as_num(), Some(5));
}

#[test]
fn encoded_object_has_no_null_values() {
    let t = base_txn(TransactionType::AssetAccept(AssetAccept {
        asset_index: 1,
        receiver: addr("RECEIVERADDR"),
    }));
    let w = to_my_algo_transaction(&t).unwrap();
    match w {
        WireValue::Obj(entries) => {
            for (_, v) in entries.iter() {
                assert!(!v.is_null());
            }
        }
        _ => panic!("encoder must return an object"),
    }
}

#[test]
fn asset_clawback_names_the_revoked_account() {
    let t = base_txn(TransactionType::AssetClawback(AssetClawback {
        asset_index: 5,
        asset_receiver: addr("RECEIVERADDR"),
        asset_amount: 33,
        asset_sender: addr("REVOKEDADDR"),
    }));
    let w = to_my_algo_transaction(&t).unwrap();
    assert_eq!(get_str(&w, "type"), "axfer");
    assert_eq!(get_str(&w, "to"), "RECEIVERADDR");
    assert_eq!(get_str(&w, "assetSender"), "REVOKEDADDR");
    assert_eq!(w.obj_get("amount").unwrap().as_num(), Some(33));
    assert!(w.obj_get("closeRemainderTo").is_none());
}

#[test]
fn asset_freeze_carries_the_frozen_state() {
    let t = base_txn(TransactionType::AssetFreeze(AssetFreeze {
        asset_index: 6,
        freeze_account: addr("FROZENADDR"),
        frozen: true,
    }));
    let w = to_my_algo_transaction(&t).unwrap();
    assert_eq!(get_str(&w, "type"), "afrz");
    assert_eq!(w.obj_get("assetIndex").unwrap().as_num(), Some(6));
    assert_eq!(get_str(&w, "freezeAccount"), "FROZENADDR");
    assert_eq!(w.obj_get("freezeState").unwrap().as_bool(), Some(true));
}

#[test]
fn asset_configuration_keeps_required_fields_and_drops_absent_ones() {
    let t = base_txn(TransactionType::AssetConfiguration(AssetConfiguration {
        asset_name: Some("Coin".to_string()),
        unit_name: None,
        decimals: 2,
        total: 1_000_000,
        url: None,
        freeze: None,
        manager: Some(addr("MANAGERADDR")),
        reserve: None,
        default_frozen: false,
    }));
    let w = to_my_algo_transaction(&t).unwrap();
    assert_eq!(get_str(&w, "type"), "acfg");
    assert_eq!(get_str(&w, "assetName"), "Coin");
    assert!(w.obj_get("assetUnitName").is_none());
    assert_eq!(w.obj_get("assetDecimals").unwrap().as_num(), Some(2));
    assert_eq!(w.obj_get("assetTotal").unwrap().as_num(), Some(1_000_000));
    assert!(w.obj_get("assetURL").is_none());
    assert!(w.obj_get("assetFreeze").is_none());
    assert_eq!(get_str(&w, "assetManager"), "MANAGERADDR");
    assert!(w.obj_get("assetReserve").is_none());
    assert_eq!(w.obj_get("assetDefaultFrozen").unwrap().as_bool(), Some(false));
}
