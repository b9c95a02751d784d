use my_algo_pay::model::{
    Address, MyAlgoSignedTransaction, PayError, SendPaymentData, TransactionParams,
};
use my_algo_pay::protocol::{payment_step, FlowAction, FlowEvent, FlowState};
use my_algo_pay::validate::{parse_u64, select_first_address, validate_payment_inputs};

fn addr(s: &str) -> Address {
    Address { text: s.to_string() }
}

fn request() -> SendPaymentData {
    SendPaymentData {
        sender: addr("SENDERADDR"),
        receiver: addr("RECEIVERADDR"),
        amount: 1000,
        fee: 10,
    }
}

fn params() -> TransactionParams {
    TransactionParams {
        last_round: 500,
        genesis_id: "testnet-v1.0".to_string(),
        genesis_hash: vec![7u8; 32],
    }
}

#[test]
fn payment_flow_runs_to_done() {
    let (s1, a1) = payment_step(FlowState::Idle(request()), FlowEvent::Start);
    assert!(matches!(a1, FlowAction::FetchParams));
    assert!(matches!(s1, FlowState::AwaitingParams(_)));

    let (s2, a2) = payment_step(s1, FlowEvent::ParamsFetched(params()));
    assert!(matches!(s2, FlowState::AwaitingSignature));
    let wire = match a2 {
        FlowAction::RequestSign(w) => w,
        _ => panic!("a signature request must follow the parameters"),
    };
    assert_eq!(wire.obj_get("firstRound").unwrap().as_num(), Some(500));
    assert_eq!(wire.obj_get("lastRound").unwrap().as_num(), Some(510));
    assert_eq!(wire.obj_get("amount").unwrap().as_num(), Some(1000));
    assert_eq!(wire.obj_get("fee").unwrap().as_num(), Some(10));
    assert_eq!(
        wire.obj_get("from").unwrap().as_str().unwrap().as_str(),
        "SENDERADDR"
    );
    assert_eq!(
        wire.obj_get("to").unwrap().as_str().unwrap().as_str(),
        "RECEIVERADDR"
    );
    assert_eq!(
        wire.obj_get("type").unwrap().as_str().unwrap().as_str(),
        "pay"
    );
    let expected_note: Vec<u8> = vec![
        72, 101, 108, 108, 111, 32, 82, 117, 115, 116, 33, 32, 240, 159, 166, 128,
    ];
    assert_eq!(
        wire.obj_get("note").unwrap().as_bytes().unwrap().as_slice(),
        expected_note.as_slice()
    );
    assert!(wire.obj_get("closeRemainderTo").is_none());
    assert!(wire.obj_get("group").is_none());
    assert!(wire.obj_get("lease").is_none());
    assert!(wire.obj_get("rekeyTo").is_none());

    let signed = MyAlgoSignedTransaction {
        tx_id: "TX1".to_string(),
        blob: vec![9, 9, 9],
    };
    let (s3, a3) = payment_step(s2, FlowEvent::SignedOk(signed));
    assert!(matches!(s3, FlowState::AwaitingBroadcast));
    match a3 {
        FlowAction::Broadcast(bytes) => assert_eq!(bytes, vec![9, 9, 9]),
        _ => panic!("a broadcast must follow the signature"),
    }

    let (s4, a4) = payment_step(s3, FlowEvent::BroadcastOk("TXID123".to_string()));
    assert!(matches!(a4, FlowAction::Halt));
    match s4 {
        FlowState::Done(id) => assert_eq!(id, "TXID123"),
        _ => panic!("a successful broadcast must finish the flow"),
    }
}

#[test]
fn payment_flow_fails_fast_on_step_failure() {
    let (s, a) = payment_step(
        FlowState::AwaitingParams(request()),
        FlowEvent::StepFailed(PayError::NetworkError("down".to_string())),
    );
    assert!(matches!(a, FlowAction::Halt));
    assert!(matches!(s, FlowState::Failed(PayError::NetworkError(_))));
}

#[test]
fn payment_flow_rejects_wrong_sized_hash_from_the_ledger() {
    let bad = TransactionParams {
        last_round: 500,
        genesis_id: "testnet-v1.0".to_string(),
        genesis_hash: vec![7u8; 16],
    };
    let (s, a) = payment_step(
        FlowState::AwaitingParams(request()),
        FlowEvent::ParamsFetched(bad),
    );
    assert!(matches!(a, FlowAction::Halt));
    assert!(matches!(s, FlowState::Failed(PayError::EncodingFailure)));
}

#[test]
fn connect_selects_first_address() {
    let r = select_first_address(vec![addr("FIRST"), addr("SECOND")]);
    assert_eq!(r.unwrap().text, "FIRST");
}

#[test]
fn connect_with_no_addresses_is_reported() {
    let r = select_first_address(Vec::new());
    assert!(matches!(r, Err(PayError::NoAddressesReturned)));
}

#[test]
fn validation_accepts_a_real_address_and_numeric_inputs() {
    let good = algonaut::core::Address::new([0u8; 32]).to_string();
    let v = validate_payment_inputs(&good, "1000", "10").unwrap();
    assert_eq!(v.receiver.text, good);
    assert_eq!(v.amount, 1000);
    assert_eq!(v.fee, 10);
}

#[test]
fn validation_rejects_bad_inputs_in_order() {
    let good = algonaut::core::Address::new([1u8; 32]).to_string();
    let r1 = validate_payment_inputs("abc", "1000", "10");
    assert!(matches!(r1, Err(PayError::InvalidAddress)));
    let r2 = validate_payment_inputs(&good, "abc", "10");
    assert!(matches!(r2, Err(PayError::InvalidAmount)));
    let r3 = validate_payment_inputs(&good, "1000", "abc");
    assert!(matches!(r3, Err(PayError::InvalidFee)));
}

#[test]
fn address_parse_agrees_with_the_ledger_format() {
    let good = algonaut::core::Address::new([5u8; 32]).to_string();
    let a = Address::parse(&good).unwrap();
    assert_eq!(a.text, good);
    assert!(matches!(
        Address::parse("SENDERADDR"),
        Err(PayError::InvalidAddress)
    ));
}

#[test]
fn numbers_parse_with_exact_bounds() {
    assert_eq!(parse_u64("0"), Some(0));
    assert_eq!(parse_u64("+123"), Some(123));
    assert_eq!(parse_u64("18446744073709551615"), Some(u64::MAX));
    assert_eq!(parse_u64("18446744073709551616"), None);
    assert_eq!(parse_u64(""), None);
    assert_eq!(parse_u64("+"), None);
    assert_eq!(parse_u64("12a"), None);
    assert_eq!(parse_u64("-1"), None);
    assert_eq!(parse_u64(" 1"), None);
}

#[test]
fn builder_gives_a_ten_round_window_and_the_fixed_note() {
    let t = my_algo_pay::protocol::create_payment_txn(request(), params());
    assert_eq!(t.first_valid, 500);
    assert_eq!(t.last_valid, 510);
    assert_eq!(t.fee, 10);
    assert_eq!(t.genesis_id, "testnet-v1.0");
    assert_eq!(t.genesis_hash, vec![7u8; 32]);
    assert!(t.group.is_none());
    assert!(t.lease.is_none());
    assert!(t.rekey_to.is_none());
    assert_eq!(t.note.unwrap(), my_algo_pay::protocol::payment_note());
    match t.txn_type {
        my_algo_pay::model::TransactionType::Payment(p) => {
            assert_eq!(p.amount, 1000);
            assert_eq!(p.receiver.text, "RECEIVERADDR");
            assert!(p.close_remainder_to.is_none());
        }
        _ => panic!("the builder must build a payment"),
    }
}
