//! The payment protocol: building the unsigned transaction from network
//! parameters, and the state machine that sequences parameter fetch, signing
//! and broadcast with fail-fast error propagation.
use crate::codec::base64_of;
use crate::encode;
use crate::encode::{common_model, variant_model};
use crate::model::{
    MyAlgoSignedTransaction, PayError, Payment, SendPaymentData, Transaction, TransactionParams,
    TransactionType, opt_bytes_view,
};
use crate::wire::{WireModel, WireValue, merge_entries};
use vstd::prelude::*;

verus! {

/// The fixed note attached to every payment this library builds: the UTF-8
/// bytes of a short greeting ending in a crab mark.
pub open spec fn payment_note_spec() -> Seq<u8> {
    seq![
        0x48u8,
        0x65u8,
        0x6cu8,
        0x6cu8,
        0x6fu8,
        0x20u8,
        0x52u8,
        0x75u8,
        0x73u8,
        0x74u8,
        0x21u8,
        0x20u8,
        0xf0u8,
        0x9fu8,
        0xa6u8,
        0x80u8,
    ]
}

/// The note bytes as a value.
pub fn payment_note() -> (r: Vec<u8>)
    ensures
        r@ == payment_note_spec(),
{
    let mut v: Vec<u8> = Vec::new();
    v.push(0x48);
    v.push(0x65);
    v.push(0x6c);
    v.push(0x6c);
    v.push(0x6f);
    v.push(0x20);
    v.push(0x52);
    v.push(0x75);
    v.push(0x73);
    v.push(0x74);
    v.push(0x21);
    v.push(0x20);
    v.push(0xf0);
    v.push(0x9f);
    v.push(0xa6);
    v.push(0x80);
    proof {
        assert(v@ =~= payment_note_spec());
    }
    v
}

/// Builds the unsigned payment transaction: a ten-round validity window
/// starting at the ledger's last round, the network's genesis data copied
/// verbatim, the fixed note, and no group, lease or rekey field.
pub fn create_payment_txn(data: SendPaymentData, params: TransactionParams) -> (r: Transaction)
    requires
        params.last_round + 10 <= u64::MAX,
    ensures
        r.fee == data.fee,
        r.first_valid == params.last_round,
        r.last_valid == params.last_round + 10,
        r.genesis_id@ == params.genesis_id@,
        r.genesis_hash@ == params.genesis_hash@,
        r.group is None,
        r.lease is None,
        opt_bytes_view(r.note) == Option::Some(payment_note_spec()),
        r.sender@ == data.sender@,
        r.rekey_to is None,
        match r.txn_type {
            TransactionType::Payment(p) => p.amount == data.amount && p.receiver@
                == data.receiver@ && p.close_remainder_to is None,
            _ => false,
        },
{
    Transaction {
        fee: data.fee,
        first_valid: params.last_round,
        last_valid: params.last_round + 10,
        genesis_id: params.genesis_id,
        genesis_hash: params.genesis_hash,
        group: Option::None,
        lease: Option::None,
        note: Option::Some(payment_note()),
        sender: data.sender,
        rekey_to: Option::None,
        txn_type: TransactionType::Payment(
            Payment {
                amount: data.amount,
                receiver: data.receiver,
                close_remainder_to: Option::None,
            },
        ),
    }
}

/// The common-field entries of the payment a request and the network
/// parameters determine.
pub open spec fn payment_common_model(
    d: SendPaymentData,
    p: TransactionParams,
) -> Seq<(Seq<char>, WireModel)> {
    seq![
        ("fee"@, WireModel::Num(d.fee)),
        ("flatFee"@, WireModel::Bool(true)),
        ("firstRound"@, WireModel::Num(p.last_round)),
        ("genesisHash"@, WireModel::Str(base64_of(p.genesis_hash@))),
        ("lastRound"@, WireModel::Num((p.last_round + 10) as u64)),
        ("from"@, WireModel::Str(d.sender@)),
        ("genesisId"@, WireModel::Str(p.genesis_id@)),
        ("note"@, WireModel::Bytes(payment_note_spec())),
        ("type"@, WireModel::Str("pay"@)),
    ]
}

/// The variant-field entries of the payment a request determines.
pub open spec fn payment_variant_model(d: SendPaymentData) -> Seq<(Seq<char>, WireModel)> {
    seq![
        ("amount"@, WireModel::Num(d.amount)),
        ("to"@, WireModel::Str(d.receiver@)),
        ("closeRemainderTo"@, WireModel::Null),
    ]
}

/// The wire object sent for signing: variant fields merged into common ones.
pub open spec fn payment_wire_model(d: SendPaymentData, p: TransactionParams) -> WireModel {
    WireModel::Obj(merge_entries(payment_common_model(d, p), payment_variant_model(d)))
}

/// One payment flow's position between its external calls.
pub enum FlowState {
    /// Nothing has happened yet; the request is in hand.
    Idle(SendPaymentData),
    /// The ledger node has been asked for network parameters.
    AwaitingParams(SendPaymentData),
    /// The wallet has been asked to sign the wire object.
    AwaitingSignature,
    /// The ledger node has been handed the signed bytes.
    AwaitingBroadcast,
    /// The ledger accepted the transaction; its id is final.
    Done(String),
    /// A step failed; nothing further runs.
    Failed(PayError),
}

/// What an external collaborator reports back to the flow.
pub enum FlowEvent {
    /// The caller starts the flow.
    Start,
    /// The ledger node returned network parameters.
    ParamsFetched(TransactionParams),
    /// The wallet returned the signed transaction.
    SignedOk(MyAlgoSignedTransaction),
    /// The ledger node accepted the broadcast and assigned this id.
    BroadcastOk(String),
    /// The pending external call failed.
    StepFailed(PayError),
}

/// What the surrounding runner must do next.
pub enum FlowAction {
    /// Ask the ledger node for network parameters.
    FetchParams,
    /// Ask the wallet to sign this wire object.
    RequestSign(WireValue),
    /// Hand these signed bytes to the ledger node.
    Broadcast(Vec<u8>),
    /// The flow is over; look at the state.
    Halt,
}

/// The events each state accepts: the answer to its pending call, or that
/// call's failure; a parameter answer too near the round limit to give a
/// ten-round window is excluded.
pub open spec fn step_permitted(state: FlowState, event: FlowEvent) -> bool {
    match (state, event) {
        (FlowState::Idle(_), FlowEvent::Start) => true,
        (FlowState::AwaitingParams(_), FlowEvent::ParamsFetched(p)) => p.last_round + 10
            <= u64::MAX,
        (FlowState::AwaitingSignature, FlowEvent::SignedOk(_)) => true,
        (FlowState::AwaitingBroadcast, FlowEvent::BroadcastOk(_)) => true,
        (FlowState::Idle(_), FlowEvent::StepFailed(_)) => true,
        (FlowState::AwaitingParams(_), FlowEvent::StepFailed(_)) => true,
        (FlowState::AwaitingSignature, FlowEvent::StepFailed(_)) => true,
        (FlowState::AwaitingBroadcast, FlowEvent::StepFailed(_)) => true,
        _ => false,
    }
}

/// The wire object a sign request carries.
pub open spec fn sign_payload(a: FlowAction) -> Option<WireModel> {
    match a {
        FlowAction::RequestSign(w) => Option::Some(w@),
        _ => Option::None,
    }
}

/// The bytes a broadcast action carries.
pub open spec fn broadcast_payload(a: FlowAction) -> Option<Seq<u8>> {
    match a {
        FlowAction::Broadcast(b) => Option::Some(b@),
        _ => Option::None,
    }
}

/// The transaction id a finished flow carries.
pub open spec fn done_tx_id(s: FlowState) -> Option<Seq<char>> {
    match s {
        FlowState::Done(id) => Option::Some(id@),
        _ => Option::None,
    }
}

/// Drives one payment flow one step: from the current state and the event
/// that answered its pending external call, to the next state and the next
/// action. Any step's failure moves the flow to its failed state and halts
/// it; the signed bytes are broadcast only after a successful signature, and
/// the id the ledger assigned is what a finished flow reports.
pub fn payment_step(state: FlowState, event: FlowEvent) -> (r: (FlowState, FlowAction))
    requires
        step_permitted(state, event),
    ensures
        match (state, event) {
            (FlowState::Idle(d), FlowEvent::Start) => r.0 == FlowState::AwaitingParams(d) && r.1
                is FetchParams,
            (FlowState::AwaitingParams(d), FlowEvent::ParamsFetched(p)) => {
                if p.genesis_hash@.len() == 32 {
                    r.0 is AwaitingSignature && sign_payload(r.1) == Option::Some(
                        payment_wire_model(d, p),
                    )
                } else {
                    r.0 == FlowState::Failed(PayError::EncodingFailure) && r.1 is Halt
                }
            },
            (FlowState::AwaitingSignature, FlowEvent::SignedOk(sig)) => r.0 is AwaitingBroadcast
                && broadcast_payload(r.1) == Option::Some(sig.blob@),
            (FlowState::AwaitingBroadcast, FlowEvent::BroadcastOk(id)) => done_tx_id(r.0)
                == Option::Some(id@) && r.1 is Halt,
            (_, FlowEvent::StepFailed(e)) => r.0 == FlowState::Failed(e) && r.1 is Halt,
            _ => true,
        },
{
    match (state, event) {
        (FlowState::Idle(d), FlowEvent::Start) => (FlowState::AwaitingParams(d), FlowAction::FetchParams),
        (FlowState::AwaitingParams(d), FlowEvent::ParamsFetched(p)) => {
            let ghost gd = d;
            let ghost gp = p;
            let t = create_payment_txn(d, p);
            match encode::to_my_algo_transaction(&t) {
                Ok(w) => {
                    proof {
                        assert(common_model(t) =~= payment_common_model(gd, gp));
                        assert(variant_model(t) =~= payment_variant_model(gd));
                    }
                    (FlowState::AwaitingSignature, FlowAction::RequestSign(w))
                },
                Err(e) => (FlowState::Failed(e), FlowAction::Halt),
            }
        },
        (FlowState::AwaitingSignature, FlowEvent::SignedOk(sig)) => (
            FlowState::AwaitingBroadcast,
            FlowAction::Broadcast(sig.blob),
        ),
        (FlowState::AwaitingBroadcast, FlowEvent::BroadcastOk(id)) => (
            FlowState::Done(id),
            FlowAction::Halt,
        ),
        (_, FlowEvent::StepFailed(e)) => (FlowState::Failed(e), FlowAction::Halt),
        _ => vstd::pervasive::unreached(),
    }
}

} // verus!
