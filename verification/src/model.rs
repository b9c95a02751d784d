//! The transaction model: common fields plus exactly one variant payload,
//! together with the error type and the plain records exchanged with the
//! wallet and the ledger node.
use crate::codec;
use vstd::prelude::*;

verus! {

/// The failures this library reports.
#[derive(Debug)]
pub enum PayError {
    /// No wire mapping is defined for the transaction variant.
    UnsupportedVariant,
    /// A binary field to be text-encoded does not hold exactly 32 bytes.
    EncodingFailure,
    /// The receiver text is not a canonical address.
    InvalidAddress,
    /// The amount text is not a non-negative integer in range.
    InvalidAmount,
    /// The fee text is not a non-negative integer in range.
    InvalidFee,
    /// The wallet connected but offered no address to select.
    NoAddressesReturned,
    /// Opaque failure reported by the signing wallet.
    WalletError(String),
    /// Opaque failure reported by the ledger node.
    NetworkError(String),
}

/// A ledger account address, held as its canonical textual encoding.
pub struct Address {
    pub text: String,
}

impl View for Address {
    type V = Seq<char>;

    open spec fn view(&self) -> Seq<char> {
        self.text@
    }
}

impl Address {
    /// Whether the text is a canonical address encoding.
    pub open spec fn valid(self) -> bool {
        codec::addr_valid(self.text@)
    }

    /// Parses user-supplied text as an address.
    pub fn parse(s: &str) -> (r: Result<Address, PayError>)
        ensures
            match r {
                Ok(a) => codec::addr_valid(s@) && a@ == s@ && a.valid(),
                Err(e) => !codec::addr_valid(s@) && e is InvalidAddress,
            },
    {
        if codec::addr_check(s) {
            Ok(Address { text: s.to_owned() })
        } else {
            Err(PayError::InvalidAddress)
        }
    }
}

impl Clone for Address {
    fn clone(&self) -> (r: Self)
        ensures
            r == *self,
    {
        Address { text: self.text.clone() }
    }
}

/// Payment: moves an amount to a receiver, optionally closing the remainder
/// of the sending account to a third address.
pub struct Payment {
    pub amount: u64,
    pub receiver: Address,
    pub close_remainder_to: Option<Address>,
}

/// Key registration: registers participation keys.
pub struct KeyRegistration {
    pub vote_key: Option<Vec<u8>>,
    pub selection_key: Option<Vec<u8>>,
    pub vote_first: Option<u64>,
    pub vote_last: Option<u64>,
    pub vote_key_dilution: Option<u64>,
}

/// Asset configuration: creates or reconfigures an asset.
pub struct AssetConfiguration {
    pub asset_name: Option<String>,
    pub unit_name: Option<String>,
    pub decimals: u32,
    pub total: u64,
    pub url: Option<String>,
    pub freeze: Option<Address>,
    pub manager: Option<Address>,
    pub reserve: Option<Address>,
    pub default_frozen: bool,
}

/// Asset transfer: moves asset units to a receiver.
pub struct AssetTransfer {
    pub asset_index: u64,
    pub receiver: Address,
    pub amount: u64,
    pub close_to: Option<Address>,
}

/// Asset accept: opts the receiver in to an asset (no amount moves).
pub struct AssetAccept {
    pub asset_index: u64,
    pub receiver: Address,
}

/// Asset clawback: revokes asset units from an account.
pub struct AssetClawback {
    pub asset_index: u64,
    pub asset_receiver: Address,
    pub asset_amount: u64,
    pub asset_sender: Address,
}

/// Asset freeze: freezes or unfreezes an account's asset holding.
pub struct AssetFreeze {
    pub asset_index: u64,
    pub freeze_account: Address,
    pub frozen: bool,
}

/// Exactly one variant payload per transaction.
pub enum TransactionType {
    Payment(Payment),
    KeyRegistration(KeyRegistration),
    AssetConfiguration(AssetConfiguration),
    AssetTransfer(AssetTransfer),
    AssetAccept(AssetAccept),
    AssetClawback(AssetClawback),
    AssetFreeze(AssetFreeze),
    ApplicationCall,
}

/// A ledger transaction: common fields plus one variant payload.
pub struct Transaction {
    pub fee: u64,
    pub first_valid: u64,
    pub last_valid: u64,
    pub genesis_id: String,
    pub genesis_hash: Vec<u8>,
    pub group: Option<Vec<u8>>,
    pub lease: Option<Vec<u8>>,
    pub note: Option<Vec<u8>>,
    pub sender: Address,
    pub rekey_to: Option<Address>,
    pub txn_type: TransactionType,
}

/// The signed transaction returned by the wallet: its id and the raw bytes.
pub struct MyAlgoSignedTransaction {
    pub tx_id: String,
    pub blob: Vec<u8>,
}

/// Network parameters supplied by the ledger node.
pub struct TransactionParams {
    pub last_round: u64,
    pub genesis_id: String,
    pub genesis_hash: Vec<u8>,
}

/// A payment request: sender, receiver, amount and fee in minor units.
pub struct SendPaymentData {
    pub sender: Address,
    pub receiver: Address,
    pub amount: u64,
    pub fee: u64,
}

/// User inputs validated into typed values.
pub struct ValidatedPaymentInputs {
    pub receiver: Address,
    pub amount: u64,
    pub fee: u64,
}

/// The views of an optional byte field.
pub open spec fn opt_bytes_view(o: Option<Vec<u8>>) -> Option<Seq<u8>> {
    match o {
        Option::None => Option::None,
        Option::Some(bs) => Option::Some(bs@),
    }
}

} // verus!
