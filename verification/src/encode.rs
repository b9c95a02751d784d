//! The transaction encoder: maps a transaction to the wallet's wire object.
//!
//! A common-field object is built first (absent optional fields omitted), a
//! variant-field object second (absent optional fields as explicit nulls);
//! the variant fields are then merged into the common fields, the merge
//! engine deleting every null-valued key.
use crate::codec;
use crate::codec::{base32_of, base64_of};
use crate::model::{Address, PayError, Transaction, TransactionType};
use crate::wire::{entries_view, merge, merge_entries, WireModel, WireValue};
use vstd::prelude::*;

verus! {

/// The wire type tag of each transaction variant.
pub open spec fn type_tag(tt: TransactionType) -> Seq<char> {
    match tt {
        TransactionType::Payment(_) => "pay"@,
        TransactionType::KeyRegistration(_) => "keyreg"@,
        TransactionType::AssetConfiguration(_) => "acfg"@,
        TransactionType::AssetTransfer(_) => "axfer"@,
        TransactionType::AssetAccept(_) => "axfer"@,
        TransactionType::AssetClawback(_) => "axfer"@,
        TransactionType::AssetFreeze(_) => "afrz"@,
        TransactionType::ApplicationCall => "appl"@,
    }
}

/// The tag sent over the wire for each variant.
pub fn to_api_transaction_type(tt: &TransactionType) -> (r: &'static str)
    ensures
        r@ == type_tag(*tt),
{
    match tt {
        TransactionType::Payment(_) => "pay",
        TransactionType::KeyRegistration(_) => "keyreg",
        TransactionType::AssetConfiguration(_) => "acfg",
        TransactionType::AssetTransfer(_) => "axfer",
        TransactionType::AssetAccept(_) => "axfer",
        TransactionType::AssetClawback(_) => "axfer",
        TransactionType::AssetFreeze(_) => "afrz",
        TransactionType::ApplicationCall => "appl",
    }
}

/// Appends an entry for a present optional field; an absent one is omitted.
pub open spec fn opt_push(
    es: Seq<(Seq<char>, WireModel)>,
    k: Seq<char>,
    ov: Option<WireModel>,
) -> Seq<(Seq<char>, WireModel)> {
    match ov {
        Option::None => es,
        Option::Some(v) => es.push((k, v)),
    }
}

/// An absent optional field as an explicit null.
pub open spec fn null_or(ov: Option<WireModel>) -> WireModel {
    match ov {
        Option::None => WireModel::Null,
        Option::Some(v) => v,
    }
}

/// An optional 32-byte field as base64 text.
pub open spec fn opt_b64(o: Option<Vec<u8>>) -> Option<WireModel> {
    match o {
        Option::None => Option::None,
        Option::Some(bs) => Option::Some(WireModel::Str(base64_of(bs@))),
    }
}

/// An optional key field as base32 text.
pub open spec fn opt_b32(o: Option<Vec<u8>>) -> Option<WireModel> {
    match o {
        Option::None => Option::None,
        Option::Some(bs) => Option::Some(WireModel::Str(base32_of(bs@))),
    }
}

/// An optional byte field carried raw.
pub open spec fn opt_bytes(o: Option<Vec<u8>>) -> Option<WireModel> {
    match o {
        Option::None => Option::None,
        Option::Some(bs) => Option::Some(WireModel::Bytes(bs@)),
    }
}

/// An optional address field as its canonical text.
pub open spec fn opt_addr(o: Option<Address>) -> Option<WireModel> {
    match o {
        Option::None => Option::None,
        Option::Some(a) => Option::Some(WireModel::Str(a@)),
    }
}

/// An optional number field.
pub open spec fn opt_num(o: Option<u64>) -> Option<WireModel> {
    match o {
        Option::None => Option::None,
        Option::Some(n) => Option::Some(WireModel::Num(n)),
    }
}

/// An optional string field.
pub open spec fn opt_str(o: Option<String>) -> Option<WireModel> {
    match o {
        Option::None => Option::None,
        Option::Some(s) => Option::Some(WireModel::Str(s@)),
    }
}

/// The common-field entries of a transaction: fee and an explicit flat-fee
/// marker are always present; absent optional fields are omitted outright.
pub open spec fn common_model(t: Transaction) -> Seq<(Seq<char>, WireModel)> {
    opt_push(
        opt_push(
            opt_push(
                opt_push(
                    seq![
                        ("fee"@, WireModel::Num(t.fee)),
                        ("flatFee"@, WireModel::Bool(true)),
                        ("firstRound"@, WireModel::Num(t.first_valid)),
                        ("genesisHash"@, WireModel::Str(base64_of(t.genesis_hash@))),
                        ("lastRound"@, WireModel::Num(t.last_valid)),
                        ("from"@, WireModel::Str(t.sender@)),
                        ("genesisId"@, WireModel::Str(t.genesis_id@)),
                    ],
                    "group"@,
                    opt_b64(t.group),
                ),
                "lease"@,
                opt_b64(t.lease),
            ),
            "note"@,
            opt_bytes(t.note),
        ),
        "rekeyTo"@,
        opt_addr(t.rekey_to),
    ).push(("type"@, WireModel::Str(type_tag(t.txn_type))))
}

/// The variant-field entries of a transaction: absent optional fields are
/// explicit nulls, deleted later by the merge.
pub open spec fn variant_model(t: Transaction) -> Seq<(Seq<char>, WireModel)> {
    match t.txn_type {
        TransactionType::Payment(p) => seq![
            ("amount"@, WireModel::Num(p.amount)),
            ("to"@, WireModel::Str(p.receiver@)),
            ("closeRemainderTo"@, null_or(opt_addr(p.close_remainder_to))),
        ],
        TransactionType::KeyRegistration(r) => seq![
            ("voteKey"@, null_or(opt_b32(r.vote_key))),
            ("selectionKey"@, null_or(opt_b32(r.selection_key))),
            ("voteFirst"@, null_or(opt_num(r.vote_first))),
            ("voteLast"@, null_or(opt_num(r.vote_last))),
            ("voteKeyDilution"@, null_or(opt_num(r.vote_key_dilution))),
        ],
        TransactionType::AssetConfiguration(c) => seq![
            ("assetName"@, null_or(opt_str(c.asset_name))),
            ("assetUnitName"@, null_or(opt_str(c.unit_name))),
            ("assetDecimals"@, WireModel::Num(c.decimals as u64)),
            ("assetTotal"@, WireModel::Num(c.total)),
            ("assetURL"@, null_or(opt_str(c.url))),
            ("assetFreeze"@, null_or(opt_addr(c.freeze))),
            ("assetManager"@, null_or(opt_addr(c.manager))),
            ("assetReserve"@, null_or(opt_addr(c.reserve))),
            ("assetDefaultFrozen"@, WireModel::Bool(c.default_frozen)),
        ],
        TransactionType::AssetTransfer(x) => seq![
            ("assetIndex"@, WireModel::Num(x.asset_index)),
            ("to"@, WireModel::Str(x.receiver@)),
            ("amount"@, WireModel::Num(x.amount)),
            ("closeRemainderTo"@, null_or(opt_addr(x.close_to))),
            ("assetSender"@, WireModel::Null),
        ],
        TransactionType::AssetAccept(x) => seq![
            ("assetIndex"@, WireModel::Num(x.asset_index)),
            ("to"@, WireModel::Str(x.receiver@)),
            ("amount"@, WireModel::Null),
            ("closeRemainderTo"@, WireModel::Null),
            ("assetSender"@, WireModel::Null),
        ],
        TransactionType::AssetClawback(x) => seq![
            ("assetIndex"@, WireModel::Num(x.asset_index)),
            ("to"@, WireModel::Str(x.asset_receiver@)),
            ("amount"@, WireModel::Num(x.asset_amount)),
            ("closeRemainderTo"@, WireModel::Null),
            ("assetSender"@, WireModel::Str(x.asset_sender@)),
        ],
        TransactionType::AssetFreeze(x) => seq![
            ("assetIndex"@, WireModel::Num(x.asset_index)),
            ("freezeAccount"@, WireModel::Str(x.freeze_account@)),
            ("freezeState"@, WireModel::Bool(x.frozen)),
        ],
        TransactionType::ApplicationCall => Seq::empty(),
    }
}

/// Whether an optional binary field holds exactly 32 bytes when present.
pub open spec fn opt_len32(o: Option<Vec<u8>>) -> bool {
    match o {
        Option::None => true,
        Option::Some(bs) => bs@.len() == 32,
    }
}

/// Whether every binary field that the encoder turns into text holds exactly
/// its 32 required bytes.
pub open spec fn encodable(t: Transaction) -> bool {
    t.genesis_hash@.len() == 32 && opt_len32(t.group) && opt_len32(t.lease) && (match t.txn_type {
        TransactionType::KeyRegistration(r) => opt_len32(r.vote_key) && opt_len32(r.selection_key),
        _ => true,
    })
}

/// The encoder's result on a supported, well-sized transaction: the variant
/// fields merged into the common fields.
pub open spec fn encoded_model(t: Transaction) -> WireModel {
    WireModel::Obj(merge_entries(common_model(t), variant_model(t)))
}

fn check_opt_len32(o: &Option<Vec<u8>>) -> (r: bool)
    ensures
        r == opt_len32(*o),
{
    match o {
        Option::None => true,
        Option::Some(bs) => bs.len() == 32,
    }
}

fn check_encodable(t: &Transaction) -> (r: bool)
    ensures
        r == encodable(*t),
{
    let mut ok = t.genesis_hash.len() == 32 && check_opt_len32(&t.group) && check_opt_len32(
        &t.lease,
    );
    match &t.txn_type {
        TransactionType::KeyRegistration(r) => {
            ok = ok && check_opt_len32(&r.vote_key) && check_opt_len32(&r.selection_key);
        },
        _ => {},
    }
    ok
}

/// Appends one entry to an object under construction.
fn push_entry(es: &mut Vec<(String, WireValue)>, k: &str, v: WireValue)
    ensures
        entries_view(final(es)@) == entries_view(old(es)@).push((k@, v@)),
{
    let ghost es0 = es@;
    es.push((k.to_owned(), v));
    proof {
        assert(es@.drop_last() =~= es0);
        assert(entries_view(es@) == entries_view(es0).push((k@, v@)));
    }
}

/// Builds the common-field object.
fn build_common(t: &Transaction) -> (r: Vec<(String, WireValue)>)
    requires
        encodable(*t),
    ensures
        entries_view(r@) == common_model(*t),
{
    let mut cf: Vec<(String, WireValue)> = Vec::new();
    proof {
        assert(entries_view(cf@) =~= Seq::<(Seq<char>, WireModel)>::empty());
    }
    push_entry(&mut cf, "fee", WireValue::Num(t.fee));
    push_entry(&mut cf, "flatFee", WireValue::Bool(true));
    push_entry(&mut cf, "firstRound", WireValue::Num(t.first_valid));
    push_entry(&mut cf, "genesisHash", WireValue::Str(codec::base64_encode(t.genesis_hash.as_slice())));
    push_entry(&mut cf, "lastRound", WireValue::Num(t.last_valid));
    push_entry(&mut cf, "from", WireValue::Str(t.sender.text.clone()));
    push_entry(&mut cf, "genesisId", WireValue::Str(t.genesis_id.clone()));
    let ghost base = seq![
        ("fee"@, WireModel::Num(t.fee)),
        ("flatFee"@, WireModel::Bool(true)),
        ("firstRound"@, WireModel::Num(t.first_valid)),
        ("genesisHash"@, WireModel::Str(base64_of(t.genesis_hash@))),
        ("lastRound"@, WireModel::Num(t.last_valid)),
        ("from"@, WireModel::Str(t.sender@)),
        ("genesisId"@, WireModel::Str(t.genesis_id@)),
    ];
    proof {
        assert(entries_view(cf@) =~= base);
    }
    match &t.group {
        Option::None => {},
        Option::Some(bs) => {
            push_entry(&mut cf, "group", WireValue::Str(codec::base64_encode(bs.as_slice())));
        },
    }
    let ghost with_group = opt_push(base, "group"@, opt_b64(t.group));
    proof {
        assert(entries_view(cf@) == with_group);
    }
    match &t.lease {
        Option::None => {},
        Option::Some(bs) => {
            push_entry(&mut cf, "lease", WireValue::Str(codec::base64_encode(bs.as_slice())));
        },
    }
    let ghost with_lease = opt_push(with_group, "lease"@, opt_b64(t.lease));
    proof {
        assert(entries_view(cf@) == with_lease);
    }
    match &t.note {
        Option::None => {},
        Option::Some(bs) => {
            push_entry(&mut cf, "note", WireValue::Bytes(bs.clone()));
        },
    }
    let ghost with_note = opt_push(with_lease, "note"@, opt_bytes(t.note));
    proof {
        assert(entries_view(cf@) == with_note);
    }
    match &t.rekey_to {
        Option::None => {},
        Option::Some(a) => {
            push_entry(&mut cf, "rekeyTo", WireValue::Str(a.text.clone()));
        },
    }
    let ghost with_rekey = opt_push(with_note, "rekeyTo"@, opt_addr(t.rekey_to));
    proof {
        assert(entries_view(cf@) == with_rekey);
    }
    push_entry(&mut cf, "type", WireValue::Str(to_api_transaction_type(&t.txn_type).to_owned()));
    proof {
        assert(entries_view(cf@) == common_model(*t));
    }
    cf
}

/// Builds the variant-field object, with explicit nulls for absent fields.
fn build_variant(t: &Transaction) -> (r: Vec<(String, WireValue)>)
    requires
        !(t.txn_type is ApplicationCall),
        encodable(*t),
    ensures
        entries_view(r@) == variant_model(*t),
{
    let mut vf: Vec<(String, WireValue)> = Vec::new();
    proof {
        assert(entries_view(vf@) =~= Seq::<(Seq<char>, WireModel)>::empty());
    }
    match &t.txn_type {
        TransactionType::Payment(p) => {
            push_entry(&mut vf, "amount", WireValue::Num(p.amount));
            push_entry(&mut vf, "to", WireValue::Str(p.receiver.text.clone()));
            let close = match &p.close_remainder_to {
                Option::None => WireValue::Null,
                Option::Some(a) => WireValue::Str(a.text.clone()),
            };
            push_entry(&mut vf, "closeRemainderTo", close);
        },
        TransactionType::KeyRegistration(r) => {
            let vote = match &r.vote_key {
                Option::None => WireValue::Null,
                Option::Some(bs) => WireValue::Str(codec::base32_encode(bs.as_slice())),
            };
            push_entry(&mut vf, "voteKey", vote);
            let sel = match &r.selection_key {
                Option::None => WireValue::Null,
                Option::Some(bs) => WireValue::Str(codec::base32_encode(bs.as_slice())),
            };
            push_entry(&mut vf, "selectionKey", sel);
            let vf1 = match &r.vote_first {
                Option::None => WireValue::Null,
                Option::Some(n) => WireValue::Num(*n),
            };
            push_entry(&mut vf, "voteFirst", vf1);
            let vl = match &r.vote_last {
                Option::None => WireValue::Null,
                Option::Some(n) => WireValue::Num(*n),
            };
            push_entry(&mut vf, "voteLast", vl);
            let vkd = match &r.vote_key_dilution {
                Option::None => WireValue::Null,
                Option::Some(n) => WireValue::Num(*n),
            };
            push_entry(&mut vf, "voteKeyDilution", vkd);
        },
        TransactionType::AssetConfiguration(c) => {
            let name = match &c.asset_name {
                Option::None => WireValue::Null,
                Option::Some(s) => WireValue::Str(s.clone()),
            };
            push_entry(&mut vf, "assetName", name);
            let unit = match &c.unit_name {
                Option::None => WireValue::Null,
                Option::Some(s) => WireValue::Str(s.clone()),
            };
            push_entry(&mut vf, "assetUnitName", unit);
            push_entry(&mut vf, "assetDecimals", WireValue::Num(c.decimals as u64));
            push_entry(&mut vf, "assetTotal", WireValue::Num(c.total));
            let url = match &c.url {
                Option::None => WireValue::Null,
                Option::Some(s) => WireValue::Str(s.clone()),
            };
            push_entry(&mut vf, "assetURL", url);
            let freeze = match &c.freeze {
                Option::None => WireValue::Null,
                Option::Some(a) => WireValue::Str(a.text.clone()),
            };
            push_entry(&mut vf, "assetFreeze", freeze);
            let manager = match &c.manager {
                Option::None => WireValue::Null,
                Option::Some(a) => WireValue::Str(a.text.clone()),
            };
            push_entry(&mut vf, "assetManager", manager);
            let reserve = match &c.reserve {
                Option::None => WireValue::Null,
                Option::Some(a) => WireValue::Str(a.text.clone()),
            };
            push_entry(&mut vf, "assetReserve", reserve);
            push_entry(&mut vf, "assetDefaultFrozen", WireValue::Bool(c.default_frozen));
        },
        TransactionType::AssetTransfer(x) => {
            push_entry(&mut vf, "assetIndex", WireValue::Num(x.asset_index));
            push_entry(&mut vf, "to", WireValue::Str(x.receiver.text.clone()));
            push_entry(&mut vf, "amount", WireValue::Num(x.amount));
            let close = match &x.close_to {
                Option::None => WireValue::Null,
                Option::Some(a) => WireValue::Str(a.text.clone()),
            };
            push_entry(&mut vf, "closeRemainderTo", close);
            push_entry(&mut vf, "assetSender", WireValue::Null);
        },
        TransactionType::AssetAccept(x) => {
            push_entry(&mut vf, "assetIndex", WireValue::Num(x.asset_index));
            push_entry(&mut vf, "to", WireValue::Str(x.receiver.text.clone()));
            push_entry(&mut vf, "amount", WireValue::Null);
            push_entry(&mut vf, "closeRemainderTo", WireValue::Null);
            push_entry(&mut vf, "assetSender", WireValue::Null);
        },
        TransactionType::AssetClawback(x) => {
            push_entry(&mut vf, "assetIndex", WireValue::Num(x.asset_index));
            push_entry(&mut vf, "to", WireValue::Str(x.asset_receiver.text.clone()));
            push_entry(&mut vf, "amount", WireValue::Num(x.asset_amount));
            push_entry(&mut vf, "closeRemainderTo", WireValue::Null);
            push_entry(&mut vf, "assetSender", WireValue::Str(x.asset_sender.text.clone()));
        },
        TransactionType::AssetFreeze(x) => {
            push_entry(&mut vf, "assetIndex", WireValue::Num(x.asset_index));
            push_entry(&mut vf, "freezeAccount", WireValue::Str(x.freeze_account.text.clone()));
            push_entry(&mut vf, "freezeState", WireValue::Bool(x.frozen));
        },
        TransactionType::ApplicationCall => {
            proof {
                assert(false);
            }
        },
    }
    proof {
        assert(entries_view(vf@) =~= variant_model(*t));
    }
    vf
}

/// Maps a transaction to the wire object expected by the wallet. Fails only
/// on the variant with no defined mapping, or when a binary field to be
/// text-encoded is not exactly 32 bytes.
pub fn to_my_algo_transaction(t: &Transaction) -> (r: Result<WireValue, PayError>)
    ensures
        match r {
            Ok(w) => !(t.txn_type is ApplicationCall) && encodable(*t) && w@ == encoded_model(*t),
            Err(e) => match e {
                PayError::UnsupportedVariant => t.txn_type is ApplicationCall,
                PayError::EncodingFailure => !(t.txn_type is ApplicationCall) && !encodable(*t),
                _ => false,
            },
        },
{
    let unsupported = match &t.txn_type {
        TransactionType::ApplicationCall => true,
        _ => false,
    };
    if unsupported {
        return Err(PayError::UnsupportedVariant);
    }
    if !check_encodable(t) {
        return Err(PayError::EncodingFailure);
    }
    let common = build_common(t);
    let variant = build_variant(t);
    let mut all = WireValue::Obj(common);
    merge(&mut all, WireValue::Obj(variant));
    Ok(all)
}

} // verus!

verus! {

/// An omitted-or-pushed optional field cannot introduce a given other key.
proof fn lemma_opt_push_other_key(
    es: Seq<(Seq<char>, WireModel)>,
    k2: Seq<char>,
    ov: Option<WireModel>,
    k: Seq<char>,
)
    requires
        k2 != k,
        !crate::wire::has_key(es, k),
    ensures
        !crate::wire::has_key(opt_push(es, k2, ov), k),
{
    match ov {
        Option::None => {},
        Option::Some(v) => {
            crate::wire::lemma_lookup_push(es, (k2, v), k);
        },
    }
}

/// An omitted-or-pushed optional field never pushes a null value when the
/// pushed model is a string, number or byte leaf.
proof fn lemma_opt_push_no_null(
    es: Seq<(Seq<char>, WireModel)>,
    k2: Seq<char>,
    ov: Option<WireModel>,
)
    requires
        crate::wire::no_null_values(es),
        match ov {
            Option::None => true,
            Option::Some(v) => !(v is Null),
        },
    ensures
        crate::wire::no_null_values(opt_push(es, k2, ov)),
{
    match ov {
        Option::None => {},
        Option::Some(v) => {
            crate::wire::lemma_no_null_push(es, (k2, v));
        },
    }
}

/// The common fields hold no null value.
proof fn lemma_common_no_null(t: Transaction)
    ensures
        crate::wire::no_null_values(common_model(t)),
{
    let base = seq![
        ("fee"@, WireModel::Num(t.fee)),
        ("flatFee"@, WireModel::Bool(true)),
        ("firstRound"@, WireModel::Num(t.first_valid)),
        ("genesisHash"@, WireModel::Str(base64_of(t.genesis_hash@))),
        ("lastRound"@, WireModel::Num(t.last_valid)),
        ("from"@, WireModel::Str(t.sender@)),
        ("genesisId"@, WireModel::Str(t.genesis_id@)),
    ];
    assert(crate::wire::no_null_values(base)) by {
        assert forall|i: int| 0 <= i < base.len() implies !((#[trigger] base[i]).1 is Null) by {
            if i == 0 {
            } else if i == 1 {
            } else if i == 2 {
            } else if i == 3 {
            } else if i == 4 {
            } else if i == 5 {
            } else {
                assert(base[i] == ("genesisId"@, WireModel::Str(t.genesis_id@)));
            }
        }
    }
    let c1 = opt_push(base, "group"@, opt_b64(t.group));
    lemma_opt_push_no_null(base, "group"@, opt_b64(t.group));
    let c2 = opt_push(c1, "lease"@, opt_b64(t.lease));
    lemma_opt_push_no_null(c1, "lease"@, opt_b64(t.lease));
    let c3 = opt_push(c2, "note"@, opt_bytes(t.note));
    lemma_opt_push_no_null(c2, "note"@, opt_bytes(t.note));
    let c4 = opt_push(c3, "rekeyTo"@, opt_addr(t.rekey_to));
    lemma_opt_push_no_null(c3, "rekeyTo"@, opt_addr(t.rekey_to));
    crate::wire::lemma_no_null_push(c4, ("type"@, WireModel::Str(type_tag(t.txn_type))));
}

/// Outside the unsupported variant, the encoder's wire object maps no key to
/// a null value: absent optional fields are omitted outright.
pub proof fn lemma_encode_no_null(t: Transaction)
    requires
        !(t.txn_type is ApplicationCall),
    ensures
        match encoded_model(t) {
            WireModel::Obj(es) => crate::wire::no_null_values(es),
            _ => false,
        },
{
    lemma_common_no_null(t);
    crate::wire::lemma_merge_entries_no_null(common_model(t), variant_model(t));
}

/// No common-field key equals a key different from all twelve of them.
proof fn lemma_common_other_key(t: Transaction, k: Seq<char>)
    requires
        k != "fee"@,
        k != "flatFee"@,
        k != "firstRound"@,
        k != "genesisHash"@,
        k != "lastRound"@,
        k != "from"@,
        k != "genesisId"@,
        k != "group"@,
        k != "lease"@,
        k != "note"@,
        k != "rekeyTo"@,
        k != "type"@,
    ensures
        !crate::wire::has_key(common_model(t), k),
{
    let base = seq![
        ("fee"@, WireModel::Num(t.fee)),
        ("flatFee"@, WireModel::Bool(true)),
        ("firstRound"@, WireModel::Num(t.first_valid)),
        ("genesisHash"@, WireModel::Str(base64_of(t.genesis_hash@))),
        ("lastRound"@, WireModel::Num(t.last_valid)),
        ("from"@, WireModel::Str(t.sender@)),
        ("genesisId"@, WireModel::Str(t.genesis_id@)),
    ];
    assert(!crate::wire::has_key(base, k)) by {
        if crate::wire::has_key(base, k) {
            let i = choose|i: int| 0 <= i < base.len() && base[i].0 == k;
            assert(false);
        }
    }
    let c1 = opt_push(base, "group"@, opt_b64(t.group));
    lemma_opt_push_other_key(base, "group"@, opt_b64(t.group), k);
    let c2 = opt_push(c1, "lease"@, opt_b64(t.lease));
    lemma_opt_push_other_key(c1, "lease"@, opt_b64(t.lease), k);
    let c3 = opt_push(c2, "note"@, opt_bytes(t.note));
    lemma_opt_push_other_key(c2, "note"@, opt_bytes(t.note), k);
    let c4 = opt_push(c3, "rekeyTo"@, opt_addr(t.rekey_to));
    lemma_opt_push_other_key(c3, "rekeyTo"@, opt_addr(t.rekey_to), k);
    crate::wire::lemma_lookup_push(c4, ("type"@, WireModel::Str(type_tag(t.txn_type))), k);
}

/// The common fields hold the wire type tag under the `type` key.
proof fn lemma_common_type_key(t: Transaction)
    ensures
        crate::wire::has_key(common_model(t), "type"@),
        crate::wire::lookup_val(common_model(t), "type"@) == WireModel::Str(type_tag(t.txn_type)),
{
    proof_keys_revealed();
    let k = "type"@;
    let base = seq![
        ("fee"@, WireModel::Num(t.fee)),
        ("flatFee"@, WireModel::Bool(true)),
        ("firstRound"@, WireModel::Num(t.first_valid)),
        ("genesisHash"@, WireModel::Str(base64_of(t.genesis_hash@))),
        ("lastRound"@, WireModel::Num(t.last_valid)),
        ("from"@, WireModel::Str(t.sender@)),
        ("genesisId"@, WireModel::Str(t.genesis_id@)),
    ];
    assert("type"@[0] != "from"@[0]);
    assert("type"@[0] != "note"@[0]);
    assert(!crate::wire::has_key(base, k)) by {
        if crate::wire::has_key(base, k) {
            let i = choose|i: int| 0 <= i < base.len() && base[i].0 == k;
            assert(false);
        }
    }
    let c1 = opt_push(base, "group"@, opt_b64(t.group));
    lemma_opt_push_other_key(base, "group"@, opt_b64(t.group), k);
    let c2 = opt_push(c1, "lease"@, opt_b64(t.lease));
    lemma_opt_push_other_key(c1, "lease"@, opt_b64(t.lease), k);
    let c3 = opt_push(c2, "note"@, opt_bytes(t.note));
    lemma_opt_push_other_key(c2, "note"@, opt_bytes(t.note), k);
    let c4 = opt_push(c3, "rekeyTo"@, opt_addr(t.rekey_to));
    lemma_opt_push_other_key(c3, "rekeyTo"@, opt_addr(t.rekey_to), k);
    crate::wire::lemma_lookup_push(c4, ("type"@, WireModel::Str(type_tag(t.txn_type))), k);
}

/// Reveals every wire key this module's proofs compare.
proof fn proof_keys_revealed()
    ensures
        "fee"@.len() == 3,
        "flatFee"@.len() == 7,
        "firstRound"@.len() == 10,
        "genesisHash"@.len() == 11,
        "lastRound"@.len() == 9,
        "from"@.len() == 4,
        "genesisId"@.len() == 9,
        "group"@.len() == 5,
        "lease"@.len() == 5,
        "note"@.len() == 4,
        "rekeyTo"@.len() == 7,
        "type"@.len() == 4,
        "amount"@.len() == 6,
        "to"@.len() == 2,
        "closeRemainderTo"@.len() == 16,
        "assetIndex"@.len() == 10,
        "assetSender"@.len() == 11,
        "from"@[0] == 'f',
        "note"@[0] == 'n',
        "type"@[0] == 't',
{
    reveal_strlit("fee");
    reveal_strlit("flatFee");
    reveal_strlit("firstRound");
    reveal_strlit("genesisHash");
    reveal_strlit("lastRound");
    reveal_strlit("from");
    reveal_strlit("genesisId");
    reveal_strlit("group");
    reveal_strlit("lease");
    reveal_strlit("note");
    reveal_strlit("rekeyTo");
    reveal_strlit("type");
    reveal_strlit("amount");
    reveal_strlit("to");
    reveal_strlit("closeRemainderTo");
    reveal_strlit("assetIndex");
    reveal_strlit("assetSender");
}

/// A payment's optional close-remainder field appears on the wire exactly
/// when it is present, and then holds the address's canonical text.
pub proof fn lemma_payment_close_remainder(t: Transaction)
    requires
        t.txn_type is Payment,
    ensures
        match (t.txn_type, encoded_model(t)) {
            (TransactionType::Payment(p), WireModel::Obj(es)) => (p.close_remainder_to is None
                ==> !crate::wire::has_key(es, "closeRemainderTo"@)) && (match p.close_remainder_to {
                Option::Some(a) => crate::wire::has_key(es, "closeRemainderTo"@)
                    && crate::wire::lookup_val(es, "closeRemainderTo"@) == WireModel::Str(a@),
                Option::None => true,
            }),
            _ => false,
        },
{
    proof_keys_revealed();
    match t.txn_type {
        TransactionType::Payment(p) => {
            let be = variant_model(t);
            let k = "closeRemainderTo"@;
            assert(be[0].0 == "amount"@);
            assert(be[1].0 == "to"@);
            assert(be[2].0 == k);
            assert(crate::wire::distinct_keys(be)) by {
                assert forall|i: int, j: int| 0 <= i < j < be.len() implies be[i].0 != be[j].0 by {
                    assert(be[0].0.len() == 6 && be[1].0.len() == 2 && be[2].0.len() == 16);
                }
            }
            assert(crate::wire::has_key(be, k)) by {
                assert(be[2].0 == k);
            }
            assert(be.drop_first()[0] == be[1]);
            assert(be.drop_first().drop_first()[0] == be[2]);
            assert(be.drop_first().len() == 2 && be.drop_first().drop_first().len() == 1);
            assert(crate::wire::lookup_val(be, k) == crate::wire::lookup_val(be.drop_first(), k));
            assert(crate::wire::lookup_val(be.drop_first(), k) == crate::wire::lookup_val(
                be.drop_first().drop_first(),
                k,
            ));
            assert(crate::wire::lookup_val(be.drop_first().drop_first(), k) == be[2].1);
            assert(crate::wire::lookup_val(be, k) == null_or(opt_addr(p.close_remainder_to)));
            lemma_common_other_key(t, k);
            crate::wire::lemma_merge_entries_lookup(common_model(t), be, k);
        },
        _ => {},
    }
}

/// Asset transfer and asset accept both tag the wire object `axfer`; only
/// the transfer carries an `amount` key, the opt-in never does.
pub proof fn lemma_axfer_amount_keys(t: Transaction)
    requires
        t.txn_type is AssetTransfer || t.txn_type is AssetAccept,
    ensures
        match encoded_model(t) {
            WireModel::Obj(es) => crate::wire::has_key(es, "type"@) && crate::wire::lookup_val(
                es,
                "type"@,
            ) == WireModel::Str("axfer"@) && (t.txn_type is AssetTransfer
                ==> crate::wire::has_key(es, "amount"@)) && (t.txn_type is AssetAccept
                ==> !crate::wire::has_key(es, "amount"@)),
            _ => false,
        },
{
    proof_keys_revealed();
    let be = variant_model(t);
    let ka = "amount"@;
    let kt = "type"@;
    assert(be[0].0 == "assetIndex"@);
    assert(be[1].0 == "to"@);
    assert(be[2].0 == "amount"@);
    assert(be[3].0 == "closeRemainderTo"@);
    assert(be[4].0 == "assetSender"@);
    assert(crate::wire::distinct_keys(be)) by {
        assert forall|i: int, j: int| 0 <= i < j < be.len() implies be[i].0 != be[j].0 by {
            assert(be[0].0.len() == 10 && be[1].0.len() == 2 && be[2].0.len() == 6 && be[3].0.len()
                == 16 && be[4].0.len() == 11);
        }
    }
    assert(!crate::wire::has_key(be, kt)) by {
        if crate::wire::has_key(be, kt) {
            let i = choose|i: int| 0 <= i < be.len() && be[i].0 == kt;
            assert(be[i].0.len() == 4);
            assert(false);
        }
    }
    lemma_common_type_key(t);
    crate::wire::lemma_merge_entries_lookup(common_model(t), be, kt);
    assert(crate::wire::has_key(be, ka)) by {
        assert(be[2].0 == ka);
    }
    assert(be.drop_first()[0] == be[1]);
    assert(be.drop_first().drop_first()[0] == be[2]);
    assert(be.drop_first().len() == 4 && be.drop_first().drop_first().len() == 3);
    assert(crate::wire::lookup_val(be, ka) == crate::wire::lookup_val(be.drop_first(), ka));
    assert(crate::wire::lookup_val(be.drop_first(), ka) == crate::wire::lookup_val(
        be.drop_first().drop_first(),
        ka,
    ));
    assert(crate::wire::lookup_val(be.drop_first().drop_first(), ka) == be[2].1);
    lemma_common_other_key(t, ka);
    crate::wire::lemma_merge_entries_lookup(common_model(t), be, ka);
    match t.txn_type {
        TransactionType::AssetTransfer(x) => {
            assert(crate::wire::lookup_val(be, ka) == WireModel::Num(x.amount));
        },
        TransactionType::AssetAccept(_) => {
            assert(crate::wire::lookup_val(be, ka) is Null);
        },
        _ => {},
    }
}

} // verus!

verus! {

/// A key present in the target survives an optional push unchanged.
proof fn lemma_opt_push_keeps_key(
    es: Seq<(Seq<char>, WireModel)>,
    k2: Seq<char>,
    ov: Option<WireModel>,
    k: Seq<char>,
)
    requires
        crate::wire::has_key(es, k),
    ensures
        crate::wire::has_key(opt_push(es, k2, ov), k),
        crate::wire::lookup_val(opt_push(es, k2, ov), k) == crate::wire::lookup_val(es, k),
{
    match ov {
        Option::None => {},
        Option::Some(v) => {
            crate::wire::lemma_lookup_push(es, (k2, v), k);
        },
    }
}

/// Reveals the variant field keys.
proof fn proof_variant_keys_revealed()
    ensures
        "voteKey"@.len() == 7,
        "selectionKey"@.len() == 12,
        "voteFirst"@.len() == 9,
        "voteLast"@.len() == 8,
        "voteKeyDilution"@.len() == 15,
        "assetName"@.len() == 9,
        "assetUnitName"@.len() == 13,
        "assetDecimals"@.len() == 13,
        "assetTotal"@.len() == 10,
        "assetURL"@.len() == 8,
        "assetFreeze"@.len() == 11,
        "assetManager"@.len() == 12,
        "assetReserve"@.len() == 12,
        "assetDefaultFrozen"@.len() == 18,
        "freezeAccount"@.len() == 13,
        "freezeState"@.len() == 11,
        "voteKey"@[0] == 'v',
        "flatFee"@[0] == 'f',
        "assetUnitName"@[5] == 'U',
        "assetDecimals"@[5] == 'D',
        "assetManager"@[5] == 'M',
        "assetReserve"@[5] == 'R',
{
    reveal_strlit("voteKey");
    reveal_strlit("selectionKey");
    reveal_strlit("voteFirst");
    reveal_strlit("voteLast");
    reveal_strlit("voteKeyDilution");
    reveal_strlit("assetName");
    reveal_strlit("assetUnitName");
    reveal_strlit("assetDecimals");
    reveal_strlit("assetTotal");
    reveal_strlit("assetURL");
    reveal_strlit("assetFreeze");
    reveal_strlit("assetManager");
    reveal_strlit("assetReserve");
    reveal_strlit("assetDefaultFrozen");
    reveal_strlit("freezeAccount");
    reveal_strlit("freezeState");
    reveal_strlit("flatFee");
}

/// Every supported variant's field keys are pairwise distinct, and none of
/// them is `fee` or `flatFee`.
proof fn lemma_variant_keys(t: Transaction)
    requires
        !(t.txn_type is ApplicationCall),
    ensures
        crate::wire::distinct_keys(variant_model(t)),
        !crate::wire::has_key(variant_model(t), "fee"@),
        !crate::wire::has_key(variant_model(t), "flatFee"@),
{
    proof_keys_revealed();
    proof_variant_keys_revealed();
    let be = variant_model(t);
    assert(crate::wire::distinct_keys(be)) by {
        assert forall|i: int, j: int| 0 <= i < j < be.len() implies be[i].0 != be[j].0 by {
            match t.txn_type {
                TransactionType::Payment(_) => {
                    assert(be[0].0.len() == 6 && be[1].0.len() == 2 && be[2].0.len() == 16);
                },
                TransactionType::KeyRegistration(_) => {
                    assert(be[0].0.len() == 7 && be[1].0.len() == 12 && be[2].0.len() == 9
                        && be[3].0.len() == 8 && be[4].0.len() == 15);
                },
                TransactionType::AssetConfiguration(_) => {
                    assert(be[0].0.len() == 9 && be[1].0.len() == 13 && be[2].0.len() == 13
                        && be[3].0.len() == 10 && be[4].0.len() == 8 && be[5].0.len() == 11
                        && be[6].0.len() == 12 && be[7].0.len() == 12 && be[8].0.len() == 18);
                    assert(be[1].0[5] != be[2].0[5]);
                    assert(be[6].0[5] != be[7].0[5]);
                },
                TransactionType::AssetTransfer(_) => {
                    assert(be[0].0.len() == 10 && be[1].0.len() == 2 && be[2].0.len() == 6
                        && be[3].0.len() == 16 && be[4].0.len() == 11);
                },
                TransactionType::AssetAccept(_) => {
                    assert(be[0].0.len() == 10 && be[1].0.len() == 2 && be[2].0.len() == 6
                        && be[3].0.len() == 16 && be[4].0.len() == 11);
                },
                TransactionType::AssetClawback(_) => {
                    assert(be[0].0.len() == 10 && be[1].0.len() == 2 && be[2].0.len() == 6
                        && be[3].0.len() == 16 && be[4].0.len() == 11);
                },
                TransactionType::AssetFreeze(_) => {
                    assert(be[0].0.len() == 10 && be[1].0.len() == 13 && be[2].0.len() == 11);
                },
                TransactionType::ApplicationCall => {},
            }
        }
    }
    assert(!crate::wire::has_key(be, "fee"@)) by {
        if crate::wire::has_key(be, "fee"@) {
            let i = choose|i: int| 0 <= i < be.len() && be[i].0 == "fee"@;
            assert(be[i].0.len() == 3);
            assert(false);
        }
    }
    assert(!crate::wire::has_key(be, "flatFee"@)) by {
        if crate::wire::has_key(be, "flatFee"@) {
            let i = choose|i: int| 0 <= i < be.len() && be[i].0 == "flatFee"@;
            assert(be[i].0.len() == 7);
            assert(be[i].0[0] == 'f');
            assert(false);
        }
    }
}

/// The encoder always emits the explicit fee and the flat-fee marker: this
/// system pays a fixed fee and never lets the ledger compute a per-byte one.
pub proof fn lemma_encode_flat_fee(t: Transaction)
    requires
        !(t.txn_type is ApplicationCall),
    ensures
        match encoded_model(t) {
            WireModel::Obj(es) => crate::wire::has_key(es, "fee"@) && crate::wire::lookup_val(
                es,
                "fee"@,
            ) == WireModel::Num(t.fee) && crate::wire::has_key(es, "flatFee"@)
                && crate::wire::lookup_val(es, "flatFee"@) == WireModel::Bool(true),
            _ => false,
        },
{
    proof_keys_revealed();
    let base = seq![
        ("fee"@, WireModel::Num(t.fee)),
        ("flatFee"@, WireModel::Bool(true)),
        ("firstRound"@, WireModel::Num(t.first_valid)),
        ("genesisHash"@, WireModel::Str(base64_of(t.genesis_hash@))),
        ("lastRound"@, WireModel::Num(t.last_valid)),
        ("from"@, WireModel::Str(t.sender@)),
        ("genesisId"@, WireModel::Str(t.genesis_id@)),
    ];
    assert(crate::wire::has_key(base, "fee"@)) by {
        assert(base[0].0 == "fee"@);
    }
    assert(crate::wire::lookup_val(base, "fee"@) == WireModel::Num(t.fee));
    assert(crate::wire::has_key(base, "flatFee"@)) by {
        assert(base[1].0 == "flatFee"@);
    }
    assert(base.drop_first()[0] == base[1]);
    assert(crate::wire::lookup_val(base, "flatFee"@) == crate::wire::lookup_val(
        base.drop_first(),
        "flatFee"@,
    ));
    assert(crate::wire::lookup_val(base.drop_first(), "flatFee"@) == WireModel::Bool(true));
    let c1 = opt_push(base, "group"@, opt_b64(t.group));
    let c2 = opt_push(c1, "lease"@, opt_b64(t.lease));
    let c3 = opt_push(c2, "note"@, opt_bytes(t.note));
    let c4 = opt_push(c3, "rekeyTo"@, opt_addr(t.rekey_to));
    let te = ("type"@, WireModel::Str(type_tag(t.txn_type)));
    lemma_opt_push_keeps_key(base, "group"@, opt_b64(t.group), "fee"@);
    lemma_opt_push_keeps_key(c1, "lease"@, opt_b64(t.lease), "fee"@);
    lemma_opt_push_keeps_key(c2, "note"@, opt_bytes(t.note), "fee"@);
    lemma_opt_push_keeps_key(c3, "rekeyTo"@, opt_addr(t.rekey_to), "fee"@);
    crate::wire::lemma_lookup_push(c4, te, "fee"@);
    lemma_opt_push_keeps_key(base, "group"@, opt_b64(t.group), "flatFee"@);
    lemma_opt_push_keeps_key(c1, "lease"@, opt_b64(t.lease), "flatFee"@);
    lemma_opt_push_keeps_key(c2, "note"@, opt_bytes(t.note), "flatFee"@);
    lemma_opt_push_keeps_key(c3, "rekeyTo"@, opt_addr(t.rekey_to), "flatFee"@);
    crate::wire::lemma_lookup_push(c4, te, "flatFee"@);
    lemma_variant_keys(t);
    crate::wire::lemma_merge_entries_lookup(common_model(t), variant_model(t), "fee"@);
    crate::wire::lemma_merge_entries_lookup(common_model(t), variant_model(t), "flatFee"@);
}

} // verus!
