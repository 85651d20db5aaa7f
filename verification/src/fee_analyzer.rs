//! How the fee of a transaction was made up: the total charged, the
//! inclusion fee, the Soroban resource fee and its refundable and rent
//! parts, and the bid.

use vstd::prelude::*;
use stellar_xdr::curr::{
    Limits, ReadXdr, SorobanTransactionMeta, SorobanTransactionMetaExt, TransactionEnvelope,
    TransactionMeta, TransactionResult,
};
use crate::error::{GratError, GratResult};
use crate::json::{as_i64_v, as_object_v, as_str_v, get_v, obj_get, opt_v, Json, JsonV};
use crate::report::FeeBreakdown;

verus! {

/// The fee charged, as read from a base64 XDR `TransactionResult`; `None`
/// when the text does not decode.
pub uninterp spec fn result_fee_charged(b64: Seq<char>) -> Option<i64>;

/// The fee bid of a base64 XDR `TransactionEnvelope`; `None` when the text
/// does not decode.
pub uninterp spec fn envelope_fee_bid(b64: Seq<char>) -> Option<i64>;

/// The non-refundable, refundable and rent fees charged, as read from a
/// base64 XDR `TransactionMeta`; `None` unless it decodes to a version 3
/// meta with Soroban meta carrying the fee extension.
pub uninterp spec fn meta_resource_fees(b64: Seq<char>) -> Option<(i64, i64, i64)>;

/// Decodes a base64 XDR `TransactionResult` with `stellar_xdr` and reads
/// its `fee_charged`.
///
/// Trusted: the result depends on the text alone.
#[verifier::external_body]
fn parse_total_fee(result_xdr_b64: &str) -> (r: Option<i64>)
    ensures
        r == result_fee_charged(result_xdr_b64@),
{
    TransactionResult::from_xdr_base64(result_xdr_b64, Limits::none()).ok().map(|result| result.fee_charged)
}

/// Decodes a base64 XDR `TransactionEnvelope` with `stellar_xdr` and reads
/// the fee of its transaction (of the outer transaction for a fee bump).
///
/// Trusted: the result depends on the text alone.
#[verifier::external_body]
fn parse_bid_fee(envelope_xdr_b64: &str) -> (r: Option<i64>)
    ensures
        r == envelope_fee_bid(envelope_xdr_b64@),
{
    match TransactionEnvelope::from_xdr_base64(envelope_xdr_b64, Limits::none()) {
        Ok(TransactionEnvelope::Tx(v1)) => Some(i64::from(v1.tx.fee)),
        Ok(TransactionEnvelope::TxFeeBump(fee_bump)) => Some(fee_bump.tx.fee),
        Ok(TransactionEnvelope::TxV0(v0)) => Some(i64::from(v0.tx.fee)),
        Err(_) => None,
    }
}

/// Decodes a base64 XDR `TransactionMeta` with `stellar_xdr` and reads the
/// resource fees of its Soroban meta extension.
///
/// Trusted: the result depends on the text alone.
#[verifier::external_body]
fn parse_meta_fees(meta_xdr_b64: &str) -> (r: Option<(i64, i64, i64)>)
    ensures
        r == meta_resource_fees(meta_xdr_b64@),
{
    match TransactionMeta::from_xdr_base64(meta_xdr_b64, Limits::none()) {
        Ok(TransactionMeta::V3(v3)) => match v3.soroban_meta {
            Some(SorobanTransactionMeta { ext: SorobanTransactionMetaExt::V1(v1), .. }) => Some(
                (v1.total_non_refundable_resource_fee_charged, v1.total_refundable_resource_fee_charged, v1.rent_fee_charged),
            ),
            _ => None,
        },
        _ => None,
    }
}

/// An optional number, or a default.
pub open spec fn i64_or(o: Option<i64>, d: i64) -> i64 {
    match o {
        Some(v) => v,
        None => d,
    }
}

/// The total fee charged by a transaction document (0 when unknown).
pub open spec fn total_fee_of(tx: JsonV) -> i64 {
    match as_str_v(get_v(tx, "resultXdr"@)) {
        Some(b) => i64_or(result_fee_charged(b), 0),
        None => 0,
    }
}

/// The fee bid decoded from the envelope of a transaction document.
pub open spec fn envelope_bid_of(tx: JsonV) -> Option<i64> {
    match as_str_v(get_v(tx, "envelopeXdr"@)) {
        Some(b) => envelope_fee_bid(b),
        None => None,
    }
}

/// The resource fees decoded from the meta of a transaction document.
pub open spec fn meta_fees_of(tx: JsonV) -> Option<(i64, i64, i64)> {
    match as_str_v(get_v(tx, "resultMetaXdr"@)) {
        Some(b) => meta_resource_fees(b),
        None => None,
    }
}

/// Non-refundable, refundable and rent fees, and whether a Soroban
/// resource fee is known: from the `resourceFee` object when there is one
/// (missing members read as 0), else from the decoded meta.
pub open spec fn resource_fee_parts(tx: JsonV, meta_fees: Option<(i64, i64, i64)>) -> (i64, i64, i64, bool) {
    match as_object_v(get_v(tx, "resourceFee"@)) {
        Some(m) => (
            i64_or(as_i64_v(obj_get(m, "totalNonRefundableResourceFeeCharged"@)), 0),
            i64_or(as_i64_v(obj_get(m, "totalRefundableResourceFeeCharged"@)), 0),
            i64_or(as_i64_v(obj_get(m, "rentFeeCharged"@)), 0),
            true,
        ),
        None => match meta_fees {
            Some((a, b, c)) => (a, b, c, true),
            None => (0, 0, 0, false),
        },
    }
}

/// The fee parts can be summed within `i64`.
pub open spec fn parts_fit(p: (i64, i64, i64, bool)) -> bool {
    &&& i64::MIN <= p.0 + p.1 <= i64::MAX
    &&& i64::MIN <= p.0 + p.1 + p.2 <= i64::MAX
    &&& i64::MIN <= p.1 + p.2 <= i64::MAX
}

/// `a - b`, saturating at the bounds of `i64`.
pub open spec fn saturating_sub(a: i64, b: i64) -> i64 {
    if a - b > i64::MAX {
        i64::MAX
    } else if a - b < i64::MIN {
        i64::MIN
    } else {
        (a - b) as i64
    }
}

/// The fee breakdown of a transaction document, given the total fee, the
/// bid decoded from its envelope and the fees decoded from its meta.
pub open spec fn breakdown_of(tx: JsonV, total_fee: i64, envelope_bid: Option<i64>, meta_fees: Option<(i64, i64, i64)>) -> FeeBreakdown
    recommends
        parts_fit(resource_fee_parts(tx, meta_fees)),
{
    let (non_refundable, refundable, rent, has) = resource_fee_parts(tx, meta_fees);
    let resource_fee: i64 = if has { (non_refundable + refundable + rent) as i64 } else { 0 };
    let inclusion_fee = match as_i64_v(get_v(tx, "inclusionFee"@)) {
        Some(v) => v,
        None => if resource_fee > 0 {
            saturating_sub(total_fee, resource_fee)
        } else {
            total_fee
        },
    };
    FeeBreakdown {
        total_charged_fee: total_fee,
        inclusion_fee,
        resource_fee,
        refundable_resource_fee: refundable,
        refundable_fee: (refundable + rent) as i64,
        non_refundable_fee: non_refundable,
        bid_fee: match envelope_bid {
            Some(b) => Some(b),
            None => as_i64_v(get_v(tx, "feeBid"@)),
        },
    }
}

fn i64_member(m: &Vec<(String, Json)>, key: &str) -> (r: i64)
    ensures
        r == i64_or(as_i64_v(obj_get(Json::vm(m@), key@)), 0),
{
    let o = Json::Object(Vec::new());
    proof { Json::lemma_vm(m@); }
    let n = m.len();
    let ghost vm = Json::vm(m@);
    assert(vm.skip(0) =~= vm);
    for i in 0..n
        invariant
            n == m.len(),
            vm == Json::vm(m@),
            vm.len() == n,
            forall|k: int| 0 <= k < n ==> #[trigger] vm[k] == (m@[k].0@, m@[k].1.v()),
            obj_get(vm, key@) == obj_get(vm.skip(i as int), key@),
    {
        let ghost rest = vm.skip(i as int);
        assert(rest[0] == vm[i as int]);
        assert(rest.drop_first() =~= vm.skip(i + 1));
        if crate::text::str_eq(m[i].0.as_str(), key) {
            assert(obj_get(rest, key@) == Some(rest[0].1));
            return match m[i].1.as_i64() {
                Some(v) => v,
                None => 0,
            };
        }
    }
    assert(vm.skip(n as int) =~= Seq::<(Seq<char>, JsonV)>::empty());
    0
}

/// The fee breakdown of an RPC transaction document, given the fee charged
/// (`resultXdr`, 0 when absent), the bid decoded from `envelopeXdr` and the
/// fees decoded from `resultMetaXdr`. The `resourceFee` object, the
/// `inclusionFee` and the `feeBid` members of the document take part as
/// [`breakdown_of`] says.
pub fn fee_breakdown(tx_data: &Json, total_fee: i64, envelope_bid: Option<i64>, meta_fees: Option<(i64, i64, i64)>) -> (r: FeeBreakdown)
    requires
        parts_fit(resource_fee_parts(tx_data.v(), meta_fees)),
    ensures
        r == breakdown_of(tx_data.v(), total_fee, envelope_bid, meta_fees),
{
    let (non_refundable, refundable, rent, has) = match tx_data.get("resourceFee") {
        Some(v) => match v.as_object() {
            Some(m) => (
                i64_member(m, "totalNonRefundableResourceFeeCharged"),
                i64_member(m, "totalRefundableResourceFeeCharged"),
                i64_member(m, "rentFeeCharged"),
                true,
            ),
            None => match meta_fees {
                Some((a, b, c)) => (a, b, c, true),
                None => (0, 0, 0, false),
            },
        },
        None => match meta_fees {
            Some((a, b, c)) => (a, b, c, true),
            None => (0, 0, 0, false),
        },
    };
    let resource_fee: i64 = if has { non_refundable + refundable + rent } else { 0 };
    let inclusion_fee = match tx_data.get("inclusionFee") {
        Some(v) => match v.as_i64() {
            Some(x) => x,
            None => if resource_fee > 0 { sat_sub(total_fee, resource_fee) } else { total_fee },
        },
        None => if resource_fee > 0 { sat_sub(total_fee, resource_fee) } else { total_fee },
    };
    let bid_fee = match envelope_bid {
        Some(b) => Some(b),
        None => match tx_data.get("feeBid") {
            Some(v) => v.as_i64(),
            None => None,
        },
    };
    FeeBreakdown {
        total_charged_fee: total_fee,
        inclusion_fee,
        resource_fee,
        refundable_resource_fee: refundable,
        refundable_fee: refundable + rent,
        non_refundable_fee: non_refundable,
        bid_fee,
    }
}

/// The fee parts of a document, with its meta decoded.
pub open spec fn doc_parts(tx: JsonV) -> (i64, i64, i64, bool) {
    resource_fee_parts(tx, meta_fees_of(tx))
}

/// The fee breakdown of a document, with its XDR members decoded.
pub open spec fn doc_breakdown(tx: JsonV) -> FeeBreakdown {
    breakdown_of(tx, total_fee_of(tx), envelope_bid_of(tx), meta_fees_of(tx))
}

/// The fee breakdown of an RPC transaction document, decoding its
/// `resultXdr`, `envelopeXdr` and `resultMetaXdr` members.
pub fn analyze_fee_breakdown(tx_data: &Json) -> (r: FeeBreakdown)
    requires
        parts_fit(doc_parts(tx_data.v())),
    ensures
        r == doc_breakdown(tx_data.v()),
{
    let total_fee = match tx_data.get("resultXdr") {
        Some(v) => match v.as_str() {
            Some(b) => match parse_total_fee(b.as_str()) {
                Some(f) => f,
                None => 0,
            },
            None => 0,
        },
        None => 0,
    };
    let envelope_bid = match tx_data.get("envelopeXdr") {
        Some(v) => match v.as_str() {
            Some(b) => parse_bid_fee(b.as_str()),
            None => None,
        },
        None => None,
    };
    let meta_fees = decoded_meta_fees(tx_data);
    fee_breakdown(tx_data, total_fee, envelope_bid, meta_fees)
}

fn decoded_meta_fees(tx_data: &Json) -> (r: Option<(i64, i64, i64)>)
    ensures
        r == meta_fees_of(tx_data.v()),
{
    match tx_data.get("resultMetaXdr") {
        Some(v) => match v.as_str() {
            Some(b) => parse_meta_fees(b.as_str()),
            None => None,
        },
        None => None,
    }
}

fn fee_parts_fit(tx_data: &Json) -> (r: bool)
    ensures
        r == parts_fit(doc_parts(tx_data.v())),
{
    let meta_fees = decoded_meta_fees(tx_data);
    let (a, b, c): (i64, i64, i64) = match tx_data.get("resourceFee") {
        Some(v) => match v.as_object() {
            Some(m) => (
                i64_member(m, "totalNonRefundableResourceFeeCharged"),
                i64_member(m, "totalRefundableResourceFeeCharged"),
                i64_member(m, "rentFeeCharged"),
            ),
            None => match meta_fees {
                Some((a, b, c)) => (a, b, c),
                None => (0, 0, 0),
            },
        },
        None => match meta_fees {
            Some((a, b, c)) => (a, b, c),
            None => (0, 0, 0),
        },
    };
    let s0 = (a as i128) + (b as i128);
    let s1 = (a as i128) + (b as i128) + (c as i128);
    let s2 = (b as i128) + (c as i128);
    -0x8000_0000_0000_0000 <= s0 && s0 <= 0x7fff_ffff_ffff_ffff && -0x8000_0000_0000_0000 <= s1 && s1 <= 0x7fff_ffff_ffff_ffff && -0x8000_0000_0000_0000 <= s2 && s2
        <= 0x7fff_ffff_ffff_ffff
}

/// The fee breakdown of a document, or `None` when its resource fee parts
/// overflow `i64` when summed.
pub fn checked_fee_breakdown(tx_data: &Json) -> (r: Option<FeeBreakdown>)
    ensures
        r is Some <==> parts_fit(doc_parts(tx_data.v())),
        r matches Some(f) ==> f == doc_breakdown(tx_data.v()),
{
    if fee_parts_fit(tx_data) {
        Some(analyze_fee_breakdown(tx_data))
    } else {
        None
    }
}

/// The resource fee object written back into a document.
pub open spec fn resource_fee_object(f: FeeBreakdown) -> JsonV {
    JsonV::Object(
        seq![
            ("rentFeeCharged"@, JsonV::Number(f.refundable_fee - f.refundable_resource_fee)),
            ("totalNonRefundableResourceFeeCharged"@, JsonV::Number(f.non_refundable_fee as int)),
            ("totalRefundableResourceFeeCharged"@, JsonV::Number(f.refundable_resource_fee as int)),
        ],
    )
}

/// A document with a member set: an object gets the member inserted or
/// replaced, `null` becomes an object holding only it.
pub open spec fn with_member(doc: JsonV, k: Seq<char>, v: JsonV) -> JsonV {
    match doc {
        JsonV::Object(m) => JsonV::Object(crate::json::obj_insert(m, k, v)),
        _ => JsonV::Object(seq![(k, v)]),
    }
}

/// `a - b`, saturating at the bounds of `i64`, in executable code.
fn sat_sub(a: i64, b: i64) -> (r: i64)
    ensures
        r == saturating_sub(a, b),
{
    let d = (a as i128) - (b as i128);
    if d > 0x7fff_ffff_ffff_ffff {
        0x7fff_ffff_ffff_ffff
    } else if d < -0x8000_0000_0000_0000 {
        -0x8000_0000_0000_0000
    } else {
        d as i64
    }
}

fn set_member(doc: &mut Json, k: &str, v: Json)
    requires
        *old(doc) is Object || *old(doc) is Null,
    ensures
        final(doc).v() == with_member(old(doc).v(), k@, v.v()),
        *final(doc) is Object,
{
    let members = match doc {
        Json::Object(m) => {
            let mut taken: Vec<(String, Json)> = Vec::new();
            std::mem::swap(&mut taken, m);
            taken
        },
        _ => Vec::new(),
    };
    let ghost old_members = Json::vm(members@);
    let updated = Json::insert_member(members, String::from_str(k), v);
    *doc = Json::Object(updated);
    proof {
        if *old(doc) is Null {
            assert(old_members =~= Seq::<(Seq<char>, JsonV)>::empty());
            assert(crate::json::obj_insert(old_members, k@, v.v()) =~= seq![(k@, v.v())]);
        }
    }
}

/// The parts of the fee add up: a known resource fee is its non-refundable
/// and refundable parts, and, when the document does not state the
/// inclusion fee and the resource fee is not negative, the inclusion and
/// resource fees make up the total charged (unless the difference leaves
/// `i64`).
pub proof fn lemma_fee_parts_add_up(doc: JsonV)
    requires
        parts_fit(doc_parts(doc)),
    ensures
        doc_parts(doc).3 ==> doc_breakdown(doc).resource_fee == doc_breakdown(doc).non_refundable_fee
            + doc_breakdown(doc).refundable_fee,
        ({
            let f = doc_breakdown(doc);
            as_i64_v(get_v(doc, "inclusionFee"@)) is None && f.resource_fee >= 0 && i64::MIN
                <= f.total_charged_fee - f.resource_fee <= i64::MAX ==> f.inclusion_fee + f.resource_fee == f.total_charged_fee
        }),
{
}

/// A document with its fee breakdown written back.
pub open spec fn injected(doc: JsonV) -> JsonV {
    let f = doc_breakdown(doc);
    let with_inclusion = with_member(doc, "inclusionFee"@, JsonV::Number(f.inclusion_fee as int));
    if f.resource_fee > 0 {
        with_member(with_inclusion, "resourceFee"@, resource_fee_object(f))
    } else {
        with_inclusion
    }
}

proof fn lemma_with_member_get(doc: JsonV, k: Seq<char>, v: JsonV, k2: Seq<char>)
    requires
        doc is Object || doc is Null,
    ensures
        get_v(with_member(doc, k, v), k2) == if k2 == k {
            Some(v)
        } else {
            get_v(doc, k2)
        },
{
    match doc {
        JsonV::Object(m) => crate::json::lemma_insert_then_get(m, k, v, k2),
        _ => {
            crate::json::lemma_insert_then_get(Seq::empty(), k, v, k2);
            assert(crate::json::obj_insert(Seq::empty(), k, v) =~= seq![(k, v)]);
        },
    }
}

/// Reading the fees back from a document they were written into gives the
/// same breakdown: the written members say what was read.
pub proof fn lemma_inject_then_analyze(doc: JsonV)
    requires
        doc is Object || doc is Null,
        parts_fit(doc_parts(doc)),
    ensures
        parts_fit(doc_parts(injected(doc))),
        doc_breakdown(injected(doc)) == doc_breakdown(doc),
{
    let f = doc_breakdown(doc);
    let d1 = with_member(doc, "inclusionFee"@, JsonV::Number(f.inclusion_fee as int));
    reveal_strlit("inclusionFee");
    reveal_strlit("resourceFee");
    reveal_strlit("resultXdr");
    reveal_strlit("envelopeXdr");
    reveal_strlit("resultMetaXdr");
    reveal_strlit("feeBid");
    let keys = seq!["resultXdr"@, "envelopeXdr"@, "resultMetaXdr"@, "feeBid"@, "resourceFee"@, "inclusionFee"@];
    assert forall|i: int| 0 <= i < 6 implies get_v(d1, #[trigger] keys[i]) == if i == 5 {
        Some(JsonV::Number(f.inclusion_fee as int))
    } else {
        get_v(doc, keys[i])
    } by {
        lemma_with_member_get(doc, "inclusionFee"@, JsonV::Number(f.inclusion_fee as int), keys[i]);
    }
    assert(keys[0] == "resultXdr"@ && keys[1] == "envelopeXdr"@ && keys[2] == "resultMetaXdr"@);
    assert(keys[3] == "feeBid"@ && keys[4] == "resourceFee"@ && keys[5] == "inclusionFee"@);
    if f.resource_fee > 0 {
        let obj = resource_fee_object(f);
        let d2 = with_member(d1, "resourceFee"@, obj);
        assert forall|i: int| 0 <= i < 6 implies get_v(d2, #[trigger] keys[i]) == if i == 4 {
            Some(obj)
        } else {
            get_v(d1, keys[i])
        } by {
            lemma_with_member_get(d1, "resourceFee"@, obj, keys[i]);
        }
        reveal_strlit("rentFeeCharged");
        reveal_strlit("totalNonRefundableResourceFeeCharged");
        reveal_strlit("totalRefundableResourceFeeCharged");
        let m = obj->Object_0;
        let m1 = m.drop_first();
        let m2 = m1.drop_first();
        assert(m[0].0.len() != "totalNonRefundableResourceFeeCharged"@.len());
        assert(m[0].0.len() != "totalRefundableResourceFeeCharged"@.len());
        assert(m1[0].0 == "totalNonRefundableResourceFeeCharged"@);
        assert(m1[0].0.len() != "totalRefundableResourceFeeCharged"@.len());
        assert(m2[0].0 == "totalRefundableResourceFeeCharged"@);
        assert(obj_get(m2, "totalRefundableResourceFeeCharged"@) == Some(JsonV::Number(f.refundable_resource_fee as int)));
        assert(obj_get(m1, "totalRefundableResourceFeeCharged"@) == Some(JsonV::Number(f.refundable_resource_fee as int)));
        assert(obj_get(m1, "totalNonRefundableResourceFeeCharged"@) == Some(JsonV::Number(f.non_refundable_fee as int)));
        assert(obj_get(m, "totalNonRefundableResourceFeeCharged"@) == Some(JsonV::Number(f.non_refundable_fee as int)));
        assert(obj_get(m, "totalRefundableResourceFeeCharged"@) == Some(JsonV::Number(f.refundable_resource_fee as int)));
        assert(obj_get(m, "rentFeeCharged"@) == Some(JsonV::Number(f.refundable_fee - f.refundable_resource_fee)));
        assert(get_v(d2, "resourceFee"@) == Some(obj));
        assert(get_v(d2, "inclusionFee"@) == Some(JsonV::Number(f.inclusion_fee as int)));
        assert(get_v(d2, "resultXdr"@) == get_v(doc, "resultXdr"@));
        assert(get_v(d2, "envelopeXdr"@) == get_v(doc, "envelopeXdr"@));
        assert(get_v(d2, "resultMetaXdr"@) == get_v(doc, "resultMetaXdr"@));
        assert(get_v(d2, "feeBid"@) == get_v(doc, "feeBid"@));
        assert(doc_parts(d2) == doc_parts(doc));
    } else {
        assert(get_v(d1, "resourceFee"@) == get_v(doc, "resourceFee"@));
        assert(get_v(d1, "resultXdr"@) == get_v(doc, "resultXdr"@));
        assert(get_v(d1, "resultMetaXdr"@) == get_v(doc, "resultMetaXdr"@));
        assert(doc_parts(d1) == doc_parts(doc));
    }
}

/// Writes the fee breakdown back into a document: `inclusionFee` always,
/// and, when the resource fee is positive, a `resourceFee` object with its
/// non-refundable, refundable and rent parts.
pub fn inject_fee_metadata(tx_data: &mut Json) -> (r: GratResult<()>)
    requires
        *old(tx_data) is Object || *old(tx_data) is Null,
        parts_fit(doc_parts(old(tx_data).v())),
    ensures
        r is Ok,
        final(tx_data).v() == injected(old(tx_data).v()),
{
    let breakdown = analyze_fee_breakdown(tx_data);
    set_member(tx_data, "inclusionFee", Json::Number(breakdown.inclusion_fee as i128));
    if breakdown.resource_fee > 0 {
        let rent = sat_sub(breakdown.refundable_fee, breakdown.refundable_resource_fee);
        let mut members: Vec<(String, Json)> = Vec::new();
        members.push((String::from_str("rentFeeCharged"), Json::Number(rent as i128)));
        members.push((String::from_str("totalNonRefundableResourceFeeCharged"), Json::Number(breakdown.non_refundable_fee as i128)));
        members.push((String::from_str("totalRefundableResourceFeeCharged"), Json::Number(breakdown.refundable_resource_fee as i128)));
        let obj = Json::Object(members);
        proof {
            Json::lemma_vm(members@);
            assert(Json::vm(members@) =~= seq![
                ("rentFeeCharged"@, JsonV::Number(rent as int)),
                ("totalNonRefundableResourceFeeCharged"@, JsonV::Number(breakdown.non_refundable_fee as int)),
                ("totalRefundableResourceFeeCharged"@, JsonV::Number(breakdown.refundable_resource_fee as int)),
            ]);
        }
        set_member(tx_data, "resourceFee", obj);
    }
    Ok(())
}

/// Writes the fee breakdown back into a document, or, leaving it as it
/// was, reports an error when the document is neither an object nor
/// `null` or when its resource fee parts overflow `i64` when summed.
pub fn checked_inject_fee_metadata(tx_data: &mut Json) -> (r: GratResult<()>)
    ensures
        r is Ok <==> ((*old(tx_data) is Object || *old(tx_data) is Null) && parts_fit(doc_parts(old(tx_data).v()))),
        r is Err ==> *final(tx_data) == *old(tx_data),
{
    let shape_ok = match tx_data {
        Json::Object(_) => true,
        Json::Null => true,
        _ => false,
    };
    if !shape_ok || !fee_parts_fit(tx_data) {
        return Err(GratError::Internal(String::from_str("fee metadata cannot be written into this document")));
    }
    inject_fee_metadata(tx_data)
}

} // verus!
