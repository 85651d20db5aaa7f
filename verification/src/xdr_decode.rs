//! Decoding the XDR of transaction documents with `stellar-xdr`: envelope
//! operations, results, Soroban metas, diagnostic events and authorization
//! entries, each read into the library's models.
//!
//! Each decode is a trusted wrapper whose result is named; the conversions
//! that turn a decoded `stellar-xdr` value into the library's model are
//! below it, one arm for each variant. Where the model holds what the
//! serialized form of a value says (the arguments of an operation, the code
//! of an operation result), the wrapper hands over that serialized form as
//! JSON and verified code reads it.
use vstd::prelude::*;
use stellar_xdr::curr::{
    AccountId, ContractEvent, ContractEventBody, DiagnosticEvent, FeeBumpTransactionInnerTx, HostFunction,
    InnerTransactionResultResult, Limits, Operation, OperationBody, OperationResult, PublicKey, ReadXdr, ScAddress,
    ScError, ScErrorCode, ScVal, SorobanAuthorizationEntry, SorobanCredentials, SorobanTransactionMeta,
    TransactionEnvelope, TransactionMeta, TransactionResult, TransactionResultResult,
};
use serde_json::Value;
use crate::auth_signature::{AddressCredentials, AuthEntryOutcome};
use crate::events::{views, lemma_views, ContractEventData as EventModel, ContractEventType, DiagnosticEventData as DiagnosticModel};
use crate::json::{render, Json, JsonV};
use crate::multi_op_decoder::{InnerTxResult, SorobanMetaModel, TxResultModel};
use crate::operations::{OperationKind, OperationModel, OperationResultModel};
use crate::scval::{
    ScAddressValue as AddressModel, ScErrorValue as ErrorModel, ScErrorCodeValue as ErrorCodeModel, ScErrorKind, ScMapEntry,
    ScValue as ValueModel,
};
use crate::text::append;

verus! {

/// An envelope operation as decoded: its kind, the XDR name of its body, and
/// the body as `serde` serializes it (none when it does not serialize).
#[derive(Debug, PartialEq)]
pub struct RawOperation {
    pub kind: OperationKind,
    pub body_name: String,
    pub body_json: Option<Json>,
}

/// An operation result as decoded: for `opINNER`, the XDR name of the
/// operation type and the inner result as `serde` serializes it.
#[derive(Debug, PartialEq)]
pub enum RawOperationResult {
    Inner { op_name: String, result_json: Option<Json> },
    Outer { name: String },
}

/// The result of a fee bump's inner transaction, as decoded.
#[derive(Debug, PartialEq)]
pub enum RawInnerTxResult {
    TxSuccess(Vec<RawOperationResult>),
    TxFailed(Vec<RawOperationResult>),
    Other(String),
}

/// A transaction result, as decoded.
#[derive(Debug, PartialEq)]
pub enum RawTxResult {
    TxSuccess(Vec<RawOperationResult>),
    TxFailed(Vec<RawOperationResult>),
    FeeBumpInner(RawInnerTxResult),
    Other(String),
}

/// The operations of the transaction envelope whose base64 XDR is given
/// (of the inner transaction of a fee bump), as decoded; or the decoder's
/// message.
pub uninterp spec fn envelope_operations_of(b64: Seq<char>) -> Result<Seq<RawOperation>, Seq<char>>;

/// The transaction result whose base64 XDR is given, as decoded; or the
/// decoder's message.
pub uninterp spec fn tx_result_of(b64: Seq<char>) -> Result<RawTxResult, Seq<char>>;

/// The Soroban part of the transaction meta whose base64 XDR is given (none
/// before meta version 3 or without one), in the library's model; or the
/// decoder's message.
pub uninterp spec fn soroban_meta_of(b64: Seq<char>) -> Result<Option<SorobanMetaModel>, Seq<char>>;

/// The diagnostic event whose base64 XDR is given, in the library's model;
/// none when the text is not one.
pub uninterp spec fn diagnostic_event_of(b64: Seq<char>) -> Option<DiagnosticModel>;

/// The credentials of the authorization entry whose XDR is given
/// (`XdrFailed` when the bytes are not one).
pub uninterp spec fn auth_entry_outcome_of(xdr: Seq<u8>) -> AuthEntryOutcome;

/// Decodes the operations of a base64 XDR transaction envelope
/// (`TransactionEnvelope::from_xdr_base64` of `stellar-xdr`, without limits).
///
/// Trusted: the result, or the message, depends on the text alone.
#[verifier::external_body]
pub(crate) fn decode_envelope_operations(b64: &str) -> (r: Result<Vec<RawOperation>, String>)
    ensures
        match envelope_operations_of(b64@) {
            Ok(ops) => r is Ok && r->Ok_0@ == ops,
            Err(m) => r is Err && r->Err_0@ == m,
        },
{
    match TransactionEnvelope::from_xdr_base64(b64, Limits::none()) {
        Ok(envelope) => Ok(envelope_operations(&envelope).iter().map(raw_operation).collect()),
        Err(e) => Err(e.to_string()),
    }
}

/// Decodes a base64 XDR transaction result
/// (`TransactionResult::from_xdr_base64` of `stellar-xdr`, without limits).
///
/// Trusted: the result, or the message, depends on the text alone.
#[verifier::external_body]
pub(crate) fn decode_tx_result(b64: &str) -> (r: Result<RawTxResult, String>)
    ensures
        match tx_result_of(b64@) {
            Ok(t) => r is Ok && r->Ok_0 == t,
            Err(m) => r is Err && r->Err_0@ == m,
        },
{
    match TransactionResult::from_xdr_base64(b64, Limits::none()) {
        Ok(result) => Ok(raw_tx_result(&result.result)),
        Err(e) => Err(e.to_string()),
    }
}

/// Decodes the Soroban part of a base64 XDR transaction meta
/// (`TransactionMeta::from_xdr_base64` of `stellar-xdr`, without limits).
///
/// Trusted: the result, or the message, depends on the text alone.
#[verifier::external_body]
pub(crate) fn decode_soroban_meta_xdr(b64: &str) -> (r: Result<Option<SorobanMetaModel>, String>)
    ensures
        match soroban_meta_of(b64@) {
            Ok(m) => r is Ok && r->Ok_0 == m,
            Err(msg) => r is Err && r->Err_0@ == msg,
        },
{
    match TransactionMeta::from_xdr_base64(b64, Limits::none()) {
        Ok(TransactionMeta::V3(meta)) => Ok(meta.soroban_meta.as_ref().map(soroban_meta)),
        Ok(_) => Ok(None),
        Err(e) => Err(e.to_string()),
    }
}

/// Decodes a base64 XDR diagnostic event
/// (`DiagnosticEvent::from_xdr_base64` of `stellar-xdr`, without limits).
///
/// Trusted: the result depends on the text alone.
#[verifier::external_body]
pub(crate) fn decode_diagnostic_event(b64: &str) -> (r: Option<DiagnosticModel>)
    ensures
        r == diagnostic_event_of(b64@),
{
    DiagnosticEvent::from_xdr_base64(b64, Limits::none()).ok().map(|e| diagnostic_event(&e))
}

/// Decodes the credentials of an XDR authorization entry
/// (`SorobanAuthorizationEntry::from_xdr` of `stellar-xdr`, without limits).
///
/// Trusted: the result depends on the bytes alone.
#[verifier::external_body]
pub(crate) fn decode_auth_entry_xdr(bytes: &[u8]) -> (r: AuthEntryOutcome)
    ensures
        r == auth_entry_outcome_of(bytes@),
{
    match SorobanAuthorizationEntry::from_xdr(bytes, Limits::none()).map(|e| e.credentials) {
        Ok(SorobanCredentials::SourceAccount) => AuthEntryOutcome::SourceAccount,
        Ok(SorobanCredentials::Address(creds)) => AuthEntryOutcome::Address(AddressCredentials {
            address: sc_address(&creds.address),
            signature: sc_val(&creds.signature),
        }),
        Err(_) => AuthEntryOutcome::XdrFailed,
    }
}

// ---------------------------------------------------------------------------
// Reading the serialized forms
// ---------------------------------------------------------------------------

/// The value of an optional JSON document.
pub open spec fn opt_v(j: Option<Json>) -> Option<JsonV> {
    match j {
        Some(x) => Some(x.v()),
        None => None,
    }
}

/// The text of an optional string.
pub open spec fn opt_text(s: Option<String>) -> Option<Seq<char>> {
    match s {
        Some(t) => Some(t@),
        None => None,
    }
}

/// What a serialized operation body carries: nothing for a body without
/// fields (serialized as its name), the value of a single-member object (the
/// variant's payload), or the value itself.
pub open spec fn body_payload(body: Option<JsonV>) -> Option<JsonV> {
    match body {
        Some(JsonV::String(_)) => None,
        Some(JsonV::Object(m)) => if m.len() == 1 {
            Some(m[0].1)
        } else {
            Some(JsonV::Object(m))
        },
        other => other,
    }
}

/// A field as an argument text: `name: value`, the value as compact JSON.
pub open spec fn field_text(field: (Seq<char>, JsonV)) -> Seq<char> {
    field.0 + ": "@ + render(field.1)
}

/// The argument texts of the fields of an object, in order.
pub open spec fn field_texts(fields: Seq<(Seq<char>, JsonV)>) -> Seq<Seq<char>>
    decreases fields.len(),
{
    if fields.len() == 0 {
        Seq::empty()
    } else {
        field_texts(fields.drop_last()).push(field_text(fields.last()))
    }
}

/// The argument texts of a body's payload: one per field of an object,
/// none for null or no payload, and the compact JSON of any other value.
pub open spec fn argument_texts(payload: Option<JsonV>) -> Seq<Seq<char>> {
    match payload {
        Some(JsonV::Object(fields)) => field_texts(fields),
        Some(JsonV::Null) => Seq::empty(),
        Some(v) => seq![render(v)],
        None => Seq::empty(),
    }
}

/// The snake-case name of an inner result code, read from the serialized
/// inner result `{"<operation>": <code>}`: the code when it is a name, the
/// first member's name when it is an object (a code with a payload).
pub open spec fn result_code(serialized: Option<JsonV>) -> Option<Seq<char>> {
    match serialized {
        Some(JsonV::Object(m)) => if m.len() == 0 {
            None
        } else {
            match m[0].1 {
                JsonV::String(name) => Some(name),
                JsonV::Object(inner) => if inner.len() == 0 {
                    None
                } else {
                    Some(inner[0].0)
                },
                _ => None,
            }
        },
        _ => None,
    }
}

/// `op` is the model of the decoded operation `raw`.
pub open spec fn operation_from(raw: RawOperation, op: OperationModel) -> bool {
    &&& op.kind == raw.kind
    &&& op.body_name == raw.body_name
    &&& views(op.xdr_arguments@) == argument_texts(body_payload(opt_v(raw.body_json)))
}

/// `ops` are the models of the decoded operations `raws`, in order.
pub open spec fn operations_from(raws: Seq<RawOperation>, ops: Seq<OperationModel>) -> bool {
    &&& raws.len() == ops.len()
    &&& forall|i: int| 0 <= i < ops.len() ==> #[trigger] operation_from(raws[i], ops[i])
}

/// `r` is the model of the decoded operation result `raw`.
pub open spec fn op_result_from(raw: RawOperationResult, r: OperationResultModel) -> bool {
    match raw {
        RawOperationResult::Inner { op_name, result_json } => r matches OperationResultModel::Inner {
            op_name: n,
            raw_code,
        } && n == op_name && opt_text(raw_code) == result_code(opt_v(result_json)),
        RawOperationResult::Outer { name } => r == OperationResultModel::Outer { name },
    }
}

/// `rs` are the models of the decoded operation results `raws`, in order.
pub open spec fn op_results_from(raws: Seq<RawOperationResult>, rs: Seq<OperationResultModel>) -> bool {
    &&& raws.len() == rs.len()
    &&& forall|i: int| 0 <= i < rs.len() ==> #[trigger] op_result_from(raws[i], rs[i])
}

/// `r` is the model of the decoded inner transaction result `raw`.
pub open spec fn inner_result_from(raw: RawInnerTxResult, r: InnerTxResult) -> bool {
    match raw {
        RawInnerTxResult::TxSuccess(v) => r matches InnerTxResult::TxSuccess(w) && op_results_from(v@, w@),
        RawInnerTxResult::TxFailed(v) => r matches InnerTxResult::TxFailed(w) && op_results_from(v@, w@),
        RawInnerTxResult::Other(n) => r == InnerTxResult::Other(n),
    }
}

/// `r` is the model of the decoded transaction result `raw`.
pub open spec fn tx_result_from(raw: RawTxResult, r: TxResultModel) -> bool {
    match raw {
        RawTxResult::TxSuccess(v) => r matches TxResultModel::TxSuccess(w) && op_results_from(v@, w@),
        RawTxResult::TxFailed(v) => r matches TxResultModel::TxFailed(w) && op_results_from(v@, w@),
        RawTxResult::FeeBumpInner(i) => r matches TxResultModel::FeeBumpInner(j) && inner_result_from(i, j),
        RawTxResult::Other(n) => r == TxResultModel::Other(n),
    }
}

fn copy_text(s: &String) -> (r: String)
    ensures
        r@ == s@,
{
    let mut r = String::new();
    append(&mut r, s.as_str());
    r
}

/// The argument texts of the fields of an object.
fn member_texts(fields: &Vec<(String, Json)>) -> (r: Vec<String>)
    ensures
        views(r@) == field_texts(Json::vm(fields@)),
{
    let mut out: Vec<String> = Vec::new();
    let n = fields.len();
    proof { Json::lemma_vm(fields@); }
    for i in 0..n
        invariant
            n == fields.len(),
            views(out@) == field_texts(Json::vm(fields@.take(i as int))),
    {
        proof {
            Json::lemma_vm(fields@.take(i + 1));
            Json::lemma_vm(fields@.take(i as int));
            assert(Json::vm(fields@.take(i + 1)).drop_last() =~= Json::vm(fields@.take(i as int)));
        }
        let mut t = copy_text(&fields[i].0);
        append(&mut t, ": ");
        let value = fields[i].1.to_compact_string();
        append(&mut t, value.as_str());
        let ghost before = out@;
        out.push(t);
        proof {
            assert(out@.drop_last() =~= before);
            assert(t@ =~= field_text(Json::vm(fields@.take(i + 1)).last()));
        }
    }
    assert(fields@.take(n as int) =~= fields@);
    out
}

/// The argument texts of a payload.
fn payload_texts(p: &Json) -> (r: Vec<String>)
    ensures
        views(r@) == argument_texts(Some(p.v())),
{
    match p {
        Json::Object(fields) => member_texts(fields),
        Json::Null => Vec::new(),
        _ => {
            let mut v: Vec<String> = Vec::new();
            let t = p.to_compact_string();
            v.push(t);
            proof { lemma_views(v@); }
            assert(views(v@) =~= seq![t@]);
            v
        },
    }
}

/// The argument texts of a serialized operation body.
pub fn xdr_argument_texts(body: &Option<Json>) -> (r: Vec<String>)
    ensures
        views(r@) == argument_texts(body_payload(opt_v(*body))),
{
    match body {
        None => Vec::new(),
        Some(j) => match j {
            Json::String(_) => Vec::new(),
            Json::Object(m) => {
                proof { Json::lemma_vm(m@); }
                if m.len() == 1 {
                    payload_texts(&m[0].1)
                } else {
                    member_texts(m)
                }
            },
            _ => payload_texts(j),
        },
    }
}

/// The snake-case name of an inner result code, read from its serialized
/// form.
pub fn result_code_text(serialized: &Option<Json>) -> (r: Option<String>)
    ensures
        opt_text(r) == result_code(opt_v(*serialized)),
{
    match serialized {
        Some(Json::Object(m)) => {
            proof { Json::lemma_vm(m@); }
            if m.len() == 0 {
                None
            } else {
                match &m[0].1 {
                    Json::String(name) => Some(copy_text(name)),
                    Json::Object(inner) => {
                        proof { Json::lemma_vm(inner@); }
                        if inner.len() == 0 {
                            None
                        } else {
                            Some(copy_text(&inner[0].0))
                        }
                    },
                    _ => None,
                }
            }
        },
        _ => None,
    }
}

/// The model of a decoded operation.
pub fn operation_model(raw: RawOperation) -> (r: OperationModel)
    ensures
        operation_from(raw, r),
{
    let xdr_arguments = xdr_argument_texts(&raw.body_json);
    OperationModel { kind: raw.kind, body_name: raw.body_name, xdr_arguments }
}

/// The models of decoded operations, in order.
pub fn operation_models(raws: Vec<RawOperation>) -> (r: Vec<OperationModel>)
    ensures
        operations_from(raws@, r@),
{
    let ghost all = raws@;
    let n = raws.len();
    let mut rest = raws;
    let mut out: Vec<OperationModel> = Vec::new();
    while rest.len() > 0
        invariant
            n == all.len(),
            out.len() + rest.len() == n,
            rest@ == all.subrange(out.len() as int, n as int),
            forall|i: int| 0 <= i < out.len() ==> #[trigger] operation_from(all[i], out@[i]),
        decreases rest.len(),
    {
        let raw = rest.remove(0);
        out.push(operation_model(raw));
    }
    out
}

/// The model of a decoded operation result.
pub fn operation_result_model(raw: RawOperationResult) -> (r: OperationResultModel)
    ensures
        op_result_from(raw, r),
{
    match raw {
        RawOperationResult::Inner { op_name, result_json } => {
            let raw_code = result_code_text(&result_json);
            OperationResultModel::Inner { op_name, raw_code }
        },
        RawOperationResult::Outer { name } => OperationResultModel::Outer { name },
    }
}

/// The models of decoded operation results, in order.
pub fn operation_result_models(raws: Vec<RawOperationResult>) -> (r: Vec<OperationResultModel>)
    ensures
        op_results_from(raws@, r@),
{
    let ghost all = raws@;
    let n = raws.len();
    let mut rest = raws;
    let mut out: Vec<OperationResultModel> = Vec::new();
    while rest.len() > 0
        invariant
            n == all.len(),
            out.len() + rest.len() == n,
            rest@ == all.subrange(out.len() as int, n as int),
            forall|i: int| 0 <= i < out.len() ==> #[trigger] op_result_from(all[i], out@[i]),
        decreases rest.len(),
    {
        let raw = rest.remove(0);
        out.push(operation_result_model(raw));
    }
    out
}

/// The model of a decoded transaction result.
pub fn tx_result_model(raw: RawTxResult) -> (r: TxResultModel)
    ensures
        tx_result_from(raw, r),
{
    match raw {
        RawTxResult::TxSuccess(v) => TxResultModel::TxSuccess(operation_result_models(v)),
        RawTxResult::TxFailed(v) => TxResultModel::TxFailed(operation_result_models(v)),
        RawTxResult::FeeBumpInner(i) => TxResultModel::FeeBumpInner(match i {
            RawInnerTxResult::TxSuccess(v) => InnerTxResult::TxSuccess(operation_result_models(v)),
            RawInnerTxResult::TxFailed(v) => InnerTxResult::TxFailed(operation_result_models(v)),
            RawInnerTxResult::Other(n) => InnerTxResult::Other(n),
        }),
        RawTxResult::Other(n) => TxResultModel::Other(n),
    }
}

// ---------------------------------------------------------------------------
// Outside types the conversions read, carried as opaque values
// ---------------------------------------------------------------------------

/// `stellar_xdr::curr::ScErrorCode`, read only by the conversions below.
#[verifier::external_type_specification]
#[verifier::external_body]
pub struct ExScErrorCode(stellar_xdr::curr::ScErrorCode);

/// `stellar_xdr::curr::ScError`, read only by the conversions below.
#[verifier::external_type_specification]
#[verifier::external_body]
pub struct ExScError(stellar_xdr::curr::ScError);

/// `stellar_xdr::curr::ScAddress`, read only by the conversions below.
#[verifier::external_type_specification]
#[verifier::external_body]
pub struct ExScAddress(stellar_xdr::curr::ScAddress);

/// `stellar_xdr::curr::ScVal`, read only by the conversions below.
#[verifier::external_type_specification]
#[verifier::external_body]
pub struct ExScVal(stellar_xdr::curr::ScVal);

/// `stellar_xdr::curr::ContractEvent`, read only by the conversions below.
#[verifier::external_type_specification]
#[verifier::external_body]
pub struct ExXdrContractEvent(stellar_xdr::curr::ContractEvent);

/// `stellar_xdr::curr::DiagnosticEvent`, read only by the conversions below.
#[verifier::external_type_specification]
#[verifier::external_body]
pub struct ExXdrDiagnosticEvent(stellar_xdr::curr::DiagnosticEvent);

/// `stellar_xdr::curr::OperationBody`, read only by the conversions below.
#[verifier::external_type_specification]
#[verifier::external_body]
pub struct ExOperationBody(stellar_xdr::curr::OperationBody);

/// `stellar_xdr::curr::Operation`, read only by the conversions below.
#[verifier::external_type_specification]
#[verifier::external_body]
pub struct ExOperation(stellar_xdr::curr::Operation);

/// `stellar_xdr::curr::OperationResult`, read only by the conversions below.
#[verifier::external_type_specification]
#[verifier::external_body]
pub struct ExOperationResult(stellar_xdr::curr::OperationResult);

/// `stellar_xdr::curr::InnerTransactionResultResult`, read only by the conversions below.
#[verifier::external_type_specification]
#[verifier::external_body]
pub struct ExInnerTransactionResultResult(stellar_xdr::curr::InnerTransactionResultResult);

/// `stellar_xdr::curr::TransactionResultResult`, read only by the conversions below.
#[verifier::external_type_specification]
#[verifier::external_body]
pub struct ExTransactionResultResult(stellar_xdr::curr::TransactionResultResult);

/// `stellar_xdr::curr::SorobanTransactionMeta`, read only by the conversions below.
#[verifier::external_type_specification]
#[verifier::external_body]
pub struct ExSorobanTransactionMeta(stellar_xdr::curr::SorobanTransactionMeta);

/// `stellar_xdr::curr::TransactionEnvelope`, read only by the conversions below.
#[verifier::external_type_specification]
#[verifier::external_body]
pub struct ExTransactionEnvelope(stellar_xdr::curr::TransactionEnvelope);

/// `serde_json::Value`, read only by the conversions below.
#[verifier::external_type_specification]
#[verifier::external_body]
pub struct ExJsonValue(serde_json::Value);

// ---------------------------------------------------------------------------
// Conversions of decoded values into the library's models
// ---------------------------------------------------------------------------

/// The library's model of an error code.
#[verifier::external_body]
fn error_code(code: &ScErrorCode) -> ErrorCodeModel {
    match code {
        ScErrorCode::ArithDomain => ErrorCodeModel::ArithDomain,
        ScErrorCode::IndexBounds => ErrorCodeModel::IndexBounds,
        ScErrorCode::InvalidInput => ErrorCodeModel::InvalidInput,
        ScErrorCode::MissingValue => ErrorCodeModel::MissingValue,
        ScErrorCode::ExistingValue => ErrorCodeModel::ExistingValue,
        ScErrorCode::ExceededLimit => ErrorCodeModel::ExceededLimit,
        ScErrorCode::InvalidAction => ErrorCodeModel::InvalidAction,
        ScErrorCode::InternalError => ErrorCodeModel::InternalError,
        ScErrorCode::UnexpectedType => ErrorCodeModel::UnexpectedType,
        ScErrorCode::UnexpectedSize => ErrorCodeModel::UnexpectedSize,
    }
}

/// The library's model of a host error of a kind.
#[verifier::external_body]
fn host_error(kind: ScErrorKind, code: &ScErrorCode) -> ErrorModel {
    ErrorModel::Host(kind, error_code(code))
}

/// The library's model of an error value.
#[verifier::external_body]
fn sc_error(e: &ScError) -> ErrorModel {
    match e {
        ScError::Contract(c) => ErrorModel::Contract(*c),
        ScError::WasmVm(c) => host_error(ScErrorKind::WasmVm, c),
        ScError::Context(c) => host_error(ScErrorKind::Context, c),
        ScError::Storage(c) => host_error(ScErrorKind::Storage, c),
        ScError::Object(c) => host_error(ScErrorKind::Object, c),
        ScError::Crypto(c) => host_error(ScErrorKind::Crypto, c),
        ScError::Events(c) => host_error(ScErrorKind::Events, c),
        ScError::Budget(c) => host_error(ScErrorKind::Budget, c),
        ScError::Value(c) => host_error(ScErrorKind::Value, c),
        ScError::Auth(c) => host_error(ScErrorKind::Auth, c),
    }
}

/// The library's model of an address.
#[verifier::external_body]
fn sc_address(a: &ScAddress) -> AddressModel {
    match a {
        ScAddress::Account(AccountId(PublicKey::PublicKeyTypeEd25519(key))) => AddressModel::Account(key.0),
        ScAddress::Contract(hash) => AddressModel::Contract(hash.0),
    }
}

/// The library's model of a contract value: the small scalars.
#[verifier::external_body]
fn sc_val(v: &ScVal) -> ValueModel {
    match v {
        ScVal::Bool(b) => ValueModel::Bool(*b),
        ScVal::Void => ValueModel::Void,
        ScVal::Error(e) => ValueModel::Error(sc_error(e)),
        ScVal::U32(u) => ValueModel::U32(*u),
        ScVal::I32(i) => ValueModel::I32(*i),
        ScVal::U64(u) => ValueModel::U64(*u),
        ScVal::I64(i) => ValueModel::I64(*i),
        other => sc_val_text(other),
    }
}

/// The library's model of a contract value: times, bytes and texts.
#[verifier::external_body]
fn sc_val_text(v: &ScVal) -> ValueModel {
    match v {
        ScVal::Timepoint(t) => ValueModel::Timepoint(t.0),
        ScVal::Duration(d) => ValueModel::Duration(d.0),
        ScVal::Bytes(b) => ValueModel::Bytes(b.0.to_vec()),
        ScVal::String(s) => ValueModel::String(s.to_string()),
        ScVal::Symbol(s) => ValueModel::Symbol(s.to_string()),
        other => sc_val_wide(other),
    }
}

/// The library's model of a contract value: the wide integers.
#[verifier::external_body]
fn sc_val_wide(v: &ScVal) -> ValueModel {
    match v {
        ScVal::U128(p) => ValueModel::U128 { hi: p.hi, lo: p.lo },
        ScVal::I128(p) => ValueModel::I128 { hi: p.hi, lo: p.lo },
        ScVal::U256(p) => ValueModel::U256 { hi_hi: p.hi_hi, hi_lo: p.hi_lo, lo_hi: p.lo_hi, lo_lo: p.lo_lo },
        ScVal::I256(p) => ValueModel::I256 { hi_hi: p.hi_hi, hi_lo: p.hi_lo, lo_hi: p.lo_hi, lo_lo: p.lo_lo },
        other => sc_val_rest(other),
    }
}

/// The library's model of a contract value: collections, addresses and the
/// rest (by their debug text).
#[verifier::external_body]
fn sc_val_rest(v: &ScVal) -> ValueModel {
    match v {
        ScVal::Vec(items) => ValueModel::Vec(items.as_ref().map(|v| v.0.iter().map(sc_val).collect())),
        ScVal::Map(entries) => ValueModel::MapEntries(entries.as_ref().map(|m| {
            m.0.iter().map(|e| ScMapEntry { key: sc_val(&e.key), val: sc_val(&e.val) }).collect()
        })),
        ScVal::Address(a) => ValueModel::Address(sc_address(a)),
        other => ValueModel::Other(format!("{other:?}")),
    }
}

/// The library's model of a contract event.
#[verifier::external_body]
fn contract_event(e: &ContractEvent) -> EventModel {
    let ContractEventBody::V0(body) = &e.body;
    EventModel {
        contract_id: e.contract_id.as_ref().map(|h| h.0),
        event_type: match e.type_ {
            stellar_xdr::curr::ContractEventType::System => ContractEventType::System,
            stellar_xdr::curr::ContractEventType::Contract => ContractEventType::Contract,
            stellar_xdr::curr::ContractEventType::Diagnostic => ContractEventType::Diagnostic,
        },
        topics: body.topics.iter().map(sc_val).collect(),
        data: sc_val(&body.data),
        data_debug: format!("{:?}", body.data),
    }
}

/// The library's model of a diagnostic event.
#[verifier::external_body]
fn diagnostic_event(e: &DiagnosticEvent) -> DiagnosticModel {
    DiagnosticModel { in_successful_contract_call: e.in_successful_contract_call, event: contract_event(&e.event) }
}

/// The library's model of a `serde_json` value.
#[verifier::external_body]
fn json_of(v: &Value) -> Json {
    match v {
        Value::Null => Json::Null,
        Value::Bool(b) => Json::Bool(*b),
        Value::Number(n) => n.as_i128().map_or_else(|| Json::Float(n.to_string()), Json::Number),
        Value::String(s) => Json::String(s.clone()),
        Value::Array(items) => Json::Array(items.iter().map(json_of).collect()),
        Value::Object(map) => Json::Object(map.iter().map(|(k, x)| (k.clone(), json_of(x))).collect()),
    }
}

/// The kind of an operation body.
#[verifier::external_body]
fn operation_kind(body: &OperationBody) -> OperationKind {
    match body {
        OperationBody::InvokeHostFunction(invoke) => match &invoke.host_function {
            HostFunction::InvokeContract(args) => OperationKind::InvokeContract {
                contract: sc_address(&args.contract_address),
                function_name: args.function_name.to_string(),
                args: args.args.iter().map(sc_val).collect(),
            },
            other => OperationKind::OtherHostFunction { function_name: other.name().to_string() },
        },
        OperationBody::ExtendFootprintTtl(_) => OperationKind::ExtendFootprintTtl,
        OperationBody::RestoreFootprint(_) => OperationKind::RestoreFootprint,
        _ => OperationKind::Classic,
    }
}

/// An envelope operation as decoded, with its body serialized by `serde`.
#[verifier::external_body]
fn raw_operation(op: &Operation) -> RawOperation {
    RawOperation {
        kind: operation_kind(&op.body),
        body_name: op.body.name().to_string(),
        body_json: serde_json::to_value(&op.body).ok().map(|v| json_of(&v)),
    }
}

/// An operation result as decoded, with an inner result serialized by
/// `serde`.
#[verifier::external_body]
fn raw_operation_result(r: &OperationResult) -> RawOperationResult {
    match r {
        OperationResult::OpInner(inner) => RawOperationResult::Inner {
            op_name: inner.name().to_string(),
            result_json: serde_json::to_value(inner).ok().map(|v| json_of(&v)),
        },
        other => RawOperationResult::Outer { name: other.name().to_string() },
    }
}

/// The result of a fee bump's inner transaction, as decoded.
#[verifier::external_body]
fn raw_inner_tx_result(r: &InnerTransactionResultResult) -> RawInnerTxResult {
    match r {
        InnerTransactionResultResult::TxSuccess(v) => RawInnerTxResult::TxSuccess(v.iter().map(raw_operation_result).collect()),
        InnerTransactionResultResult::TxFailed(v) => RawInnerTxResult::TxFailed(v.iter().map(raw_operation_result).collect()),
        other => RawInnerTxResult::Other(other.name().to_string()),
    }
}

/// A transaction result, as decoded.
#[verifier::external_body]
fn raw_tx_result(r: &TransactionResultResult) -> RawTxResult {
    match r {
        TransactionResultResult::TxSuccess(v) => RawTxResult::TxSuccess(v.iter().map(raw_operation_result).collect()),
        TransactionResultResult::TxFailed(v) => RawTxResult::TxFailed(v.iter().map(raw_operation_result).collect()),
        TransactionResultResult::TxFeeBumpInnerSuccess(pair) | TransactionResultResult::TxFeeBumpInnerFailed(pair) => {
            RawTxResult::FeeBumpInner(raw_inner_tx_result(&pair.result.result))
        },
        other => RawTxResult::Other(other.name().to_string()),
    }
}

/// The library's model of the Soroban part of a transaction meta.
#[verifier::external_body]
fn soroban_meta(m: &SorobanTransactionMeta) -> SorobanMetaModel {
    SorobanMetaModel {
        events: m.events.iter().map(contract_event).collect(),
        return_value: sc_val(&m.return_value),
        diagnostic_events: m.diagnostic_events.iter().map(diagnostic_event).collect(),
    }
}

/// The operations of an envelope (of the inner transaction of a fee bump).
#[verifier::external_body]
fn envelope_operations(envelope: &TransactionEnvelope) -> &[Operation] {
    match envelope {
        TransactionEnvelope::TxV0(e) => e.tx.operations.as_ref(),
        TransactionEnvelope::Tx(e) => e.tx.operations.as_ref(),
        TransactionEnvelope::TxFeeBump(e) => match &e.tx.inner_tx {
            FeeBumpTransactionInnerTx::Tx(inner) => inner.tx.operations.as_ref(),
        },
    }
}

} // verus!
