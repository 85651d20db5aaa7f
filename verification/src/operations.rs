//! The library's model of the operations of a transaction envelope and of
//! their XDR results, and how a result is read: its success, category and
//! code, and the explanation shown for it.

use vstd::prelude::*;
use crate::scval::{ScAddressValue, ScValue};
use crate::text::{append, dec_nat, push_char, push_dec, str_eq};

verus! {

/// What an operation does, as far as the decoders tell operations apart.
#[derive(Debug, PartialEq)]
pub enum OperationKind {
    /// `InvokeHostFunction` calling a contract function.
    InvokeContract { contract: ScAddressValue, function_name: String, args: Vec<ScValue> },
    /// `InvokeHostFunction` with another host function, by its XDR name.
    OtherHostFunction { function_name: String },
    /// `ExtendFootprintTtl`.
    ExtendFootprintTtl,
    /// `RestoreFootprint`.
    RestoreFootprint,
    /// Any classic (non-Soroban) operation.
    Classic,
}

/// An operation of a transaction envelope.
#[derive(Debug, PartialEq)]
pub struct OperationModel {
    pub kind: OperationKind,
    /// The XDR name of the operation body (`InvokeHostFunction`, `Payment`, ...).
    pub body_name: String,
    /// The body's fields as `name: value` texts (JSON values), in the order
    /// the XDR serialization lists them.
    pub xdr_arguments: Vec<String>,
}

/// The XDR result of one operation.
#[derive(Debug, PartialEq)]
pub enum OperationResultModel {
    /// `opINNER`: the operation type the result is for (its XDR name), and
    /// the snake-case name of the inner result code when it has one.
    Inner { op_name: String, raw_code: Option<String> },
    /// Any other outer result code, by its XDR name.
    Outer { name: String },
}

/// A Soroban operation: a host function call or a footprint operation.
pub open spec fn is_soroban(op: OperationModel) -> bool {
    !(op.kind is Classic)
}

/// An `InvokeHostFunction` that calls a contract.
pub open spec fn is_invoke(op: OperationModel) -> bool {
    op.kind is InvokeContract
}

/// Whether an operation is a Soroban operation.
pub fn is_soroban_operation(op: &OperationModel) -> (r: bool)
    ensures
        r == is_soroban(*op),
{
    match op.kind {
        OperationKind::Classic => false,
        _ => true,
    }
}

/// Whether an operation calls a contract.
pub fn is_invoke_contract(op: &OperationModel) -> (r: bool)
    ensures
        r == is_invoke(*op),
{
    match op.kind {
        OperationKind::InvokeContract { .. } => true,
        _ => false,
    }
}

/// The contract an operation calls, when it calls one by contract address.
pub open spec fn invoked_contract(op: OperationModel) -> Option<[u8; 32]> {
    match op.kind {
        OperationKind::InvokeContract { contract, .. } => match contract {
            ScAddressValue::Contract(h) => Some(h),
            ScAddressValue::Account(_) => None,
        },
        _ => None,
    }
}

/// The contract an operation calls, when it calls one by contract address.
pub fn invoked_contract_id(op: &OperationModel) -> (r: Option<[u8; 32]>)
    ensures
        r == invoked_contract(*op),
{
    match &op.kind {
        OperationKind::InvokeContract { contract, .. } => match contract {
            ScAddressValue::Contract(h) => Some(*h),
            ScAddressValue::Account(_) => None,
        },
        _ => None,
    }
}

// ---------------------------------------------------------------------------
// Result codes
// ---------------------------------------------------------------------------

/// Unicode upper-casing of one character (`char::to_uppercase`).
pub uninterp spec fn unicode_uppercase(c: char) -> Seq<char>;

/// Upper-cases one character with `char::to_uppercase`.
///
/// Trusted: the result depends on the character alone (Rust's case mapping
/// is locale independent); of ASCII it claims what std documents: `'a'` to
/// `'z'` become `'A'` to `'Z'`, every other ASCII character stays as it is.
/// Beyond ASCII nothing more is claimed of it.
#[verifier::external_body]
fn char_to_uppercase(c: char) -> (r: String)
    ensures
        r@ == unicode_uppercase(c),
        'a' <= c <= 'z' ==> r@ == seq![((c as int) - 32) as char],
        (c as int) < 128 && !('a' <= c <= 'z') ==> r@ == seq![c],
{
    c.to_uppercase().collect()
}

/// PascalCase of snake-case text from `s` on, `start` telling whether a
/// word begins here: underscores are dropped and the first character of
/// each word is upper-cased.
pub open spec fn pascal_from(s: Seq<char>, start: bool) -> Seq<char>
    decreases s.len(),
{
    if s.len() == 0 {
        Seq::empty()
    } else if s[0] == '_' {
        pascal_from(s.drop_first(), true)
    } else if start {
        unicode_uppercase(s[0]) + pascal_from(s.drop_first(), false)
    } else {
        seq![s[0]] + pascal_from(s.drop_first(), false)
    }
}

/// PascalCase of snake-case text (`tx_bad_seq` gives `TxBadSeq`).
pub open spec fn pascal(s: Seq<char>) -> Seq<char> {
    pascal_from(s, true)
}

/// PascalCase of snake-case text.
pub fn to_pascal_case(value: &str) -> (r: String)
    ensures
        r@ == pascal(value@),
{
    let chars = crate::text::chars_of(value);
    let mut out = String::new();
    let mut start = true;
    let n = chars.len();
    assert(chars@.skip(0) =~= chars@);
    for i in 0..n
        invariant
            n == chars.len(),
            pascal(value@) == out@ + pascal_from(chars@.skip(i as int), start),
            chars@ == value@,
    {
        let c = chars[i];
        let ghost rest = chars@.skip(i as int);
        assert(rest[0] == c);
        assert(rest.drop_first() =~= chars@.skip(i + 1));
        if c == '_' {
            start = true;
        } else if start {
            let up = char_to_uppercase(c);
            let ghost before = out@;
            append(&mut out, up.as_str());
            start = false;
            assert(before + (up@ + pascal_from(chars@.skip(i + 1), false)) =~= out@ + pascal_from(chars@.skip(i + 1), false));
        } else {
            let ghost before = out@;
            push_char(&mut out, c);
            assert(before + (seq![c] + pascal_from(chars@.skip(i + 1), false)) =~= out@ + pascal_from(chars@.skip(i + 1), false));
        }
        proof {
            assert(pascal(value@) == out@ + pascal_from(chars@.skip(i + 1), start));
        }
    }
    assert(chars@.skip(n as int) =~= Seq::<char>::empty());
    out
}

/// The category of a result code: classic operations are
/// `ClassicStellar`; for Soroban operations `ResourceLimitExceeded` is a
/// `Budget` failure, `EntryArchived` a `Storage` one, `Malformed` and
/// `InsufficientRefundableFee` `Context` ones, anything else `Soroban`.
pub open spec fn category_of(op: OperationModel, code: Seq<char>) -> Seq<char> {
    if !is_soroban(op) {
        "ClassicStellar"@
    } else if code == "ResourceLimitExceeded"@ {
        "Budget"@
    } else if code == "EntryArchived"@ {
        "Storage"@
    } else if code == "Malformed"@ || code == "InsufficientRefundableFee"@ {
        "Context"@
    } else {
        "Soroban"@
    }
}

/// The category of a result code of an operation.
pub fn result_category(op: &OperationModel, code: &str) -> (r: &'static str)
    ensures
        r@ == category_of(*op, code@),
{
    if !is_soroban_operation(op) {
        return "ClassicStellar";
    }
    if str_eq(code, "ResourceLimitExceeded") {
        "Budget"
    } else if str_eq(code, "EntryArchived") {
        "Storage"
    } else if str_eq(code, "Malformed") || str_eq(code, "InsufficientRefundableFee") {
        "Context"
    } else {
        "Soroban"
    }
}

/// How one operation fared.
#[derive(Debug, PartialEq, Eq)]
pub struct DecodedOperationResult {
    pub success: bool,
    pub attempted: bool,
    pub category: String,
    pub code: String,
}

/// The value of a decoded result: success, attempted, category, code.
pub type ResultV = (bool, bool, Seq<char>, Seq<char>);

impl DecodedOperationResult {
    /// The value of this result.
    pub open spec fn v(self) -> ResultV {
        (self.success, self.attempted, self.category@, self.code@)
    }
}

/// How an operation fared, given its result (if the transaction result
/// lists one) and the transaction's failure code (if it failed).
pub open spec fn result_of(op: OperationModel, result: Option<OperationResultModel>, failure: Option<Seq<char>>) -> ResultV {
    let default_category = if is_soroban(op) { "Soroban"@ } else { "ClassicStellar"@ };
    match result {
        None => (false, false, default_category, match failure {
            Some(f) => f,
            None => "MissingOperationResult"@,
        }),
        Some(OperationResultModel::Inner { op_name, raw_code }) => if op_name@ != op.body_name@ {
            (false, true, "Xdr"@, "OperationResultTypeMismatch"@)
        } else {
            let code = match raw_code {
                Some(c) => pascal(c@),
                None => "UnknownResult"@,
            };
            (code == "Success"@, true, category_of(op, code), code)
        },
        Some(OperationResultModel::Outer { name }) => (false, true, default_category, name@),
    }
}

/// An optional string slice's characters.
pub open spec fn opt_str(o: Option<&str>) -> Option<Seq<char>> {
    match o {
        Some(s) => Some(s@),
        None => None,
    }
}

/// An optional reference's value.
pub open spec fn opt_ref<T>(o: Option<&T>) -> Option<T> {
    match o {
        Some(x) => Some(*x),
        None => None,
    }
}

/// How an operation fared.
pub fn decode_operation_result(
    operation: &OperationModel,
    result: Option<&OperationResultModel>,
    transaction_failure: Option<&str>,
) -> (r: DecodedOperationResult)
    ensures
        r.v() == result_of(*operation, opt_ref(result), opt_str(transaction_failure)),
{
    let default_category = if is_soroban_operation(operation) { "Soroban" } else { "ClassicStellar" };
    let result = match result {
        Some(r) => r,
        None => {
            return DecodedOperationResult {
                success: false,
                attempted: false,
                category: String::from_str(default_category),
                code: String::from_str(
                    match transaction_failure {
                        Some(f) => f,
                        None => "MissingOperationResult",
                    },
                ),
            };
        },
    };
    match result {
        OperationResultModel::Inner { op_name, raw_code } => {
            if !str_eq(op_name.as_str(), operation.body_name.as_str()) {
                return DecodedOperationResult {
                    success: false,
                    attempted: true,
                    category: String::from_str("Xdr"),
                    code: String::from_str("OperationResultTypeMismatch"),
                };
            }
            let code = match raw_code {
                Some(c) => to_pascal_case(c.as_str()),
                None => String::from_str("UnknownResult"),
            };
            let success = str_eq(code.as_str(), "Success");
            let category = String::from_str(result_category(operation, code.as_str()));
            DecodedOperationResult { success, attempted: true, category, code }
        },
        OperationResultModel::Outer { name } => DecodedOperationResult {
            success: false,
            attempted: true,
            category: String::from_str(default_category),
            code: name.clone(),
        },
    }
}

/// The explanation of an operation's result within its transaction.
pub open spec fn explanation_of(index: nat, count: nat, name: Seq<char>, result: ResultV, committed: bool) -> Seq<char> {
    let base = "Operation "@ + dec_nat(index + 1) + "/"@ + dec_nat(count) + " is a "@ + name
        + " operation. Its XDR result is "@ + result.3 + "."@;
    if result.0 && !committed {
        base + " The operation-level result was successful, but its effects were rolled back because the atomic transaction failed."@
    } else if !result.1 {
        base + " The transaction failed before this operation was executed."@
    } else {
        base
    }
}

/// The explanation of an operation's result within its transaction.
pub fn operation_explanation(
    index: usize,
    count: usize,
    name: &str,
    result: &DecodedOperationResult,
    transaction_committed: bool,
) -> (r: String)
    requires
        index < usize::MAX,
    ensures
        r@ == explanation_of(index as nat, count as nat, name@, result.v(), transaction_committed),
{
    let mut s = String::from_str("Operation ");
    push_dec(&mut s, (index + 1) as u128);
    append(&mut s, "/");
    push_dec(&mut s, count as u128);
    append(&mut s, " is a ");
    append(&mut s, name);
    append(&mut s, " operation. Its XDR result is ");
    append(&mut s, result.code.as_str());
    append(&mut s, ".");
    if result.success && !transaction_committed {
        append(
            &mut s,
            " The operation-level result was successful, but its effects were rolled back because the atomic transaction failed.",
        );
    } else if !result.attempted {
        append(&mut s, " The transaction failed before this operation was executed.");
    }
    s
}

} // verus!
