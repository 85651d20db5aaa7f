//! Decodes every operation of a transaction into a diagnostic report of its
//! own: what it called, how it fared, the events it emitted and the fee
//! and resources of the whole transaction.

use vstd::prelude::*;
use crate::diagnostic::{enriched, findings_of, same_except_findings};
use crate::error::{GratError, GratResult};
use crate::events::{topic_strings, topic_texts, views, lemma_views, ContractEventData, DiagnosticEventData};
use crate::fee_analyzer::{analyze_fee_breakdown, doc_breakdown, doc_parts, parts_fit};
use crate::function_call_decoder::FunctionCallDecoder;
use crate::json::{as_str_v, as_u64_v, get_v, render, Json, JsonV};
use crate::operations::{
    decode_operation_result, explanation_of, invoked_contract, invoked_contract_id, is_invoke,
    is_invoke_contract, is_soroban, is_soroban_operation, operation_explanation, opt_ref, opt_str,
    result_of, DecodedOperationResult, OperationKind, OperationModel, OperationResultModel, ResultV,
};
use crate::report::{DiagnosticReport, FailureAttribution, FeeBreakdown, ResourceSummary, Severity, TransactionContext};
use crate::xdr_decode::{
    decode_envelope_operations, decode_soroban_meta_xdr, decode_tx_result, envelope_operations_of, operation_models,
    operations_from, soroban_meta_of, tx_result_from, tx_result_model, tx_result_of,
};
use crate::resource_analyzer::{meta_from, str_member, worth_reporting, ResourceDiagnostics, TransactionResultMeta};
use crate::return_decoder::{dynamic, text_of, ReturnValueDecoder};
use crate::argument_decoder::{fallback_name, DecodedArgument};
use crate::scval::ScValue;
use crate::text::{append, dec_nat, hex_of, hex_seq, lower_seq, push_dec, str_eq, to_ascii_lowercase, chars_of, eq_chars};

verus! {

// ---------------------------------------------------------------------------
// Transaction results and meta
// ---------------------------------------------------------------------------

/// The result of the inner transaction of a fee bump.
#[derive(Debug, PartialEq)]
pub enum InnerTxResult {
    TxSuccess(Vec<OperationResultModel>),
    TxFailed(Vec<OperationResultModel>),
    /// Any other code, by its XDR name.
    Other(String),
}

/// The result of a transaction.
#[derive(Debug, PartialEq)]
pub enum TxResultModel {
    TxSuccess(Vec<OperationResultModel>),
    TxFailed(Vec<OperationResultModel>),
    /// A fee bump, successful or not, with its inner result.
    FeeBumpInner(InnerTxResult),
    /// Any other code, by its XDR name.
    Other(String),
}

/// The Soroban part of a transaction's meta.
#[derive(Debug, PartialEq)]
pub struct SorobanMetaModel {
    pub events: Vec<ContractEventData>,
    pub return_value: ScValue,
    pub diagnostic_events: Vec<DiagnosticEventData>,
}

/// The operation results of a transaction (none for a code without them).
pub open spec fn op_results(r: TxResultModel) -> Seq<OperationResultModel> {
    match r {
        TxResultModel::TxSuccess(v) => v@,
        TxResultModel::TxFailed(v) => v@,
        TxResultModel::FeeBumpInner(inner) => match inner {
            InnerTxResult::TxSuccess(v) => v@,
            InnerTxResult::TxFailed(v) => v@,
            InnerTxResult::Other(_) => Seq::empty(),
        },
        TxResultModel::Other(_) => Seq::empty(),
    }
}

/// The failure code of a transaction: `TxFailed`, another code's name, or
/// none when it succeeded.
pub open spec fn tx_failure(r: TxResultModel) -> Option<Seq<char>> {
    match r {
        TxResultModel::TxSuccess(_) => None,
        TxResultModel::TxFailed(_) => Some("TxFailed"@),
        TxResultModel::FeeBumpInner(inner) => match inner {
            InnerTxResult::TxSuccess(_) => None,
            InnerTxResult::TxFailed(_) => Some("TxFailed"@),
            InnerTxResult::Other(name) => Some(name@),
        },
        TxResultModel::Other(name) => Some(name@),
    }
}

/// Whether a transaction's effects were committed.
pub open spec fn tx_committed(r: TxResultModel) -> bool {
    match r {
        TxResultModel::TxSuccess(_) => true,
        TxResultModel::FeeBumpInner(InnerTxResult::TxSuccess(_)) => true,
        _ => false,
    }
}

/// The operation results, failure code and commit status of a transaction.
pub struct TransactionResultSet<'a> {
    pub operation_results: Option<&'a Vec<OperationResultModel>>,
    pub transaction_failure: Option<&'a str>,
    pub committed: bool,
}

/// The operation results, failure code and commit status of a transaction.
pub fn transaction_result_set<'a>(result: &'a TxResultModel) -> (r: TransactionResultSet<'a>)
    ensures
        match r.operation_results {
            Some(v) => v@ == op_results(*result),
            None => op_results(*result).len() == 0,
        },
        opt_str(r.transaction_failure) == tx_failure(*result),
        r.committed == tx_committed(*result),
{
    match result {
        TxResultModel::TxSuccess(results) => TransactionResultSet {
            operation_results: Some(results),
            transaction_failure: None,
            committed: true,
        },
        TxResultModel::TxFailed(results) => TransactionResultSet {
            operation_results: Some(results),
            transaction_failure: Some("TxFailed"),
            committed: false,
        },
        TxResultModel::FeeBumpInner(inner) => inner_transaction_result_set(inner),
        TxResultModel::Other(name) => TransactionResultSet {
            operation_results: None,
            transaction_failure: Some(name.as_str()),
            committed: false,
        },
    }
}

fn inner_transaction_result_set<'a>(result: &'a InnerTxResult) -> (r: TransactionResultSet<'a>)
    ensures
        match r.operation_results {
            Some(v) => v@ == op_results(TxResultModel::FeeBumpInner(*result)),
            None => op_results(TxResultModel::FeeBumpInner(*result)).len() == 0,
        },
        opt_str(r.transaction_failure) == tx_failure(TxResultModel::FeeBumpInner(*result)),
        r.committed == tx_committed(TxResultModel::FeeBumpInner(*result)),
{
    match result {
        InnerTxResult::TxSuccess(results) => TransactionResultSet {
            operation_results: Some(results),
            transaction_failure: None,
            committed: true,
        },
        InnerTxResult::TxFailed(results) => TransactionResultSet {
            operation_results: Some(results),
            transaction_failure: Some("TxFailed"),
            committed: false,
        },
        InnerTxResult::Other(name) => TransactionResultSet {
            operation_results: None,
            transaction_failure: Some(name.as_str()),
            committed: false,
        },
    }
}

// ---------------------------------------------------------------------------
// Which operation an event belongs to
// ---------------------------------------------------------------------------

/// A topic that marks a call (ASCII case-insensitive, untrimmed).
pub open spec fn op_call_topic(t: Seq<char>) -> bool {
    let l = lower_seq(t);
    l == "fn_call"@ || l == "function_call"@ || l == "call"@
}

/// A topic that marks a return (ASCII case-insensitive, untrimmed).
pub open spec fn op_return_topic(t: Seq<char>) -> bool {
    let l = lower_seq(t);
    l == "fn_return"@ || l == "function_return"@ || l == "return"@
}

/// Some symbol or string topic of an event marks a call.
pub open spec fn has_call(e: DiagnosticEventData) -> bool {
    exists|i: int| 0 <= i < topic_texts(e.event.topics@).len() && op_call_topic(#[trigger] topic_texts(e.event.topics@)[i])
}

/// Some symbol or string topic of an event marks a return.
pub open spec fn has_return(e: DiagnosticEventData) -> bool {
    exists|i: int| 0 <= i < topic_texts(e.event.topics@).len() && op_return_topic(#[trigger] topic_texts(e.event.topics@)[i])
}

fn is_op_call_topic(t: &String) -> (r: bool)
    ensures
        r == op_call_topic(t@),
{
    let l = to_ascii_lowercase(chars_of(t.as_str()).as_slice());
    eq_chars(l.as_slice(), chars_of("fn_call").as_slice()) || eq_chars(l.as_slice(), chars_of("function_call").as_slice())
        || eq_chars(l.as_slice(), chars_of("call").as_slice())
}

fn is_op_return_topic(t: &String) -> (r: bool)
    ensures
        r == op_return_topic(t@),
{
    let l = to_ascii_lowercase(chars_of(t.as_str()).as_slice());
    eq_chars(l.as_slice(), chars_of("fn_return").as_slice()) || eq_chars(l.as_slice(), chars_of("function_return").as_slice())
        || eq_chars(l.as_slice(), chars_of("return").as_slice())
}

/// Whether some topic of an event marks a call (`want_call`) or a return.
fn event_has_topic(e: &DiagnosticEventData, want_call: bool) -> (r: bool)
    ensures
        r == if want_call { has_call(*e) } else { has_return(*e) },
{
    let texts = topic_strings(&e.event.topics);
    proof { lemma_views(texts@); }
    let n = texts.len();
    for i in 0..n
        invariant
            n == texts.len(),
            views(texts@) == topic_texts(e.event.topics@),
            views(texts@).len() == n,
            forall|k: int| 0 <= k < n ==> #[trigger] views(texts@)[k] == texts@[k]@,
            forall|k: int| 0 <= k < i ==> !(if want_call { op_call_topic(#[trigger] views(texts@)[k]) } else { op_return_topic(views(texts@)[k]) }),
    {
        let hit = if want_call { is_op_call_topic(&texts[i]) } else { is_op_return_topic(&texts[i]) };
        if hit {
            assert(if want_call { op_call_topic(views(texts@)[i as int]) } else { op_return_topic(views(texts@)[i as int]) });
            return true;
        }
    }
    false
}

/// Indices of the operations satisfying `p`, in order.
pub open spec fn indices_where(ops: Seq<OperationModel>, p: spec_fn(OperationModel) -> bool) -> Seq<int>
    decreases ops.len(),
{
    if ops.len() == 0 {
        Seq::empty()
    } else if p(ops.last()) {
        indices_where(ops.drop_last(), p).push(ops.len() - 1)
    } else {
        indices_where(ops.drop_last(), p)
    }
}

/// Indices of the operations that call a contract.
pub open spec fn invoke_indices(ops: Seq<OperationModel>) -> Seq<int> {
    indices_where(ops, |o: OperationModel| is_invoke(o))
}

/// Indices of the Soroban operations.
pub open spec fn soroban_indices(ops: Seq<OperationModel>) -> Seq<int> {
    indices_where(ops, |o: OperationModel| is_soroban(o))
}

proof fn lemma_indices_bounded(ops: Seq<OperationModel>, p: spec_fn(OperationModel) -> bool)
    ensures
        forall|k: int| 0 <= k < indices_where(ops, p).len() ==> 0 <= #[trigger] indices_where(ops, p)[k] < ops.len(),
        indices_where(ops, p).len() <= ops.len(),
        forall|k: int| 0 <= k < indices_where(ops, p).len() ==> p(ops[#[trigger] indices_where(ops, p)[k]]),
    decreases ops.len(),
{
    if ops.len() > 0 {
        lemma_indices_bounded(ops.drop_last(), p);
        let prev = indices_where(ops.drop_last(), p);
        assert forall|k: int| 0 <= k < prev.len() implies #[trigger] ops.drop_last()[prev[k]] == ops[prev[k]] by {}
    }
}

fn indices_of(ops: &[OperationModel], soroban: bool) -> (r: Vec<usize>)
    ensures
        r@.map_values(|x: usize| x as int) == if soroban { soroban_indices(ops@) } else { invoke_indices(ops@) },
{
    let mut out: Vec<usize> = Vec::new();
    let n = ops.len();
    for i in 0..n
        invariant
            n == ops.len(),
            out@.map_values(|x: usize| x as int) == if soroban {
                soroban_indices(ops@.take(i as int))
            } else {
                invoke_indices(ops@.take(i as int))
            },
    {
        assert(ops@.take(i + 1).drop_last() =~= ops@.take(i as int));
        assert(ops@.take(i + 1).last() == ops@[i as int]);
        let keep = if soroban { is_soroban_operation(&ops[i]) } else { is_invoke_contract(&ops[i]) };
        if keep {
            let ghost before = out@;
            out.push(i);
            assert(out@.map_values(|x: usize| x as int) =~= before.map_values(|x: usize| x as int).push(i as int));
        }
    }
    assert(ops@.take(n as int) =~= ops@);
    out
}

/// `n` empty partitions.
pub open spec fn empty_parts<T>(n: nat) -> Seq<Seq<T>> {
    Seq::new(n, |i: int| Seq::<T>::empty())
}

/// The depth counter, the next invoking operation to hand out, the
/// operation whose call is in progress, and the partitions so far.
pub type PartState = (nat, nat, Option<int>, Seq<Seq<DiagnosticEventData>>);

/// One diagnostic event: a call at depth 0 starts the next contract-calling
/// operation (if any is left); the event goes to the operation in progress;
/// a return that brings the depth back to 0 ends it.
pub open spec fn part_step(s: PartState, e: DiagnosticEventData, invokes: Seq<int>) -> PartState {
    let (depth, cursor, active, parts) = s;
    let (d1, c1, a1) = if has_call(e) {
        if depth == 0 {
            let a = if cursor < invokes.len() { Some(invokes[cursor as int]) } else { None };
            (depth + 1, if a is Some { cursor + 1 } else { cursor }, a)
        } else {
            (depth + 1, cursor, active)
        }
    } else {
        (depth, cursor, active)
    };
    let p1 = match a1 {
        Some(i) => parts.update(i, parts[i].push(e)),
        None => parts,
    };
    if has_return(e) {
        let d2: nat = if d1 > 0 { (d1 - 1) as nat } else { 0 };
        (d2, c1, if d2 == 0 { None } else { a1 }, p1)
    } else {
        (d1, c1, a1, p1)
    }
}

/// The partition state after a sequence of diagnostic events.
pub open spec fn part_fold(events: Seq<DiagnosticEventData>, invokes: Seq<int>, n: nat) -> PartState
    decreases events.len(),
{
    if events.len() == 0 {
        (0, 0, None, empty_parts(n))
    } else {
        part_step(part_fold(events.drop_last(), invokes, n), events.last(), invokes)
    }
}

/// The diagnostic events of each operation: all of them go to the only
/// Soroban operation when there is exactly one; otherwise each top-level
/// call and everything until its return go to the next operation that
/// calls a contract.
pub open spec fn diag_partitions(events: Seq<DiagnosticEventData>, ops: Seq<OperationModel>) -> Seq<Seq<DiagnosticEventData>> {
    if events.len() == 0 {
        empty_parts(ops.len())
    } else if soroban_indices(ops).len() == 1 {
        empty_parts(ops.len()).update(soroban_indices(ops)[0], events)
    } else {
        part_fold(events, invoke_indices(ops), ops.len()).3
    }
}

/// The values of partitions.
pub open spec fn parts_v<T>(p: Seq<Vec<T>>) -> Seq<Seq<T>> {
    p.map_values(|v: Vec<T>| v@)
}

fn new_parts<T>(n: usize) -> (r: Vec<Vec<T>>)
    ensures
        r@.len() == n,
        parts_v(r@) == empty_parts::<T>(n as nat),
{
    let mut parts: Vec<Vec<T>> = Vec::new();
    for i in 0..n
        invariant
            parts@.len() == i,
            forall|k: int| 0 <= k < i ==> (#[trigger] parts@[k])@ == Seq::<T>::empty(),
    {
        let e: Vec<T> = Vec::new();
        parts.push(e);
    }
    assert(parts_v(parts@) =~= empty_parts::<T>(n as nat));
    parts
}

proof fn lemma_part_fold_bounded(events: Seq<DiagnosticEventData>, invokes: Seq<int>, n: nat)
    requires
        forall|k: int| 0 <= k < invokes.len() ==> 0 <= #[trigger] invokes[k] < n,
    ensures
        part_fold(events, invokes, n).3.len() == n,
        part_fold(events, invokes, n).2 matches Some(i) ==> 0 <= i < n,
        part_fold(events, invokes, n).0 <= events.len(),
        part_fold(events, invokes, n).1 <= events.len(),
    decreases events.len(),
{
    if events.len() > 0 {
        lemma_part_fold_bounded(events.drop_last(), invokes, n);
    }
}

proof fn lemma_partitions_len(diags: Seq<DiagnosticEventData>, events: Seq<ContractEventData>, ops: Seq<OperationModel>)
    ensures
        diag_partitions(diags, ops).len() == ops.len(),
        contract_partitions(events, ops).len() == ops.len(),
{
    lemma_indices_bounded(ops, |o: OperationModel| is_invoke(o));
    lemma_indices_bounded(ops, |o: OperationModel| is_soroban(o));
    let inv = invoke_indices(ops);
    assert forall|k: int| 0 <= k < inv.len() implies 0 <= #[trigger] inv[k] < ops.len() by {}
    lemma_part_fold_bounded(diags, inv, ops.len());
    lemma_contract_fold_len(events, ops);
    assert(empty_parts::<DiagnosticEventData>(ops.len()).len() == ops.len());
    assert(empty_parts::<ContractEventData>(ops.len()).len() == ops.len());
}

/// Splits the diagnostic events of a transaction among its operations.
pub fn partition_diagnostic_events(events: Vec<DiagnosticEventData>, operations: &[OperationModel]) -> (r: Vec<Vec<DiagnosticEventData>>)
    ensures
        parts_v(r@) == diag_partitions(events@, operations@),
{
    let ghost all = events@;
    let mut parts: Vec<Vec<DiagnosticEventData>> = new_parts(operations.len());
    if events.len() == 0 {
        return parts;
    }
    let invokes = indices_of(operations, false);
    let soroban = indices_of(operations, true);
    proof {
        lemma_indices_bounded(operations@, |o: OperationModel| is_invoke(o));
        lemma_indices_bounded(operations@, |o: OperationModel| is_soroban(o));
        assert(invokes@.len() == invoke_indices(operations@).len());
        assert(soroban@.len() == soroban_indices(operations@).len());
    }
    if soroban.len() == 1 {
        let at = soroban[0];
        assert(at as int == soroban_indices(operations@)[0]);
        parts.set(at, events);
        assert(parts_v(parts@) =~= empty_parts(operations@.len()).update(at as int, all));
        return parts;
    }
    let ghost inv = invoke_indices(operations@);
    proof {
        assert forall|k: int| 0 <= k < inv.len() implies 0 <= #[trigger] inv[k] < operations@.len() by {}
        assert forall|k: int| 0 <= k < invokes@.len() implies #[trigger] invokes@[k] as int == inv[k] by {
            assert(invokes@.map_values(|x: usize| x as int)[k] == inv[k]);
        }
    }
    let mut depth: usize = 0;
    let mut cursor: usize = 0;
    let mut active: Option<usize> = None;
    let mut rest = events;
    let total = rest.len();
    assert(all.skip(0) =~= all);
    for k in 0..total
        invariant
            total == all.len(),
            rest@ == all.skip(k as int),
            inv == invoke_indices(operations@),
            invokes@.len() == inv.len(),
            forall|j: int| 0 <= j < invokes@.len() ==> #[trigger] invokes@[j] as int == inv[j],
            forall|j: int| 0 <= j < inv.len() ==> 0 <= #[trigger] inv[j] < operations@.len(),
            parts@.len() == operations@.len(),
            ({
                let s = part_fold(all.take(k as int), inv, operations@.len());
                &&& depth as nat == s.0
                &&& cursor as nat == s.1
                &&& match active {
                    Some(a) => s.2 == Some(a as int),
                    None => s.2 is None,
                }
                &&& parts_v(parts@) == s.3
            }),
    {
        proof { lemma_part_fold_bounded(all.take(k as int), inv, operations@.len()); }
        assert(rest@.len() > 0);
        let event = rest.remove(0);
        assert(event == all[k as int]);
        assert(all.take(k + 1).drop_last() =~= all.take(k as int));
        assert(all.take(k + 1).last() == event);
        assert(rest@ =~= all.skip(k + 1));
        let call = event_has_topic(&event, true);
        let ret = event_has_topic(&event, false);
        if call {
            if depth == 0 {
                active = if cursor < invokes.len() { Some(invokes[cursor]) } else { None };
                if active.is_some() {
                    cursor = cursor + 1;
                }
            }
            depth = depth + 1;
        }
        match active {
            Some(i) => {
                let ghost before = parts@;
                let ghost pv = parts_v(parts@);
                parts[i].push(event);
                assert(parts_v(parts@) =~= pv.update(i as int, pv[i as int].push(event)));
            },
            None => {},
        }
        if ret {
            depth = if depth > 0 { depth - 1 } else { 0 };
            if depth == 0 {
                active = None;
            }
        }
    }
    assert(all.take(total as int) =~= all);
    parts
}

/// The first operation calling contract `id`.
pub open spec fn first_target(ops: Seq<OperationModel>, id: Seq<u8>) -> Option<int>
    decreases ops.len(),
{
    if ops.len() == 0 {
        None
    } else {
        match first_target(ops.drop_last(), id) {
            Some(i) => Some(i),
            None => if invoked_hash(ops.last()) == Some(id) {
                Some(ops.len() - 1)
            } else {
                None
            },
        }
    }
}

/// Contract events per operation after a sequence of events.
pub open spec fn contract_fold(events: Seq<ContractEventData>, ops: Seq<OperationModel>) -> Seq<Seq<ContractEventData>>
    decreases events.len(),
{
    if events.len() == 0 {
        empty_parts(ops.len())
    } else {
        let p = contract_fold(events.drop_last(), ops);
        let e = events.last();
        match e.contract_id {
            Some(id) => match first_target(ops, id@) {
                Some(i) => p.update(i, p[i].push(e)),
                None => p,
            },
            None => p,
        }
    }
}

/// The contract events of each operation: all of them go to the only
/// Soroban operation when there is exactly one; otherwise each event goes
/// to the first operation calling the contract that emitted it.
pub open spec fn contract_partitions(events: Seq<ContractEventData>, ops: Seq<OperationModel>) -> Seq<Seq<ContractEventData>> {
    if events.len() == 0 {
        empty_parts(ops.len())
    } else if soroban_indices(ops).len() == 1 {
        empty_parts(ops.len()).update(soroban_indices(ops)[0], events)
    } else {
        contract_fold(events, ops)
    }
}

/// The hash of the contract an operation calls, if any.
pub open spec fn invoked_hash(op: OperationModel) -> Option<Seq<u8>> {
    match invoked_contract(op) {
        Some(h) => Some(h@),
        None => None,
    }
}

proof fn lemma_first_target(ops: Seq<OperationModel>, id: Seq<u8>)
    ensures
        first_target(ops, id) matches Some(i) ==> 0 <= i < ops.len() && invoked_hash(ops[i]) == Some(id)
            && forall|j: int| 0 <= j < i ==> invoked_hash(#[trigger] ops[j]) != Some(id),
        first_target(ops, id) is None ==> forall|j: int| 0 <= j < ops.len() ==> invoked_hash(#[trigger] ops[j]) != Some(id),
    decreases ops.len(),
{
    if ops.len() > 0 {
        let p = ops.drop_last();
        lemma_first_target(p, id);
        match first_target(p, id) {
            Some(i) => {
                assert(p[i] == ops[i]);
                assert forall|j: int| 0 <= j < i implies invoked_hash(#[trigger] ops[j]) != Some(id) by {
                    assert(p[j] == ops[j]);
                }
            },
            None => {
                assert forall|j: int| 0 <= j < ops.len() - 1 implies invoked_hash(#[trigger] ops[j]) != Some(id) by {
                    assert(p[j] == ops[j]);
                }
            },
        }
    }
}

proof fn lemma_contract_fold_len(events: Seq<ContractEventData>, ops: Seq<OperationModel>)
    ensures
        contract_fold(events, ops).len() == ops.len(),
    decreases events.len(),
{
    if events.len() > 0 {
        lemma_contract_fold_len(events.drop_last(), ops);
        let e = events.last();
        match e.contract_id {
            Some(id) => { lemma_first_target(ops, id@); },
            None => {},
        }
    }
}

fn same_hash(a: &[u8; 32], b: &[u8; 32]) -> (r: bool)
    ensures
        r == (a@ == b@),
{
    for i in 0..32
        invariant
            a@.len() == 32,
            b@.len() == 32,
            forall|k: int| 0 <= k < i ==> a@[k] == b@[k],
    {
        if a[i] != b[i] {
            return false;
        }
    }
    assert(a@ =~= b@);
    true
}

fn find_target(operations: &[OperationModel], id: &[u8; 32]) -> (r: Option<usize>)
    ensures
        match r {
            Some(i) => first_target(operations@, id@) == Some(i as int),
            None => first_target(operations@, id@) is None,
        },
{
    proof { lemma_first_target(operations@, id@); }
    let n = operations.len();
    for i in 0..n
        invariant
            n == operations.len(),
            forall|j: int| 0 <= j < i ==> invoked_hash(#[trigger] operations@[j]) != Some(id@),
            first_target(operations@, id@) matches Some(t) ==> 0 <= t < n && invoked_hash(operations@[t]) == Some(id@)
                && forall|j: int| 0 <= j < t ==> invoked_hash(#[trigger] operations@[j]) != Some(id@),
            first_target(operations@, id@) is None ==> forall|j: int| 0 <= j < n ==> invoked_hash(#[trigger] operations@[j]) != Some(id@),
    {
        let hit = match invoked_contract_id(&operations[i]) {
            Some(h) => same_hash(&h, id),
            None => false,
        };
        if hit {
            return Some(i);
        }
    }
    None
}

/// Splits the contract events of a transaction among its operations.
pub fn partition_contract_events(events: Vec<ContractEventData>, operations: &[OperationModel]) -> (r: Vec<Vec<ContractEventData>>)
    ensures
        parts_v(r@) == contract_partitions(events@, operations@),
{
    let ghost all = events@;
    let mut parts: Vec<Vec<ContractEventData>> = new_parts(operations.len());
    if events.len() == 0 {
        return parts;
    }
    let soroban = indices_of(operations, true);
    proof {
        lemma_indices_bounded(operations@, |o: OperationModel| is_soroban(o));
        assert(soroban@.len() == soroban_indices(operations@).len());
    }
    if soroban.len() == 1 {
        let at = soroban[0];
        assert(at as int == soroban@.map_values(|x: usize| x as int)[0]);
        parts.set(at, events);
        assert(parts_v(parts@) =~= empty_parts(operations@.len()).update(at as int, all));
        return parts;
    }
    let mut rest = events;
    let total = rest.len();
    assert(all.skip(0) =~= all);
    for k in 0..total
        invariant
            total == all.len(),
            rest@ == all.skip(k as int),
            parts@.len() == operations@.len(),
            parts_v(parts@) == contract_fold(all.take(k as int), operations@),
    {
        proof { lemma_contract_fold_len(all.take(k as int), operations@); }
        assert(rest@.len() > 0);
        let event = rest.remove(0);
        assert(event == all[k as int]);
        assert(all.take(k + 1).drop_last() =~= all.take(k as int));
        assert(all.take(k + 1).last() == event);
        assert(rest@ =~= all.skip(k + 1));
        let target = match &event.contract_id {
            Some(id) => find_target(operations, id),
            None => None,
        };
        match target {
            Some(i) => {
                proof { lemma_first_target(operations@, event.contract_id->Some_0@); }
                let ghost pv = parts_v(parts@);
                parts[i].push(event);
                assert(parts_v(parts@) =~= pv.update(i as int, pv[i as int].push(event)));
            },
            None => {},
        }
    }
    assert(all.take(total as int) =~= all);
    parts
}

/// The data of the last event that returns, if any.
pub open spec fn last_return_data(events: Seq<DiagnosticEventData>) -> Option<ScValue>
    decreases events.len(),
{
    if events.len() == 0 {
        None
    } else if has_return(events.last()) {
        Some(events.last().event.data)
    } else {
        last_return_data(events.drop_last())
    }
}

/// The return value carried by the last returning event.
pub fn return_value_from_events(events: &[DiagnosticEventData]) -> (r: Option<&ScValue>)
    ensures
        opt_ref(r) == last_return_data(events@),
{
    let mut i = events.len();
    assert(events@.take(i as int) =~= events@);
    while i > 0
        invariant
            i <= events.len(),
            last_return_data(events@) == last_return_data(events@.take(i as int)),
        decreases i,
    {
        let ghost pre = events@.take(i as int);
        assert(pre.drop_last() =~= events@.take(i - 1));
        assert(pre.last() == events@[i - 1]);
        if event_has_topic(&events[i - 1], false) {
            return Some(&events[i - 1].event.data);
        }
        i = i - 1;
    }
    None
}

/// The only operation calling a contract, when there is exactly one.
pub open spec fn single_invoke(ops: Seq<OperationModel>) -> Option<int> {
    if invoke_indices(ops).len() == 1 {
        Some(invoke_indices(ops)[0])
    } else {
        None
    }
}

/// The only operation calling a contract, when there is exactly one.
pub fn single_invoke_contract_index(operations: &[OperationModel]) -> (r: Option<usize>)
    ensures
        match r {
            Some(i) => single_invoke(operations@) == Some(i as int),
            None => single_invoke(operations@) is None,
        },
{
    let invokes = indices_of(operations, false);
    proof { assert(invokes@.len() == invoke_indices(operations@).len()); }
    if invokes.len() == 1 {
        assert(invokes@[0] as int == invokes@.map_values(|x: usize| x as int)[0]);
        Some(invokes[0])
    } else {
        None
    }
}

// ---------------------------------------------------------------------------
// Report pieces
// ---------------------------------------------------------------------------

/// Resources used against their limits.
pub open spec fn summary_of(m: TransactionResultMeta) -> ResourceSummary {
    ResourceSummary {
        cpu_instructions_used: m.resources_consumed.cpu_instructions,
        cpu_instructions_limit: m.resources_allocated.cpu_instructions,
        memory_bytes_used: m.resources_consumed.memory_bytes,
        memory_bytes_limit: m.resources_allocated.memory_bytes,
        read_bytes: m.resources_consumed.read_bytes,
        read_bytes_limit: m.resources_allocated.read_bytes,
        write_bytes: m.resources_consumed.write_bytes,
    }
}

/// Resources used against their limits.
pub fn resource_summary(resources: &TransactionResultMeta) -> (r: ResourceSummary)
    ensures
        r == summary_of(*resources),
{
    ResourceSummary {
        cpu_instructions_used: resources.resources_consumed.cpu_instructions,
        cpu_instructions_limit: resources.resources_allocated.cpu_instructions,
        memory_bytes_used: resources.resources_consumed.memory_bytes,
        memory_bytes_limit: resources.resources_allocated.memory_bytes,
        read_bytes: resources.resources_consumed.read_bytes,
        read_bytes_limit: resources.resources_allocated.read_bytes,
        write_bytes: resources.resources_consumed.write_bytes,
    }
}

/// The first contract id among events.
pub open spec fn first_contract(events: Seq<ContractEventData>) -> Option<[u8; 32]>
    decreases events.len(),
{
    if events.len() == 0 {
        None
    } else if events[0].contract_id is Some {
        events[0].contract_id
    } else {
        first_contract(events.drop_first())
    }
}

/// The attribution of operation `index`'s failure: the first contract
/// that emitted one of its events (as lower-case hex), the function it
/// called, at depth 0.
pub open spec fn attribution_ok(a: Option<FailureAttribution>, events: Seq<ContractEventData>, function_name: Option<Seq<char>>, index: nat) -> bool {
    match first_contract(events) {
        None => a is None,
        Some(id) => a matches Some(f) && f.contract_address@ == hex_seq(id@) && crate::report::opt_chars(f.function_name)
            == function_name && f.call_depth == 0 && f.origin_description@ == "Operation "@ + dec_nat(index + 1),
    }
}

/// Attributes an operation's failure to the first contract that emitted
/// one of its events.
pub fn failure_attribution(events: &[ContractEventData], function_name: Option<String>, index: usize) -> (r: Option<FailureAttribution>)
    requires
        index < usize::MAX,
    ensures
        attribution_ok(r, events@, crate::report::opt_chars(function_name), index as nat),
{
    let n = events.len();
    assert(events@.skip(0) =~= events@);
    for i in 0..n
        invariant
            n == events.len(),
            index < usize::MAX,
            first_contract(events@) == first_contract(events@.skip(i as int)),
    {
        assert(events@.skip(i as int)[0] == events@[i as int]);
        assert(events@.skip(i as int).drop_first() =~= events@.skip(i + 1));
        if let Some(id) = &events[i].contract_id {
            let mut origin = String::from_str("Operation ");
            push_dec(&mut origin, (index + 1) as u128);
            return Some(FailureAttribution {
                contract_address: hex_of(id),
                function_name,
                call_depth: 0,
                origin_description: origin,
            });
        }
    }
    assert(events@.skip(n as int) =~= Seq::<ContractEventData>::empty());
    None
}

/// What an operation is, for its report: the operation's name, the name
/// shown for it, its arguments and its return value, as texts.
pub struct DecodedOperation {
    pub operation_name: String,
    pub display_name: String,
    pub arguments: Vec<String>,
    pub return_value: Option<String>,
}

/// Text of argument `i` of a contract call decoded without specification.
pub open spec fn dynamic_arg_text(args: Seq<ScValue>, i: int) -> Seq<char> {
    fallback_name(i) + ": "@ + text_of(dynamic(args[i]))
}

/// The operation name shown in a report.
pub open spec fn op_name_text(op: OperationModel) -> Seq<char> {
    match op.kind {
        OperationKind::InvokeContract { .. } => "InvokeHostFunction"@,
        _ => op.body_name@,
    }
}

/// The function name shown for an operation: the contract function it
/// calls, the host function, or the operation's own name.
pub open spec fn display_text(op: OperationModel) -> Seq<char> {
    match op.kind {
        OperationKind::InvokeContract { function_name, .. } => function_name@,
        OperationKind::OtherHostFunction { function_name } => function_name@,
        _ => op.body_name@,
    }
}

/// The argument texts shown for an operation: a contract call's arguments
/// decoded without specification, any other operation's serialized fields.
pub open spec fn args_texts(op: OperationModel) -> Seq<Seq<char>> {
    match op.kind {
        OperationKind::InvokeContract { args, .. } => Seq::new(args@.len(), |i: int| dynamic_arg_text(args@, i)),
        _ => views(op.xdr_arguments@),
    }
}

/// The return value text shown for an operation: as decoded text for a
/// contract call, as compact JSON otherwise.
pub open spec fn return_text(op: OperationModel, rv: Option<ScValue>) -> Option<Seq<char>> {
    match rv {
        Some(v) => Some(
            if op.kind is InvokeContract {
                text_of(dynamic(v))
            } else {
                render(dynamic(v))
            },
        ),
        None => None,
    }
}

/// `d` describes operation `op` returning `rv`.
pub open spec fn decoded_op_ok(d: DecodedOperation, op: OperationModel, rv: Option<ScValue>) -> bool {
    &&& d.operation_name@ == op_name_text(op)
    &&& d.display_name@ == display_text(op)
    &&& views(d.arguments@) == args_texts(op)
    &&& crate::report::opt_chars(d.return_value) == return_text(op, rv)
}

fn copy_strings(v: &Vec<String>) -> (r: Vec<String>)
    ensures
        views(r@) == views(v@),
{
    let mut out: Vec<String> = Vec::new();
    let n = v.len();
    for i in 0..n
        invariant
            n == v.len(),
            views(out@) == views(v@.take(i as int)),
    {
        assert(v@.take(i + 1).drop_last() =~= v@.take(i as int));
        let ghost before = out@;
        out.push(v[i].clone());
        assert(out@.drop_last() =~= before);
    }
    assert(v@.take(n as int) =~= v@);
    out
}

fn format_scval(value: &ScValue) -> (r: String)
    ensures
        r@ == render(dynamic(*value)),
{
    ReturnValueDecoder::decode_dynamic(value).to_compact_string()
}

/// `name: formatted` for each decoded argument.
fn format_arguments(values: &Vec<DecodedArgument>) -> (r: Vec<String>)
    ensures
        r@.len() == values@.len(),
        forall|i: int| 0 <= i < values@.len() ==> #[trigger] r@[i]@ == values@[i].name@ + ": "@ + values@[i].formatted@,
{
    let mut out: Vec<String> = Vec::new();
    let n = values.len();
    for i in 0..n
        invariant
            n == values.len(),
            out@.len() == i,
            forall|k: int| 0 <= k < i ==> #[trigger] out@[k]@ == values@[k].name@ + ": "@ + values@[k].formatted@,
    {
        let mut s = values[i].name.clone();
        append(&mut s, ": ");
        append(&mut s, values[i].formatted.as_str());
        out.push(s);
    }
    out
}

fn decode_operation(decoder: &FunctionCallDecoder, operation: &OperationModel, return_value: Option<&ScValue>) -> (r: DecodedOperation)
    ensures
        decoded_op_ok(r, *operation, opt_ref(return_value)),
{
    match &operation.kind {
        OperationKind::InvokeContract { function_name, args, .. } => {
            let call = decoder.decode(function_name.as_str(), args.as_slice(), None, return_value, None);
            let arguments = format_arguments(&call.arguments);
            proof {
                lemma_views(arguments@);
                assert(views(arguments@) =~= Seq::new(args@.len(), |i: int| dynamic_arg_text(args@, i)));
            }
            DecodedOperation {
                operation_name: String::from_str("InvokeHostFunction"),
                display_name: call.function_name,
                arguments,
                return_value: call.formatted_return_value,
            }
        },
        OperationKind::OtherHostFunction { function_name } => DecodedOperation {
            operation_name: operation.body_name.clone(),
            display_name: function_name.clone(),
            arguments: copy_strings(&operation.xdr_arguments),
            return_value: match return_value {
                Some(v) => Some(format_scval(v)),
                None => None,
            },
        },
        _ => DecodedOperation {
            operation_name: operation.body_name.clone(),
            display_name: operation.body_name.clone(),
            arguments: copy_strings(&operation.xdr_arguments),
            return_value: match return_value {
                Some(v) => Some(format_scval(v)),
                None => None,
            },
        },
    }
}

/// The word for how an operation ended.
pub open spec fn outcome_text(committed: bool, res: ResultV) -> Seq<char> {
    if committed && res.0 {
        "succeeded"@
    } else if res.0 {
        "was rolled back"@
    } else if res.1 {
        "failed"@
    } else {
        "was not executed"@
    }
}

/// The severity of an operation's report.
pub open spec fn severity_of(committed: bool, res: ResultV) -> Severity {
    if committed && res.0 {
        Severity::Info
    } else if res.0 {
        Severity::Warning
    } else {
        Severity::Error
    }
}

/// The transaction hash of a document (`unknown` when absent).
pub open spec fn hash_text(tx: JsonV) -> Seq<char> {
    match as_str_v(get_v(tx, "hash"@)) {
        Some(h) => h,
        None => "unknown"@,
    }
}

/// The ledger of a document, truncated to 32 bits (0 when absent).
pub open spec fn ledger_of(tx: JsonV) -> u32 {
    match as_u64_v(get_v(tx, "ledger"@)) {
        Some(l) => l as u32,
        None => 0,
    }
}

/// `r` is the report of operation `index` of `count`.
pub open spec fn report_ok(
    r: DiagnosticReport,
    tx: JsonV,
    count: usize,
    index: usize,
    op: OperationModel,
    rv: Option<ScValue>,
    res: ResultV,
    committed: bool,
    diags: Seq<DiagnosticEventData>,
    events: Seq<ContractEventData>,
    fee: FeeBreakdown,
    summary: ResourceSummary,
) -> bool {
    let whole = committed && res.0;
    &&& r.error_category@ == res.2
    &&& r.error_code == 0
    &&& r.error_name@ == res.3
    &&& r.summary@ == "Operation "@ + dec_nat((index + 1) as nat) + "/"@ + dec_nat(count as nat) + " ("@ + op_name_text(op) + ") "@
        + outcome_text(committed, res)
    &&& r.severity == severity_of(committed, res)
    &&& r.operation_index == Some(index)
    &&& r.operation_count == Some(count)
    &&& r.transaction_context matches Some(c) && {
        &&& c.tx_hash@ == hash_text(tx)
        &&& c.ledger_sequence == ledger_of(tx)
        &&& crate::report::opt_chars(c.function_name) == Some(display_text(op))
        &&& views(c.arguments@) == args_texts(op)
        &&& crate::report::opt_chars(c.return_value) == return_text(op, rv)
        &&& c.fee == fee
        &&& c.resources == summary
        &&& c.operation_index == Some(index)
        &&& c.operation_count == Some(count)
    }
    &&& findings_of(r) == enriched(
        (Seq::empty(), Seq::empty(), explanation_of(index as nat, count as nat, op_name_text(op), res, committed)),
        diags,
    )
    &&& if is_soroban(op) && !res.0 && worth_reporting(meta_from(tx)) {
        r.resource_diagnostics matches Some(d) && d.analyzes(meta_from(tx))
    } else {
        r.resource_diagnostics is None
    }
    &&& attribution_ok(r.cross_contract_attribution, events, Some(display_text(op)), index as nat)
}

fn copy_opt(o: &Option<String>) -> (r: Option<String>)
    ensures
        crate::report::opt_chars(r) == crate::report::opt_chars(*o),
{
    match o {
        Some(s) => Some(s.clone()),
        None => None,
    }
}

/// The report of operation `index` of `count`.
fn build_operation_report(
    tx_data: &Json,
    count: usize,
    index: usize,
    operation: &OperationModel,
    decoded: DecodedOperation,
    result: DecodedOperationResult,
    transaction_committed: bool,
    diagnostics: &[DiagnosticEventData],
    events: &[ContractEventData],
    fee: FeeBreakdown,
    summary: ResourceSummary,
    Ghost(rv): Ghost<Option<ScValue>>,
) -> (r: DiagnosticReport)
    requires
        index < count,
        decoded_op_ok(decoded, *operation, rv),
    ensures
        report_ok(r, tx_data.v(), count, index, *operation, rv, result.v(), transaction_committed, diagnostics@, events@, fee, summary),
{
    let committed = transaction_committed && result.success;
    let outcome = if committed {
        "succeeded"
    } else if result.success {
        "was rolled back"
    } else if result.attempted {
        "failed"
    } else {
        "was not executed"
    };
    let mut title = String::from_str("Operation ");
    push_dec(&mut title, (index + 1) as u128);
    append(&mut title, "/");
    push_dec(&mut title, count as u128);
    append(&mut title, " (");
    append(&mut title, decoded.operation_name.as_str());
    append(&mut title, ") ");
    append(&mut title, outcome);
    let mut report = DiagnosticReport::new(result.category.as_str(), 0, result.code.as_str(), title.as_str());
    report.severity = if committed {
        Severity::Info
    } else if result.success {
        Severity::Warning
    } else {
        Severity::Error
    };
    report.operation_index = Some(index);
    report.operation_count = Some(count);
    report.detailed_explanation = operation_explanation(
        index,
        count,
        decoded.operation_name.as_str(),
        &result,
        transaction_committed,
    );
    let tx_hash = match tx_data.get("hash") {
        Some(h) => match h.as_str() {
            Some(t) => t.clone(),
            None => String::from_str("unknown"),
        },
        None => String::from_str("unknown"),
    };
    let ledger: u64 = match tx_data.get("ledger") {
        Some(l) => match l.as_u64() {
            Some(v) => v,
            None => 0,
        },
        None => 0,
    };
    let function_name = copy_opt(&Some(decoded.display_name));
    report.transaction_context = Some(TransactionContext {
        tx_hash,
        ledger_sequence: ledger as u32,
        function_name,
        arguments: decoded.arguments,
        return_value: decoded.return_value,
        fee,
        resources: summary,
        operation_index: Some(index),
        operation_count: Some(count),
    });
    proof {
        assert(report.root_causes@ =~= Seq::<crate::report::RootCause>::empty());
        assert(report.suggested_fixes@ =~= Seq::<crate::report::SuggestedFix>::empty());
        assert(findings_of(report) == (
            Seq::<(Seq<char>, Seq<char>)>::empty(),
            Seq::<crate::report::FixV>::empty(),
            explanation_of(index as nat, count as nat, op_name_text(*operation), result.v(), transaction_committed),
        ));
    }
    if diagnostics.len() > 0 {
        let _ = crate::diagnostic::enrich_report(&mut report, diagnostics);
    } else {
        assert(diagnostics@ =~= Seq::<DiagnosticEventData>::empty());
        assert(crate::diagnostic::cascade(diagnostics@).1 is None);
    }
    if is_soroban_operation(operation) && !result.success {
        crate::resource_analyzer::enrich_report(&mut report, tx_data);
    }
    let function_name = match &report.transaction_context {
        Some(context) => copy_opt(&context.function_name),
        None => None,
    };
    report.cross_contract_attribution = failure_attribution(events, function_name, index);
    report
}

/// `r` is the report of operation `i` of a transaction.
pub open spec fn nth_report_ok(r: DiagnosticReport, tx: JsonV, ops: Seq<OperationModel>, i: int, result: TxResultModel, meta: Option<SorobanMetaModel>) -> bool {
    let diags = diag_partitions(meta_diags(meta), ops)[i];
    report_ok(
        r,
        tx,
        ops.len() as usize,
        i as usize,
        ops[i],
        op_return_value(i, diags, ops, meta),
        result_of(ops[i], listed_result(result, i), tx_failure(result)),
        tx_committed(result),
        diags,
        contract_partitions(meta_events(meta), ops)[i],
        doc_breakdown(tx),
        summary_of(meta_from(tx)),
    )
}

/// The severity of an operation's report follows how the operation
/// ended: an operation whose result is not a success is an error (never
/// the warning of a rolled-back one), a successful one in a transaction that
/// failed is a warning, and a successful one in a committed transaction is
/// information; only the error and the warning can come from a failure.
pub proof fn lemma_report_severity(
    r: DiagnosticReport,
    tx: JsonV,
    count: usize,
    index: usize,
    op: OperationModel,
    rv: Option<ScValue>,
    res: ResultV,
    committed: bool,
    diags: Seq<DiagnosticEventData>,
    events: Seq<ContractEventData>,
    fee: FeeBreakdown,
    summary: ResourceSummary,
)
    requires
        report_ok(r, tx, count, index, op, rv, res, committed, diags, events, fee, summary),
    ensures
        !res.0 ==> r.severity == Severity::Error,
        res.0 && !committed ==> r.severity == Severity::Warning,
        res.0 && committed ==> r.severity == Severity::Info,
        r.severity == Severity::Error <==> !res.0,
{
}

/// In the reports of a transaction, the report of an operation whose
/// result is not a success has severity `Error`.
pub proof fn lemma_failed_operation_is_error(
    r: DiagnosticReport,
    tx: JsonV,
    ops: Seq<OperationModel>,
    i: int,
    result: TxResultModel,
    meta: Option<SorobanMetaModel>,
)
    requires
        0 <= i < ops.len(),
        nth_report_ok(r, tx, ops, i, result, meta),
        !result_of(ops[i], listed_result(result, i), tx_failure(result)).0,
    ensures
        r.severity == Severity::Error,
{
}

/// Decodes every operation of a transaction, each into a report of its
/// own, in envelope order.
pub struct MultiOpDecoder {
    function_call_decoder: FunctionCallDecoder,
}

/// The return value of operation `i`: the data of the last returning
/// event among its diagnostic events, else the meta's return value when
/// `i` is the only operation calling a contract.
pub open spec fn op_return_value(i: int, diags: Seq<DiagnosticEventData>, ops: Seq<OperationModel>, meta: Option<SorobanMetaModel>) -> Option<ScValue> {
    match last_return_data(diags) {
        Some(v) => Some(v),
        None => match meta {
            Some(m) => if single_invoke(ops) == Some(i) {
                Some(m.return_value)
            } else {
                None
            },
            None => None,
        },
    }
}

/// The diagnostic events of a transaction's meta.
pub open spec fn meta_diags(meta: Option<SorobanMetaModel>) -> Seq<DiagnosticEventData> {
    match meta {
        Some(m) => m.diagnostic_events@,
        None => Seq::empty(),
    }
}

/// The contract events of a transaction's meta.
pub open spec fn meta_events(meta: Option<SorobanMetaModel>) -> Seq<ContractEventData> {
    match meta {
        Some(m) => m.events@,
        None => Seq::empty(),
    }
}

/// The result listed for operation `i`, if any.
pub open spec fn listed_result(r: TxResultModel, i: int) -> Option<OperationResultModel> {
    if 0 <= i < op_results(r).len() {
        Some(op_results(r)[i])
    } else {
        None
    }
}

impl MultiOpDecoder {
    /// A decoder.
    pub fn new() -> (r: Self) {
        MultiOpDecoder { function_call_decoder: FunctionCallDecoder::new() }
    }

    /// Reports on every operation of a transaction: `operations` from its
    /// envelope, `result` from its result, `meta` the Soroban part of its
    /// meta (if any), and `tx_data` the RPC document they were read from.
    pub fn decode_transaction(
        &self,
        tx_data: &Json,
        operations: &[OperationModel],
        result: &TxResultModel,
        meta: Option<SorobanMetaModel>,
    ) -> (r: GratResult<Vec<DiagnosticReport>>)
        requires
            parts_fit(doc_parts(tx_data.v())),
            operations.len() < usize::MAX,
        ensures
            r matches Ok(reports) && reports@.len() == operations@.len() && forall|i: int| 0 <= i < reports@.len() ==> #[trigger] nth_report_ok(reports@[i], tx_data.v(), operations@, i, *result, meta),
    {
        let n = operations.len();
        let ghost meta0 = meta;
        let mut reports: Vec<DiagnosticReport> = Vec::new();
        if n == 0 {
            return Ok(reports);
        }
        let results = transaction_result_set(result);
        let (diag_events, contract_events, meta_return) = match meta {
            Some(m) => (m.diagnostic_events, m.events, Some(m.return_value)),
            None => (Vec::new(), Vec::new(), None),
        };
        assert(diag_events@ == meta_diags(meta0));
        assert(contract_events@ == meta_events(meta0));
        let diagnostics = partition_diagnostic_events(diag_events, operations);
        let events = partition_contract_events(contract_events, operations);
        let single = single_invoke_contract_index(operations);
        let resources = TransactionResultMeta::from_tx_data(tx_data);
        let summary = resource_summary(&resources);
        let fee = analyze_fee_breakdown(tx_data);
        proof {
            lemma_partitions_len(meta_diags(meta0), meta_events(meta0), operations@);
            assert(parts_v(diagnostics@).len() == n);
            assert(parts_v(events@).len() == n);
        }
        for index in 0..n
            invariant
                n == operations.len(),
                n < usize::MAX,
                parts_v(diagnostics@) == diag_partitions(meta_diags(meta0), operations@),
                parts_v(events@) == contract_partitions(meta_events(meta0), operations@),
                diagnostics@.len() == n,
                events@.len() == n,
                match single {
                    Some(s) => single_invoke(operations@) == Some(s as int),
                    None => single_invoke(operations@) is None,
                },
                match meta0 {
                    Some(m) => meta_return == Some(m.return_value),
                    None => meta_return is None,
                },
                match results.operation_results {
                    Some(v) => v@ == op_results(*result),
                    None => op_results(*result).len() == 0,
                },
                opt_str(results.transaction_failure) == tx_failure(*result),
                results.committed == tx_committed(*result),
                fee == doc_breakdown(tx_data.v()),
                summary == summary_of(meta_from(tx_data.v())),
                reports@.len() == index,
                forall|i: int| 0 <= i < index ==> #[trigger] nth_report_ok(reports@[i], tx_data.v(), operations@, i, *result, meta0),
        {
            let op_diags = diagnostics[index].as_slice();
            let op_events = events[index].as_slice();
            assert(op_diags@ == diag_partitions(meta_diags(meta0), operations@)[index as int]);
            assert(op_events@ == contract_partitions(meta_events(meta0), operations@)[index as int]);
            let return_value: Option<&ScValue> = match return_value_from_events(op_diags) {
                Some(v) => Some(v),
                None => match &meta_return {
                    Some(v) => if single == Some(index) { Some(v) } else { None },
                    None => None,
                },
            };
            let ghost rv = op_return_value(index as int, op_diags@, operations@, meta0);
            assert(opt_ref(return_value) == rv);
            let decoded = decode_operation(&self.function_call_decoder, &operations[index], return_value);
            let listed: Option<&OperationResultModel> = match results.operation_results {
                Some(v) => if index < v.len() { Some(&v[index]) } else { None },
                None => None,
            };
            assert(opt_ref(listed) == listed_result(*result, index as int));
            let res = decode_operation_result(&operations[index], listed, results.transaction_failure);
            let report = build_operation_report(
                tx_data,
                n,
                index,
                &operations[index],
                decoded,
                res,
                results.committed,
                op_diags,
                op_events,
                fee,
                summary,
                Ghost(rv),
            );
            reports.push(report);
        }
        Ok(reports)
    }

    /// Reports on every operation of a transaction, or an error when its
    /// operation count or its fee parts are out of range.
    pub fn checked_decode_transaction(
        &self,
        tx_data: &Json,
        operations: &[OperationModel],
        result: &TxResultModel,
        meta: Option<SorobanMetaModel>,
    ) -> (r: GratResult<Vec<DiagnosticReport>>)
        ensures
            r is Ok <==> (parts_fit(doc_parts(tx_data.v())) && operations.len() < usize::MAX),
            r matches Ok(reports) ==> reports@.len() == operations@.len() && forall|i: int|
                0 <= i < reports@.len() ==> #[trigger] nth_report_ok(reports@[i], tx_data.v(), operations@, i, *result, meta),
            r matches Err(e) ==> e matches GratError::Internal(m) && m@ == "transaction is out of the supported range"@,
    {
        if operations.len() == usize::MAX || crate::fee_analyzer::checked_fee_breakdown(tx_data).is_none() {
            return Err(GratError::Internal(String::from_str("transaction is out of the supported range")));
        }
        self.decode_transaction(tx_data, operations, result, meta)
    }
}

impl Default for MultiOpDecoder {
    fn default() -> (r: Self) {
        MultiOpDecoder::new()
    }
}

/// A document's error for a member it lacks.
pub open spec fn is_missing(r: GratResult<Vec<DiagnosticReport>>, field: Seq<char>) -> bool {
    r matches Err(GratError::Internal(m)) && m@ == "Missing "@ + field + " in transaction data"@
}

/// A document's error for a member whose XDR does not decode.
pub open spec fn is_undecodable(r: GratResult<Vec<DiagnosticReport>>, field: Seq<char>, msg: Seq<char>) -> bool {
    r matches Err(GratError::Internal(m)) && m@ == "Failed to decode "@ + field + ": "@ + msg
}

/// The Soroban meta of a document: none without a `resultMetaXdr` member.
pub open spec fn document_meta(tx: JsonV) -> Result<Option<SorobanMetaModel>, Seq<char>> {
    match as_str_v(get_v(tx, "resultMetaXdr"@)) {
        None => Ok(None),
        Some(m) => soroban_meta_of(m),
    }
}

/// The reports of operations `ops`, narrowed to operation `op_index` when
/// one is asked for (an error when there is no such operation).
pub open spec fn narrowed_reports(
    r: GratResult<Vec<DiagnosticReport>>,
    tx: JsonV,
    ops: Seq<OperationModel>,
    result: TxResultModel,
    meta: Option<SorobanMetaModel>,
    op_index: Option<usize>,
) -> bool {
    match op_index {
        None => r matches Ok(v) && v@.len() == ops.len() && forall|i: int|
            0 <= i < v@.len() ==> #[trigger] nth_report_ok(v@[i], tx, ops, i, result, meta),
        Some(k) => if k < ops.len() {
            r matches Ok(v) && v@.len() == 1 && nth_report_ok(v@[0], tx, ops, k as int, result, meta)
        } else {
            r matches Err(GratError::Internal(m)) && m@ == "Operation index "@ + dec_nat(k as nat)
                + " is out of range for a transaction with "@ + dec_nat(ops.len()) + " operations"@
        },
    }
}

/// The reports of a document whose envelope and result decoded to `ops`
/// and `result`: none for a transaction without operations; otherwise its
/// meta, if there, must decode, and every operation is reported on,
/// narrowed to `op_index` when one is asked for.
pub open spec fn decoded_outcome(
    tx: JsonV,
    ops: Seq<OperationModel>,
    result: TxResultModel,
    op_index: Option<usize>,
    r: GratResult<Vec<DiagnosticReport>>,
) -> bool {
    if ops.len() == 0 {
        narrowed_reports(r, tx, ops, result, None, op_index)
    } else {
        match document_meta(tx) {
            Err(m) => is_undecodable(r, "resultMetaXdr"@, m),
            Ok(meta) => if parts_fit(doc_parts(tx)) && ops.len() < usize::MAX {
                narrowed_reports(r, tx, ops, result, meta, op_index)
            } else {
                r matches Err(GratError::Internal(m)) && m@ == "transaction is out of the supported range"@
            },
        }
    }
}

/// What reading an RPC transaction document gives: its envelope and result
/// must be there and decode, and the reports are those of the models of the
/// decoded operations and result.
pub open spec fn document_outcome(tx: JsonV, op_index: Option<usize>, r: GratResult<Vec<DiagnosticReport>>) -> bool {
    match as_str_v(get_v(tx, "envelopeXdr"@)) {
        None => is_missing(r, "envelopeXdr"@),
        Some(e) => match envelope_operations_of(e) {
            Err(m) => is_undecodable(r, "envelopeXdr"@, m),
            Ok(raw_ops) => match as_str_v(get_v(tx, "resultXdr"@)) {
                None => is_missing(r, "resultXdr"@),
                Some(t) => match tx_result_of(t) {
                    Err(m) => is_undecodable(r, "resultXdr"@, m),
                    Ok(raw_result) => exists|ops: Seq<OperationModel>, result: TxResultModel|
                        #![trigger operations_from(raw_ops, ops), tx_result_from(raw_result, result)]
                        operations_from(raw_ops, ops) && tx_result_from(raw_result, result)
                            && decoded_outcome(tx, ops, result, op_index, r),
                },
            },
        },
    }
}

fn out_of_range(index: usize, count: usize) -> (r: GratError)
    ensures
        r matches GratError::Internal(m) && m@ == "Operation index "@ + dec_nat(index as nat)
            + " is out of range for a transaction with "@ + dec_nat(count as nat) + " operations"@,
{
    let mut m = String::from_str("Operation index ");
    push_dec(&mut m, index as u128);
    append(&mut m, " is out of range for a transaction with ");
    push_dec(&mut m, count as u128);
    append(&mut m, " operations");
    GratError::Internal(m)
}

impl MultiOpDecoder {
    /// Reads an RPC transaction document: decodes its envelope, result and
    /// meta and reports on every operation, or on operation `op_index` alone.
    pub fn decode_transaction_document(&self, tx_data: &Json, op_index: Option<usize>) -> (r: GratResult<
        Vec<DiagnosticReport>,
    >)
        ensures
            document_outcome(tx_data.v(), op_index, r),
    {
        let envelope = required_xdr_member(tx_data, "envelopeXdr")?;
        let raw_ops = match decode_envelope_operations(envelope.as_str()) {
            Ok(ops) => ops,
            Err(m) => return Err(member_decode_error("envelopeXdr", m.as_str())),
        };
        let result_xdr = required_xdr_member(tx_data, "resultXdr")?;
        let raw_result = match decode_tx_result(result_xdr.as_str()) {
            Ok(t) => t,
            Err(m) => return Err(member_decode_error("resultXdr", m.as_str())),
        };
        let ghost raw_ops_v = raw_ops@;
        let ghost raw_result_v = raw_result;
        let operations = operation_models(raw_ops);
        let result = tx_result_model(raw_result);
        assert(operations_from(raw_ops_v, operations@) && tx_result_from(raw_result_v, result));
        let mut reports: Vec<DiagnosticReport> = Vec::new();
        if operations.len() > 0 {
            let meta = match str_member(tx_data, "resultMetaXdr") {
                None => None,
                Some(t) => match decode_soroban_meta_xdr(t.as_str()) {
                    Ok(m) => m,
                    Err(m) => return Err(member_decode_error("resultMetaXdr", m.as_str())),
                },
            };
            reports = self.checked_decode_transaction(tx_data, operations.as_slice(), &result, meta)?;
        }
        match op_index {
            None => Ok(reports),
            Some(k) => {
                if k < reports.len() {
                    let report = reports.remove(k);
                    let mut one: Vec<DiagnosticReport> = Vec::new();
                    one.push(report);
                    Ok(one)
                } else {
                    Err(out_of_range(k, reports.len()))
                }
            },
        }
    }
}

/// The base64 XDR text of a member that a transaction document must
/// carry (`envelopeXdr`, `resultXdr`); an error naming the member when it is
/// absent or not a string.
pub fn required_xdr_member<'a>(tx_data: &'a Json, field: &str) -> (r: GratResult<&'a String>)
    ensures
        match as_str_v(get_v(tx_data.v(), field@)) {
            Some(t) => r matches Ok(s) && s@ == t,
            None => r matches Err(GratError::Internal(m)) && m@ == "Missing "@ + field@ + " in transaction data"@,
        },
{
    match str_member(tx_data, field) {
        Some(t) => Ok(t),
        None => {
            let mut m = String::from_str("Missing ");
            append(&mut m, field);
            append(&mut m, " in transaction data");
            Err(GratError::Internal(m))
        },
    }
}

/// The error for a member of a transaction document whose XDR does not
/// decode, with the decoder's message.
pub fn member_decode_error(field: &str, message: &str) -> (r: GratError)
    ensures
        r matches GratError::Internal(m) && m@ == "Failed to decode "@ + field@ + ": "@ + message@,
{
    let mut m = String::from_str("Failed to decode ");
    append(&mut m, field);
    append(&mut m, ": ");
    append(&mut m, message);
    GratError::Internal(m)
}

} // verus!
