//! The diagnostic report that the decoders fill in for a failed (or
//! suspicious) transaction or operation.

use vstd::prelude::*;
use crate::resource_analyzer::ResourceDiagnostics;

verus! {

/// How serious a report is.
#[derive(Debug, Clone, Copy, PartialEq, Eq, Structural)]
pub enum Severity {
    Info,
    Warning,
    Error,
}

/// A probable cause of the failure.
#[derive(Debug, Clone, PartialEq)]
pub struct RootCause {
    pub description: String,
    pub likelihood: String,
}

impl RootCause {
    /// Description and likelihood.
    pub open spec fn v(self) -> (Seq<char>, Seq<char>) {
        (self.description@, self.likelihood@)
    }
}

/// A suggested remedy.
#[derive(Debug, Clone, PartialEq)]
pub struct SuggestedFix {
    pub id: String,
    pub description: String,
    pub difficulty: String,
    pub requires_upgrade: bool,
    pub example: Option<String>,
    pub remedy_code: Option<String>,
}

/// The value of a suggested fix: id, description, difficulty, whether it
/// needs an upgrade, example and remedy code.
pub type FixV = (Seq<char>, Seq<char>, Seq<char>, bool, Option<Seq<char>>, Option<Seq<char>>);

/// An optional string's characters.
pub open spec fn opt_chars(o: Option<String>) -> Option<Seq<char>> {
    match o {
        Some(s) => Some(s@),
        None => None,
    }
}

impl SuggestedFix {
    /// The value of this fix.
    pub open spec fn v(self) -> FixV {
        (self.id@, self.description@, self.difficulty@, self.requires_upgrade, opt_chars(self.example), opt_chars(self.remedy_code))
    }
}

/// The values of root causes.
pub open spec fn causes_v(s: Seq<RootCause>) -> Seq<(Seq<char>, Seq<char>)> {
    s.map_values(|c: RootCause| c.v())
}

/// The values of suggested fixes.
pub open spec fn fixes_v(s: Seq<SuggestedFix>) -> Seq<FixV> {
    s.map_values(|f: SuggestedFix| f.v())
}

/// How the fee of a transaction was made up (stroops).
#[derive(Debug, Clone, Copy, PartialEq, Eq, Structural)]
pub struct FeeBreakdown {
    pub total_charged_fee: i64,
    pub inclusion_fee: i64,
    pub resource_fee: i64,
    pub refundable_resource_fee: i64,
    pub refundable_fee: i64,
    pub non_refundable_fee: i64,
    pub bid_fee: Option<i64>,
}

/// Resources used against their limits.
#[derive(Debug, Clone, Copy, PartialEq, Eq, Structural)]
pub struct ResourceSummary {
    pub cpu_instructions_used: u64,
    pub cpu_instructions_limit: u64,
    pub memory_bytes_used: u64,
    pub memory_bytes_limit: u64,
    pub read_bytes: u64,
    pub read_bytes_limit: u64,
    pub write_bytes: u64,
}

/// The transaction an operation report belongs to.
#[derive(Debug, Clone, PartialEq)]
pub struct TransactionContext {
    pub tx_hash: String,
    pub ledger_sequence: u32,
    pub function_name: Option<String>,
    pub arguments: Vec<String>,
    pub return_value: Option<String>,
    pub fee: FeeBreakdown,
    pub resources: ResourceSummary,
    pub operation_index: Option<usize>,
    pub operation_count: Option<usize>,
}

/// The contract a failure is attributed to.
#[derive(Debug, Clone, PartialEq)]
pub struct FailureAttribution {
    pub contract_address: String,
    pub function_name: Option<String>,
    pub call_depth: u32,
    pub origin_description: String,
}

/// A diagnostic report.
#[derive(Debug, Clone, PartialEq)]
pub struct DiagnosticReport {
    pub error_category: String,
    pub error_code: u32,
    pub error_name: String,
    pub summary: String,
    pub severity: Severity,
    pub detailed_explanation: String,
    pub root_causes: Vec<RootCause>,
    pub suggested_fixes: Vec<SuggestedFix>,
    pub operation_index: Option<usize>,
    pub operation_count: Option<usize>,
    pub transaction_context: Option<TransactionContext>,
    pub cross_contract_attribution: Option<FailureAttribution>,
    pub resource_diagnostics: Option<ResourceDiagnostics>,
}

impl DiagnosticReport {
    /// A report with the given category, code, error name and summary, of
    /// severity `Error`, with nothing else filled in.
    pub fn new(error_category: &str, error_code: u32, error_name: &str, summary: &str) -> (r: Self)
        ensures
            r.error_category@ == error_category@,
            r.error_code == error_code,
            r.error_name@ == error_name@,
            r.summary@ == summary@,
            r.severity == Severity::Error,
            r.detailed_explanation@ == Seq::<char>::empty(),
            r.root_causes@.len() == 0,
            r.suggested_fixes@.len() == 0,
            r.operation_index is None,
            r.operation_count is None,
            r.transaction_context is None,
            r.cross_contract_attribution is None,
            r.resource_diagnostics is None,
    {
        DiagnosticReport {
            error_category: String::from_str(error_category),
            error_code,
            error_name: String::from_str(error_name),
            summary: String::from_str(summary),
            severity: Severity::Error,
            detailed_explanation: String::new(),
            root_causes: Vec::new(),
            suggested_fixes: Vec::new(),
            operation_index: None,
            operation_count: None,
            transaction_context: None,
            cross_contract_attribution: None,
            resource_diagnostics: None,
        }
    }
}

} // verus!
