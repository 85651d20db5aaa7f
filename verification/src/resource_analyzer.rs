//! Resource usage of a transaction: the CPU, memory, read and write budgets
//! it was allocated, what it consumed, and which limits it breached.

use vstd::prelude::*;
use crate::json::{as_array_v, as_str_v, as_u64_v, get_v, Json, JsonV};
use crate::text::{
    append, dec_nat, grouped, push_grouped, seq_contains, str_contains, str_eq, to_lowercase,
    unicode_lowercase,
};

verus! {

/// One of the four metered resources.
#[derive(Debug, Clone, Copy, PartialEq, Eq, Hash, Structural)]
pub enum MetricKind {
    Cpu,
    Memory,
    Reads,
    Writes,
}

/// Display name of a resource.
pub open spec fn kind_name(k: MetricKind) -> Seq<char> {
    match k {
        MetricKind::Cpu => "CPU"@,
        MetricKind::Memory => "Memory"@,
        MetricKind::Reads => "Reads"@,
        MetricKind::Writes => "Writes"@,
    }
}

/// Unit of a resource.
pub open spec fn kind_unit(k: MetricKind) -> Seq<char> {
    match k {
        MetricKind::Cpu => "instructions"@,
        _ => "bytes"@,
    }
}

impl MetricKind {
    /// Display name: `CPU`, `Memory`, `Reads` or `Writes`.
    pub fn name(&self) -> (r: &'static str)
        ensures
            r@ == kind_name(*self),
    {
        match self {
            MetricKind::Cpu => "CPU",
            MetricKind::Memory => "Memory",
            MetricKind::Reads => "Reads",
            MetricKind::Writes => "Writes",
        }
    }

    /// Unit: `instructions` for CPU, `bytes` for the others.
    pub fn unit(&self) -> (r: &'static str)
        ensures
            r@ == kind_unit(*self),
    {
        match self {
            MetricKind::Cpu => "instructions",
            MetricKind::Memory | MetricKind::Reads | MetricKind::Writes => "bytes",
        }
    }
}

/// Amounts of the four resources.
#[derive(Debug, Clone, Copy, PartialEq, Eq, Structural)]
pub struct ResourceMetrics {
    pub cpu_instructions: u64,
    pub memory_bytes: u64,
    pub read_bytes: u64,
    pub write_bytes: u64,
}

/// No resources at all.
pub open spec fn zero_metrics() -> ResourceMetrics {
    ResourceMetrics { cpu_instructions: 0, memory_bytes: 0, read_bytes: 0, write_bytes: 0 }
}

impl ResourceMetrics {
    /// The given amounts.
    pub fn new(cpu_instructions: u64, memory_bytes: u64, read_bytes: u64, write_bytes: u64) -> (r: Self)
        ensures
            r == (ResourceMetrics { cpu_instructions, memory_bytes, read_bytes, write_bytes }),
    {
        ResourceMetrics { cpu_instructions, memory_bytes, read_bytes, write_bytes }
    }
}

impl Default for ResourceMetrics {
    fn default() -> (r: Self)
        ensures
            r == zero_metrics(),
    {
        ResourceMetrics { cpu_instructions: 0, memory_bytes: 0, read_bytes: 0, write_bytes: 0 }
    }
}

/// What a transaction was allocated and consumed, and whether it failed on
/// its budget.
#[derive(Debug, Clone, Copy, PartialEq, Eq, Structural)]
pub struct TransactionResultMeta {
    pub resources_allocated: ResourceMetrics,
    pub resources_consumed: ResourceMetrics,
    pub is_budget_error: bool,
}

impl Default for TransactionResultMeta {
    fn default() -> (r: Self)
        ensures
            r == (TransactionResultMeta {
                resources_allocated: zero_metrics(),
                resources_consumed: zero_metrics(),
                is_budget_error: false,
            }),
    {
        TransactionResultMeta {
            resources_allocated: ResourceMetrics::default(),
            resources_consumed: ResourceMetrics::default(),
            is_budget_error: false,
        }
    }
}

/// An optional text, or the empty text.
pub open spec fn text_or_empty(o: Option<Seq<char>>) -> Seq<char> {
    match o {
        Some(t) => t,
        None => Seq::empty(),
    }
}

/// An optional number, or a default.
pub open spec fn u64_or(o: Option<u64>, d: u64) -> u64 {
    match o {
        Some(v) => v,
        None => d,
    }
}

/// Allocated and consumed amounts, and the budget-error flag, while the
/// diagnostic events are read.
pub type BudgetAcc = (ResourceMetrics, ResourceMetrics, bool);

/// Records one `budget` event: its `category` (`cpu`, `memory`, `read` or
/// `write`) selects the metric that takes `limit` as allocated and `used`
/// as consumed (missing numbers read as 0); `used > limit` flags a budget
/// error. Other events change nothing.
pub open spec fn budget_step(acc: BudgetAcc, event: JsonV) -> BudgetAcc {
    if as_str_v(get_v(event, "type"@)) == Some("budget"@) {
        match get_v(event, "data"@) {
            Some(data) => {
                let category = text_or_empty(as_str_v(get_v(data, "category"@)));
                let used = u64_or(as_u64_v(get_v(data, "used"@)), 0);
                let limit = u64_or(as_u64_v(get_v(data, "limit"@)), 0);
                let (a, c, flag) = acc;
                let a2 = if category == "cpu"@ {
                    ResourceMetrics { cpu_instructions: limit, ..a }
                } else if category == "memory"@ {
                    ResourceMetrics { memory_bytes: limit, ..a }
                } else if category == "read"@ {
                    ResourceMetrics { read_bytes: limit, ..a }
                } else if category == "write"@ {
                    ResourceMetrics { write_bytes: limit, ..a }
                } else {
                    a
                };
                let c2 = if category == "cpu"@ {
                    ResourceMetrics { cpu_instructions: used, ..c }
                } else if category == "memory"@ {
                    ResourceMetrics { memory_bytes: used, ..c }
                } else if category == "read"@ {
                    ResourceMetrics { read_bytes: used, ..c }
                } else if category == "write"@ {
                    ResourceMetrics { write_bytes: used, ..c }
                } else {
                    c
                };
                (a2, c2, flag || used > limit)
            },
            None => acc,
        }
    } else {
        acc
    }
}

/// The accumulator after a sequence of diagnostic events.
pub open spec fn budget_fold(events: Seq<JsonV>) -> BudgetAcc
    decreases events.len(),
{
    if events.len() == 0 {
        (zero_metrics(), zero_metrics(), false)
    } else {
        budget_step(budget_fold(events.drop_last()), events.last())
    }
}

/// Amounts overridden by the `cpuInstructions`, `memoryBytes`, `readBytes`
/// and `writeBytes` members of `obj`, where present.
pub open spec fn override_metrics(m: ResourceMetrics, obj: Option<JsonV>) -> ResourceMetrics {
    match obj {
        Some(o) => ResourceMetrics {
            cpu_instructions: u64_or(as_u64_v(get_v(o, "cpuInstructions"@)), m.cpu_instructions),
            memory_bytes: u64_or(as_u64_v(get_v(o, "memoryBytes"@)), m.memory_bytes),
            read_bytes: u64_or(as_u64_v(get_v(o, "readBytes"@)), m.read_bytes),
            write_bytes: u64_or(as_u64_v(get_v(o, "writeBytes"@)), m.write_bytes),
        },
        None => m,
    }
}

/// A failed transaction whose error text names the budget.
pub open spec fn failed_on_budget(tx: JsonV) -> bool {
    as_str_v(get_v(tx, "status"@)) == Some("FAILED"@) && match as_str_v(get_v(tx, "error"@)) {
        Some(e) => seq_contains(unicode_lowercase(e), "budget"@) || seq_contains(
            unicode_lowercase(e),
            "resourcelimitexceeded"@,
        ),
        None => false,
    }
}

/// The resource usage read from an RPC transaction document: `budget`
/// diagnostic events first, then the explicit `resourcesAllocated` and
/// `resourcesConsumed` objects.
pub open spec fn meta_from(tx: JsonV) -> TransactionResultMeta {
    let acc = match as_array_v(get_v(tx, "diagnosticEvents"@)) {
        Some(events) => budget_fold(events),
        None => (zero_metrics(), zero_metrics(), false),
    };
    TransactionResultMeta {
        resources_allocated: override_metrics(acc.0, get_v(tx, "resourcesAllocated"@)),
        resources_consumed: override_metrics(acc.1, get_v(tx, "resourcesConsumed"@)),
        is_budget_error: acc.2 || failed_on_budget(tx),
    }
}

/// A string member of a document.
pub fn str_member<'a>(j: &'a Json, key: &str) -> (r: Option<&'a String>)
    ensures
        match r {
            Some(t) => as_str_v(get_v(j.v(), key@)) == Some(t@),
            None => as_str_v(get_v(j.v(), key@)) is None,
        },
{
    match j.get(key) {
        Some(v) => v.as_str(),
        None => None,
    }
}

/// A non-negative integer member of a document.
pub fn u64_member(j: &Json, key: &str) -> (r: Option<u64>)
    ensures
        r == as_u64_v(get_v(j.v(), key@)),
{
    match j.get(key) {
        Some(v) => v.as_u64(),
        None => None,
    }
}

/// Whether a string member equals `word`.
fn member_is(j: &Json, key: &str, word: &str) -> (r: bool)
    ensures
        r == (as_str_v(get_v(j.v(), key@)) == Some(word@)),
{
    match str_member(j, key) {
        Some(t) => str_eq(t.as_str(), word),
        None => false,
    }
}

fn read_budget_event(acc: BudgetAcc, event: &Json) -> (r: BudgetAcc)
    ensures
        r == budget_step(acc, event.v()),
{
    if !member_is(event, "type", "budget") {
        return acc;
    }
    let data = match event.get("data") {
        Some(d) => d,
        None => return acc,
    };
    let used = match u64_member(data, "used") {
        Some(v) => v,
        None => 0,
    };
    let limit = match u64_member(data, "limit") {
        Some(v) => v,
        None => 0,
    };
    let (mut a, mut c, flag) = acc;
    if member_is(data, "category", "cpu") {
        a.cpu_instructions = limit;
        c.cpu_instructions = used;
    } else if member_is(data, "category", "memory") {
        a.memory_bytes = limit;
        c.memory_bytes = used;
    } else if member_is(data, "category", "read") {
        a.read_bytes = limit;
        c.read_bytes = used;
    } else if member_is(data, "category", "write") {
        a.write_bytes = limit;
        c.write_bytes = used;
    } else {
        proof {
            let category = text_or_empty(as_str_v(get_v(data.v(), "category"@)));
            reveal_strlit("cpu");
            reveal_strlit("memory");
            reveal_strlit("read");
            reveal_strlit("write");
            assert("cpu"@.len() == 3 && "memory"@.len() == 6 && "read"@.len() == 4 && "write"@.len() == 5);
            assert(category != "cpu"@ && category != "memory"@ && category != "read"@ && category != "write"@);
        }
    }
    (a, c, flag || used > limit)
}

fn override_from(m: ResourceMetrics, obj: Option<&Json>) -> (r: ResourceMetrics)
    ensures
        r == override_metrics(m, crate::json::opt_v(obj)),
{
    match obj {
        None => m,
        Some(o) => ResourceMetrics {
            cpu_instructions: match u64_member(o, "cpuInstructions") {
                Some(v) => v,
                None => m.cpu_instructions,
            },
            memory_bytes: match u64_member(o, "memoryBytes") {
                Some(v) => v,
                None => m.memory_bytes,
            },
            read_bytes: match u64_member(o, "readBytes") {
                Some(v) => v,
                None => m.read_bytes,
            },
            write_bytes: match u64_member(o, "writeBytes") {
                Some(v) => v,
                None => m.write_bytes,
            },
        },
    }
}

impl TransactionResultMeta {
    /// The given usage.
    pub fn new(resources_allocated: ResourceMetrics, resources_consumed: ResourceMetrics, is_budget_error: bool) -> (r: Self)
        ensures
            r == (TransactionResultMeta { resources_allocated, resources_consumed, is_budget_error }),
    {
        TransactionResultMeta { resources_allocated, resources_consumed, is_budget_error }
    }

    /// Reads the resource usage of an RPC transaction document.
    pub fn from_tx_data(tx_data: &Json) -> (r: Self)
        ensures
            r == meta_from(tx_data.v()),
    {
        let mut acc: BudgetAcc = (ResourceMetrics::default(), ResourceMetrics::default(), false);
        let events = match tx_data.get("diagnosticEvents") {
            Some(e) => e.as_array(),
            None => None,
        };
        match events {
            Some(items) => {
                proof { Json::lemma_vs(items@); }
                let ghost vs = Json::vs(items@);
                let n = items.len();
                for i in 0..n
                    invariant
                        n == items.len(),
                        vs == Json::vs(items@),
                        vs.len() == n,
                        forall|k: int| 0 <= k < n ==> #[trigger] vs[k] == items@[k].v(),
                        acc == budget_fold(vs.take(i as int)),
                {
                    assert(vs.take(i + 1).drop_last() =~= vs.take(i as int));
                    acc = read_budget_event(acc, &items[i]);
                }
                assert(vs.take(n as int) =~= vs);
            },
            None => {},
        }
        let (allocated, consumed, flag) = acc;
        let allocated = override_from(allocated, tx_data.get("resourcesAllocated"));
        let consumed = override_from(consumed, tx_data.get("resourcesConsumed"));
        let mut is_budget_error = flag;
        if member_is(tx_data, "status", "FAILED") {
            match str_member(tx_data, "error") {
                Some(err) => {
                    let lower = to_lowercase(err.as_str());
                    if str_contains(lower.as_str(), "budget") || str_contains(
                        lower.as_str(),
                        "resourcelimitexceeded",
                    ) {
                        is_budget_error = true;
                    }
                },
                None => {},
            }
        }
        TransactionResultMeta { resources_allocated: allocated, resources_consumed: consumed, is_budget_error }
    }
}

/// A limit counts as breached when consumption exceeds it, or, on a budget
/// failure, when a non-zero allocation was fully consumed.
pub open spec fn breached(allocated: u64, consumed: u64, is_budget_error: bool) -> bool {
    consumed > allocated || (is_budget_error && allocated > 0 && consumed >= allocated)
}

/// The usage of one resource. Its utilization percentage is a
/// floating-point figure computed by the caller from `consumed` and
/// `allocated`.
#[derive(Debug, Clone, PartialEq)]
pub struct MetricDiagnostic {
    pub kind: MetricKind,
    pub name: String,
    pub unit: String,
    pub allocated: u64,
    pub consumed: u64,
    pub delta: i128,
    pub breached_limit: bool,
}

/// `m` describes resource `kind` with the given allocation, consumption
/// and failure flag.
pub open spec fn metric_is(m: MetricDiagnostic, kind: MetricKind, allocated: u64, consumed: u64, is_budget_error: bool) -> bool {
    &&& m.kind == kind
    &&& m.name@ == kind_name(kind)
    &&& m.unit@ == kind_unit(kind)
    &&& m.allocated == allocated
    &&& m.consumed == consumed
    &&& m.delta == consumed - allocated
    &&& m.breached_limit == breached(allocated, consumed, is_budget_error)
}

/// Text of the summary line of a metric, given its utilization text.
pub open spec fn summary_text(m: MetricDiagnostic, percentage: Seq<char>) -> Seq<char> {
    let over = m.delta > 0;
    let label = if over { "Overage"@ } else { "Remaining"@ };
    let diff: u64 = if over { m.delta as u64 } else { (-m.delta) as u64 };
    m.name@ + " Utilization: "@ + percentage + "% (Allocated: "@ + grouped(m.allocated as nat) + " "@ + m.unit@
        + ", Consumed: "@ + grouped(m.consumed as nat) + " "@ + m.unit@ + ". "@ + label + ": "@ + grouped(diff as nat)
        + " "@ + m.unit@ + ")."@
}

impl MetricDiagnostic {
    /// The summary line, e.g. `Memory Utilization: 105% (Allocated: 10,000
    /// bytes, Consumed: 10,500 bytes. Overage: 500 bytes).`, with the
    /// utilization figure given as text.
    pub fn format_summary(&self, percentage: &str) -> (r: String)
        requires
            self.delta > i128::MIN,
        ensures
            r@ == summary_text(*self, percentage@),
    {
        let over = self.delta > 0;
        let diff: u64 = if over {
            #[verifier::truncate]
            (self.delta as u64)
        } else {
            #[verifier::truncate]
            ((-self.delta) as u64)
        };
        let mut s = String::new();
        append(&mut s, self.name.as_str());
        append(&mut s, " Utilization: ");
        append(&mut s, percentage);
        append(&mut s, "% (Allocated: ");
        push_grouped(&mut s, self.allocated);
        append(&mut s, " ");
        append(&mut s, self.unit.as_str());
        append(&mut s, ", Consumed: ");
        push_grouped(&mut s, self.consumed);
        append(&mut s, " ");
        append(&mut s, self.unit.as_str());
        append(&mut s, ". ");
        if over {
            append(&mut s, "Overage");
        } else {
            append(&mut s, "Remaining");
        }
        append(&mut s, ": ");
        push_grouped(&mut s, diff);
        append(&mut s, " ");
        append(&mut s, self.unit.as_str());
        append(&mut s, ").");
        s
    }
}

/// The usage of all four resources, and the breached ones in the order CPU,
/// memory, reads, writes.
#[derive(Debug, Clone, PartialEq)]
pub struct ResourceDiagnostics {
    pub cpu: MetricDiagnostic,
    pub memory: MetricDiagnostic,
    pub reads: MetricDiagnostic,
    pub writes: MetricDiagnostic,
    pub breached_metrics: Vec<MetricKind>,
}

/// `kind` if breached, in a sequence.
pub open spec fn if_breached(kind: MetricKind, m: MetricDiagnostic) -> Seq<MetricKind> {
    if m.breached_limit {
        seq![kind]
    } else {
        Seq::empty()
    }
}

impl ResourceDiagnostics {
    /// `self` is the analysis of `meta`.
    pub open spec fn analyzes(self, meta: TransactionResultMeta) -> bool {
        let a = meta.resources_allocated;
        let c = meta.resources_consumed;
        let b = meta.is_budget_error;
        &&& metric_is(self.cpu, MetricKind::Cpu, a.cpu_instructions, c.cpu_instructions, b)
        &&& metric_is(self.memory, MetricKind::Memory, a.memory_bytes, c.memory_bytes, b)
        &&& metric_is(self.reads, MetricKind::Reads, a.read_bytes, c.read_bytes, b)
        &&& metric_is(self.writes, MetricKind::Writes, a.write_bytes, c.write_bytes, b)
        &&& self.breached_metrics@ == if_breached(MetricKind::Cpu, self.cpu) + if_breached(
            MetricKind::Memory,
            self.memory,
        ) + if_breached(MetricKind::Reads, self.reads) + if_breached(MetricKind::Writes, self.writes)
    }

    /// The four metrics: CPU, memory, reads, writes.
    pub fn metrics(&self) -> (r: Vec<&MetricDiagnostic>)
        ensures
            r@ == seq![&self.cpu, &self.memory, &self.reads, &self.writes],
    {
        let mut v: Vec<&MetricDiagnostic> = Vec::new();
        v.push(&self.cpu);
        v.push(&self.memory);
        v.push(&self.reads);
        v.push(&self.writes);
        v
    }

    /// The metric of one resource.
    pub fn get_metric(&self, kind: MetricKind) -> (r: &MetricDiagnostic)
        ensures
            r == match kind {
                MetricKind::Cpu => &self.cpu,
                MetricKind::Memory => &self.memory,
                MetricKind::Reads => &self.reads,
                MetricKind::Writes => &self.writes,
            },
    {
        match kind {
            MetricKind::Cpu => &self.cpu,
            MetricKind::Memory => &self.memory,
            MetricKind::Reads => &self.reads,
            MetricKind::Writes => &self.writes,
        }
    }

    /// The breached metrics, in the order of [`Self::metrics`].
    pub fn breached_diagnostics(&self) -> (r: Vec<&MetricDiagnostic>)
        ensures
            r@ == seq![&self.cpu, &self.memory, &self.reads, &self.writes].filter(
                |m: &MetricDiagnostic| m.breached_limit,
            ),
    {
        let all = self.metrics();
        let ghost full = all@;
        let mut out: Vec<&MetricDiagnostic> = Vec::new();
        let n = all.len();
        for i in 0..n
            invariant
                n == all.len(),
                all@ == full,
                full == seq![&self.cpu, &self.memory, &self.reads, &self.writes],
                out@ == full.take(i as int).filter(|m: &MetricDiagnostic| m.breached_limit),
        {
            proof {
                assert(full.take(i + 1).drop_last() =~= full.take(i as int));
                reveal(Seq::filter);
            }
            if all[i].breached_limit {
                out.push(all[i]);
            }
        }
        assert(full.take(n as int) =~= full);
        out
    }

    /// Whether any limit was breached.
    pub fn has_breach(&self) -> (r: bool)
        ensures
            r == (self.breached_metrics@.len() > 0),
    {
        self.breached_metrics.len() > 0
    }
}

/// The usage of one resource.
pub fn analyze_metric(kind: MetricKind, allocated: u64, consumed: u64, is_budget_error: bool) -> (r: MetricDiagnostic)
    ensures
        metric_is(r, kind, allocated, consumed, is_budget_error),
{
    let delta: i128 = (consumed as i128) - (allocated as i128);
    let breached_limit = consumed > allocated || (is_budget_error && allocated > 0 && consumed >= allocated);
    MetricDiagnostic {
        kind,
        name: String::from_str(kind.name()),
        unit: String::from_str(kind.unit()),
        allocated,
        consumed,
        delta,
        breached_limit,
    }
}

/// Decimal text grouped by thousands (`format_number(1234567)` is
/// `1,234,567`).
pub fn format_number(val: u64) -> (r: String)
    ensures
        r@ == grouped(val as nat),
{
    let mut s = String::new();
    push_grouped(&mut s, val);
    assert(s@ =~= grouped(val as nat));
    s
}

/// Analyzes the resource usage of transactions.
pub struct ResourceUsageAnalyzer;

impl ResourceUsageAnalyzer {
    /// An analyzer.
    pub fn new() -> (r: Self) {
        ResourceUsageAnalyzer
    }

    /// The analysis of `meta`.
    pub fn analyze(&self, meta: &TransactionResultMeta) -> (r: ResourceDiagnostics)
        ensures
            r.analyzes(*meta),
    {
        Self::analyze_meta(meta)
    }

    /// The analysis of `meta`.
    pub fn analyze_meta(meta: &TransactionResultMeta) -> (r: ResourceDiagnostics)
        ensures
            r.analyzes(*meta),
    {
        let a = meta.resources_allocated;
        let c = meta.resources_consumed;
        let b = meta.is_budget_error;
        let cpu = analyze_metric(MetricKind::Cpu, a.cpu_instructions, c.cpu_instructions, b);
        let memory = analyze_metric(MetricKind::Memory, a.memory_bytes, c.memory_bytes, b);
        let reads = analyze_metric(MetricKind::Reads, a.read_bytes, c.read_bytes, b);
        let writes = analyze_metric(MetricKind::Writes, a.write_bytes, c.write_bytes, b);
        let mut breached_metrics: Vec<MetricKind> = Vec::new();
        if cpu.breached_limit {
            breached_metrics.push(MetricKind::Cpu);
        }
        if memory.breached_limit {
            breached_metrics.push(MetricKind::Memory);
        }
        if reads.breached_limit {
            breached_metrics.push(MetricKind::Reads);
        }
        if writes.breached_limit {
            breached_metrics.push(MetricKind::Writes);
        }
        let r = ResourceDiagnostics { cpu, memory, reads, writes, breached_metrics };
        assert(r.breached_metrics@ =~= if_breached(MetricKind::Cpu, r.cpu) + if_breached(
            MetricKind::Memory,
            r.memory,
        ) + if_breached(MetricKind::Reads, r.reads) + if_breached(MetricKind::Writes, r.writes));
        r
    }
}

/// When a resource's limit counts as breached: consumption past the
/// allocation always does; on a budget failure, a non-zero allocation that
/// was used up does too; anything else does not.
pub proof fn lemma_metric_breach(m: MetricDiagnostic, kind: MetricKind, allocated: u64, consumed: u64, is_budget_error: bool)
    requires
        metric_is(m, kind, allocated, consumed, is_budget_error),
    ensures
        consumed > allocated ==> m.breached_limit,
        is_budget_error && allocated > 0 && consumed >= allocated ==> m.breached_limit,
        consumed < allocated ==> !m.breached_limit,
        !is_budget_error && consumed <= allocated ==> !m.breached_limit,
        allocated == 0 && consumed == 0 ==> !m.breached_limit,
{
}

proof fn lemma_concat_contains(a: Seq<MetricKind>, b: Seq<MetricKind>, x: MetricKind)
    ensures
        (a + b).contains(x) <==> (a.contains(x) || b.contains(x)),
{
    if (a + b).contains(x) {
        let i = choose|i: int| 0 <= i < (a + b).len() && (a + b)[i] == x;
        if i < a.len() {
            assert(a[i] == x);
        } else {
            assert(b[i - a.len()] == x);
        }
    }
    if a.contains(x) {
        let i = choose|i: int| 0 <= i < a.len() && a[i] == x;
        assert((a + b)[i] == x);
    }
    if b.contains(x) {
        let i = choose|i: int| 0 <= i < b.len() && b[i] == x;
        assert((a + b)[a.len() + i] == x);
    }
}

proof fn lemma_if_breached_contains(kind: MetricKind, m: MetricDiagnostic, x: MetricKind)
    ensures
        if_breached(kind, m).contains(x) <==> (m.breached_limit && x == kind),
{
    if m.breached_limit {
        assert(if_breached(kind, m)[0] == kind);
    }
}

/// The breached metrics of an analysis list exactly the resources whose
/// consumption passed their allocation, or, on a budget failure, used up a
/// non-zero allocation; so a budget failure whose CPU use reached its
/// allocation lists the CPU.
pub proof fn lemma_breached_metrics(r: ResourceDiagnostics, meta: TransactionResultMeta)
    requires
        r.analyzes(meta),
    ensures
        ({
            let a = meta.resources_allocated;
            let c = meta.resources_consumed;
            let b = meta.is_budget_error;
            &&& r.breached_metrics@.contains(MetricKind::Cpu) <==> (c.cpu_instructions > a.cpu_instructions || (b
                && a.cpu_instructions > 0 && c.cpu_instructions >= a.cpu_instructions))
            &&& r.breached_metrics@.contains(MetricKind::Memory) <==> (c.memory_bytes > a.memory_bytes || (b
                && a.memory_bytes > 0 && c.memory_bytes >= a.memory_bytes))
            &&& r.breached_metrics@.contains(MetricKind::Reads) <==> (c.read_bytes > a.read_bytes || (b && a.read_bytes
                > 0 && c.read_bytes >= a.read_bytes))
            &&& r.breached_metrics@.contains(MetricKind::Writes) <==> (c.write_bytes > a.write_bytes || (b
                && a.write_bytes > 0 && c.write_bytes >= a.write_bytes))
        }),
{
    let s1 = if_breached(MetricKind::Cpu, r.cpu);
    let s2 = if_breached(MetricKind::Memory, r.memory);
    let s3 = if_breached(MetricKind::Reads, r.reads);
    let s4 = if_breached(MetricKind::Writes, r.writes);
    let kinds = seq![MetricKind::Cpu, MetricKind::Memory, MetricKind::Reads, MetricKind::Writes];
    assert forall|j: int| 0 <= j < 4 implies (#[trigger] r.breached_metrics@.contains(kinds[j])) <==> (
    s1.contains(kinds[j]) || s2.contains(kinds[j]) || s3.contains(kinds[j]) || s4.contains(kinds[j])) by {
        let x = kinds[j];
        lemma_concat_contains(s1 + s2 + s3, s4, x);
        lemma_concat_contains(s1 + s2, s3, x);
        lemma_concat_contains(s1, s2, x);
    }
    assert forall|j: int| 0 <= j < 4 implies {
        let x = #[trigger] kinds[j];
        &&& s1.contains(x) <==> (r.cpu.breached_limit && x == MetricKind::Cpu)
        &&& s2.contains(x) <==> (r.memory.breached_limit && x == MetricKind::Memory)
        &&& s3.contains(x) <==> (r.reads.breached_limit && x == MetricKind::Reads)
        &&& s4.contains(x) <==> (r.writes.breached_limit && x == MetricKind::Writes)
    } by {
        let x = kinds[j];
        lemma_if_breached_contains(MetricKind::Cpu, r.cpu, x);
        lemma_if_breached_contains(MetricKind::Memory, r.memory, x);
        lemma_if_breached_contains(MetricKind::Reads, r.reads, x);
        lemma_if_breached_contains(MetricKind::Writes, r.writes, x);
    }
    assert(kinds[0] == MetricKind::Cpu);
    assert(kinds[1] == MetricKind::Memory);
    assert(kinds[2] == MetricKind::Reads);
    assert(kinds[3] == MetricKind::Writes);
}

impl Default for ResourceUsageAnalyzer {
    fn default() -> (r: Self) {
        ResourceUsageAnalyzer
    }
}

/// Whether a report gets resource diagnostics for `meta`: some limit was
/// breached or some resource was consumed at all.
pub open spec fn worth_reporting(meta: TransactionResultMeta) -> bool {
    let a = meta.resources_allocated;
    let c = meta.resources_consumed;
    let b = meta.is_budget_error;
    ||| breached(a.cpu_instructions, c.cpu_instructions, b)
    ||| breached(a.memory_bytes, c.memory_bytes, b)
    ||| breached(a.read_bytes, c.read_bytes, b)
    ||| breached(a.write_bytes, c.write_bytes, b)
    ||| c.cpu_instructions > 0
    ||| c.memory_bytes > 0
    ||| c.read_bytes > 0
    ||| c.write_bytes > 0
}

/// Attaches the resource analysis of an RPC transaction document to a
/// report, when a limit was breached or anything was consumed; the report
/// is otherwise left as it was.
pub fn enrich_report(report: &mut crate::report::DiagnosticReport, tx_data: &Json)
    ensures
        worth_reporting(meta_from(tx_data.v())) ==> (final(report).resource_diagnostics matches Some(d) && d.analyzes(meta_from(tx_data.v()))),
        worth_reporting(meta_from(tx_data.v())) ==> *final(report) == (crate::report::DiagnosticReport {
            resource_diagnostics: final(report).resource_diagnostics,
            ..*old(report)
        }),
        !worth_reporting(meta_from(tx_data.v())) ==> *final(report) == *old(report),
{
    let meta = TransactionResultMeta::from_tx_data(tx_data);
    let diag = ResourceUsageAnalyzer::analyze_meta(&meta);
    let c = meta.resources_consumed;
    if diag.has_breach() || c.cpu_instructions > 0 || c.memory_bytes > 0 || c.read_bytes > 0 || c.write_bytes > 0 {
        report.resource_diagnostics = Some(diag);
    } else {
        assert(!worth_reporting(meta));
    }
}

} // verus!
