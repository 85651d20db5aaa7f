//! Replay decisions: which way a ledger state is reconstructed, the
//! protocol version reported by the network, and how the host's trace
//! events are classified and labelled.

use vstd::prelude::*;
use crate::error::GratError;
use crate::json::{as_str_v, as_u64_v, get_v, Json, JsonV};
use crate::text::{append, chars_of, dec_nat, occurs_at, occurs_at_exec, push_dec, string_of};

verus! {

/// How the ledger state of a transaction is reconstructed.
#[derive(Debug, Clone, Copy, PartialEq, Eq, Structural)]
pub enum ReconstructionPath {
    /// From a recent ledger, through RPC.
    HotPath,
    /// From history archives.
    ColdPath,
}

/// The oldest ledger age (in ledgers) served by the hot path.
pub const HOT_PATH_THRESHOLD: u32 = 50000;

/// The way a transaction of ledger `tx_ledger` is reconstructed when the
/// latest ledger is `latest_ledger`: the hot path up to
/// [`HOT_PATH_THRESHOLD`] ledgers of age (the age saturating at 0).
pub fn choose_reconstruction_path(latest_ledger: u32, tx_ledger: u32) -> (r: ReconstructionPath)
    ensures
        r == if latest_ledger <= tx_ledger || latest_ledger - tx_ledger <= HOT_PATH_THRESHOLD {
            ReconstructionPath::HotPath
        } else {
            ReconstructionPath::ColdPath
        },
{
    let age = if latest_ledger > tx_ledger { latest_ledger - tx_ledger } else { 0 };
    if age <= HOT_PATH_THRESHOLD {
        ReconstructionPath::HotPath
    } else {
        ReconstructionPath::ColdPath
    }
}

/// The ledger of the transaction being replayed, which `getTransaction`
/// must report.
pub fn transaction_ledger(ledger: Option<u32>) -> (r: Result<u32, GratError>)
    ensures
        match ledger {
            Some(l) => r == Ok::<u32, GratError>(l),
            None => r matches Err(GratError::ReplayError(m)) && m@ == "Cannot determine transaction ledger"@,
        },
{
    match ledger {
        Some(l) => Ok(l),
        None => Err(GratError::ReplayError(String::from_str("Cannot determine transaction ledger"))),
    }
}

/// The sequence of the latest ledger as `getLatestLedger` reports it,
/// truncated to 32 bits; 0 when missing.
pub fn latest_ledger_sequence(latest: &Json) -> (r: u32)
    ensures
        r == match as_u64_v(get_v(latest.v(), "sequence"@)) {
            Some(n) => n as u32,
            None => 0,
        },
{
    match latest.get("sequence") {
        Some(v) => match v.as_u64() {
            Some(n) => n as u32,
            None => 0,
        },
        None => 0,
    }
}

/// The error for a transaction too old for the hot path.
pub fn cold_path_error(ledger_sequence: u32) -> (r: GratError)
    ensures
        r matches GratError::ReplayError(m) && m@ == "Cold-path (archived) ledger reconstruction for ledger "@
            + dec_nat(ledger_sequence as nat) + " is not yet implemented — only transactions within the last "@
            + dec_nat(HOT_PATH_THRESHOLD as nat) + " ledgers can be replayed"@,
{
    let mut m = String::from_str("Cold-path (archived) ledger reconstruction for ledger ");
    push_dec(&mut m, ledger_sequence as u128);
    append(&mut m, " is not yet implemented — only transactions within the last ");
    push_dec(&mut m, HOT_PATH_THRESHOLD as u128);
    append(&mut m, " ledgers can be replayed");
    GratError::ReplayError(m)
}

/// The value of a decimal digit character, if it is one.
pub open spec fn digit_value(c: char) -> Option<nat> {
    if '0' <= c && c <= '9' {
        Some((c as u32 - '0' as u32) as nat)
    } else {
        None
    }
}

/// The value of a run of decimal digits (`None` unless all are digits).
pub open spec fn digits_value(s: Seq<char>) -> Option<nat>
    decreases s.len(),
{
    if s.len() == 0 {
        Some(0)
    } else {
        match (digits_value(s.drop_last()), digit_value(s.last())) {
            (Some(v), Some(d)) => Some(v * 10 + d),
            _ => None,
        }
    }
}

proof fn lemma_digit_value(d: nat)
    requires
        d < 10,
    ensures
        digit_value(crate::text::digit(d)) == Some(d),
{
    let c = crate::text::digit(d);
    assert(c as u32 == d + 48);
}

proof fn lemma_digits_of_dec(n: nat)
    ensures
        digits_value(dec_nat(n)) == Some(n),
        dec_nat(n).len() > 0,
        dec_nat(n)[0] != '+',
    decreases n,
{
    if n < 10 {
        lemma_digit_value(n);
        assert(dec_nat(n).drop_last() =~= Seq::<char>::empty());
        assert(digits_value(Seq::<char>::empty()) == Some(0nat));
        assert(digits_value(dec_nat(n)) == Some(0nat * 10 + n));
    } else {
        lemma_digits_of_dec(n / 10);
        lemma_digit_value(n % 10);
        assert(dec_nat(n).drop_last() =~= dec_nat(n / 10));
        assert(dec_nat(n).last() == crate::text::digit(n % 10));
        assert(n == (n / 10) * 10 + n % 10) by (nonlinear_arith);
        assert(digits_value(dec_nat(n)) == Some((n / 10) * 10 + n % 10));
        assert(dec_nat(n)[0] == dec_nat(n / 10)[0]);
    }
}

/// The decimal text of a number parses back to the number.
pub proof fn lemma_parse_decimal(n: u64)
    ensures
        parse_u64_spec(dec_nat(n as nat)) == Some(n),
{
    lemma_digits_of_dec(n as nat);
}

/// `str::parse::<u64>`: an optional `+` and at least one digit, within the
/// range of `u64`.
pub open spec fn parse_u64_spec(s: Seq<char>) -> Option<u64> {
    let body = if s.len() > 0 && s[0] == '+' { s.drop_first() } else { s };
    if body.len() == 0 {
        None
    } else {
        match digits_value(body) {
            Some(v) => if v <= u64::MAX {
                Some(v as u64)
            } else {
                None
            },
            None => None,
        }
    }
}

/// Parses decimal text as `u64` the way `str::parse` does.
pub fn parse_u64(s: &str) -> (r: Option<u64>)
    ensures
        r == parse_u64_spec(s@),
{
    let chars = chars_of(s);
    let start: usize = if chars.len() > 0 && chars[0] == '+' { 1 } else { 0 };
    let ghost body = if s@.len() > 0 && s@[0] == '+' { s@.drop_first() } else { s@ };
    assert(body =~= chars@.skip(start as int));
    if chars.len() == start {
        assert(body.len() == 0);
        return None;
    }
    let mut value: u64 = 0;
    let n = chars.len();
    for i in start..n
        invariant
            n == chars.len(),
            start <= n,
            chars@ == s@,
            body == chars@.skip(start as int),
            body == (if s@.len() > 0 && s@[0] == '+' { s@.drop_first() } else { s@ }),
            body.len() > 0,
            digits_value(body.take(i - start)) == Some(value as nat),
    {
        let c = chars[i];
        assert(body[i - start] == c);
        assert(body.take(i - start + 1).drop_last() =~= body.take(i - start));
        assert(body.take(i - start + 1).last() == c);
        if c < '0' || c > '9' {
            proof { lemma_digits_none(body, (i - start) as int); }
            return None;
        }
        let d = (c as u32 - '0' as u32) as u64;
        assert(digit_value(c) == Some(d as nat));
        if value > (u64::MAX - d) / 10 {
            assert(value * 10 + d > u64::MAX) by (nonlinear_arith)
                requires
                    value > (u64::MAX - d) / 10,
                    d <= 9,
            ;
            proof { lemma_digits_big(body, (i - start) as int, value as nat, d as nat); }
            return None;
        }
        assert(value * 10 + d <= u64::MAX) by (nonlinear_arith)
            requires
                value <= (u64::MAX - d) / 10,
                d <= 9,
        ;
        value = value * 10 + d;
    }
    assert(body.take(n - start) =~= body);
    Some(value)
}

proof fn lemma_digits_none(s: Seq<char>, k: int)
    requires
        0 <= k < s.len(),
        digit_value(s[k]) is None,
    ensures
        digits_value(s) is None,
    decreases s.len(),
{
    if k < s.len() - 1 {
        assert(s.drop_last()[k] == s[k]);
        lemma_digits_none(s.drop_last(), k);
    }
}

proof fn lemma_digits_grow(s: Seq<char>, k: int)
    requires
        0 <= k <= s.len(),
        digits_value(s) is Some,
    ensures
        digits_value(s.take(k)) is Some,
        digits_value(s.take(k))->Some_0 <= digits_value(s)->Some_0,
    decreases s.len() - k,
{
    if k < s.len() {
        lemma_digits_grow(s, k + 1);
        assert(s.take(k + 1).drop_last() =~= s.take(k));
    } else {
        assert(s.take(k) =~= s);
    }
}

proof fn lemma_digits_big(s: Seq<char>, k: int, v: nat, d: nat)
    requires
        0 <= k < s.len(),
        digits_value(s.take(k)) == Some(v),
        digit_value(s[k]) == Some(d),
        v * 10 + d > u64::MAX,
    ensures
        digits_value(s) is None || digits_value(s)->Some_0 > u64::MAX,
{
    if digits_value(s) is Some {
        lemma_digits_grow(s, k + 1);
        assert(s.take(k + 1).drop_last() =~= s.take(k));
        assert(s.take(k + 1).last() == s[k]);
    }
}

/// The protocol version reported by the network: a number, or decimal
/// text, truncated to 32 bits; 0 when missing or unreadable.
pub open spec fn protocol_version_of(v: Option<JsonV>) -> u32 {
    match as_u64_v(v) {
        Some(n) => n as u32,
        None => match as_str_v(v) {
            Some(t) => match parse_u64_spec(t) {
                Some(n) => n as u32,
                None => 0,
            },
            None => 0,
        },
    }
}

/// The protocol version reported by the network.
pub fn parse_protocol_version(value: Option<&Json>) -> (r: u32)
    ensures
        r == protocol_version_of(crate::json::opt_v(value)),
{
    match value {
        Some(v) => match v.as_u64() {
            Some(n) => n as u32,
            None => match v.as_str() {
                Some(t) => match parse_u64(t.as_str()) {
                    Some(n) => n as u32,
                    None => 0,
                },
                None => 0,
            },
        },
        None => 0,
    }
}

// ---------------------------------------------------------------------------
// Trace events
// ---------------------------------------------------------------------------

/// The kind of a recorded trace event.
#[derive(Debug, Clone, Copy, PartialEq, Eq, Structural)]
pub enum TraceEventType {
    InvocationStart,
    InvocationEnd,
    HostFunctionCall,
    HostFunctionReturn,
    StorageRead,
    StorageWrite,
    AuthCheck,
    EventEmit,
    BudgetCheckpoint,
}

/// A trace event of the Soroban host, with the host's rendering of it.
#[derive(Debug, Clone, PartialEq, Eq)]
pub enum HostTraceKind {
    Begin,
    End,
    PushCtx { detail: String },
    PopCtx { detail: String, is_error: bool },
    EnvCall { name: String, detail: String },
    EnvRet { name: String, is_error: bool, detail: String },
}

/// The first position from `i` on where `needle` occurs in `hay`.
pub open spec fn first_from(hay: Seq<char>, needle: Seq<char>, i: int) -> Option<int>
    decreases hay.len() - i,
{
    if i < 0 || i + needle.len() > hay.len() {
        None
    } else if occurs_at(hay, needle, i) {
        Some(i)
    } else if i >= hay.len() {
        None
    } else {
        first_from(hay, needle, i + 1)
    }
}

proof fn lemma_first_from(hay: Seq<char>, needle: Seq<char>, i: int)
    ensures
        first_from(hay, needle, i) matches Some(k) ==> occurs_at(hay, needle, k) && i <= k,
    decreases hay.len() - i,
{
    if 0 <= i && i + needle.len() <= hay.len() && !occurs_at(hay, needle, i) && i < hay.len() {
        lemma_first_from(hay, needle, i + 1);
    }
}

/// The first position of `needle` in `hay` (`str::find`).
pub open spec fn find_spec(hay: Seq<char>, needle: Seq<char>) -> Option<int> {
    first_from(hay, needle, 0)
}

fn find_chars(hay: &[char], needle: &[char]) -> (r: Option<usize>)
    ensures
        match r {
            Some(i) => find_spec(hay@, needle@) == Some(i as int),
            None => find_spec(hay@, needle@) is None,
        },
{
    if needle.len() > hay.len() {
        return None;
    }
    let last = hay.len() - needle.len();
    let mut i: usize = 0;
    while i <= last
        invariant
            last == hay.len() - needle.len(),
            needle.len() <= hay.len(),
            i <= last + 1,
            find_spec(hay@, needle@) == first_from(hay@, needle@, i as int),
        decreases last + 1 - i,
    {
        if occurs_at_exec(hay, needle, i) {
            return Some(i);
        }
        if i == last {
            assert(first_from(hay@, needle@, i + 1) is None) by {
                if needle.len() == 0 {
                    assert(occurs_at(hay@, needle@, i as int)) by {
                        assert(hay@.subrange(i as int, i as int) =~= needle@);
                    }
                }
            }
            return None;
        }
        i = i + 1;
    }
    None
}

/// The parts of `type:id:function` (split at the first two colons).
pub open spec fn split3(label: Seq<char>) -> (Seq<char>, Seq<char>, Option<Seq<char>>) {
    match find_spec(label, seq![':']) {
        None => (label, Seq::empty(), None),
        Some(p1) => {
            let rest = label.skip(p1 + 1);
            match find_spec(rest, seq![':']) {
                None => (label.take(p1), rest, None),
                Some(p2) => (label.take(p1), rest.take(p2), Some(rest.skip(p2 + 1))),
            }
        },
    }
}

/// The contract and function of a frame rendered as
/// `<prefix><type>:<id>:<function><end marker>...`: `type:id` (none when
/// both are empty) and the function (none when empty); nothing when the
/// prefix or end marker is missing.
pub open spec fn frame_label(detail: Seq<char>, prefix: Seq<char>, end_marker: Seq<char>) -> (Option<Seq<char>>, Option<Seq<char>>) {
    if !(prefix.len() <= detail.len() && detail.take(prefix.len() as int) == prefix) {
        (None, None)
    } else {
        let rest = detail.skip(prefix.len() as int);
        match find_spec(rest, end_marker) {
            None => (None, None),
            Some(end) => {
                let (ty, id, f) = split3(rest.take(end));
                let function = match f {
                    Some(t) => if t.len() > 0 {
                        Some(t)
                    } else {
                        None
                    },
                    None => None,
                };
                if ty.len() == 0 && id.len() == 0 {
                    (None, function)
                } else {
                    (Some(ty + seq![':'] + id), function)
                }
            },
        }
    }
}

fn skip_chars(v: &Vec<char>, k: usize) -> (r: Vec<char>)
    requires
        k <= v.len(),
    ensures
        r@ == v@.skip(k as int),
{
    let mut out: Vec<char> = Vec::new();
    let n = v.len();
    for i in k..n
        invariant
            n == v.len(),
            k <= i <= n,
            out@ == v@.subrange(k as int, i as int),
    {
        out.push(v[i]);
        assert(v@.subrange(k as int, i + 1) =~= v@.subrange(k as int, i as int).push(v@[i as int]));
    }
    assert(v@.subrange(k as int, n as int) =~= v@.skip(k as int));
    out
}

fn take_chars(v: &Vec<char>, k: usize) -> (r: Vec<char>)
    requires
        k <= v.len(),
    ensures
        r@ == v@.take(k as int),
{
    let mut out: Vec<char> = Vec::new();
    for i in 0..k
        invariant
            k <= v.len(),
            out@ == v@.take(i as int),
    {
        out.push(v[i]);
        assert(v@.take(i + 1) =~= v@.take(i as int).push(v@[i as int]));
    }
    out
}

/// The contract and function named by a host frame rendering.
pub fn parse_frame_label(detail: &str, prefix: &str, end_marker: &str) -> (r: (Option<String>, Option<String>))
    ensures
        (crate::report::opt_chars(r.0), crate::report::opt_chars(r.1)) == frame_label(detail@, prefix@, end_marker@),
{
    let d = chars_of(detail);
    let p = chars_of(prefix);
    let e = chars_of(end_marker);
    if !crate::text::starts_with(d.as_slice(), p.as_slice()) {
        return (None, None);
    }
    let rest = skip_chars(&d, p.len());
    let end = match find_chars(rest.as_slice(), e.as_slice()) {
        Some(x) => x,
        None => return (None, None),
    };
    proof {
        lemma_first_from(rest@, e@, 0);
        assert(end + e@.len() <= rest@.len());
    }
    let label = take_chars(&rest, end);
    let colon = vec![':'];
    assert(colon@ =~= seq![':']);
    let (ty, id, f) = match find_chars(label.as_slice(), colon.as_slice()) {
        None => (label.clone(), Vec::new(), None),
        Some(p1) => {
            proof {
                lemma_first_from(label@, colon@, 0);
                assert(p1 + 1 <= label@.len());
            }
            let rest2 = skip_chars(&label, p1 + 1);
            let ty = take_chars(&label, p1);
            match find_chars(rest2.as_slice(), colon.as_slice()) {
                None => (ty, rest2, None),
                Some(p2) => {
                    proof { lemma_first_from(rest2@, colon@, 0); }
                    let id = take_chars(&rest2, p2);
                    let f = skip_chars(&rest2, p2 + 1);
                    (ty, id, Some(f))
                },
            }
        },
    };
    assert(colon@ =~= seq![':']);
    let function = match f {
        Some(t) => if t.len() > 0 { Some(string_of(&t)) } else { None },
        None => None,
    };
    if ty.len() == 0 && id.len() == 0 {
        return (None, function);
    }
    let mut out = string_of(&ty);
    crate::text::push_char(&mut out, ':');
    append(&mut out, string_of(&id).as_str());
    (Some(out), function)
}

/// JSON text or null of an optional text.
pub open spec fn text_or_null(o: Option<Seq<char>>) -> JsonV {
    match o {
        Some(t) => JsonV::String(t),
        None => JsonV::Null,
    }
}

fn json_text_or_null(o: Option<String>) -> (r: Json)
    ensures
        r.v() == text_or_null(crate::report::opt_chars(o)),
{
    match o {
        Some(t) => Json::String(t),
        None => Json::Null,
    }
}

/// The kind and data of a host trace event: the start and end of the whole
/// invocation are budget checkpoints; frames pushed and popped are
/// invocation starts and ends, labelled by contract and function; host
/// function calls and returns keep their function name.
pub open spec fn classified(e: HostTraceKind) -> (TraceEventType, JsonV) {
    match e {
        HostTraceKind::Begin => (TraceEventType::BudgetCheckpoint, JsonV::Object(seq![("phase"@, JsonV::String("begin"@))])),
        HostTraceKind::End => (TraceEventType::BudgetCheckpoint, JsonV::Object(seq![("phase"@, JsonV::String("end"@))])),
        HostTraceKind::PushCtx { detail } => {
            let (c, f) = frame_label(detail@, "push "@, "("@);
            (TraceEventType::InvocationStart, JsonV::Object(
                seq![("contract_id"@, text_or_null(c)), ("detail"@, JsonV::String(detail@)), ("function"@, text_or_null(f))],
            ))
        },
        HostTraceKind::PopCtx { detail, is_error } => {
            let (c, f) = frame_label(detail@, "pop "@, " ->"@);
            (TraceEventType::InvocationEnd, JsonV::Object(
                seq![
                    ("contract_id"@, text_or_null(c)),
                    ("detail"@, JsonV::String(detail@)),
                    ("function"@, text_or_null(f)),
                    ("is_error"@, JsonV::Bool(is_error)),
                ],
            ))
        },
        HostTraceKind::EnvCall { name, detail } => (TraceEventType::HostFunctionCall, JsonV::Object(
            seq![("detail"@, JsonV::String(detail@)), ("function"@, JsonV::String(name@))],
        )),
        HostTraceKind::EnvRet { name, is_error, detail } => (TraceEventType::HostFunctionReturn, JsonV::Object(
            seq![("detail"@, JsonV::String(detail@)), ("function"@, JsonV::String(name@)), ("is_error"@, JsonV::Bool(is_error))],
        )),
    }
}

/// Classifies a host trace event and renders its data.
pub fn classify_trace_event(event: &HostTraceKind) -> (r: (TraceEventType, Json))
    ensures
        (r.0, r.1.v()) == classified(*event),
{
    let mut members: Vec<(String, Json)> = Vec::new();
    let kind = match event {
        HostTraceKind::Begin => {
            members.push((String::from_str("phase"), Json::String(String::from_str("begin"))));
            TraceEventType::BudgetCheckpoint
        },
        HostTraceKind::End => {
            members.push((String::from_str("phase"), Json::String(String::from_str("end"))));
            TraceEventType::BudgetCheckpoint
        },
        HostTraceKind::PushCtx { detail } => {
            let (c, f) = parse_frame_label(detail.as_str(), "push ", "(");
            members.push((String::from_str("contract_id"), json_text_or_null(c)));
            members.push((String::from_str("detail"), Json::String(detail.clone())));
            members.push((String::from_str("function"), json_text_or_null(f)));
            TraceEventType::InvocationStart
        },
        HostTraceKind::PopCtx { detail, is_error } => {
            let (c, f) = parse_frame_label(detail.as_str(), "pop ", " ->");
            members.push((String::from_str("contract_id"), json_text_or_null(c)));
            members.push((String::from_str("detail"), Json::String(detail.clone())));
            members.push((String::from_str("function"), json_text_or_null(f)));
            members.push((String::from_str("is_error"), Json::Bool(*is_error)));
            TraceEventType::InvocationEnd
        },
        HostTraceKind::EnvCall { name, detail } => {
            members.push((String::from_str("detail"), Json::String(detail.clone())));
            members.push((String::from_str("function"), Json::String(name.clone())));
            TraceEventType::HostFunctionCall
        },
        HostTraceKind::EnvRet { name, is_error, detail } => {
            members.push((String::from_str("detail"), Json::String(detail.clone())));
            members.push((String::from_str("function"), Json::String(name.clone())));
            members.push((String::from_str("is_error"), Json::Bool(*is_error)));
            TraceEventType::HostFunctionReturn
        },
    };
    proof { Json::lemma_vm(members@); }
    let data = Json::Object(members);
    assert(Json::vm(members@) =~= match classified(*event).1 { JsonV::Object(m) => m, _ => Seq::empty() });
    (kind, data)
}

} // verus!
