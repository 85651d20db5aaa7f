//! Enriches a diagnostic report from the diagnostic events of a
//! transaction: keyword-driven root causes and fixes, a trace of the
//! events' topics, and the deepest error event of the call cascade.

use vstd::prelude::*;
use crate::text::occurs_at;
use crate::error::{GratError, GratResult};
use crate::events::{lemma_views, views, ContractEventData, DiagnosticEventData};
use crate::json::{as_array_v, get_v, Json, JsonV};
use crate::report::{
    causes_v, fixes_v, DiagnosticReport, FixV, RootCause, SuggestedFix,
};
use crate::scval::ScValue;
use crate::xdr_decode::{decode_diagnostic_event, diagnostic_event_of};
use crate::text::{
    append, chars_of, contains, dec_int, dec_nat, eq_chars, fmt_i128, fmt_u128, join, join_strings,
    lower_seq, push_char, push_dec, seq_contains, str_contains, to_ascii_lowercase, to_lowercase,
    trim, trim_chars, unicode_lowercase, string_of,
};

verus! {

// ---------------------------------------------------------------------------
// Topic and payload texts
// ---------------------------------------------------------------------------

/// The text of a value used as a topic or payload: symbols and strings as
/// they are, 32- and 64-bit integers in decimal.
pub open spec fn scval_text(v: ScValue) -> Option<Seq<char>> {
    match v {
        ScValue::Symbol(s) => Some(s@),
        ScValue::String(s) => Some(s@),
        ScValue::U32(u) => Some(dec_nat(u as nat)),
        ScValue::I32(i) => Some(dec_int(i as int)),
        ScValue::U64(u) => Some(dec_nat(u as nat)),
        ScValue::I64(i) => Some(dec_int(i as int)),
        _ => None,
    }
}

/// The texts of the topics that have one, in order.
pub open spec fn diag_texts(topics: Seq<ScValue>) -> Seq<Seq<char>>
    decreases topics.len(),
{
    if topics.len() == 0 {
        Seq::empty()
    } else {
        match scval_text(topics.last()) {
            Some(t) => diag_texts(topics.drop_last()).push(t),
            None => diag_texts(topics.drop_last()),
        }
    }
}

/// The topic texts of a diagnostic event.
pub open spec fn event_texts(e: DiagnosticEventData) -> Seq<Seq<char>> {
    diag_texts(e.event.topics@)
}

/// The payload of an event's data: its text, else (unless it is void) its
/// debug rendering.
pub open spec fn payload_text(data: ScValue, data_debug: Seq<char>) -> Option<Seq<char>> {
    match scval_text(data) {
        Some(t) => Some(t),
        None => if data is Void {
            None
        } else {
            Some(data_debug)
        },
    }
}

/// A topic trimmed and ASCII lower-cased.
pub open spec fn normalized(t: Seq<char>) -> Seq<char> {
    lower_seq(trim(t))
}

/// A topic that marks a call: `fn_call`, `function_call` or `call`.
pub open spec fn call_topic(t: Seq<char>) -> bool {
    let n = normalized(t);
    n == "fn_call"@ || n == "function_call"@ || n == "call"@
}

/// A topic that marks a return: `fn_return`, `function_return` or `return`.
pub open spec fn return_topic(t: Seq<char>) -> bool {
    let n = normalized(t);
    n == "fn_return"@ || n == "function_return"@ || n == "return"@
}

/// Text that signals an error (ASCII case-insensitive): containing
/// `error`, `failed`, `failure`, `panic` or `trap`, or equal to `err`.
pub open spec fn error_signal(v: Seq<char>) -> bool {
    let l = lower_seq(v);
    seq_contains(l, "error"@) || l == "err"@ || seq_contains(l, "failed"@) || seq_contains(l, "failure"@)
        || seq_contains(l, "panic"@) || seq_contains(l, "trap"@)
}

/// Some topic signals an error.
pub open spec fn any_signal(ts: Seq<Seq<char>>) -> bool {
    exists|i: int| 0 <= i < ts.len() && error_signal(#[trigger] ts[i])
}

/// Some topic marks a call.
pub open spec fn any_call(ts: Seq<Seq<char>>) -> bool {
    exists|i: int| 0 <= i < ts.len() && call_topic(#[trigger] ts[i])
}

/// Some topic marks a return.
pub open spec fn any_return(ts: Seq<Seq<char>>) -> bool {
    exists|i: int| 0 <= i < ts.len() && return_topic(#[trigger] ts[i])
}

/// The error payload of an event: its payload when that signals an error;
/// else, when a topic does, the payload or (without one) the topics joined
/// by ` > `; else none.
pub open spec fn error_payload_of(ts: Seq<Seq<char>>, payload: Option<Seq<char>>) -> Option<Seq<char>> {
    if payload is Some && error_signal(payload->Some_0) {
        payload
    } else if any_signal(ts) {
        match payload {
            Some(p) => Some(p),
            None => Some(join(ts, " > "@)),
        }
    } else {
        None
    }
}

/// Text of a value used as a topic or payload.
pub fn scval_to_string(val: &ScValue) -> (r: Option<String>)
    ensures
        match r {
            Some(s) => scval_text(*val) == Some(s@),
            None => scval_text(*val) is None,
        },
{
    match val {
        ScValue::Symbol(s) => Some(s.clone()),
        ScValue::String(s) => Some(s.clone()),
        ScValue::U32(u) => Some(fmt_u128(*u as u128)),
        ScValue::I32(i) => Some(fmt_i128(*i as i128)),
        ScValue::U64(u) => Some(fmt_u128(*u as u128)),
        ScValue::I64(i) => Some(fmt_i128(*i as i128)),
        _ => None,
    }
}

/// Payload text of a value, given its debug rendering.
pub fn scval_to_payload_string(val: &ScValue, debug: &String) -> (r: Option<String>)
    ensures
        match r {
            Some(s) => payload_text(*val, debug@) == Some(s@),
            None => payload_text(*val, debug@) is None,
        },
{
    match scval_to_string(val) {
        Some(s) => Some(s),
        None => match val {
            ScValue::Void => None,
            _ => Some(debug.clone()),
        },
    }
}

/// The texts of the topics that have one.
pub fn topic_texts_of(topics: &Vec<ScValue>) -> (r: Vec<String>)
    ensures
        views(r@) == diag_texts(topics@),
{
    let mut out: Vec<String> = Vec::new();
    let n = topics.len();
    for i in 0..n
        invariant
            n == topics.len(),
            views(out@) == diag_texts(topics@.take(i as int)),
    {
        assert(topics@.take(i + 1).drop_last() =~= topics@.take(i as int));
        assert(topics@.take(i + 1).last() == topics@[i as int]);
        match scval_to_string(&topics[i]) {
            Some(t) => {
                let ghost before = out@;
                out.push(t);
                assert(out@.drop_last() =~= before);
            },
            None => {},
        }
    }
    assert(topics@.take(n as int) =~= topics@);
    out
}

/// A topic trimmed and ASCII lower-cased.
pub fn normalized_topic(topic: &str) -> (r: String)
    ensures
        r@ == normalized(topic@),
{
    let c = chars_of(topic);
    let t = trim_chars(c.as_slice());
    let l = to_ascii_lowercase(t.as_slice());
    string_of(&l)
}

/// Whether a topic marks a call.
pub fn is_call_topic(topic: &str) -> (r: bool)
    ensures
        r == call_topic(topic@),
{
    let n = normalized_topic(topic);
    crate::text::str_eq(n.as_str(), "fn_call") || crate::text::str_eq(n.as_str(), "function_call")
        || crate::text::str_eq(n.as_str(), "call")
}

/// Whether a topic marks a return.
pub fn is_return_topic(topic: &str) -> (r: bool)
    ensures
        r == return_topic(topic@),
{
    let n = normalized_topic(topic);
    crate::text::str_eq(n.as_str(), "fn_return") || crate::text::str_eq(n.as_str(), "function_return")
        || crate::text::str_eq(n.as_str(), "return")
}

/// Whether a text signals an error.
pub fn contains_error_signal(value: &str) -> (r: bool)
    ensures
        r == error_signal(value@),
{
    let c = chars_of(value);
    let l = to_ascii_lowercase(c.as_slice());
    let err = chars_of("err");
    contains(l.as_slice(), chars_of("error").as_slice()) || eq_chars(l.as_slice(), err.as_slice())
        || contains(l.as_slice(), chars_of("failed").as_slice()) || contains(
        l.as_slice(),
        chars_of("failure").as_slice(),
    ) || contains(l.as_slice(), chars_of("panic").as_slice()) || contains(
        l.as_slice(),
        chars_of("trap").as_slice(),
    )
}

/// Whether some topic signals an error.
fn any_error_signal(topics: &Vec<String>) -> (r: bool)
    ensures
        r == any_signal(views(topics@)),
{
    proof { lemma_views(topics@); }
    let n = topics.len();
    for i in 0..n
        invariant
            n == topics.len(),
            views(topics@).len() == n,
            forall|k: int| 0 <= k < n ==> #[trigger] views(topics@)[k] == topics@[k]@,
            forall|k: int| 0 <= k < i ==> !error_signal(#[trigger] views(topics@)[k]),
    {
        if contains_error_signal(topics[i].as_str()) {
            assert(error_signal(views(topics@)[i as int]));
            return true;
        }
    }
    false
}

/// Whether some topic marks a call.
fn any_call_topic(topics: &Vec<String>) -> (r: bool)
    ensures
        r == any_call(views(topics@)),
{
    proof { lemma_views(topics@); }
    let n = topics.len();
    for i in 0..n
        invariant
            n == topics.len(),
            views(topics@).len() == n,
            forall|k: int| 0 <= k < n ==> #[trigger] views(topics@)[k] == topics@[k]@,
            forall|k: int| 0 <= k < i ==> !call_topic(#[trigger] views(topics@)[k]),
    {
        if is_call_topic(topics[i].as_str()) {
            assert(call_topic(views(topics@)[i as int]));
            return true;
        }
    }
    false
}

/// Whether some topic marks a return.
fn any_return_topic(topics: &Vec<String>) -> (r: bool)
    ensures
        r == any_return(views(topics@)),
{
    proof { lemma_views(topics@); }
    let n = topics.len();
    for i in 0..n
        invariant
            n == topics.len(),
            views(topics@).len() == n,
            forall|k: int| 0 <= k < n ==> #[trigger] views(topics@)[k] == topics@[k]@,
            forall|k: int| 0 <= k < i ==> !return_topic(#[trigger] views(topics@)[k]),
    {
        if is_return_topic(topics[i].as_str()) {
            assert(return_topic(views(topics@)[i as int]));
            return true;
        }
    }
    false
}

/// Topics joined by ` > `.
fn join_topics(topics: &Vec<String>) -> (r: String)
    ensures
        r@ == join(views(topics@), " > "@),
{
    proof {
        lemma_views(topics@);
        assert(views(topics@) =~= topics@.map_values(|p: String| p@));
    }
    join_strings(topics, " > ")
}

/// The error payload of an event with the given topic texts and data.
pub fn error_payload(topics: &Vec<String>, data: &ScValue, data_debug: &String) -> (r: Option<String>)
    ensures
        match r {
            Some(s) => error_payload_of(views(topics@), payload_text(*data, data_debug@)) == Some(s@),
            None => error_payload_of(views(topics@), payload_text(*data, data_debug@)) is None,
        },
{
    let data_payload = scval_to_payload_string(data, data_debug);
    if let Some(payload) = &data_payload {
        if contains_error_signal(payload.as_str()) {
            return Some(payload.clone());
        }
    }
    if any_error_signal(topics) {
        return match data_payload {
            Some(p) => Some(p),
            None => Some(join_topics(topics)),
        };
    }
    None
}

// ---------------------------------------------------------------------------
// The deepest error event
// ---------------------------------------------------------------------------

/// An error event of the cascade: its call depth, topics and payload.
#[derive(Debug, Clone, PartialEq, Eq)]
pub struct DeepestErrorEvent {
    pub depth: usize,
    pub topics: Vec<String>,
    pub payload: String,
}

/// The value of an error event: depth, topics, payload.
pub type ErrorEventV = (nat, Seq<Seq<char>>, Seq<char>);

impl DeepestErrorEvent {
    /// The value of this event.
    pub open spec fn v(self) -> ErrorEventV {
        (self.depth as nat, views(self.topics@), self.payload@)
    }
}

/// The value of an optional error event.
pub open spec fn opt_ev(o: Option<DeepestErrorEvent>) -> Option<ErrorEventV> {
    match o {
        Some(e) => Some(e.v()),
        None => None,
    }
}

/// The error event that `e` is at depth `depth`, if it is one.
pub open spec fn error_event_at(e: DiagnosticEventData, depth: nat) -> Option<ErrorEventV> {
    let ts = event_texts(e);
    match error_payload_of(ts, payload_text(e.event.data, e.event.data_debug@)) {
        Some(p) => Some((depth, ts, p)),
        None => None,
    }
}

/// The depth counter and the deepest error event so far.
pub type CascadeState = (nat, Option<ErrorEventV>);

/// One event of the cascade: a call topic deepens the counter before the
/// event is examined, a return topic (saturating) pops it after; an error
/// event at least as deep as the deepest so far replaces it.
pub open spec fn cascade_step(s: CascadeState, e: DiagnosticEventData) -> CascadeState {
    let ts = event_texts(e);
    let d = if any_call(ts) { s.0 + 1 } else { s.0 };
    let best = match error_event_at(e, d) {
        Some(c) => if s.1 is None || c.0 >= s.1->Some_0.0 {
            Some(c)
        } else {
            s.1
        },
        None => s.1,
    };
    let after: nat = if any_return(ts) {
        if d > 0 {
            (d - 1) as nat
        } else {
            0
        }
    } else {
        d
    };
    (after, best)
}

/// The cascade state after a sequence of events.
pub open spec fn cascade(events: Seq<DiagnosticEventData>) -> CascadeState
    decreases events.len(),
{
    if events.len() == 0 {
        (0, None)
    } else {
        cascade_step(cascade(events.drop_last()), events.last())
    }
}

proof fn lemma_cascade_depth(events: Seq<DiagnosticEventData>)
    ensures
        cascade(events).0 <= events.len(),
    decreases events.len(),
{
    if events.len() > 0 {
        lemma_cascade_depth(events.drop_last());
    }
}

/// The deepest error event of a cascade: the last of the error events at
/// the greatest call depth.
pub fn deepest_error_event(events: &[DiagnosticEventData]) -> (r: Option<DeepestErrorEvent>)
    ensures
        opt_ev(r) == cascade(events@).1,
{
    let mut depth: usize = 0;
    let mut deepest: Option<DeepestErrorEvent> = None;
    let n = events.len();
    for idx in 0..n
        invariant
            n == events.len(),
            depth as nat == cascade(events@.take(idx as int)).0,
            opt_ev(deepest) == cascade(events@.take(idx as int)).1,
    {
        let event = &events[idx];
        assert(events@.take(idx + 1).drop_last() =~= events@.take(idx as int));
        assert(events@.take(idx + 1).last() == *event);
        proof { lemma_cascade_depth(events@.take(idx as int)); }
        let topics = topic_texts_of(&event.event.topics);
        if any_call_topic(&topics) {
            depth = depth + 1;
        }
        match error_payload(&topics, &event.event.data, &event.event.data_debug) {
            Some(payload) => {
                let replace = match &deepest {
                    Some(current) => depth >= current.depth,
                    None => true,
                };
                if replace {
                    deepest = Some(DeepestErrorEvent { depth, topics: topics.clone(), payload });
                }
            },
            None => {},
        }
        if any_return_topic(&topics) {
            depth = if depth > 0 { depth - 1 } else { 0 };
        }
    }
    assert(events@.take(n as int) =~= events@);
    deepest
}

// ---------------------------------------------------------------------------
// Report updates
// ---------------------------------------------------------------------------

/// Some root cause's description contains `marker`.
pub open spec fn cause_marked(cs: Seq<(Seq<char>, Seq<char>)>, marker: Seq<char>) -> bool {
    exists|i: int| 0 <= i < cs.len() && seq_contains(#[trigger] cs[i].0, marker)
}

/// Root causes after adding `(description, likelihood)` unless a cause
/// containing `marker` is already listed.
pub open spec fn with_cause(cs: Seq<(Seq<char>, Seq<char>)>, marker: Seq<char>, description: Seq<char>, likelihood: Seq<char>) -> Seq<(Seq<char>, Seq<char>)> {
    if cause_marked(cs, marker) {
        cs
    } else {
        cs.push((description, likelihood))
    }
}

/// Some fix has id `id`.
pub open spec fn fix_listed(fs: Seq<FixV>, id: Seq<char>) -> bool {
    exists|i: int| 0 <= i < fs.len() && #[trigger] fs[i].0 == id
}

/// Fixes after adding one (needing no upgrade, without example or remedy
/// code) unless a fix with the same id is already listed.
pub open spec fn with_fix(fs: Seq<FixV>, id: Seq<char>, description: Seq<char>, difficulty: Seq<char>) -> Seq<FixV> {
    if fix_listed(fs, id) {
        fs
    } else {
        fs.push((id, description, difficulty, false, None, None))
    }
}

/// The explanation after tracing `line`, unless it already contains
/// `check`: an empty explanation starts a `Diagnostic events trace:`
/// block, a non-empty one gets a new line.
pub open spec fn traced(old: Seq<char>, check: Seq<char>, line: Seq<char>) -> Seq<char> {
    if seq_contains(old, check) {
        old
    } else if old.len() == 0 {
        "Diagnostic events trace:\n"@ + line
    } else {
        old + "\n"@ + line
    }
}

fn push_cause_unless(causes: &mut Vec<RootCause>, marker: &str, description: String, likelihood: &str)
    ensures
        causes_v(final(causes)@) == with_cause(causes_v(old(causes)@), marker@, description@, likelihood@),
{
    let ghost cs = causes_v(causes@);
    let n = causes.len();
    for i in 0..n
        invariant
            n == causes.len(),
            cs == causes_v(causes@),
            forall|k: int| 0 <= k < i ==> !seq_contains(#[trigger] cs[k].0, marker@),
    {
        if str_contains(causes[i].description.as_str(), marker) {
            assert(seq_contains(cs[i as int].0, marker@));
            return;
        }
    }
    let cause = RootCause { description, likelihood: String::from_str(likelihood) };
    causes.push(cause);
    assert(causes_v(causes@) =~= cs.push((description@, likelihood@)));
}

fn push_fix_unless(fixes: &mut Vec<SuggestedFix>, id: &str, description: &str, difficulty: &str)
    ensures
        fixes_v(final(fixes)@) == with_fix(fixes_v(old(fixes)@), id@, description@, difficulty@),
{
    let ghost fs = fixes_v(fixes@);
    let n = fixes.len();
    for i in 0..n
        invariant
            n == fixes.len(),
            fs == fixes_v(fixes@),
            forall|k: int| 0 <= k < i ==> #[trigger] fs[k].0 != id@,
    {
        if crate::text::str_eq(fixes[i].id.as_str(), id) {
            assert(fs[i as int].0 == id@);
            return;
        }
    }
    let fix = SuggestedFix {
        id: String::from_str(id),
        description: String::from_str(description),
        difficulty: String::from_str(difficulty),
        requires_upgrade: false,
        example: None,
        remedy_code: None,
    };
    fixes.push(fix);
    assert(fixes_v(fixes@) =~= fs.push((id@, description@, difficulty@, false, None, None)));
}

fn add_trace_line(explanation: &mut String, check: &str, line: &str)
    ensures
        final(explanation)@ == traced(old(explanation)@, check@, line@),
{
    if str_contains(explanation.as_str(), check) {
        return;
    }
    if explanation.as_str().is_empty() {
        let mut s = String::from_str("Diagnostic events trace:\n");
        append(&mut s, line);
        *explanation = s;
    } else {
        append(explanation, "\n");
        append(explanation, line);
    }
}

/// Everything but the causes, fixes and explanation is unchanged.
pub open spec fn same_except_findings(a: DiagnosticReport, b: DiagnosticReport) -> bool {
    b == (DiagnosticReport {
        root_causes: b.root_causes,
        suggested_fixes: b.suggested_fixes,
        detailed_explanation: b.detailed_explanation,
        ..a
    })
}

/// The topics shown for an error event.
pub open spec fn shown_topics(ts: Seq<Seq<char>>) -> Seq<char> {
    if ts.len() == 0 {
        "untagged diagnostic event"@
    } else {
        join(ts, " > "@)
    }
}

/// The root cause describing the deepest error event.
pub open spec fn deepest_description(e: ErrorEventV) -> Seq<char> {
    "Deepest diagnostic error occurred at call depth "@ + dec_nat(e.0) + " in ["@ + shown_topics(e.1)
        + "] with payload: "@ + e.2 + "."@
}

/// Records the deepest error event in a report: a high-likelihood root
/// cause (unless one already describes a deepest error) and a trace line.
pub fn add_deepest_error_root_cause(report: &mut DiagnosticReport, error_event: &DeepestErrorEvent)
    ensures
        same_except_findings(*old(report), *final(report)),
        causes_v(final(report).root_causes@) == with_cause(
            causes_v(old(report).root_causes@),
            "Deepest diagnostic error"@,
            deepest_description(error_event.v()),
            "high"@,
        ),
        final(report).suggested_fixes@ == old(report).suggested_fixes@,
        final(report).detailed_explanation@ == traced(
            old(report).detailed_explanation@,
            "- Deepest error event: "@ + deepest_description(error_event.v()),
            "- Deepest error event: "@ + deepest_description(error_event.v()),
        ),
{
    proof { lemma_views(error_event.topics@); }
    let topics = if error_event.topics.len() == 0 {
        String::from_str("untagged diagnostic event")
    } else {
        join_topics(&error_event.topics)
    };
    let mut description = String::from_str("Deepest diagnostic error occurred at call depth ");
    push_dec(&mut description, error_event.depth as u128);
    append(&mut description, " in [");
    append(&mut description, topics.as_str());
    append(&mut description, "] with payload: ");
    append(&mut description, error_event.payload.as_str());
    append(&mut description, ".");
    assert(description@ == deepest_description(error_event.v()));
    let mut detail = String::from_str("- Deepest error event: ");
    append(&mut detail, description.as_str());
    push_cause_unless(&mut report.root_causes, "Deepest diagnostic error", description, "high");
    add_trace_line(&mut report.detailed_explanation, detail.as_str(), detail.as_str());
}

/// Some topic, Unicode lower-cased, contains `a` or `b`.
pub open spec fn mentions(ts: Seq<Seq<char>>, a: Seq<char>, b: Seq<char>) -> bool {
    exists|i: int| 0 <= i < ts.len() && (seq_contains(unicode_lowercase(#[trigger] ts[i]), a) || seq_contains(unicode_lowercase(ts[i]), b))
}

fn mentions_exec(topics: &Vec<String>, a: &str, b: &str) -> (r: bool)
    ensures
        r == mentions(views(topics@), a@, b@),
{
    proof { lemma_views(topics@); }
    let n = topics.len();
    for i in 0..n
        invariant
            n == topics.len(),
            views(topics@).len() == n,
            forall|k: int| 0 <= k < n ==> #[trigger] views(topics@)[k] == topics@[k]@,
            forall|k: int| 0 <= k < i ==> !(seq_contains(unicode_lowercase(#[trigger] views(topics@)[k]), a@) || seq_contains(unicode_lowercase(views(topics@)[k]), b@)),
    {
        let lower = to_lowercase(topics[i].as_str());
        if str_contains(lower.as_str(), a) || str_contains(lower.as_str(), b) {
            assert(seq_contains(unicode_lowercase(views(topics@)[i as int]), a@) || seq_contains(unicode_lowercase(views(topics@)[i as int]), b@));
            return true;
        }
    }
    false
}

/// Root causes after the keyword rules for topics `ts`.
pub open spec fn keyword_causes(cs: Seq<(Seq<char>, Seq<char>)>, ts: Seq<Seq<char>>) -> Seq<(Seq<char>, Seq<char>)> {
    let c1 = if mentions(ts, "budget"@, "limit"@) {
        with_cause(cs, "Resource limit"@, "Resource limit was exceeded during contract execution."@, "high"@)
    } else {
        cs
    };
    let c2 = if mentions(ts, "storage"@, "footprint"@) {
        with_cause(
            c1,
            "footprint"@,
            "The contract accessed or requested a storage key that was not declared in the footprint."@,
            "high"@,
        )
    } else {
        c1
    };
    if mentions(ts, "auth"@, "signature"@) {
        with_cause(
            c2,
            "authorization"@,
            "Transaction verification or authorization check failed in __check_auth or signature check."@,
            "high"@,
        )
    } else {
        c2
    }
}

/// Fixes after the keyword rules for topics `ts`.
pub open spec fn keyword_fixes(fs: Seq<FixV>, ts: Seq<Seq<char>>) -> Seq<FixV> {
    let f1 = if mentions(ts, "budget"@, "limit"@) {
        with_fix(
            fs,
            "increase_limits"@,
            "Increase the resource limits when simulating/submitting the transaction."@,
            "easy"@,
        )
    } else {
        fs
    };
    let f2 = if mentions(ts, "storage"@, "footprint"@) {
        with_fix(
            f1,
            "resimulate_footprint"@,
            "Re-simulate the transaction to capture the correct footprint keys and footprint declaration."@,
            "easy"@,
        )
    } else {
        f1
    };
    if mentions(ts, "auth"@, "signature"@) {
        with_fix(
            f2,
            "check_auth_signatures"@,
            "Check that the transaction signatures match the required signers and the nonce is correct."@,
            "medium"@,
        )
    } else {
        f2
    }
}

/// Reads one diagnostic event into a report. An event without topic texts
/// changes nothing. Otherwise topics mentioning `budget`/`limit`,
/// `storage`/`footprint` or `auth`/`signature` (Unicode case-insensitive)
/// add the matching root cause and fix, each unless already present, and
/// the topics joined by ` > ` are traced (unless already mentioned).
pub fn analyze_diagnostic_event(report: &mut DiagnosticReport, event: &DiagnosticEventData)
    ensures
        same_except_findings(*old(report), *final(report)),
        event_texts(*event).len() == 0 ==> *final(report) == *old(report),
        event_texts(*event).len() > 0 ==> causes_v(final(report).root_causes@) == keyword_causes(
            causes_v(old(report).root_causes@),
            event_texts(*event),
        ),
        event_texts(*event).len() > 0 ==> fixes_v(final(report).suggested_fixes@) == keyword_fixes(
            fixes_v(old(report).suggested_fixes@),
            event_texts(*event),
        ),
        event_texts(*event).len() > 0 ==> final(report).detailed_explanation@ == traced(
            old(report).detailed_explanation@,
            join(event_texts(*event), " > "@),
            "- ["@ + join(event_texts(*event), " > "@) + "]"@,
        ),
        findings_of(*final(report)) == read_event(findings_of(*old(report)), *event),
{
    let topics = topic_texts_of(&event.event.topics);
    proof { lemma_views(topics@); }
    if topics.len() == 0 {
        return;
    }
    if mentions_exec(&topics, "budget", "limit") {
        push_cause_unless(
            &mut report.root_causes,
            "Resource limit",
            String::from_str("Resource limit was exceeded during contract execution."),
            "high",
        );
        push_fix_unless(
            &mut report.suggested_fixes,
            "increase_limits",
            "Increase the resource limits when simulating/submitting the transaction.",
            "easy",
        );
    }
    if mentions_exec(&topics, "storage", "footprint") {
        push_cause_unless(
            &mut report.root_causes,
            "footprint",
            String::from_str("The contract accessed or requested a storage key that was not declared in the footprint."),
            "high",
        );
        push_fix_unless(
            &mut report.suggested_fixes,
            "resimulate_footprint",
            "Re-simulate the transaction to capture the correct footprint keys and footprint declaration.",
            "easy",
        );
    }
    if mentions_exec(&topics, "auth", "signature") {
        push_cause_unless(
            &mut report.root_causes,
            "authorization",
            String::from_str("Transaction verification or authorization check failed in __check_auth or signature check."),
            "high",
        );
        push_fix_unless(
            &mut report.suggested_fixes,
            "check_auth_signatures",
            "Check that the transaction signatures match the required signers and the nonce is correct.",
            "medium",
        );
    }
    let topics_str = join_topics(&topics);
    let mut line = String::from_str("- [");
    append(&mut line, topics_str.as_str());
    append(&mut line, "]");
    add_trace_line(&mut report.detailed_explanation, topics_str.as_str(), line.as_str());
}

/// The findings of a report: its root causes, fixes and explanation.
pub type Findings = (Seq<(Seq<char>, Seq<char>)>, Seq<FixV>, Seq<char>);

/// The findings of a report, by value.
pub open spec fn findings_of(r: DiagnosticReport) -> Findings {
    (causes_v(r.root_causes@), fixes_v(r.suggested_fixes@), r.detailed_explanation@)
}

/// The findings after reading events `events` one by one.
pub open spec fn analyzed(f: Findings, events: Seq<DiagnosticEventData>) -> Findings
    decreases events.len(),
{
    if events.len() == 0 {
        f
    } else {
        let (cs, fs, ex) = analyzed(f, events.drop_last());
        let ts = event_texts(events.last());
        if ts.len() == 0 {
            (cs, fs, ex)
        } else {
            (keyword_causes(cs, ts), keyword_fixes(fs, ts), traced(ex, join(ts, " > "@), "- ["@ + join(ts, " > "@) + "]"@))
        }
    }
}

/// The findings after enriching with the events of a transaction: every
/// event read in turn, then the deepest error event, if any, recorded.
pub open spec fn enriched(f: Findings, events: Seq<DiagnosticEventData>) -> Findings {
    let (cs, fs, ex) = analyzed(f, events);
    match cascade(events).1 {
        Some(e) => {
            let detail = "- Deepest error event: "@ + deepest_description(e);
            (with_cause(cs, "Deepest diagnostic error"@, deepest_description(e), "high"@), fs, traced(ex, detail, detail))
        },
        None => (cs, fs, ex),
    }
}

/// The entries of the `diagnosticEventsXdr` array of an RPC transaction
/// document that are strings (each a base64 XDR diagnostic event); `None`
/// when the document has no such array.
pub fn diagnostic_event_entries(tx_data: &Json) -> (r: Option<Vec<String>>)
    ensures
        match r {
            Some(v) => as_array_v(get_v(tx_data.v(), "diagnosticEventsXdr"@)) matches Some(items) && views(v@)
                == string_items(items),
            None => as_array_v(get_v(tx_data.v(), "diagnosticEventsXdr"@)) is None,
        },
{
    let items = match tx_data.get("diagnosticEventsXdr") {
        Some(e) => match e.as_array() {
            Some(a) => a,
            None => return None,
        },
        None => return None,
    };
    proof { Json::lemma_vs(items@); }
    let ghost vs = Json::vs(items@);
    let mut out: Vec<String> = Vec::new();
    let n = items.len();
    for i in 0..n
        invariant
            n == items.len(),
            vs == Json::vs(items@),
            vs.len() == n,
            forall|k: int| 0 <= k < n ==> #[trigger] vs[k] == items@[k].v(),
            views(out@) == string_items(vs.take(i as int)),
    {
        assert(vs.take(i + 1).drop_last() =~= vs.take(i as int));
        match items[i].as_str() {
            Some(s) => {
                let ghost before = out@;
                out.push(s.clone());
                assert(out@.drop_last() =~= before);
            },
            None => {},
        }
    }
    assert(vs.take(n as int) =~= vs);
    Some(out)
}

/// The string items of a JSON array, in order.
pub open spec fn string_items(items: Seq<JsonV>) -> Seq<Seq<char>>
    decreases items.len(),
{
    if items.len() == 0 {
        Seq::empty()
    } else {
        match items.last() {
            JsonV::String(s) => string_items(items.drop_last()).push(s),
            _ => string_items(items.drop_last()),
        }
    }
}

/// Enriches a report with the diagnostic events of a transaction (those
/// of its `diagnosticEventsXdr` entries that decode, in order): each event
/// is read by [`analyze_diagnostic_event`], then the deepest error event,
/// if any, is recorded by [`add_deepest_error_root_cause`].
pub fn enrich_report(report: &mut DiagnosticReport, decoded_events: &[DiagnosticEventData]) -> (r: GratResult<()>)
    ensures
        r is Ok,
        same_except_findings(*old(report), *final(report)),
        findings_of(*final(report)) == enriched(findings_of(*old(report)), decoded_events@),
{
    let ghost start = *report;
    let n = decoded_events.len();
    for i in 0..n
        invariant
            n == decoded_events.len(),
            same_except_findings(start, *report),
            findings_of(*report) == analyzed(findings_of(start), decoded_events@.take(i as int)),
    {
        assert(decoded_events@.take(i + 1).drop_last() =~= decoded_events@.take(i as int));
        analyze_diagnostic_event(report, &decoded_events[i]);
    }
    assert(decoded_events@.take(n as int) =~= decoded_events@);
    if let Some(error_event) = deepest_error_event(decoded_events) {
        add_deepest_error_root_cause(report, &error_event);
    }
    Ok(())
}

/// The diagnostic events among base64 XDR texts that decode, in order.
pub open spec fn decoded_events(texts: Seq<Seq<char>>) -> Seq<DiagnosticEventData>
    decreases texts.len(),
{
    if texts.len() == 0 {
        Seq::empty()
    } else {
        let rest = decoded_events(texts.drop_last());
        match diagnostic_event_of(texts.last()) {
            Some(e) => rest.push(e),
            None => rest,
        }
    }
}

/// Decodes base64 XDR diagnostic events, keeping those that decode.
pub fn decode_diagnostic_events(entries: &Vec<String>) -> (r: Vec<DiagnosticEventData>)
    ensures
        r@ == decoded_events(views(entries@)),
{
    let ghost ts = views(entries@);
    proof { lemma_views(entries@); }
    let mut out: Vec<DiagnosticEventData> = Vec::new();
    let n = entries.len();
    for i in 0..n
        invariant
            n == entries@.len(),
            ts == views(entries@),
            ts.len() == n,
            forall|k: int| 0 <= k < n ==> #[trigger] ts[k] == entries@[k]@,
            out@ == decoded_events(ts.take(i as int)),
    {
        assert(ts.take(i + 1).drop_last() =~= ts.take(i as int));
        assert(ts.take(i + 1).last() == entries@[i as int]@);
        match decode_diagnostic_event(entries[i].as_str()) {
            Some(e) => {
                out.push(e);
            },
            None => {},
        }
    }
    assert(ts.take(n as int) =~= ts);
    out
}

/// Enriches a report with the diagnostic events of an RPC transaction
/// document: its `diagnosticEventsXdr` entries that are base64 XDR
/// diagnostic events, read as [`enrich_report`] reads decoded events; a
/// document without that array leaves the report as it was.
pub fn enrich_report_from_document(report: &mut DiagnosticReport, tx_data: &Json) -> (r: GratResult<()>)
    ensures
        r is Ok,
        match as_array_v(get_v(tx_data.v(), "diagnosticEventsXdr"@)) {
            None => *final(report) == *old(report),
            Some(items) => same_except_findings(*old(report), *final(report)) && findings_of(*final(report))
                == enriched(findings_of(*old(report)), decoded_events(string_items(items))),
        },
{
    match diagnostic_event_entries(tx_data) {
        None => Ok(()),
        Some(entries) => {
            let events = decode_diagnostic_events(&entries);
            enrich_report(report, events.as_slice())
        },
    }
}

// ---------------------------------------------------------------------------
// Reading events again changes nothing
// ---------------------------------------------------------------------------

proof fn lemma_contains_in_suffix(a: Seq<char>, b: Seq<char>, x: Seq<char>)
    requires
        seq_contains(b, x),
    ensures
        seq_contains(a + b, x),
{
    let i = choose|i: int| occurs_at(b, x, i);
    assert((a + b).subrange(a.len() + i, a.len() + i + x.len()) =~= b.subrange(i, i + x.len()));
    assert(occurs_at(a + b, x, a.len() + i));
}

proof fn lemma_contains_in_prefix(a: Seq<char>, b: Seq<char>, x: Seq<char>)
    requires
        seq_contains(a, x),
    ensures
        seq_contains(a + b, x),
{
    let i = choose|i: int| occurs_at(a, x, i);
    assert((a + b).subrange(i, i + x.len()) =~= a.subrange(i, i + x.len()));
    assert(occurs_at(a + b, x, i));
}

proof fn lemma_contains_self(x: Seq<char>)
    ensures
        seq_contains(x, x),
{
    assert(x.subrange(0, x.len() as int) =~= x);
    assert(occurs_at(x, x, 0));
}

/// Each description the rules add names the marker it is found by.
proof fn lemma_markers()
    ensures
        seq_contains("Resource limit was exceeded during contract execution."@, "Resource limit"@),
        seq_contains(
            "The contract accessed or requested a storage key that was not declared in the footprint."@,
            "footprint"@,
        ),
        seq_contains(
            "Transaction verification or authorization check failed in __check_auth or signature check."@,
            "authorization"@,
        ),
{
    reveal_strlit("Resource limit was exceeded during contract execution.");
    reveal_strlit("Resource limit");
    reveal_strlit("The contract accessed or requested a storage key that was not declared in the footprint.");
    reveal_strlit("footprint");
    reveal_strlit("Transaction verification or authorization check failed in __check_auth or signature check.");
    reveal_strlit("authorization");
    let a = "Resource limit was exceeded during contract execution."@;
    assert(a.subrange(0, 14) =~= "Resource limit"@);
    assert(occurs_at(a, "Resource limit"@, 0));
    let b = "The contract accessed or requested a storage key that was not declared in the footprint."@;
    assert(b.subrange(78, 87) =~= "footprint"@);
    assert(occurs_at(b, "footprint"@, 78));
    let c = "Transaction verification or authorization check failed in __check_auth or signature check."@;
    assert(c.subrange(28, 41) =~= "authorization"@);
    assert(occurs_at(c, "authorization"@, 28));
}

/// A description of the deepest error names its marker.
proof fn lemma_deepest_marker(e: ErrorEventV)
    ensures
        seq_contains(deepest_description(e), "Deepest diagnostic error"@),
{
    reveal_strlit("Deepest diagnostic error occurred at call depth ");
    reveal_strlit("Deepest diagnostic error");
    let d = deepest_description(e);
    let head = "Deepest diagnostic error occurred at call depth "@;
    assert(d.subrange(0, 24) =~= head.subrange(0, 24));
    assert(head.subrange(0, 24) =~= "Deepest diagnostic error"@);
    assert(occurs_at(d, "Deepest diagnostic error"@, 0));
}

/// A traced explanation contains what it traced.
proof fn lemma_traced_contains(ex: Seq<char>, check: Seq<char>, line: Seq<char>)
    requires
        seq_contains(line, check),
    ensures
        seq_contains(traced(ex, check, line), check),
{
    if !seq_contains(ex, check) {
        if ex.len() == 0 {
            lemma_contains_in_suffix("Diagnostic events trace:\n"@, line, check);
        } else {
            lemma_contains_in_suffix(ex + "\n"@, line, check);
            assert(ex + "\n"@ + line == (ex + "\n"@) + line);
        }
    }
}

/// Tracing keeps what an explanation contained.
proof fn lemma_traced_keeps(ex: Seq<char>, check: Seq<char>, line: Seq<char>, x: Seq<char>)
    requires
        seq_contains(ex, x),
    ensures
        seq_contains(traced(ex, check, line), x),
{
    if !seq_contains(ex, check) {
        if ex.len() > 0 {
            lemma_contains_in_prefix(ex, "\n"@ + line, x);
            assert(ex + "\n"@ + line =~= ex + ("\n"@ + line));
        } else {
            let i = choose|i: int| occurs_at(ex, x, i);
            assert(x.len() == 0);
            assert(traced(ex, check, line).subrange(0, 0) =~= x);
            assert(occurs_at(traced(ex, check, line), x, 0));
        }
    }
}

proof fn lemma_with_cause_keeps(cs: Seq<(Seq<char>, Seq<char>)>, m: Seq<char>, d: Seq<char>, l: Seq<char>, x: Seq<char>)
    requires
        cause_marked(cs, x),
    ensures
        cause_marked(with_cause(cs, m, d, l), x),
{
    let i = choose|i: int| 0 <= i < cs.len() && seq_contains(#[trigger] cs[i].0, x);
    assert(with_cause(cs, m, d, l)[i] == cs[i]);
}

proof fn lemma_with_cause_marks(cs: Seq<(Seq<char>, Seq<char>)>, m: Seq<char>, d: Seq<char>, l: Seq<char>)
    requires
        seq_contains(d, m),
    ensures
        cause_marked(with_cause(cs, m, d, l), m),
{
    if !cause_marked(cs, m) {
        assert(with_cause(cs, m, d, l)[cs.len() as int].0 == d);
    }
}

proof fn lemma_with_fix_keeps(fs: Seq<FixV>, id: Seq<char>, d: Seq<char>, diff: Seq<char>, x: Seq<char>)
    requires
        fix_listed(fs, x),
    ensures
        fix_listed(with_fix(fs, id, d, diff), x),
{
    let i = choose|i: int| 0 <= i < fs.len() && #[trigger] fs[i].0 == x;
    assert(with_fix(fs, id, d, diff)[i] == fs[i]);
}

proof fn lemma_with_fix_lists(fs: Seq<FixV>, id: Seq<char>, d: Seq<char>, diff: Seq<char>)
    ensures
        fix_listed(with_fix(fs, id, d, diff), id),
{
    if !fix_listed(fs, id) {
        assert(with_fix(fs, id, d, diff)[fs.len() as int].0 == id);
    }
}

/// The findings already hold what reading an event would add.
pub open spec fn saturated(f: Findings, e: DiagnosticEventData) -> bool {
    let ts = event_texts(e);
    ts.len() > 0 ==> {
        &&& mentions(ts, "budget"@, "limit"@) ==> cause_marked(f.0, "Resource limit"@) && fix_listed(
            f.1,
            "increase_limits"@,
        )
        &&& mentions(ts, "storage"@, "footprint"@) ==> cause_marked(f.0, "footprint"@) && fix_listed(
            f.1,
            "resimulate_footprint"@,
        )
        &&& mentions(ts, "auth"@, "signature"@) ==> cause_marked(f.0, "authorization"@) && fix_listed(
            f.1,
            "check_auth_signatures"@,
        )
        &&& seq_contains(f.2, join(ts, " > "@))
    }
}

/// The findings after reading one event.
pub open spec fn read_event(f: Findings, e: DiagnosticEventData) -> Findings {
    let ts = event_texts(e);
    if ts.len() == 0 {
        f
    } else {
        (keyword_causes(f.0, ts), keyword_fixes(f.1, ts), traced(f.2, join(ts, " > "@), "- ["@ + join(ts, " > "@) + "]"@))
    }
}

proof fn lemma_read_saturates(f: Findings, e: DiagnosticEventData)
    ensures
        saturated(read_event(f, e), e),
{
    let ts = event_texts(e);
    if ts.len() > 0 {
        lemma_markers();
        let cs = f.0;
        let c1 = if mentions(ts, "budget"@, "limit"@) {
            with_cause(cs, "Resource limit"@, "Resource limit was exceeded during contract execution."@, "high"@)
        } else {
            cs
        };
        let m2 = "The contract accessed or requested a storage key that was not declared in the footprint."@;
        let c2 = if mentions(ts, "storage"@, "footprint"@) { with_cause(c1, "footprint"@, m2, "high"@) } else { c1 };
        let m3 = "Transaction verification or authorization check failed in __check_auth or signature check."@;
        if mentions(ts, "budget"@, "limit"@) {
            lemma_with_cause_marks(cs, "Resource limit"@, "Resource limit was exceeded during contract execution."@, "high"@);
            if mentions(ts, "storage"@, "footprint"@) {
                lemma_with_cause_keeps(c1, "footprint"@, m2, "high"@, "Resource limit"@);
            }
            if mentions(ts, "auth"@, "signature"@) {
                lemma_with_cause_keeps(c2, "authorization"@, m3, "high"@, "Resource limit"@);
            }
        }
        if mentions(ts, "storage"@, "footprint"@) {
            lemma_with_cause_marks(c1, "footprint"@, m2, "high"@);
            if mentions(ts, "auth"@, "signature"@) {
                lemma_with_cause_keeps(c2, "authorization"@, m3, "high"@, "footprint"@);
            }
        }
        if mentions(ts, "auth"@, "signature"@) {
            lemma_with_cause_marks(c2, "authorization"@, m3, "high"@);
        }
        let fs = f.1;
        let d1 = "Increase the resource limits when simulating/submitting the transaction."@;
        let d2 = "Re-simulate the transaction to capture the correct footprint keys and footprint declaration."@;
        let d3 = "Check that the transaction signatures match the required signers and the nonce is correct."@;
        let f1 = if mentions(ts, "budget"@, "limit"@) { with_fix(fs, "increase_limits"@, d1, "easy"@) } else { fs };
        let f2 = if mentions(ts, "storage"@, "footprint"@) { with_fix(f1, "resimulate_footprint"@, d2, "easy"@) } else { f1 };
        if mentions(ts, "budget"@, "limit"@) {
            lemma_with_fix_lists(fs, "increase_limits"@, d1, "easy"@);
            if mentions(ts, "storage"@, "footprint"@) {
                lemma_with_fix_keeps(f1, "resimulate_footprint"@, d2, "easy"@, "increase_limits"@);
            }
            if mentions(ts, "auth"@, "signature"@) {
                lemma_with_fix_keeps(f2, "check_auth_signatures"@, d3, "medium"@, "increase_limits"@);
            }
        }
        if mentions(ts, "storage"@, "footprint"@) {
            lemma_with_fix_lists(f1, "resimulate_footprint"@, d2, "easy"@);
            if mentions(ts, "auth"@, "signature"@) {
                lemma_with_fix_keeps(f2, "check_auth_signatures"@, d3, "medium"@, "resimulate_footprint"@);
            }
        }
        if mentions(ts, "auth"@, "signature"@) {
            lemma_with_fix_lists(f2, "check_auth_signatures"@, d3, "medium"@);
        }
        let j = join(ts, " > "@);
        let line = "- ["@ + j + "]"@;
        lemma_contains_self(j);
        lemma_contains_in_suffix("- ["@, j, j);
        lemma_contains_in_prefix("- ["@ + j, "]"@, j);
        lemma_traced_contains(f.2, j, line);
    }
}

proof fn lemma_read_keeps(f: Findings, e: DiagnosticEventData, other: DiagnosticEventData)
    requires
        saturated(f, other),
    ensures
        saturated(read_event(f, e), other),
{
    let ts = event_texts(e);
    let to = event_texts(other);
    if ts.len() > 0 && to.len() > 0 {
        let cs = f.0;
        let m1 = "Resource limit was exceeded during contract execution."@;
        let m2 = "The contract accessed or requested a storage key that was not declared in the footprint."@;
        let m3 = "Transaction verification or authorization check failed in __check_auth or signature check."@;
        let c1 = if mentions(ts, "budget"@, "limit"@) { with_cause(cs, "Resource limit"@, m1, "high"@) } else { cs };
        let c2 = if mentions(ts, "storage"@, "footprint"@) { with_cause(c1, "footprint"@, m2, "high"@) } else { c1 };
        let markers = seq!["Resource limit"@, "footprint"@, "authorization"@];
        assert forall|k: int| 0 <= k < 3 && cause_marked(cs, #[trigger] markers[k]) implies cause_marked(
            keyword_causes(cs, ts),
            markers[k],
        ) by {
            if mentions(ts, "budget"@, "limit"@) {
                lemma_with_cause_keeps(cs, "Resource limit"@, m1, "high"@, markers[k]);
            }
            if mentions(ts, "storage"@, "footprint"@) {
                lemma_with_cause_keeps(c1, "footprint"@, m2, "high"@, markers[k]);
            }
            if mentions(ts, "auth"@, "signature"@) {
                lemma_with_cause_keeps(c2, "authorization"@, m3, "high"@, markers[k]);
            }
        }
        assert(markers[0] == "Resource limit"@ && markers[1] == "footprint"@ && markers[2] == "authorization"@);
        let fs = f.1;
        let d1 = "Increase the resource limits when simulating/submitting the transaction."@;
        let d2 = "Re-simulate the transaction to capture the correct footprint keys and footprint declaration."@;
        let d3 = "Check that the transaction signatures match the required signers and the nonce is correct."@;
        let f1 = if mentions(ts, "budget"@, "limit"@) { with_fix(fs, "increase_limits"@, d1, "easy"@) } else { fs };
        let f2 = if mentions(ts, "storage"@, "footprint"@) { with_fix(f1, "resimulate_footprint"@, d2, "easy"@) } else { f1 };
        let ids = seq!["increase_limits"@, "resimulate_footprint"@, "check_auth_signatures"@];
        assert forall|k: int| 0 <= k < 3 && fix_listed(fs, #[trigger] ids[k]) implies fix_listed(
            keyword_fixes(fs, ts),
            ids[k],
        ) by {
            if mentions(ts, "budget"@, "limit"@) {
                lemma_with_fix_keeps(fs, "increase_limits"@, d1, "easy"@, ids[k]);
            }
            if mentions(ts, "storage"@, "footprint"@) {
                lemma_with_fix_keeps(f1, "resimulate_footprint"@, d2, "easy"@, ids[k]);
            }
            if mentions(ts, "auth"@, "signature"@) {
                lemma_with_fix_keeps(f2, "check_auth_signatures"@, d3, "medium"@, ids[k]);
            }
        }
        assert(ids[0] == "increase_limits"@ && ids[1] == "resimulate_footprint"@ && ids[2] == "check_auth_signatures"@);
        lemma_traced_keeps(f.2, join(ts, " > "@), "- ["@ + join(ts, " > "@) + "]"@, join(to, " > "@));
    }
}

/// Reading an event whose findings are already present changes nothing.
proof fn lemma_read_saturated(f: Findings, e: DiagnosticEventData)
    requires
        saturated(f, e),
    ensures
        read_event(f, e) == f,
{
    let ts = event_texts(e);
    if ts.len() > 0 {
        let m1 = "Resource limit was exceeded during contract execution."@;
        let m2 = "The contract accessed or requested a storage key that was not declared in the footprint."@;
        let m3 = "Transaction verification or authorization check failed in __check_auth or signature check."@;
        assert(keyword_causes(f.0, ts) == f.0);
        assert(keyword_fixes(f.1, ts) == f.1);
    }
}

proof fn lemma_analyzed_is_reads(f: Findings, events: Seq<DiagnosticEventData>)
    ensures
        events.len() > 0 ==> analyzed(f, events) == read_event(analyzed(f, events.drop_last()), events.last()),
{
}

/// After reading events, every one of them is saturated.
proof fn lemma_analyzed_saturated(f: Findings, events: Seq<DiagnosticEventData>)
    ensures
        forall|i: int| 0 <= i < events.len() ==> saturated(analyzed(f, events), #[trigger] events[i]),
    decreases events.len(),
{
    if events.len() > 0 {
        let p = events.drop_last();
        lemma_analyzed_saturated(f, p);
        lemma_analyzed_is_reads(f, events);
        let g = analyzed(f, p);
        assert forall|i: int| 0 <= i < events.len() implies saturated(analyzed(f, events), #[trigger] events[i]) by {
            if i == events.len() - 1 {
                lemma_read_saturates(g, events.last());
            } else {
                assert(events[i] == p[i]);
                lemma_read_keeps(g, events.last(), events[i]);
            }
        }
    }
}

/// Reading saturated events changes nothing.
proof fn lemma_analyzed_fixed(f: Findings, events: Seq<DiagnosticEventData>)
    requires
        forall|i: int| 0 <= i < events.len() ==> saturated(f, #[trigger] events[i]),
    ensures
        analyzed(f, events) == f,
    decreases events.len(),
{
    if events.len() > 0 {
        let p = events.drop_last();
        assert forall|i: int| 0 <= i < p.len() implies saturated(f, #[trigger] p[i]) by {
            assert(p[i] == events[i]);
        }
        lemma_analyzed_fixed(f, p);
        lemma_analyzed_is_reads(f, events);
        lemma_read_saturated(f, events.last());
    }
}

/// Enriching findings twice with the same events gives what enriching
/// once gave: every rule adds a cause, a fix or a trace line only when it
/// is not already there.
/// Analyzing the same diagnostic event twice leaves the report's root
/// causes, fixes and explanation as analyzing it once left them.
pub proof fn lemma_analyze_event_twice(f: Findings, e: DiagnosticEventData)
    ensures
        read_event(read_event(f, e), e) == read_event(f, e),
{
    lemma_read_saturates(f, e);
    lemma_read_saturated(read_event(f, e), e);
}

/// Adding the deepest error's root cause twice leaves the root causes and
/// the explanation as adding it once left them.
pub proof fn lemma_deepest_root_cause_twice(causes: Seq<(Seq<char>, Seq<char>)>, explanation: Seq<char>, e: ErrorEventV)
    ensures
        with_cause(
            with_cause(causes, "Deepest diagnostic error"@, deepest_description(e), "high"@),
            "Deepest diagnostic error"@,
            deepest_description(e),
            "high"@,
        ) == with_cause(causes, "Deepest diagnostic error"@, deepest_description(e), "high"@),
        traced(
            traced(
                explanation,
                "- Deepest error event: "@ + deepest_description(e),
                "- Deepest error event: "@ + deepest_description(e),
            ),
            "- Deepest error event: "@ + deepest_description(e),
            "- Deepest error event: "@ + deepest_description(e),
        ) == traced(
            explanation,
            "- Deepest error event: "@ + deepest_description(e),
            "- Deepest error event: "@ + deepest_description(e),
        ),
{
    let line = "- Deepest error event: "@ + deepest_description(e);
    lemma_deepest_marker(e);
    lemma_with_cause_marks(causes, "Deepest diagnostic error"@, deepest_description(e), "high"@);
    lemma_contains_self(line);
    lemma_traced_contains(explanation, line, line);
}

pub proof fn lemma_enrich_twice(f: Findings, events: Seq<DiagnosticEventData>)
    ensures
        enriched(enriched(f, events), events) == enriched(f, events),
{
    let g = analyzed(f, events);
    let once = enriched(f, events);
    lemma_analyzed_saturated(f, events);
    assert forall|i: int| 0 <= i < events.len() implies saturated(once, #[trigger] events[i]) by {
        match cascade(events).1 {
            Some(e) => {
                let detail = "- Deepest error event: "@ + deepest_description(e);
                let ts = event_texts(events[i]);
                if ts.len() > 0 {
                    let markers = seq!["Resource limit"@, "footprint"@, "authorization"@];
                    assert forall|k: int| 0 <= k < 3 && cause_marked(g.0, #[trigger] markers[k]) implies cause_marked(
                        once.0,
                        markers[k],
                    ) by {
                        lemma_with_cause_keeps(g.0, "Deepest diagnostic error"@, deepest_description(e), "high"@, markers[k]);
                    }
                    assert(markers[0] == "Resource limit"@ && markers[1] == "footprint"@ && markers[2] == "authorization"@);
                    lemma_traced_keeps(g.2, detail, detail, join(ts, " > "@));
                }
            },
            None => {},
        }
    }
    lemma_analyzed_fixed(once, events);
    match cascade(events).1 {
        Some(e) => {
            let detail = "- Deepest error event: "@ + deepest_description(e);
            lemma_deepest_marker(e);
            lemma_with_cause_marks(g.0, "Deepest diagnostic error"@, deepest_description(e), "high"@);
            lemma_contains_self(detail);
            lemma_traced_contains(g.2, detail, detail);
        },
        None => {},
    }
}

} // verus!
