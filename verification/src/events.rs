//! The library's model of contract events and diagnostic events, and the
//! rules shared by the walkers that read them.

use vstd::prelude::*;
use crate::scval::ScValue;
use crate::strkey::{contract_strkey, encode_contract};
use crate::text::{contains, lower_seq, seq_contains, to_ascii_lowercase, chars_of, eq_chars};

verus! {

/// Who emitted an event.
#[derive(Debug, Clone, Copy, PartialEq, Eq, Structural)]
pub enum ContractEventType {
    System,
    Contract,
    Diagnostic,
}

/// A contract event: emitting contract, topics and data.
#[derive(Debug, PartialEq)]
pub struct ContractEventData {
    pub contract_id: Option<[u8; 32]>,
    pub event_type: ContractEventType,
    pub topics: Vec<ScValue>,
    pub data: ScValue,
    /// The debug text of `data` (`format!("{:?}", data)` of the wire value).
    pub data_debug: String,
}

/// A diagnostic event: a contract event and whether it was emitted inside
/// a contract call that succeeded.
#[derive(Debug, PartialEq)]
pub struct DiagnosticEventData {
    pub in_successful_contract_call: bool,
    pub event: ContractEventData,
}

/// The text of a topic that is a symbol or a string.
pub open spec fn topic_text(v: ScValue) -> Option<Seq<char>> {
    match v {
        ScValue::Symbol(s) => Some(s@),
        ScValue::String(s) => Some(s@),
        _ => None,
    }
}

/// The texts of the symbol and string topics, in order.
pub open spec fn topic_texts(topics: Seq<ScValue>) -> Seq<Seq<char>>
    decreases topics.len(),
{
    if topics.len() == 0 {
        Seq::empty()
    } else {
        match topic_text(topics.last()) {
            Some(t) => topic_texts(topics.drop_last()).push(t),
            None => topic_texts(topics.drop_last()),
        }
    }
}

/// The texts of an event's symbol and string topics.
pub open spec fn texts_of(e: DiagnosticEventData) -> Seq<Seq<char>> {
    topic_texts(e.event.topics@)
}

/// The first topic text is `fn_call`.
pub open spec fn is_fn_call(e: DiagnosticEventData) -> bool {
    texts_of(e).len() > 0 && texts_of(e)[0] == "fn_call"@
}

/// The first topic text is `fn_return`.
pub open spec fn is_fn_return(e: DiagnosticEventData) -> bool {
    texts_of(e).len() > 0 && texts_of(e)[0] == "fn_return"@
}

/// A topic naming a failure: `error`, `panic`, `revert`, `hosterror`, or
/// containing `failed` or `trap` (ASCII case-insensitive).
pub open spec fn failure_topic(t: Seq<char>) -> bool {
    let l = lower_seq(t);
    l == "error"@ || l == "panic"@ || l == "revert"@ || l == "hosterror"@ || seq_contains(l, "failed"@)
        || seq_contains(l, "trap"@)
}

/// A failure indicator: emitted in a failed call, carrying an error value,
/// or with a failure topic.
pub open spec fn is_failure(e: DiagnosticEventData) -> bool {
    ||| !e.in_successful_contract_call
    ||| e.event.data is Error
    ||| exists|i: int| 0 <= i < texts_of(e).len() && failure_topic(#[trigger] texts_of(e)[i])
}

/// The strkey of an optional contract hash.
pub open spec fn id_text(id: Option<[u8; 32]>) -> Option<Seq<char>> {
    match id {
        Some(h) => Some(contract_strkey(h@)),
        None => None,
    }
}

/// Text of a symbol or string topic.
pub fn topic_to_string(v: &ScValue) -> (r: Option<String>)
    ensures
        match r {
            Some(s) => topic_text(*v) == Some(s@),
            None => topic_text(*v) is None,
        },
{
    match v {
        ScValue::Symbol(s) => Some(s.clone()),
        ScValue::String(s) => Some(s.clone()),
        _ => None,
    }
}

/// The views of a sequence of strings.
pub open spec fn views(s: Seq<String>) -> Seq<Seq<char>>
    decreases s.len(),
{
    if s.len() == 0 {
        Seq::empty()
    } else {
        views(s.drop_last()).push(s.last()@)
    }
}

pub proof fn lemma_views(s: Seq<String>)
    ensures
        views(s).len() == s.len(),
        forall|i: int| 0 <= i < s.len() ==> #[trigger] views(s)[i] == s[i]@,
    decreases s.len(),
{
    if s.len() > 0 {
        lemma_views(s.drop_last());
    }
}

/// Texts of the symbol and string topics of a list of topics.
pub fn topic_strings(topics: &Vec<ScValue>) -> (r: Vec<String>)
    ensures
        views(r@) == topic_texts(topics@),
{
    let mut out: Vec<String> = Vec::new();
    let n = topics.len();
    for i in 0..n
        invariant
            n == topics.len(),
            views(out@) == topic_texts(topics@.take(i as int)),
    {
        assert(topics@.take(i + 1).drop_last() =~= topics@.take(i as int));
        assert(topics@.take(i + 1).last() == topics@[i as int]);
        match topic_to_string(&topics[i]) {
            Some(t) => {
                let ghost before = out@;
                out.push(t);
                assert(out@.drop_last() =~= before);
            },
            None => {},
        }
    }
    assert(topics@.take(n as int) =~= topics@);
    out
}

/// Whether a topic names a failure.
pub fn is_failure_topic(t: &String) -> (r: bool)
    ensures
        r == failure_topic(t@),
{
    let c = chars_of(t.as_str());
    let l = to_ascii_lowercase(c.as_slice());
    let e1 = chars_of("error");
    let e2 = chars_of("panic");
    let e3 = chars_of("revert");
    let e4 = chars_of("hosterror");
    let e5 = chars_of("failed");
    let e6 = chars_of("trap");
    eq_chars(l.as_slice(), e1.as_slice()) || eq_chars(l.as_slice(), e2.as_slice()) || eq_chars(
        l.as_slice(),
        e3.as_slice(),
    ) || eq_chars(l.as_slice(), e4.as_slice()) || contains(l.as_slice(), e5.as_slice())
        || contains(l.as_slice(), e6.as_slice())
}

/// Whether an event is a failure indicator, given its topic texts.
pub fn is_failure_event(e: &DiagnosticEventData, texts: &Vec<String>) -> (r: bool)
    requires
        views(texts@) == texts_of(*e),
    ensures
        r == is_failure(*e),
{
    if !e.in_successful_contract_call {
        return true;
    }
    if let ScValue::Error(_) = &e.event.data {
        return true;
    }
    proof { lemma_views(texts@); }
    let n = texts.len();
    for i in 0..n
        invariant
            n == texts.len(),
            views(texts@) == texts_of(*e),
            views(texts@).len() == n,
            forall|k: int| 0 <= k < i ==> !failure_topic(#[trigger] texts_of(*e)[k]),
    {
        proof { lemma_views(texts@); }
        if is_failure_topic(&texts[i]) {
            assert(failure_topic(texts_of(*e)[i as int]));
            return true;
        }
    }
    false
}

/// Whether the first of the topic texts equals `word`.
pub fn first_is(texts: &Vec<String>, word: &str) -> (r: bool)
    ensures
        r == (views(texts@).len() > 0 && views(texts@)[0] == word@),
{
    proof { lemma_views(texts@); }
    if texts.len() == 0 {
        false
    } else {
        crate::text::str_eq(texts[0].as_str(), word)
    }
}

/// Strkey of an optional contract hash.
pub fn id_to_string(id: &Option<[u8; 32]>) -> (r: Option<String>)
    ensures
        match r {
            Some(s) => id_text(*id) == Some(s@),
            None => id_text(*id) is None,
        },
{
    match id {
        Some(h) => Some(encode_contract(h)),
        None => None,
    }
}

} // verus!
