//! Pinpoints the root cause of a failed transaction: the failure event that
//! occurred at the greatest call depth of the diagnostic event cascade.
//!
//! The walk keeps a call stack that grows on every `fn_call` event and
//! shrinks on every `fn_return` event; every other event that signals a
//! failure is compared by the depth of the innermost frame at that moment,
//! and the deepest one (the first among equally deep ones) is kept.

use vstd::prelude::*;
use crate::events::{
    first_is, id_text, id_to_string, is_failure, is_failure_event, is_fn_call, is_fn_return,
    lemma_views, texts_of, topic_strings, views, DiagnosticEventData,
};
use crate::scval::{ScErrorValue, ScValue};

verus! {

/// The deepest failure found: the contract executing when it was emitted,
/// that frame's function (when known from its `fn_call`), the call depth
/// (0 = top level) and the contract error code carried by the event.
#[derive(Debug, Clone, PartialEq, Eq)]
pub struct DeepestError {
    pub contract_address: String,
    pub function_name: Option<String>,
    pub depth: usize,
    pub error_code: Option<u32>,
}

/// The value of a [`DeepestError`].
pub struct DeepestV {
    pub address: Seq<char>,
    pub function_name: Option<Seq<char>>,
    pub depth: nat,
    pub error_code: Option<u32>,
}

/// A call frame: contract address and function name.
pub type Frame = (Seq<char>, Option<Seq<char>>);

/// State of the walk: the call stack and the deepest failure so far.
pub type WalkState = (Seq<Frame>, Option<DeepestV>);

/// An optional string's characters.
pub open spec fn opt_view(o: Option<String>) -> Option<Seq<char>> {
    match o {
        Some(s) => Some(s@),
        None => None,
    }
}

impl DeepestError {
    /// The value of this result.
    pub open spec fn v(self) -> DeepestV {
        DeepestV {
            address: self.contract_address@,
            function_name: opt_view(self.function_name),
            depth: self.depth as nat,
            error_code: self.error_code,
        }
    }
}

/// The frame pushed by a `fn_call` event: the emitting contract (or, when
/// the event names none, its second topic, or `<unknown>`) and the second
/// topic as function name.
pub open spec fn call_frame(e: DiagnosticEventData) -> Frame {
    let t = texts_of(e);
    let address = match id_text(e.event.contract_id) {
        Some(a) => a,
        None => if t.len() > 1 {
            t[1]
        } else {
            "<unknown>"@
        },
    };
    (address, if t.len() > 1 { Some(t[1]) } else { None })
}

/// The contract error code carried by an event's data.
pub open spec fn error_code_of(data: ScValue) -> Option<u32> {
    match data {
        ScValue::Error(ScErrorValue::Contract(c)) => Some(c),
        _ => None,
    }
}

/// Depth of the innermost frame of a stack (0 when empty).
pub open spec fn stack_depth(stack: Seq<Frame>) -> nat {
    if stack.len() > 0 {
        (stack.len() - 1) as nat
    } else {
        0
    }
}

/// An event that the walk examines as a failure: not a call or return.
pub open spec fn counted_failure(e: DiagnosticEventData) -> bool {
    !is_fn_call(e) && !is_fn_return(e) && is_failure(e)
}

/// The walk's state after one more event.
#[verifier::opaque]
pub open spec fn walk_step(s: WalkState, e: DiagnosticEventData) -> WalkState {
    let (stack, deepest) = s;
    if is_fn_call(e) {
        (stack.push(call_frame(e)), deepest)
    } else if is_fn_return(e) {
        (if stack.len() > 0 { stack.drop_last() } else { stack }, deepest)
    } else if is_failure(e) {
        let depth = stack_depth(stack);
        if deepest is None || depth > deepest->Some_0.depth {
            let (address, function_name) = if stack.len() > 0 {
                stack.last()
            } else {
                (
                    match id_text(e.event.contract_id) {
                        Some(a) => a,
                        None => "<unknown>"@,
                    },
                    None,
                )
            };
            (stack, Some(DeepestV { address, function_name, depth, error_code: error_code_of(e.event.data) }))
        } else {
            s
        }
    } else {
        s
    }
}

/// The walk's state after a sequence of events.
pub open spec fn walk(events: Seq<DiagnosticEventData>) -> WalkState
    decreases events.len(),
{
    if events.len() == 0 {
        (Seq::empty(), None)
    } else {
        walk_step(walk(events.drop_last()), events.last())
    }
}

/// Call depth at which event `i` is examined.
pub open spec fn depth_at(events: Seq<DiagnosticEventData>, i: int) -> nat {
    stack_depth(walk(events.take(i)).0)
}

/// The deepest failure of a cascade.
pub open spec fn deepest_of(events: Seq<DiagnosticEventData>) -> Option<DeepestV> {
    walk(events).1
}

/// How one step changes the deepest failure.
proof fn lemma_step_deepest(prev: WalkState, e: DiagnosticEventData)
    ensures
        !counted_failure(e) ==> walk_step(prev, e).1 == prev.1,
        counted_failure(e) && (prev.1 is None || stack_depth(prev.0) > prev.1->Some_0.depth) ==> walk_step(prev, e).1 is Some && walk_step(prev, e).1->Some_0.depth == stack_depth(prev.0),
        counted_failure(e) && prev.1 is Some && stack_depth(prev.0) <= prev.1->Some_0.depth ==> walk_step(prev, e).1 == prev.1,
{
    reveal(walk_step);
}

/// Event `i` (among the first `k`) is a failure of depth `d`, every earlier
/// failure is shallower and no failure among the first `k` is deeper.
pub open spec fn is_deepest_at(events: Seq<DiagnosticEventData>, k: int, i: int, d: nat) -> bool {
    &&& 0 <= i < k
    &&& counted_failure(events[i])
    &&& depth_at(events, i) == d
    &&& forall|j: int| 0 <= j < i && counted_failure(#[trigger] events[j]) ==> depth_at(events, j) < d
    &&& forall|j: int| 0 <= j < k && counted_failure(#[trigger] events[j]) ==> depth_at(events, j) <= d
}

/// The deepest failure is the greatest-depth failure event, the first among
/// equally deep ones; there is none exactly when no event other than a call
/// or return signals a failure.
pub proof fn lemma_deepest_is_maximal(events: Seq<DiagnosticEventData>, k: int)
    requires
        0 <= k <= events.len(),
    ensures
        walk(events.take(k)).1 is None <==> forall|j: int| 0 <= j < k ==> !counted_failure(#[trigger] events[j]),
        walk(events.take(k)).1 matches Some(d) ==> exists|i: int| #[trigger] is_deepest_at(events, k, i, d.depth),
    decreases k,
{
    if k == 0 {
        assert(events.take(0) =~= Seq::<DiagnosticEventData>::empty());
    } else {
        lemma_deepest_is_maximal(events, k - 1);
        let p = events.take(k - 1);
        assert(events.take(k).drop_last() =~= p);
        assert(events.take(k).last() == events[k - 1]);
        let prev = walk(p);
        let cur = walk(events.take(k));
        let e = events[k - 1];
        assert(cur == walk_step(prev, e));
        let dk = stack_depth(prev.0);
        assert(depth_at(events, k - 1) == dk);
        lemma_step_deepest(prev, e);
        if counted_failure(e) {
            match prev.1 {
                None => {
                    assert(cur.1 is Some && cur.1->Some_0.depth == dk);
                    assert(is_deepest_at(events, k, k - 1, dk));
                    assert(exists|i: int| #[trigger] is_deepest_at(events, k, i, cur.1->Some_0.depth));
                },
                Some(d) => {
                    let i = choose|i: int| #[trigger] is_deepest_at(events, k - 1, i, d.depth);
                    if dk > d.depth {
                        assert(cur.1->Some_0.depth == dk);
                        assert(is_deepest_at(events, k, k - 1, dk));
                        assert(exists|i: int| #[trigger] is_deepest_at(events, k, i, cur.1->Some_0.depth));
                    } else {
                        assert(cur.1 == prev.1);
                        assert(is_deepest_at(events, k, i, d.depth));
                        assert(exists|i: int| #[trigger] is_deepest_at(events, k, i, cur.1->Some_0.depth));
                    }
                },
            }
        } else {
            assert(cur.1 == prev.1);
            match prev.1 {
                None => {},
                Some(d) => {
                    let i = choose|i: int| #[trigger] is_deepest_at(events, k - 1, i, d.depth);
                    assert(is_deepest_at(events, k, i, d.depth));
                    assert(exists|i: int| #[trigger] is_deepest_at(events, k, i, cur.1->Some_0.depth));
                },
            }
        }
    }
}

/// Walks a diagnostic event cascade and reports its deepest failure.
pub struct DeepestErrorFinder;

impl DeepestErrorFinder {
    /// A finder.
    pub fn new() -> (r: Self) {
        DeepestErrorFinder
    }

    /// The deepest failure of `events`, or `None` when no event other than
    /// a call or return signals a failure.
    pub fn find_deepest(&self, events: &[DiagnosticEventData]) -> (r: Option<DeepestError>)
        ensures
            match r {
                Some(d) => deepest_of(events@) == Some(d.v()),
                None => deepest_of(events@) is None,
            },
            r is None <==> forall|j: int| 0 <= j < events@.len() ==> !counted_failure(#[trigger] events@[j]),
            r matches Some(d) ==> exists|i: int| #[trigger] is_deepest_at(events@, events@.len() as int, i, d.depth as nat),
    {
        let mut stack: Vec<(String, Option<String>)> = Vec::new();
        let mut deepest: Option<DeepestError> = None;
        let n = events.len();
        for idx in 0..n
            invariant
                n == events.len(),
                frames(stack@) == walk(events@.take(idx as int)).0,
                opt_dv(deepest) == walk(events@.take(idx as int)).1,
        {
            let event = &events[idx];
            assert(events@.take(idx + 1).drop_last() =~= events@.take(idx as int));
            assert(events@.take(idx + 1).last() == *event);
            proof {
                lemma_frames(stack@);
                reveal(walk_step);
            }
            let topics = topic_strings(&event.event.topics);
            proof { lemma_views(topics@); }
            if first_is(&topics, "fn_call") {
                let address = match id_to_string(&event.event.contract_id) {
                    Some(a) => a,
                    None => if topics.len() > 1 {
                        topics[1].clone()
                    } else {
                        String::from_str("<unknown>")
                    },
                };
                let function_name = if topics.len() > 1 {
                    Some(topics[1].clone())
                } else {
                    None
                };
                let ghost before = stack@;
                stack.push((address, function_name));
                assert(stack@.drop_last() =~= before);
            } else if first_is(&topics, "fn_return") {
                let ghost before = stack@;
                if stack.len() > 0 {
                    stack.pop();
                    assert(frames(before).drop_last() =~= frames(stack@)) by {
                        assert(before.drop_last() =~= stack@);
                    }
                }
            } else if is_failure_event(event, &topics) {
                let depth: usize = if stack.len() > 0 { stack.len() - 1 } else { 0 };
                let is_new = match &deepest {
                    None => true,
                    Some(current) => depth > current.depth,
                };
                if is_new {
                    let (contract_address, function_name) = if stack.len() > 0 {
                        let last = stack.len() - 1;
                        (stack[last].0.clone(), stack[last].1.clone())
                    } else {
                        let address = match id_to_string(&event.event.contract_id) {
                            Some(a) => a,
                            None => String::from_str("<unknown>"),
                        };
                        (address, None)
                    };
                    let error_code = match &event.event.data {
                        ScValue::Error(ScErrorValue::Contract(c)) => Some(*c),
                        _ => None,
                    };
                    deepest = Some(DeepestError { contract_address, function_name, depth, error_code });
                }
            }
        }
        assert(events@.take(n as int) =~= events@);
        proof { lemma_deepest_is_maximal(events@, n as int); }
        deepest
    }
}

/// The frames of an executable stack.
pub open spec fn frames(s: Seq<(String, Option<String>)>) -> Seq<Frame>
    decreases s.len(),
{
    if s.len() == 0 {
        Seq::empty()
    } else {
        frames(s.drop_last()).push((s.last().0@, opt_view(s.last().1)))
    }
}

proof fn lemma_frames(s: Seq<(String, Option<String>)>)
    ensures
        frames(s).len() == s.len(),
        forall|i: int| 0 <= i < s.len() ==> #[trigger] frames(s)[i] == (s[i].0@, opt_view(s[i].1)),
    decreases s.len(),
{
    if s.len() > 0 {
        lemma_frames(s.drop_last());
    }
}

/// The value of an optional result.
pub open spec fn opt_dv(o: Option<DeepestError>) -> Option<DeepestV> {
    match o {
        Some(d) => Some(d.v()),
        None => None,
    }
}

impl Default for DeepestErrorFinder {
    fn default() -> (r: Self) {
        DeepestErrorFinder
    }
}

/// The deepest failure of `events` (a default finder's answer).
pub fn find_deepest_error(events: &[DiagnosticEventData]) -> (r: Option<DeepestError>)
    ensures
        match r {
            Some(d) => deepest_of(events@) == Some(d.v()),
            None => deepest_of(events@) is None,
        },
{
    DeepestErrorFinder::new().find_deepest(events)
}

} // verus!
