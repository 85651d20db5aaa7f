//! Locates the contract that caused the first failure of a diagnostic event
//! stream, following the call stack that `fn_call` and `fn_return` events
//! build.

use vstd::prelude::*;
use crate::events::{
    first_is, id_text, id_to_string, is_failure, is_failure_event, is_fn_call, is_fn_return,
    lemma_views, topic_strings, views, DiagnosticEventData,
};

verus! {

/// The call stack after one more event: a `fn_call` that names its
/// contract pushes that contract's strkey, a `fn_return` pops (when the
/// stack is not empty); nothing else changes it.
pub open spec fn walker_step(stack: Seq<Seq<char>>, e: DiagnosticEventData) -> Seq<Seq<char>> {
    if is_fn_call(e) {
        match id_text(e.event.contract_id) {
            Some(a) => stack.push(a),
            None => stack,
        }
    } else if is_fn_return(e) {
        if stack.len() > 0 {
            stack.drop_last()
        } else {
            stack
        }
    } else {
        stack
    }
}

/// The call stack after a sequence of events.
pub open spec fn walker_stack(events: Seq<DiagnosticEventData>) -> Seq<Seq<char>>
    decreases events.len(),
{
    if events.len() == 0 {
        Seq::empty()
    } else {
        walker_step(walker_stack(events.drop_last()), events.last())
    }
}

/// The contract blamed for a failure event seen with call stack `stack`:
/// the innermost frame, or the event's own contract when the stack is empty.
pub open spec fn blame(stack: Seq<Seq<char>>, e: DiagnosticEventData) -> Option<Seq<char>> {
    if stack.len() > 0 {
        Some(stack.last())
    } else {
        id_text(e.event.contract_id)
    }
}

/// Outcome of walking a sequence of events: `None` while no failure has
/// been seen, `Some(blamed)` from the first failure on.
pub open spec fn walk_outcome(events: Seq<DiagnosticEventData>) -> Option<Option<Seq<char>>>
    decreases events.len(),
{
    if events.len() == 0 {
        None
    } else {
        match walk_outcome(events.drop_last()) {
            Some(r) => Some(r),
            None => {
                let e = events.last();
                if is_failure(e) {
                    Some(blame(walker_stack(events), e))
                } else {
                    None
                }
            },
        }
    }
}

/// The contract located for a whole event stream.
pub open spec fn located(events: Seq<DiagnosticEventData>) -> Option<Seq<char>> {
    match walk_outcome(events) {
        Some(r) => r,
        None => None,
    }
}

/// Walks diagnostic events with an explicit call stack.
pub struct DiagnosticEventWalker;

impl DiagnosticEventWalker {
    /// A walker.
    pub fn new() -> (r: Self) {
        DiagnosticEventWalker
    }

    /// The strkey of the contract that caused the first failure of
    /// `events`: the innermost frame of the call stack when that failure is
    /// seen (the event itself counts: a failing `fn_call` is blamed on the
    /// contract it pushed), else the failing event's own contract. `None`
    /// when no event fails, or when the first failure has neither.
    pub fn locate_failing_contract(&self, events: &[DiagnosticEventData]) -> (r: Option<String>)
        ensures
            match r {
                Some(s) => located(events@) == Some(s@),
                None => located(events@) is None,
            },
    {
        let mut stack: Vec<String> = Vec::new();
        let n = events.len();
        for idx in 0..n
            invariant
                n == events.len(),
                views(stack@) == walker_stack(events@.take(idx as int)),
                walk_outcome(events@.take(idx as int)) is None,
        {
            let event = &events[idx];
            let ghost prefix = events@.take(idx + 1);
            assert(prefix.drop_last() =~= events@.take(idx as int));
            assert(prefix.last() == *event);
            proof { lemma_views(stack@); }
            let topics = topic_strings(&event.event.topics);
            proof { lemma_views(topics@); }
            if first_is(&topics, "fn_call") {
                match id_to_string(&event.event.contract_id) {
                    Some(a) => {
                        let ghost before = stack@;
                        stack.push(a);
                        assert(stack@.drop_last() =~= before);
                    },
                    None => {},
                }
            } else if first_is(&topics, "fn_return") {
                if stack.len() > 0 {
                    let ghost before = stack@;
                    stack.pop();
                    assert(before.drop_last() =~= stack@);
                }
            }
            proof { lemma_views(stack@); }
            if is_failure_event(event, &topics) {
                proof {
                    assert(walk_outcome(prefix) == Some(blame(walker_stack(prefix), *event)));
                    lemma_walk_halts_at_first_failure(prefix, events@.skip(idx + 1));
                    assert(prefix + events@.skip(idx + 1) =~= events@);
                }
                if stack.len() > 0 {
                    let last = stack.len() - 1;
                    return Some(stack[last].clone());
                }
                return id_to_string(&event.event.contract_id);
            }
        }
        assert(events@.take(n as int) =~= events@);
        None
    }
}

impl Default for DiagnosticEventWalker {
    fn default() -> (r: Self) {
        DiagnosticEventWalker
    }
}

/// Nothing is located before a failure: the walk's outcome is still open
/// exactly when none of the events seen fails.
pub proof fn lemma_outcome_open(events: Seq<DiagnosticEventData>)
    ensures
        walk_outcome(events) is None <==> forall|j: int| 0 <= j < events.len() ==> !is_failure(#[trigger] events[j]),
    decreases events.len(),
{
    if events.len() > 0 {
        let p = events.drop_last();
        lemma_outcome_open(p);
        if walk_outcome(events) is None {
            assert forall|j: int| 0 <= j < events.len() implies !is_failure(#[trigger] events[j]) by {
                if j < events.len() - 1 {
                    assert(p[j] == events[j]);
                }
            }
        } else {
            if walk_outcome(p) is None {
                assert(is_failure(events[events.len() - 1]));
            } else {
                let j = choose|j: int| 0 <= j < p.len() && is_failure(#[trigger] p[j]);
                assert(p[j] == events[j]);
            }
        }
    }
}

/// Walking halts at the first failure: events after it never change the
/// answer.
pub proof fn lemma_walk_halts_at_first_failure(events: Seq<DiagnosticEventData>, more: Seq<DiagnosticEventData>)
    ensures
        walk_outcome(events) is Some ==> walk_outcome(events + more) == walk_outcome(events),
    decreases more.len(),
{
    if more.len() > 0 {
        lemma_walk_halts_at_first_failure(events, more.drop_last());
        assert((events + more).drop_last() =~= events + more.drop_last());
    } else {
        assert(events + more =~= events);
    }
}

/// The located contract is decided by the first failing event: it is the
/// blame of that event under the call stack built up to and including it.
pub proof fn lemma_located_is_first_failure(events: Seq<DiagnosticEventData>, i: int)
    requires
        0 <= i < events.len(),
        is_failure(events[i]),
        forall|j: int| 0 <= j < i ==> !is_failure(#[trigger] events[j]),
    ensures
        located(events) == blame(walker_stack(events.take(i + 1)), events[i]),
{
    let p = events.take(i);
    let q = events.take(i + 1);
    lemma_outcome_open(p);
    assert forall|j: int| 0 <= j < p.len() implies !is_failure(#[trigger] p[j]) by {
        assert(p[j] == events[j]);
    }
    assert(q.drop_last() =~= p);
    assert(q.last() == events[i]);
    assert(walk_outcome(q) == Some(blame(walker_stack(q), events[i])));
    lemma_walk_halts_at_first_failure(q, events.skip(i + 1));
    assert(q + events.skip(i + 1) =~= events);
}

} // verus!
