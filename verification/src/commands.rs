//! The arguments of the `batch` and `search-error` commands, and what the
//! batch command makes of the transactions it decodes.
use vstd::prelude::*;
use crate::error::GratResult;
use crate::text::{append, dec_nat, push_dec};

verus! {

/// The transactions the `batch` command decodes, by hash.
pub struct BatchArgs {
    pub tx_hashes: Vec<String>,
}

impl BatchArgs {
    /// The command line requires at least one hash.
    pub open spec fn wf(&self) -> bool {
        self.tx_hashes@.len() >= 1
    }
}

/// The query of the `search-error` command (a case-insensitive substring).
pub struct SearchErrorArgs {
    pub query: String,
}

/// The reports of the transactions that decoded, in order; a transaction
/// that could not be decoded contributes nothing.
pub open spec fn decoded_reports<T>(outcomes: Seq<GratResult<Vec<T>>>) -> Seq<T>
    decreases outcomes.len(),
{
    if outcomes.len() == 0 {
        Seq::empty()
    } else {
        let rest = decoded_reports(outcomes.drop_last());
        match outcomes.last() {
            Ok(reports) => rest + reports@,
            Err(_) => rest,
        }
    }
}

/// Gathers the reports of a batch from the outcome of decoding each of its
/// transactions.
pub fn batch_reports<T>(outcomes: Vec<GratResult<Vec<T>>>) -> (r: Vec<T>)
    ensures
        r@ == decoded_reports(outcomes@),
{
    let ghost all = outcomes@;
    let count = outcomes.len();
    let mut rest = outcomes;
    let mut reports: Vec<T> = Vec::new();
    let mut i: usize = 0;
    while rest.len() > 0
        invariant
            all.len() == i + rest@.len(),
            all.len() == count,
            rest@ == all.subrange(i as int, all.len() as int),
            reports@ == decoded_reports(all.take(i as int)),
        decreases rest@.len(),
    {
        let outcome = rest.remove(0);
        proof {
            assert(outcome == all[i as int]);
            assert(all.take(i + 1).drop_last() =~= all.take(i as int));
            assert(all.take(i + 1).last() == all[i as int]);
        }
        match outcome {
            Ok(mut found) => {
                reports.append(&mut found);
            },
            Err(_) => {},
        }
        i = i + 1;
        assert(rest@ =~= all.subrange(i as int, all.len() as int));
    }
    assert(all.take(i as int) =~= all);
    reports
}

/// The progress message shown while a batch decodes.
pub fn batch_progress_message(count: usize) -> (r: String)
    ensures
        r@ == "Decoding "@ + dec_nat(count as nat) + " transactions..."@,
{
    let mut s = String::from_str("Decoding ");
    push_dec(&mut s, count as u128);
    append(&mut s, " transactions...");
    s
}

} // verus!
