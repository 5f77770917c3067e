//! Aggregation of concurrently fetched block headers.
//!
//! The surrounding application launches one fetch task per planned height
//! and awaits them in submission order; each task yields `Some` header or
//! `None` on failure.  The aggregation keeps the successful headers, in
//! order, and simply drops the failures: a failed fetch never aborts the
//! batch.
use vstd::prelude::*;

use crate::BlockHeader;

verus! {

/// The headers of the fetch outcomes that succeeded, in order.
pub open spec fn successes(s: Seq<Option<BlockHeader>>) -> Seq<BlockHeader>
    decreases s.len(),
{
    if s.len() == 0 {
        Seq::empty()
    } else {
        let rest = successes(s.drop_last());
        match s.last() {
            Some(h) => rest.push(h),
            None => rest,
        }
    }
}

/// The number of fetch outcomes that failed.
pub open spec fn failure_count(s: Seq<Option<BlockHeader>>) -> nat
    decreases s.len(),
{
    if s.len() == 0 {
        0
    } else {
        failure_count(s.drop_last()) + match s.last() {
            Some(h) => 0nat,
            None => 1nat,
        }
    }
}

/// Keep the headers of the tasks that succeeded, in the order the tasks
/// were awaited; drop the failures.
pub fn collect_results(results: Vec<Option<BlockHeader>>) -> (r: Vec<BlockHeader>)
    ensures
        r@ == successes(results@),
{
    let mut out: Vec<BlockHeader> = Vec::new();
    let mut i: usize = 0;
    while i < results.len()
        invariant
            i <= results@.len(),
            out@ == successes(results@.take(i as int)),
        decreases results@.len() - i,
    {
        proof {
            assert(results@.take(i + 1).drop_last() =~= results@.take(i as int));
            assert(results@.take(i + 1).last() == results@[i as int]);
        }
        match &results[i] {
            Some(h) => {
                out.push(h.clone());
            },
            None => {},
        }
        i += 1;
    }
    proof {
        assert(results@.take(results@.len() as int) =~= results@);
    }
    out
}

/// Partial-failure tolerance: a batch of fetch tasks yields exactly one
/// header per task that succeeded, so the batch shrinks by the number of
/// failures and is never aborted by them.
pub proof fn lemma_partial_failure_tolerance(s: Seq<Option<BlockHeader>>)
    ensures
        successes(s).len() + failure_count(s) == s.len(),
    decreases s.len(),
{
    if s.len() > 0 {
        lemma_partial_failure_tolerance(s.drop_last());
    }
}

} // verus!
