//! Fan-out/fan-in of concurrent fetches.
//!
//! The orchestrator launches one task per request and collects results
//! in request order: each task performs a single bounded attempt with no
//! retry, and a task that errors or times out contributes empty text at
//! its position without disturbing its siblings. The launching and
//! joining is runtime plumbing outside the library; what is verified
//! here is the fan-in itself: one result slot per request, in input
//! order, each holding the task's text or empty.

use vstd::prelude::*;

use crate::retry::text_or_empty;

verus! {

/// Fan-in of per-task results: slot `i` of the output belongs to request
/// `i` and holds its body, or empty text where the task failed or timed
/// out — whatever order the tasks finished in.
pub fn collect_in_order(results: &Vec<Option<String>>) -> (r: Vec<String>)
    ensures
        r@.len() == results@.len(),
        forall|i: int|
            0 <= i < r@.len() ==> r.deep_view()[i] == text_or_empty(results.deep_view()[i]),
{
    let mut r: Vec<String> = Vec::new();
    let mut i: usize = 0;
    while i < results.len()
        invariant
            i <= results.len(),
            r@.len() == i as nat,
            forall|j: int| 0 <= j < i ==> r@[j]@ == text_or_empty(results.deep_view()[j]),
        decreases results.len() - i,
    {
        let text = match &results[i] {
            Some(s) => s.clone(),
            None => String::new(),
        };
        assert(text@ == text_or_empty(results.deep_view()[i as int]));
        r.push(text);
        i += 1;
    }
    proof {
        assert forall|j: int| 0 <= j < r@.len() implies r.deep_view()[j] == text_or_empty(
            results.deep_view()[j],
        ) by {
            assert(r@[j]@ == text_or_empty(results.deep_view()[j]));
        }
    }
    r
}

} // verus!
