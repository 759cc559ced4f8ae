//! The interval index: deciding whether a candidate span overlaps any
//! existing token span.
//!
//! The rule is inclusive at both endpoints: a candidate `[start, end]`
//! overlaps an existing token `t` exactly when `start <= t.start <= end` or
//! `start <= t.end <= end`, so spans that merely touch at a shared boundary
//! count as overlapping.

use vstd::prelude::*;

use crate::model::{token_overlapped, Token};

verus! {

/// True iff the candidate span `[start, end]` overlaps some token of
/// `tokens` under the inclusive-endpoint rule.
pub fn overlaps(tokens: &Vec<Token>, start: i64, end: i64) -> (found: bool)
    ensures
        found == crate::model::overlaps(tokens@, start, end),
{
    let mut i: usize = 0;
    while i < tokens.len()
        invariant
            i <= tokens.len(),
            forall|j: int| 0 <= j < i ==> !token_overlapped(tokens@[j], start, end),
        decreases tokens.len() - i,
    {
        let t = tokens[i];
        if (start <= t.start && t.start <= end) || (start <= t.end && t.end <= end) {
            return true;
        }
        i += 1;
    }
    false
}

} // verus!
