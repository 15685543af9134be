//! Exponential smoothing: where the recursion emits a defined value.
//!
//! The recursion starts from the first sample and runs over every later
//! one; a single missing sample contaminates every value after it.

use vstd::prelude::*;

verus! {

/// Every sample up to and including position `i` is present.
pub open spec fn clean_prefix(present: Seq<bool>, i: int) -> bool {
    forall|j: int| 0 <= j <= i ==> present[j]
}

/// The recursion emits a defined value at position `i`: the warm-up of
/// `period - 1` positions has passed and no missing sample came before.
pub open spec fn ema_defined_at(present: Seq<bool>, period: nat, i: int) -> bool {
    period > 0 && i + 1 >= period && clean_prefix(present, i)
}

/// Positions at which exponential smoothing over `period` emits a defined
/// value. A zero period defines nothing.
pub fn ema_emitted(present: &Vec<bool>, period: usize) -> (r: Vec<bool>)
    ensures
        r@.len() == present@.len(),
        forall|i: int|
            0 <= i < r@.len() ==> (#[trigger] r@[i] <==> ema_defined_at(
                present@,
                period as nat,
                i,
            )),
        // A missing sample is absorbing: nothing after it is defined.
        forall|j: int, k: int| 0 <= j <= k < r@.len() && !#[trigger] present@[j] ==> !#[trigger] r@[k],
        // Before any missing sample, every position past the warm-up is defined.
        forall|k: int|
            0 <= k < r@.len() && period > 0 && k + 1 >= period && clean_prefix(present@, k)
                ==> #[trigger] r@[k],
{
    let n = present.len();
    let mut out: Vec<bool> = Vec::new();
    let mut clean = true;
    let mut i: usize = 0;
    while i < n
        invariant
            n == present@.len(),
            i <= n,
            out@.len() == i,
            clean == clean_prefix(present@, i - 1),
            forall|k: int|
                0 <= k < i ==> (#[trigger] out@[k] <==> ema_defined_at(
                    present@,
                    period as nat,
                    k,
                )),
        decreases n - i,
    {
        clean = clean && present[i];
        out.push(period > 0 && i + 1 >= period && clean);
        i = i + 1;
    }
    out
}

} // verus!
