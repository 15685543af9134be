//! The rolling-window engine: which trailing windows of a series are free of
//! missing samples, and how many samples each window holds.

use vstd::prelude::*;

verus! {

/// Number of present samples among positions `lo .. hi` of `present`.
pub open spec fn count_present(present: Seq<bool>, lo: int, hi: int) -> nat
    decreases hi - lo,
{
    if hi <= lo {
        0
    } else {
        count_present(present, lo, hi - 1) + if present[hi - 1] { 1nat } else { 0nat }
    }
}

/// The trailing window of `window` positions ending at `i` lies inside the
/// series and holds no missing sample.
pub open spec fn window_clean(present: Seq<bool>, window: nat, i: int) -> bool {
    &&& window > 0
    &&& i + 1 >= window
    &&& forall|j: int| i + 1 - window <= j <= i ==> present[j]
}

proof fn lemma_count_bounded(present: Seq<bool>, lo: int, hi: int)
    requires
        lo <= hi,
    ensures
        count_present(present, lo, hi) <= hi - lo,
    decreases hi - lo,
{
    if hi > lo {
        lemma_count_bounded(present, lo, hi - 1);
    }
}

proof fn lemma_count_drop_front(present: Seq<bool>, lo: int, hi: int)
    requires
        lo < hi,
    ensures
        count_present(present, lo, hi) == count_present(present, lo + 1, hi) + if present[lo] {
            1nat
        } else {
            0nat
        },
    decreases hi - lo,
{
    if hi > lo + 1 {
        lemma_count_drop_front(present, lo, hi - 1);
    } else {
        assert(count_present(present, lo, lo) == 0);
        assert(count_present(present, lo + 1, hi) == 0);
    }
}

/// A range is full exactly when every position in it is present.
proof fn lemma_count_full(present: Seq<bool>, lo: int, hi: int)
    requires
        lo <= hi,
    ensures
        count_present(present, lo, hi) == hi - lo <==> forall|j: int| lo <= j < hi ==> present[j],
    decreases hi - lo,
{
    if hi > lo {
        lemma_count_full(present, lo, hi - 1);
        lemma_count_bounded(present, lo, hi - 1);
    }
}

/// Positions at which the NaN-aware rolling mean is defined: those whose
/// trailing window of `window` samples is complete and holds no missing
/// sample. A zero window defines nothing.
///
/// `present[i]` says whether sample `i` is a number.
pub fn rolling_mean_defined(present: &Vec<bool>, window: usize) -> (r: Vec<bool>)
    ensures
        r@.len() == present@.len(),
        forall|i: int|
            0 <= i < r@.len() ==> (#[trigger] r@[i] <==> window_clean(present@, window as nat, i)),
{
    let n = present.len();
    let mut out: Vec<bool> = Vec::new();
    if window == 0 {
        while out.len() < n
            invariant
                out@.len() <= n,
                forall|k: int| 0 <= k < out@.len() ==> !#[trigger] out@[k],
            decreases n - out@.len(),
        {
            out.push(false);
        }
        return out;
    }
    let mut count: usize = 0;
    let mut i: usize = 0;
    while i < n
        invariant
            n == present@.len(),
            window > 0,
            i <= n,
            out@.len() == i,
            count == count_present(present@, if i >= window { i - window } else { 0 }, i as int),
            forall|k: int|
                0 <= k < i ==> (#[trigger] out@[k] <==> window_clean(present@, window as nat, k)),
        decreases n - i,
    {
        let start: Ghost<int> = Ghost(if i >= window { i - window } else { 0 });
        proof {
            lemma_count_bounded(present@, start@, i as int);
        }
        if present[i] {
            count = count + 1;
        }
        assert(count == count_present(present@, start@, i + 1));
        if i >= window {
            proof {
                lemma_count_drop_front(present@, start@, i + 1);
            }
            if present[i - window] {
                count = count - 1;
            }
        }
        let lo: Ghost<int> = Ghost(if i + 1 >= window { i + 1 - window } else { 0 });
        assert(count == count_present(present@, lo@, i + 1));
        proof {
            lemma_count_full(present@, lo@, i + 1);
            lemma_count_bounded(present@, lo@, i + 1);
        }
        out.push(count >= window);
        i = i + 1;
    }
    out
}

/// How the sample standard deviation of a window is formed from the number
/// of present samples in it.
#[derive(Clone, Copy, Debug, PartialEq, Eq, Structural)]
pub enum Dispersion {
    /// No sample: the deviation is undefined.
    Undefined,
    /// A single sample: the deviation is zero.
    Zero,
    /// `count` samples, at least two: the squared deviations from their mean
    /// are summed and divided by `count - 1`.
    Sample { count: usize },
}

/// The dispersion of a window holding `count` present samples.
pub open spec fn dispersion_of(count: nat) -> Dispersion {
    if count == 0 {
        Dispersion::Undefined
    } else if count == 1 {
        Dispersion::Zero
    } else {
        Dispersion::Sample { count: count as usize }
    }
}

/// The dispersion at position `i` of a rolling deviation over `period`
/// positions: undefined until a full window of positions has passed.
pub open spec fn rolling_dispersion_at(present: Seq<bool>, period: nat, i: int) -> Dispersion {
    if period > 0 && i + 1 >= period {
        dispersion_of(count_present(present, i + 1 - period, i + 1))
    } else {
        Dispersion::Undefined
    }
}

/// For each position, how the rolling sample deviation over the trailing
/// `period` positions is formed: each full window counts its present
/// samples afresh.
pub fn rolling_dispersion(present: &Vec<bool>, period: usize) -> (r: Vec<Dispersion>)
    ensures
        r@.len() == present@.len(),
        forall|i: int|
            0 <= i < r@.len() ==> #[trigger] r@[i] == rolling_dispersion_at(
                present@,
                period as nat,
                i,
            ),
{
    let n = present.len();
    let mut out: Vec<Dispersion> = Vec::new();
    let mut i: usize = 0;
    while i < n
        invariant
            n == present@.len(),
            i <= n,
            out@.len() == i,
            forall|k: int|
                0 <= k < i ==> #[trigger] out@[k] == rolling_dispersion_at(
                    present@,
                    period as nat,
                    k,
                ),
        decreases n - i,
    {
        if period > 0 && i + 1 >= period {
            let lo = i + 1 - period;
            let mut count: usize = 0;
            let mut j: usize = lo;
            while j <= i
                invariant
                    n == present@.len(),
                    i < n,
                    lo <= j <= i + 1,
                    count == count_present(present@, lo as int, j as int),
                    count <= j - lo,
                decreases i + 1 - j,
            {
                if present[j] {
                    count = count + 1;
                }
                j = j + 1;
            }
            if count == 0 {
                out.push(Dispersion::Undefined);
            } else if count == 1 {
                out.push(Dispersion::Zero);
            } else {
                out.push(Dispersion::Sample { count });
            }
        } else {
            out.push(Dispersion::Undefined);
        }
        i = i + 1;
    }
    out
}

} // verus!
