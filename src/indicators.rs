//! The indicator layer: each indicator rejects a zero period and takes the
//! shape of its result from the rolling engine.
//!
//! Each function answers, per position, whether the indicator is defined
//! there (or, for the deviation, how it is formed); the caller fills the
//! defined positions with the arithmetic of the indicator.

use vstd::prelude::*;
use crate::ema::{ema_defined_at, ema_emitted};
use crate::error::InvalidArgument;
use crate::window::{
    Dispersion,
    rolling_dispersion,
    rolling_dispersion_at,
    rolling_mean_defined,
    window_clean,
};

verus! {

/// Positions of a series of `len` samples at which the simple moving
/// average over `window` is defined: the plain trailing sum divided by
/// `window`, from the first full window on.
pub fn sma_defined(len: usize, window: usize) -> (r: Result<Vec<bool>, InvalidArgument>)
    ensures
        r is Err <==> window == 0,
        r is Err ==> r == Err::<Vec<bool>, _>(InvalidArgument::ZeroPeriod),
        r matches Ok(d) ==> d@.len() == len && forall|i: int|
            0 <= i < len ==> (#[trigger] d@[i] <==> i + 1 >= window),
{
    if window == 0 {
        return Err(InvalidArgument::ZeroPeriod);
    }
    let mut out: Vec<bool> = Vec::new();
    let mut i: usize = 0;
    while i < len
        invariant
            i <= len,
            out@.len() == i,
            forall|k: int| 0 <= k < i ==> (#[trigger] out@[k] <==> k + 1 >= window),
        decreases len - i,
    {
        out.push(i + 1 >= window);
        i = i + 1;
    }
    Ok(out)
}

/// The relative strength index is defined at `i`: the `period` price
/// changes ending at `i` are all numbers. The first sample has no change.
pub open spec fn rsi_defined_at(moves: Seq<bool>, period: nat, i: int) -> bool {
    &&& i >= period
    &&& forall|j: int| i + 1 - period <= j <= i ==> moves[j]
}

/// Positions at which the relative strength index over `period` is
/// defined. `moves[i]`, for `i >= 1`, says whether the change from sample
/// `i - 1` to sample `i` is a number; `moves[0]` is ignored.
///
/// Gains and losses are missing exactly where the change is, so their two
/// rolling means are defined at the same positions; where they are, the
/// index is `100` if the mean loss is zero and `100 - 100 / (1 + gain / loss)`
/// otherwise.
pub fn rsi_defined(moves: &Vec<bool>, period: usize) -> (r: Result<Vec<bool>, InvalidArgument>)
    ensures
        r is Err <==> period == 0,
        r is Err ==> r == Err::<Vec<bool>, _>(InvalidArgument::ZeroPeriod),
        r matches Ok(d) ==> d@.len() == moves@.len() && forall|i: int|
            0 <= i < moves@.len() ==> (#[trigger] d@[i] <==> rsi_defined_at(
                moves@,
                period as nat,
                i,
            )),
{
    if period == 0 {
        return Err(InvalidArgument::ZeroPeriod);
    }
    let n = moves.len();
    let mut changes: Vec<bool> = Vec::new();
    let mut i: usize = 0;
    while i < n
        invariant
            n == moves@.len(),
            i <= n,
            changes@.len() == i,
            forall|k: int| 0 <= k < i ==> #[trigger] changes@[k] == (k > 0 && moves@[k]),
        decreases n - i,
    {
        changes.push(i > 0 && moves[i]);
        i = i + 1;
    }
    let d = rolling_mean_defined(&changes, period);
    assert forall|i: int| 0 <= i < n implies (#[trigger] d@[i] <==> rsi_defined_at(
        moves@,
        period as nat,
        i,
    )) by {
        if window_clean(changes@, period as nat, i) {
            assert(changes@[i + 1 - period]);
            assert forall|j: int| i + 1 - period <= j <= i implies moves@[j] by {
                assert(changes@[j]);
            }
        }
        if rsi_defined_at(moves@, period as nat, i) {
            assert forall|j: int| i + 1 - period <= j <= i implies changes@[j] by {
                assert(changes@[j] == (j > 0 && moves@[j]));
            }
        }
    }
    Ok(d)
}

/// Positions at which the average true range over `period` is defined:
/// the rolling mean of the true ranges, where `ranges[i]` says whether the
/// true range of bar `i` is a number.
///
/// The true range of the first bar is its high minus its low; of a later
/// bar, the largest of that, `|high - previous close|` and
/// `|low - previous close|`, each of the last two counted only where it is
/// a number. The series spans the shortest of the high, low and close
/// series.
pub fn atr_defined(ranges: &Vec<bool>, period: usize) -> (r: Result<Vec<bool>, InvalidArgument>)
    ensures
        r is Err <==> period == 0,
        r is Err ==> r == Err::<Vec<bool>, _>(InvalidArgument::ZeroPeriod),
        r matches Ok(d) ==> d@.len() == ranges@.len() && forall|i: int|
            0 <= i < ranges@.len() ==> (#[trigger] d@[i] <==> window_clean(
                ranges@,
                period as nat,
                i,
            )),
{
    if period == 0 {
        return Err(InvalidArgument::ZeroPeriod);
    }
    Ok(rolling_mean_defined(ranges, period))
}

/// Positions at which the exponential moving average over `period` is
/// defined, for a series whose present samples are `present`.
pub fn ema_defined(present: &Vec<bool>, period: usize) -> (r: Result<Vec<bool>, InvalidArgument>)
    ensures
        r is Err <==> period == 0,
        r is Err ==> r == Err::<Vec<bool>, _>(InvalidArgument::ZeroPeriod),
        r matches Ok(d) ==> d@.len() == present@.len() && forall|i: int|
            0 <= i < present@.len() ==> (#[trigger] d@[i] <==> ema_defined_at(
                present@,
                period as nat,
                i,
            )),
{
    if period == 0 {
        return Err(InvalidArgument::ZeroPeriod);
    }
    Ok(ema_emitted(present, period))
}

/// How the rolling sample standard deviation over `period` is formed at
/// each position, for a series whose present samples are `present`.
pub fn stddev_plan(present: &Vec<bool>, period: usize) -> (r: Result<
    Vec<Dispersion>,
    InvalidArgument,
>)
    ensures
        r is Err <==> period == 0,
        r is Err ==> r == Err::<Vec<Dispersion>, _>(InvalidArgument::ZeroPeriod),
        r matches Ok(d) ==> d@.len() == present@.len() && forall|i: int|
            0 <= i < present@.len() ==> #[trigger] d@[i] == rolling_dispersion_at(
                present@,
                period as nat,
                i,
            ),
{
    if period == 0 {
        return Err(InvalidArgument::ZeroPeriod);
    }
    Ok(rolling_dispersion(present, period))
}

} // verus!
