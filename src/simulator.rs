//! The trade simulator: a per-bar state machine that holds at most one
//! position, closes it on a stop-loss, a take-profit or an opposing signal,
//! and opens a new one on a signal.
//!
//! Prices never enter this module. The caller reports, for an open position
//! and a bar, which of the position's levels the bar reached (a [`Touch`]);
//! the simulator decides the transitions and records each trade by the bars
//! it spans and by how its exit was filled, from which the caller prices it.

use vstd::prelude::*;
use crate::error::InvalidArgument;

verus! {

/// Direction of an open position.
#[derive(Clone, Copy, Debug, PartialEq, Eq, Structural)]
pub enum Side {
    Long,
    Short,
}

/// An open position. Its entry price is the close of `entry_bar`, and any
/// quantity sampled at entry (the average true range) is read at that bar,
/// so it stays frozen for the life of the position.
#[derive(Clone, Copy, Debug, PartialEq, Eq, Structural)]
pub struct Holding {
    pub side: Side,
    pub entry_bar: usize,
    pub entry_ts: i64,
}

/// What one bar did to the levels of an open position.
///
/// For a long position: `stop_hit` is `low <= stop`, `target_hit` is
/// `high >= target`, `open_past_stop` is `open < stop` and `open_past_target`
/// is `open > target`. A short position mirrors each comparison.
#[derive(Clone, Copy, Debug, PartialEq, Eq, Structural)]
pub struct Touch {
    pub stop_hit: bool,
    pub target_hit: bool,
    pub open_past_stop: bool,
    pub open_past_target: bool,
}

/// Why a position was closed.
#[derive(Clone, Copy, Debug, PartialEq, Eq, Structural)]
pub enum ExitReason {
    StopLoss,
    TakeProfit,
    SignalFlip,
}

/// The price at which an exit was filled.
#[derive(Clone, Copy, Debug, PartialEq, Eq, Structural)]
pub enum Fill {
    /// The bar's open, when the bar opened beyond the level.
    Open,
    /// Exactly the stop or target level named by the exit reason.
    Level,
    /// The bar's close.
    Close,
}

/// A realized trade.
#[derive(Clone, Copy, Debug, PartialEq, Eq, Structural)]
pub struct Trade {
    pub side: Side,
    pub entry_bar: usize,
    pub entry_ts: i64,
    pub exit_bar: usize,
    pub exit_ts: i64,
    pub reason: ExitReason,
    pub fill: Fill,
}

/// The fixed rules of one simulation.
#[derive(Clone, Copy, Debug, PartialEq, Eq, Structural)]
pub struct Rules {
    /// A sell signal may open a short position.
    pub allow_short: bool,
    /// Take-profit exits are enabled (the target distance is positive).
    pub take_profit: bool,
}

/// What one bar did: the trade it closed, if any, and the position held
/// after it.
#[derive(Clone, Copy, Debug, PartialEq, Eq, Structural)]
pub struct BarOutcome {
    pub exit: Option<Trade>,
    pub holding: Option<Holding>,
}

/// The state after one bar, from which the caller marks equity: the cash
/// is the starting balance plus the profit of the first `closed` trades,
/// and the open position, if any, is marked at the bar's close.
#[derive(Clone, Copy, Debug, PartialEq, Eq, Structural)]
pub struct Mark {
    pub ts: i64,
    pub closed: usize,
    pub holding: Option<Holding>,
}

/// The result of a simulation: the trade ledger in order of exit, and one
/// mark per bar.
pub struct Simulation {
    pub trades: Vec<Trade>,
    pub marks: Vec<Mark>,
}

impl ExitReason {
    /// The reason as it is written in a trade ledger.
    pub fn label(&self) -> (r: &'static str)
        ensures
            *self == ExitReason::StopLoss ==> r@ == seq!['s', 'l'],
            *self == ExitReason::TakeProfit ==> r@ == seq!['t', 'p'],
            *self == ExitReason::SignalFlip ==> r@ == seq![
                's', 'i', 'g', 'n', 'a', 'l', '_', 'f', 'l', 'i', 'p'
            ],
    {
        proof {
            reveal_strlit("sl");
            reveal_strlit("tp");
            reveal_strlit("signal_flip");
        }
        match self {
            ExitReason::StopLoss => "sl",
            ExitReason::TakeProfit => "tp",
            ExitReason::SignalFlip => "signal_flip",
        }
    }
}

/// The side a signal asks for: `1` buys, `-1` sells, anything else is none.
pub open spec fn signal_side(signal: i32) -> Option<Side> {
    if signal == 1 {
        Some(Side::Long)
    } else if signal == -1 {
        Some(Side::Short)
    } else {
        None
    }
}

/// The signal is strictly opposite to a position on `side`.
pub open spec fn opposes(side: Side, signal: i32) -> bool {
    match side {
        Side::Long => signal == -1,
        Side::Short => signal == 1,
    }
}

/// The level exit a bar forces on an open position: the stop is checked
/// first and wins a tie; the target counts only where enabled. A level
/// crossed at the open fills at the open, otherwise at the level.
pub open spec fn level_exit(rules: Rules, touch: Touch) -> Option<(ExitReason, Fill)> {
    if touch.stop_hit {
        Some((ExitReason::StopLoss, if touch.open_past_stop { Fill::Open } else { Fill::Level }))
    } else if rules.take_profit && touch.target_hit {
        Some((ExitReason::TakeProfit, if touch.open_past_target { Fill::Open } else { Fill::Level }))
    } else {
        None
    }
}

/// The position a signal opens at the close of `bar` from a flat state.
pub open spec fn entry(rules: Rules, bar: usize, ts: i64, signal: i32) -> Option<Holding> {
    match signal_side(signal) {
        Some(Side::Long) => Some(Holding { side: Side::Long, entry_bar: bar, entry_ts: ts }),
        Some(Side::Short) => if rules.allow_short {
            Some(Holding { side: Side::Short, entry_bar: bar, entry_ts: ts })
        } else {
            None
        },
        None => None,
    }
}

/// The trade that closes `h` at `bar`.
pub open spec fn closing(h: Holding, bar: usize, ts: i64, reason: ExitReason, fill: Fill) -> Trade {
    Trade {
        side: h.side,
        entry_bar: h.entry_bar,
        entry_ts: h.entry_ts,
        exit_bar: bar,
        exit_ts: ts,
        reason,
        fill,
    }
}

/// One bar of the state machine: a level exit, else a flip on an opposing
/// signal (filled at the close); then, if flat, an entry on the signal.
pub open spec fn bar_outcome(
    rules: Rules,
    held: Option<Holding>,
    bar: usize,
    ts: i64,
    signal: i32,
    touch: Touch,
) -> BarOutcome {
    match held {
        None => BarOutcome { exit: None, holding: entry(rules, bar, ts, signal) },
        Some(h) => match level_exit(rules, touch) {
            Some((reason, fill)) => BarOutcome {
                exit: Some(closing(h, bar, ts, reason, fill)),
                holding: entry(rules, bar, ts, signal),
            },
            None => if opposes(h.side, signal) {
                BarOutcome {
                    exit: Some(closing(h, bar, ts, ExitReason::SignalFlip, Fill::Close)),
                    holding: entry(rules, bar, ts, signal),
                }
            } else {
                BarOutcome { exit: None, holding: Some(h) }
            },
        },
    }
}

/// The position held after the last of `marks`, flat before any bar.
pub open spec fn holding_after(marks: Seq<Mark>) -> Option<Holding> {
    if marks.len() == 0 {
        None
    } else {
        marks.last().holding
    }
}

/// The trades and marks of the bars `0 .. touches.len()`, where bar `k`
/// met the levels as `touches[k]` says.
pub open spec fn replay(rules: Rules, ts: Seq<i64>, signals: Seq<i32>, touches: Seq<Touch>) -> (
    Seq<Trade>,
    Seq<Mark>,
)
    decreases touches.len(),
{
    if touches.len() == 0 {
        (seq![], seq![])
    } else {
        let k = touches.len() - 1;
        let prev = replay(rules, ts, signals, touches.drop_last());
        let out = bar_outcome(rules, holding_after(prev.1), k as usize, ts[k], signals[k], touches[k]);
        let trades = match out.exit {
            Some(t) => prev.0.push(t),
            None => prev.0,
        };
        (trades, prev.1.push(Mark { ts: ts[k], closed: trades.len() as usize, holding: out.holding }))
    }
}

/// Each bar at which a position was open met its levels as `touches` says,
/// by an answer of `touch` for that bar and position.
pub open spec fn observed<F: Fn(usize, Holding) -> Touch>(
    touch: F,
    marks: Seq<Mark>,
    touches: Seq<Touch>,
) -> bool {
    forall|k: int|
        0 <= k < touches.len() ==> match #[trigger] holding_after(marks.take(k)) {
            Some(h) => call_ensures(touch, (k as usize, h), touches[k]),
            None => true,
        }
}

/// Runs one bar of the state machine.
pub fn step(rules: Rules, held: Option<Holding>, bar: usize, ts: i64, signal: i32, touch: Touch) -> (r:
    BarOutcome)
    ensures
        r == bar_outcome(rules, held, bar, ts, signal, touch),
{
    let mut exit: Option<Trade> = None;
    let mut holding = held;
    if let Some(h) = held {
        let mut level: Option<(ExitReason, Fill)> = None;
        if touch.stop_hit {
            let fill = if touch.open_past_stop { Fill::Open } else { Fill::Level };
            level = Some((ExitReason::StopLoss, fill));
        } else if rules.take_profit && touch.target_hit {
            let fill = if touch.open_past_target { Fill::Open } else { Fill::Level };
            level = Some((ExitReason::TakeProfit, fill));
        }
        let flip = match h.side {
            Side::Long => signal == -1,
            Side::Short => signal == 1,
        };
        if let Some((reason, fill)) = level {
            exit = Some(
                Trade {
                    side: h.side,
                    entry_bar: h.entry_bar,
                    entry_ts: h.entry_ts,
                    exit_bar: bar,
                    exit_ts: ts,
                    reason,
                    fill,
                },
            );
            holding = None;
        } else if flip {
            exit = Some(
                Trade {
                    side: h.side,
                    entry_bar: h.entry_bar,
                    entry_ts: h.entry_ts,
                    exit_bar: bar,
                    exit_ts: ts,
                    reason: ExitReason::SignalFlip,
                    fill: Fill::Close,
                },
            );
            holding = None;
        }
    }
    if holding.is_none() {
        if signal == 1 {
            holding = Some(Holding { side: Side::Long, entry_bar: bar, entry_ts: ts });
        } else if signal == -1 && rules.allow_short {
            holding = Some(Holding { side: Side::Short, entry_bar: bar, entry_ts: ts });
        }
    }
    BarOutcome { exit, holding }
}

/// Checks that the series of one simulation are aligned: every length in
/// `series` equals `bars`, and, where stops are priced from the average true
/// range, that series is given (its length `atr_len`) and has `bars` samples
/// too. A misaligned series is reported before a missing one.
pub fn check_alignment(bars: usize, series: &Vec<usize>, use_atr: bool, atr_len: Option<usize>) -> (r:
    Result<(), InvalidArgument>)
    ensures
        r is Ok <==> (forall|k: int| 0 <= k < series@.len() ==> series@[k] == bars) && (use_atr
            ==> atr_len == Some(bars)),
        r == Err::<(), _>(InvalidArgument::LengthMismatch) <==> (exists|k: int|
            0 <= k < series@.len() && series@[k] != bars) || (use_atr && atr_len is Some && atr_len
            != Some(bars)),
        r == Err::<(), _>(InvalidArgument::MissingAtr) <==> (forall|k: int|
            0 <= k < series@.len() ==> series@[k] == bars) && use_atr && atr_len is None,
{
    let mut k: usize = 0;
    while k < series.len()
        invariant
            k <= series@.len(),
            forall|j: int| 0 <= j < k ==> series@[j] == bars,
        decreases series@.len() - k,
    {
        if series[k] != bars {
            return Err(InvalidArgument::LengthMismatch);
        }
        k = k + 1;
    }
    if use_atr {
        match atr_len {
            None => {
                return Err(InvalidArgument::MissingAtr);
            },
            Some(m) => {
                if m != bars {
                    return Err(InvalidArgument::LengthMismatch);
                }
            },
        }
    }
    Ok(())
}

/// Timestamps never decrease from one bar to the next.
pub open spec fn non_decreasing(ts: Seq<i64>) -> bool {
    forall|a: int, b: int| 0 <= a <= b < ts.len() ==> ts[a] <= ts[b]
}

/// Runs the state machine over every bar, starting flat.
///
/// `touch(bar, position)` reports which levels of the open `position` the
/// bar reached; it is asked only while a position is open. A position still
/// open after the last bar is left open.
pub fn simulate<F: Fn(usize, Holding) -> Touch>(
    timestamps: &Vec<i64>,
    signals: &Vec<i32>,
    rules: Rules,
    touch: F,
) -> (r: Result<Simulation, InvalidArgument>)
    requires
        forall|bar: usize, h: Holding| call_requires(touch, (bar, h)),
    ensures
        r is Err <==> signals@.len() != timestamps@.len(),
        r is Err ==> r == Err::<Simulation, _>(InvalidArgument::LengthMismatch),
        r matches Ok(sim) ==> {
            &&& sim.marks@.len() == timestamps@.len()
            &&& exists|touches: Seq<Touch>|
                {
                    &&& touches.len() == timestamps@.len()
                    &&& observed(touch, sim.marks@, touches)
                    &&& (sim.trades@, sim.marks@) == replay(rules, timestamps@, signals@, touches)
                }
            &&& forall|k: int|
                0 <= k < sim.trades@.len() ==> {
                    let t = #[trigger] sim.trades@[k];
                    &&& t.entry_bar < t.exit_bar < timestamps@.len()
                    &&& t.entry_ts == timestamps@[t.entry_bar as int]
                    &&& t.exit_ts == timestamps@[t.exit_bar as int]
                }
            &&& forall|k: int, l: int|
                0 <= k < l < sim.trades@.len() ==> (#[trigger] sim.trades@[k]).exit_bar
                    <= (#[trigger] sim.trades@[l]).entry_bar
            &&& forall|i: int|
                0 <= i < sim.marks@.len() ==> {
                    let m = #[trigger] sim.marks@[i];
                    &&& m.ts == timestamps@[i]
                    &&& m.closed <= sim.trades@.len()
                    &&& m.holding matches Some(h) ==> h.entry_bar <= i && h.entry_ts
                        == timestamps@[h.entry_bar as int]
                }
            &&& forall|i: int, j: int|
                0 <= i <= j < sim.marks@.len() ==> (#[trigger] sim.marks@[i]).closed
                    <= (#[trigger] sim.marks@[j]).closed
            &&& sim.marks@.len() > 0 ==> sim.marks@.last().closed == sim.trades@.len()
            &&& non_decreasing(timestamps@) ==> forall|k: int|
                0 <= k < sim.trades@.len() ==> (#[trigger] sim.trades@[k]).entry_ts
                    <= sim.trades@[k].exit_ts
            &&& !rules.allow_short ==> forall|i: int|
                0 <= i < sim.marks@.len() ==> match (#[trigger] sim.marks@[i]).holding {
                    Some(h) => h.side == Side::Long,
                    None => true,
                }
        },
{
    if signals.len() != timestamps.len() {
        return Err(InvalidArgument::LengthMismatch);
    }
    let n = timestamps.len();
    let mut trades: Vec<Trade> = Vec::new();
    let mut marks: Vec<Mark> = Vec::new();
    let mut held: Option<Holding> = None;
    let ghost mut touches: Seq<Touch> = seq![];
    let untouched = Touch {
        stop_hit: false,
        target_hit: false,
        open_past_stop: false,
        open_past_target: false,
    };
    let mut i: usize = 0;
    while i < n
        invariant
            n == timestamps@.len(),
            n == signals@.len(),
            forall|bar: usize, h: Holding| call_requires(touch, (bar, h)),
            i <= n,
            marks@.len() == i,
            touches.len() == i,
            trades@.len() <= i,
            held == holding_after(marks@),
            (trades@, marks@) == replay(rules, timestamps@, signals@, touches),
            observed(touch, marks@, touches),
            forall|k: int|
                0 <= k < trades@.len() ==> {
                    let t = #[trigger] trades@[k];
                    &&& t.entry_bar < t.exit_bar < i
                    &&& t.entry_ts == timestamps@[t.entry_bar as int]
                    &&& t.exit_ts == timestamps@[t.exit_bar as int]
                },
            held matches Some(h) ==> h.entry_bar < i && h.entry_ts == timestamps@[h.entry_bar as int]
                && forall|k: int| 0 <= k < trades@.len() ==> (#[trigger] trades@[k]).exit_bar
                <= h.entry_bar,
            forall|k: int, l: int|
                0 <= k < l < trades@.len() ==> (#[trigger] trades@[k]).exit_bar
                    <= (#[trigger] trades@[l]).entry_bar,
            forall|k: int|
                0 <= k < marks@.len() ==> {
                    let m = #[trigger] marks@[k];
                    &&& m.ts == timestamps@[k]
                    &&& m.closed <= trades@.len()
                    &&& m.holding matches Some(h) ==> h.entry_bar <= k && h.entry_ts
                        == timestamps@[h.entry_bar as int]
                },
            forall|a: int, b: int|
                0 <= a <= b < marks@.len() ==> (#[trigger] marks@[a]).closed
                    <= (#[trigger] marks@[b]).closed,
            marks@.len() > 0 ==> marks@.last().closed == trades@.len(),
            !rules.allow_short ==> forall|k: int|
                0 <= k < marks@.len() ==> match (#[trigger] marks@[k]).holding {
                    Some(h) => h.side == Side::Long,
                    None => true,
                },
        decreases n - i,
    {
        let seen = match held {
            Some(h) => touch(i, h),
            None => untouched,
        };
        let ts = timestamps[i];
        let out = step(rules, held, i, ts, signals[i], seen);
        if let Some(t) = out.exit {
            trades.push(t);
        }
        let mark = Mark { ts, closed: trades.len(), holding: out.holding };
        proof {
            let next = touches.push(seen);
            assert(next.drop_last() =~= touches);
            assert forall|k: int| 0 <= k < next.len() implies match #[trigger] holding_after(
                marks@.push(mark).take(k),
            ) {
                Some(h) => call_ensures(touch, (k as usize, h), next[k]),
                None => true,
            } by {
                assert(marks@.push(mark).take(k) =~= marks@.take(k));
                if k < i {
                    assert(holding_after(marks@.take(k)) == holding_after(marks@.push(mark).take(k)));
                } else {
                    assert(marks@.take(k) =~= marks@);
                }
            }
            touches = next;
        }
        marks.push(mark);
        held = out.holding;
        i = i + 1;
    }
    Ok(Simulation { trades, marks })
}

} // verus!
