//! Properties of a trace, the sequence of operations issued in a run, and
//! checks that decide them for a recorded trace.
//!
//! Time is read off the trace itself: a `Delay` blocks for its duration and
//! every other operation for no known time.

use crate::ops::{Op, SETTLE_MS};
use crate::plan::{bring_up, bring_up_ops};
use vstd::prelude::*;

verus! {

/// The time, in milliseconds, that the operations strictly between positions
/// `from` and `to` block for.
pub open spec fn held_ms(trace: Seq<Op>, from: int, to: int) -> nat
    decreases to - from,
{
    if to <= from + 1 {
        0
    } else {
        held_ms(trace, from, to - 1) + trace[to - 1].blocks_for()
    }
}

/// Positions `first`, `fall` and `rise` hold a complete reset pulse as seen
/// from position `at`: the reset line was driven high, low and high again,
/// nothing else drove it since, it stayed low for the settle time and has
/// been high for the settle time.
pub open spec fn reset_pulse(trace: Seq<Op>, first: int, fall: int, rise: int, at: int) -> bool {
    &&& 0 <= first < fall < rise < at <= trace.len()
    &&& trace[first] == (Op::SetReset { high: true })
    &&& trace[fall] == (Op::SetReset { high: false })
    &&& trace[rise] == (Op::SetReset { high: true })
    &&& forall|k: int| first < k < at && k != fall && k != rise ==> !(#[trigger] trace[k] is SetReset)
    &&& held_ms(trace, fall, rise) >= SETTLE_MS
    &&& held_ms(trace, rise, at) >= SETTLE_MS
}

/// The expander has been reset and has settled by position `at`.
pub open spec fn reset_settled(trace: Seq<Op>, at: int) -> bool {
    exists|first: int, fall: int, rise: int| reset_pulse(trace, first, fall, rise, at)
}

/// No bus transaction is issued before the expander has been reset and has
/// settled.
pub open spec fn respects_reset_timing(trace: Seq<Op>) -> bool {
    forall|at: int|
        0 <= at < trace.len() && (#[trigger] trace[at]).is_bus_transaction() ==> reset_settled(
            trace,
            at,
        )
}

/// What a single pass over a trace knows of the reset line: the positions of
/// the last three operations that drove it, latest last.
struct LineHistory {
    drives: nat,
    third: int,
    second: int,
    last: int,
}

/// `history` is what the first `upto` operations of `trace` did to the reset
/// line.
spec fn tracks(history: LineHistory, trace: Seq<Op>, upto: int) -> bool {
    let LineHistory { drives, third, second, last } = history;
    &&& drives <= 3
    &&& drives == 0 ==> forall|k: int| 0 <= k < upto ==> !(#[trigger] trace[k] is SetReset)
    &&& drives >= 1 ==> {
        &&& 0 <= last < upto
        &&& trace[last] is SetReset
        &&& forall|k: int| last < k < upto ==> !(#[trigger] trace[k] is SetReset)
    }
    &&& drives == 1 ==> forall|k: int| 0 <= k < last ==> !(#[trigger] trace[k] is SetReset)
    &&& drives >= 2 ==> {
        &&& 0 <= second < last
        &&& trace[second] is SetReset
        &&& forall|k: int| second < k < last ==> !(#[trigger] trace[k] is SetReset)
    }
    &&& drives == 2 ==> forall|k: int| 0 <= k < second ==> !(#[trigger] trace[k] is SetReset)
    &&& drives >= 3 ==> {
        &&& 0 <= third < second
        &&& trace[third] is SetReset
        &&& forall|k: int| third < k < second ==> !(#[trigger] trace[k] is SetReset)
    }
}

/// The level that position `at` drove the reset line to, if it drove it.
spec fn level_at(trace: Seq<Op>, at: int) -> Option<bool> {
    match trace[at] {
        Op::SetReset { high } => Some(high),
        _ => None,
    }
}

spec fn capped(ms: nat) -> nat {
    if ms < SETTLE_MS {
        ms
    } else {
        SETTLE_MS as nat
    }
}

proof fn lemma_settled_iff(
    trace: Seq<Op>,
    at: int,
    history: LineHistory,
)
    requires
        0 <= at < trace.len(),
        tracks(history, trace, at),
    ensures
        reset_settled(trace, at) <==> {
            &&& history.drives == 3
            &&& level_at(trace, history.third) == Some(true)
            &&& level_at(trace, history.second) == Some(false)
            &&& level_at(trace, history.last) == Some(true)
            &&& held_ms(trace, history.second, history.last) >= SETTLE_MS
            &&& held_ms(trace, history.last, at) >= SETTLE_MS
        },
{
    let LineHistory { drives, third, second, last } = history;
    if reset_settled(trace, at) {
        let (first, fall, rise) = choose|first: int, fall: int, rise: int|
            reset_pulse(trace, first, fall, rise, at);
        assert(reset_pulse(trace, first, fall, rise, at));
        assert(trace[rise] is SetReset);
        assert(trace[fall] is SetReset);
        assert(trace[first] is SetReset);
        assert(drives >= 1);
        assert(last == rise) by {
            assert(trace[last] is SetReset);
        }
        assert(drives >= 2);
        assert(second == fall) by {
            assert(trace[second] is SetReset);
        }
        assert(drives >= 3);
        assert(third == first) by {
            assert(trace[third] is SetReset);
        }
    }
    if drives == 3 && level_at(trace, third) == Some(true) && level_at(trace, second) == Some(false)
        && level_at(trace, last) == Some(true) && held_ms(trace, second, last) >= SETTLE_MS
        && held_ms(trace, last, at) >= SETTLE_MS {
        assert(reset_pulse(trace, third, second, last, at));
    }
}

/// Decides whether a recorded trace keeps the reset timing: every bus
/// transaction in it comes after a complete, settled reset pulse.
pub fn check_reset_timing(trace: &Vec<Op>) -> (ok: bool)
    ensures
        ok == respects_reset_timing(trace@),
{
    let mut ok = true;
    let mut third: Option<bool> = None;
    let mut second: Option<bool> = None;
    let mut last: Option<bool> = None;
    let mut low_for: u16 = 0;
    let mut high_for: u16 = 0;
    let ghost mut history = LineHistory { drives: 0, third: 0, second: 0, last: 0 };
    let mut at: usize = 0;
    while at < trace.len()
        invariant
            at <= trace.len(),
            tracks(history, trace@, at as int),
            history.drives >= 1 ==> last == level_at(trace@, history.last) && high_for == capped(
                held_ms(trace@, history.last, at as int),
            ),
            history.drives >= 2 ==> second == level_at(trace@, history.second) && low_for
                == capped(held_ms(trace@, history.second, history.last)),
            history.drives >= 3 ==> third == level_at(trace@, history.third),
            history.drives < 1 ==> last is None,
            history.drives < 2 ==> second is None,
            history.drives < 3 ==> third is None,
            high_for <= SETTLE_MS,
            low_for <= SETTLE_MS,
            ok <==> forall|k: int|
                0 <= k < at && (#[trigger] trace@[k]).is_bus_transaction() ==> reset_settled(
                    trace@,
                    k,
                ),
        decreases trace.len() - at,
    {
        let op = trace[at];
        match op {
            Op::SetReset { high } => {
                third = second;
                second = last;
                last = Some(high);
                low_for = high_for;
                high_for = 0;
                proof {
                    history = LineHistory {
                        drives: if history.drives < 3 {
                            history.drives + 1
                        } else {
                            3
                        },
                        third: history.second,
                        second: history.last,
                        last: at as int,
                    };
                }
            },
            Op::Delay { ms } => {
                high_for = if ms >= SETTLE_MS - high_for {
                    SETTLE_MS
                } else {
                    high_for + ms
                };
            },
            Op::Attach | Op::InitExpander | Op::SetPinMode { .. } | Op::SetPullUp { .. } | Op::WritePin { .. } => {
                let settled = is_level(third, true) && is_level(second, false) && is_level(
                    last,
                    true,
                ) && low_for >= SETTLE_MS && high_for >= SETTLE_MS;
                proof {
                    lemma_settled_iff(trace@, at as int, history);
                }
                if !settled {
                    ok = false;
                }
            },
            _ => {},
        }
        at += 1;
    }
    ok
}

fn is_level(seen: Option<bool>, level: bool) -> (same: bool)
    ensures
        same == (seen == Some(level)),
{
    match seen {
        Some(l) => l == level,
        None => false,
    }
}

/// The whole bring-up plan was issued before position `at`, at the start of
/// the trace, and nothing that belongs to bring-up was issued again.
pub open spec fn bring_up_complete(trace: Seq<Op>, at: int) -> bool {
    let plan = bring_up_ops();
    &&& plan.len() <= at
    &&& trace.take(plan.len() as int) == plan
    &&& forall|k: int| plan.len() <= k < trace.len() ==> !(#[trigger] trace[k]).is_setup()
}

/// Every sample is taken after the bring-up has been issued completely and
/// exactly once.
pub open spec fn bring_up_precedes_sampling(trace: Seq<Op>) -> bool {
    forall|at: int|
        0 <= at < trace.len() && (#[trigger] trace[at]).is_sample() ==> bring_up_complete(
            trace,
            at,
        )
}

/// Decides whether a recorded trace takes its samples only after one complete
/// bring-up.
pub fn check_bring_up_order(trace: &Vec<Op>) -> (ok: bool)
    ensures
        ok == bring_up_precedes_sampling(trace@),
{
    let n = trace.len();
    let mut first: usize = 0;
    while first < n && !trace[first].is_sample()
        invariant
            first <= n,
            n == trace.len(),
            forall|k: int| 0 <= k < first ==> !(#[trigger] trace@[k]).is_sample(),
        decreases n - first,
    {
        first += 1;
    }
    if first == n {
        return true;
    }
    let plan = bring_up();
    let len = plan.len();
    if first < len {
        assert(!bring_up_complete(trace@, first as int));
        return false;
    }
    let mut same = true;
    let mut k: usize = 0;
    while k < len
        invariant
            k <= len,
            len == plan.len(),
            len <= first < n,
            n == trace.len(),
            same <==> forall|j: int| 0 <= j < k ==> #[trigger] trace@[j] == plan@[j],
        decreases len - k,
    {
        if !(trace[k] == plan[k]) {
            same = false;
        }
        k += 1;
    }
    if !same {
        proof {
            let j = choose|j: int| 0 <= j < len && trace@[j] != plan@[j];
            assert(trace@.take(len as int)[j] == trace@[j]);
            assert(!bring_up_complete(trace@, first as int));
        }
        return false;
    }
    assert(trace@.take(len as int) =~= plan@);
    let mut clean = true;
    let mut k: usize = len;
    while k < n
        invariant
            len <= k <= n,
            n == trace.len(),
            clean <==> forall|j: int| len <= j < k ==> !(#[trigger] trace@[j]).is_setup(),
        decreases n - k,
    {
        if trace[k].is_setup() {
            clean = false;
        }
        k += 1;
    }
    proof {
        if clean {
            assert forall|at: int|
                0 <= at < trace@.len() && (#[trigger] trace@[at]).is_sample() implies bring_up_complete(
                trace@,
                at,
            ) by {
                assert(at >= first);
            }
        } else {
            assert(!bring_up_complete(trace@, first as int));
        }
    }
    clean
}

/// Positions `earlier` and `later` hold two reports of the poll loop with no
/// report between them.
pub open spec fn consecutive_reports(trace: Seq<Op>, earlier: int, later: int) -> bool {
    &&& 0 <= earlier < later < trace.len()
    &&& trace[earlier].is_poll_report()
    &&& trace[later].is_poll_report()
    &&& forall|k: int| earlier < k < later ==> !(#[trigger] trace[k]).is_poll_report()
}

/// Between any two consecutive reports of the poll loop the trace blocks for
/// exactly `ms` milliseconds.
pub open spec fn reports_paced(trace: Seq<Op>, ms: nat) -> bool {
    forall|earlier: int, later: int| #[trigger]
        consecutive_reports(trace, earlier, later) ==> held_ms(trace, earlier, later) == ms
}

/// `ms` cut off just above `limit`.
spec fn up_to(ms: nat, limit: nat) -> nat {
    if ms <= limit {
        ms
    } else {
        limit + 1
    }
}

/// Decides whether the reports of a recorded trace are exactly `ms`
/// milliseconds apart.
pub fn check_report_interval(trace: &Vec<Op>, ms: u16) -> (ok: bool)
    ensures
        ok == reports_paced(trace@, ms as nat),
{
    let mut ok = true;
    let mut seen = false;
    let mut since: u32 = 0;
    let ghost mut prev: int = 0;
    let mut at: usize = 0;
    while at < trace.len()
        invariant
            at <= trace.len(),
            seen ==> {
                &&& 0 <= prev < at
                &&& trace@[prev].is_poll_report()
                &&& forall|k: int| prev < k < at ==> !(#[trigger] trace@[k]).is_poll_report()
                &&& since == up_to(held_ms(trace@, prev, at as int), ms as nat)
            },
            !seen ==> forall|k: int| 0 <= k < at ==> !(#[trigger] trace@[k]).is_poll_report(),
            since <= ms + 1,
            ok <==> forall|earlier: int, later: int| #[trigger]
                consecutive_reports(trace@, earlier, later) && later < at ==> held_ms(
                    trace@,
                    earlier,
                    later,
                ) == ms,
        decreases trace.len() - at,
    {
        let op = trace[at];
        if op.is_poll_report() {
            let fine = !seen || since == ms as u32;
            proof {
                if seen {
                    assert(consecutive_reports(trace@, prev, at as int));
                }
                assert forall|earlier: int|
                    consecutive_reports(trace@, earlier, at as int) implies seen && earlier
                    == prev by {
                    assert(trace@[earlier].is_poll_report());
                    if seen {
                        assert(trace@[prev].is_poll_report());
                    }
                }
            }
            if !fine {
                ok = false;
            }
            seen = true;
            since = 0;
            proof {
                prev = at as int;
            }
        } else {
            match op {
                Op::Delay { ms: wait } => {
                    since = if since + wait as u32 > ms as u32 {
                        ms as u32 + 1
                    } else {
                        since + wait as u32
                    };
                },
                _ => {},
            }
        }
        at += 1;
    }
    ok
}

} // verus!
