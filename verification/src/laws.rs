//! What holds of every run of the sequencer, whatever the hardware answers.

use crate::ops::{Event, Op, Report, Variant, SETTLE_MS};
use crate::report::{decimal, is_framed_line, line_text};
use crate::plan::{bring_up_ops, lemma_bring_up_ops};
use crate::sequencer::{issued, lemma_issued_at, lemma_run_extends, Model, Stage};
use crate::trace::{
    bring_up_complete, bring_up_precedes_sampling, consecutive_reports, held_ms, reports_paced,
    reset_pulse, reset_settled, respects_reset_timing,
};
use vstd::prelude::*;

verus! {

/// The state of a run from power-on after its first `k` outcomes.
pub open spec fn state_at(variant: Variant, events: Seq<Event>, k: int) -> Model {
    Model::start(variant).run(events.take(k))
}

/// The stage belongs to the poll loop.
pub open spec fn polling(stage: Stage) -> bool {
    stage is Sample || stage is Send || stage is Pause
}

/// After `k` outcomes the run has left bring-up for the poll loop: the first
/// operations were the whole plan, and the poll loop has gone on since.
spec fn in_poll_loop(variant: Variant, events: Seq<Event>, k: int) -> bool {
    &&& bring_up_ops().len() <= k
    &&& forall|j: int|
        0 <= j < bring_up_ops().len() ==> (#[trigger] state_at(variant, events, j)).stage
            == Stage::BringUp(j as usize)
    &&& forall|j: int|
        bring_up_ops().len() <= j <= k ==> polling((#[trigger] state_at(variant, events, j)).stage)
}

/// The shape of every run: it walks the plan position by position, halts
/// from there or enters the poll loop after the last position, and then
/// stays where it went.
proof fn lemma_shape(variant: Variant, events: Seq<Event>, k: int)
    requires
        0 <= k <= events.len(),
    ensures
        state_at(variant, events, k).variant == variant,
        match state_at(variant, events, k).stage {
            Stage::BringUp(at) => {
                &&& at == k
                &&& k < bring_up_ops().len()
                &&& forall|j: int|
                    0 <= j <= k ==> (#[trigger] state_at(variant, events, j)).stage
                        == Stage::BringUp(j as usize)
            },
            Stage::Halted => true,
            Stage::Send(report) => report != Report::Starting && in_poll_loop(variant, events, k),
            _ => in_poll_loop(variant, events, k),
        },
    decreases k,
{
    lemma_bring_up_ops();
    if k == 0 {
        assert(events.take(0).len() == 0);
    } else {
        lemma_shape(variant, events, k - 1);
        lemma_run_extends(Model::start(variant), events, k - 1);
        assert(state_at(variant, events, k) == state_at(variant, events, k - 1).next(
            events[k - 1],
        ));
    }
}

/// Whatever the outcomes, a run only reaches states that name an operation.
pub proof fn law_runs_stay_valid(variant: Variant, events: Seq<Event>)
    ensures
        Model::start(variant).run(events).valid(),
        Model::start(variant).run(events).variant == variant,
{
    lemma_shape(variant, events, events.len() as int);
    assert(events.take(events.len() as int) =~= events);
}

/// The poll loop has no way out: once a run is in it, it stays in it.
pub proof fn law_polling_goes_on(model: Model, event: Event)
    requires
        polling(model.stage),
    ensures
        polling(model.next(event).stage),
{
}

/// A halted run stays halted and asks for nothing more.
pub proof fn law_halt_is_final(model: Model, event: Event)
    requires
        model.stage is Halted,
    ensures
        model.next(event).stage is Halted,
        model.next(event).pending() == Op::Halt,
{
}

proof fn lemma_polling_stays(variant: Variant, events: Seq<Event>, from: int, to: int)
    requires
        0 <= from <= to <= events.len(),
        polling(state_at(variant, events, from).stage),
    ensures
        polling(state_at(variant, events, to).stage),
    decreases to - from,
{
    if from < to {
        lemma_polling_stays(variant, events, from, to - 1);
        lemma_run_extends(Model::start(variant), events, to - 1);
    }
}

proof fn lemma_halted_stays(variant: Variant, events: Seq<Event>, from: int, to: int)
    requires
        0 <= from <= to <= events.len(),
        state_at(variant, events, from).stage is Halted,
    ensures
        state_at(variant, events, to).stage is Halted,
    decreases to - from,
{
    if from < to {
        lemma_halted_stays(variant, events, from, to - 1);
        lemma_run_extends(Model::start(variant), events, to - 1);
    }
}

/// The operations between two positions that block for no time add up to no
/// time.
proof fn lemma_held_nothing(trace: Seq<Op>, from: int, to: int)
    requires
        forall|k: int| from < k < to ==> (#[trigger] trace[k]).blocks_for() == 0,
    ensures
        held_ms(trace, from, to) == 0,
    decreases to - from,
{
    if to > from + 1 {
        lemma_held_nothing(trace, from, to - 1);
    }
}

/// Blocking time adds up over adjoining stretches.
proof fn lemma_held_split(trace: Seq<Op>, from: int, mid: int, to: int)
    requires
        from <= mid < to,
    ensures
        held_ms(trace, from, to) == held_ms(trace, from, mid + 1) + held_ms(trace, mid, to),
    decreases to - mid,
{
    if to > mid + 1 {
        lemma_held_split(trace, from, mid, to - 1);
    }
}

/// Reset timing: in every run, whatever the outcomes, each bus transaction
/// comes after the reset line went high, low and high again, was held low for
/// the settle time and has been high for the settle time.
pub proof fn law_reset_before_bus(variant: Variant, events: Seq<Event>)
    ensures
        respects_reset_timing(issued(variant, events)),
{
    let trace = issued(variant, events);
    lemma_bring_up_ops();
    assert forall|at: int|
        0 <= at < trace.len() && (#[trigger] trace[at]).is_bus_transaction() implies reset_settled(
        trace,
        at,
    ) by {
        lemma_issued_at(variant, events, at);
        lemma_shape(variant, events, at);
        assert(state_at(variant, events, at).stage == Stage::BringUp(at as usize));
        assert forall|j: int| 0 <= j <= at implies #[trigger] trace[j] == bring_up_ops()[j] by {
            lemma_issued_at(variant, events, j);
            assert(state_at(variant, events, j).stage == Stage::BringUp(j as usize));
        }
        assert(at >= 9);
        assert(held_ms(trace, 5, 7) == SETTLE_MS) by {
            reveal_with_fuel(held_ms, 3);
            assert(trace[6] == bring_up_ops()[6]);
        }
        assert(held_ms(trace, 7, at) >= SETTLE_MS) by {
            lemma_held_split(trace, 7, 8, at);
            reveal_with_fuel(held_ms, 3);
            assert(trace[8] == bring_up_ops()[8]);
        }
        assert(trace[4] == bring_up_ops()[4]);
        assert(trace[5] == bring_up_ops()[5]);
        assert(trace[7] == bring_up_ops()[7]);
        assert(reset_pulse(trace, 4, 5, 7, at));
    }
}

/// Bring-up ordering: in every run, whatever the outcomes, a sample is taken
/// only after the whole bring-up plan has been issued, and nothing of the
/// bring-up is ever issued a second time.
pub proof fn law_bring_up_before_sampling(variant: Variant, events: Seq<Event>)
    ensures
        bring_up_precedes_sampling(issued(variant, events)),
{
    let trace = issued(variant, events);
    let plan = bring_up_ops();
    lemma_bring_up_ops();
    assert forall|at: int|
        0 <= at < trace.len() && (#[trigger] trace[at]).is_sample() implies bring_up_complete(
        trace,
        at,
    ) by {
        lemma_issued_at(variant, events, at);
        lemma_shape(variant, events, at);
        assert(polling(state_at(variant, events, at).stage));
        assert forall|j: int| 0 <= j < plan.len() implies trace.take(plan.len() as int)[j]
            == plan[j] by {
            lemma_issued_at(variant, events, j);
            assert(state_at(variant, events, j).stage == Stage::BringUp(j as usize));
        }
        assert(trace.take(plan.len() as int) =~= plan);
        assert forall|k: int| plan.len() <= k < trace.len() implies !(#[trigger] trace[k]).is_setup() by {
            lemma_issued_at(variant, events, k);
            lemma_shape(variant, events, k);
            if k <= at {
                assert(polling(state_at(variant, events, k).stage));
            } else {
                lemma_polling_stays(variant, events, at, k);
            }
        }
    }
}

proof fn lemma_sampling_until(
    variant: Variant,
    events: Seq<Event>,
    from: int,
    at: int,
    later: int,
)
    requires
        0 <= from <= at < later <= events.len(),
        state_at(variant, events, from).stage is Sample,
        forall|k: int|
            from <= k < later ==> !(#[trigger] issued(variant, events)[k]).is_poll_report(),
    ensures
        state_at(variant, events, at).stage is Sample,
    decreases at - from,
{
    if from < at {
        lemma_sampling_until(variant, events, from, at - 1, later);
        lemma_run_extends(Model::start(variant), events, at - 1);
        lemma_shape(variant, events, at - 1);
        lemma_issued_at(variant, events, at);
        assert(!issued(variant, events)[at].is_poll_report());
    }
}

/// Interval: in every run, whatever the inputs read, two consecutive reports
/// of the poll loop are separated by exactly the interval of the variant.
pub proof fn law_fixed_interval(variant: Variant, events: Seq<Event>)
    ensures
        reports_paced(issued(variant, events), variant.interval_ms() as nat),
{
    let trace = issued(variant, events);
    lemma_bring_up_ops();
    assert forall|earlier: int, later: int| #[trigger]
        consecutive_reports(trace, earlier, later) implies held_ms(trace, earlier, later)
        == variant.interval_ms() by {
        lemma_issued_at(variant, events, earlier);
        lemma_shape(variant, events, earlier);
        assert(state_at(variant, events, earlier).stage is Send);
        lemma_run_extends(Model::start(variant), events, earlier);
        lemma_issued_at(variant, events, earlier + 1);
        assert(state_at(variant, events, earlier + 1).stage is Pause);
        assert(trace[earlier + 1] == Op::Delay { ms: variant.interval_ms() });
        assert(later > earlier + 1);
        lemma_run_extends(Model::start(variant), events, earlier + 1);
        assert(state_at(variant, events, earlier + 2).stage is Sample);
        assert forall|k: int| earlier + 1 < k < later implies (#[trigger] trace[k]).blocks_for()
            == 0 by {
            lemma_sampling_until(variant, events, earlier + 2, k, later);
            lemma_issued_at(variant, events, k);
            lemma_shape(variant, events, k);
        }
        lemma_held_nothing(trace, earlier + 1, later);
        lemma_held_split(trace, earlier, earlier + 1, later);
        reveal_with_fuel(held_ms, 3);
    }
}

/// Formatting has no memory: whatever state two sequencers of the digital
/// variant are in while they wait for a sample, the same level makes both
/// send the same line, `OK` for high and `BUG` for low.
pub proof fn law_same_level_same_line(one: Model, other: Model, high: bool)
    requires
        one.variant == Variant::Digital,
        other.variant == Variant::Digital,
        one.stage is Sample,
        other.stage is Sample,
    ensures
        one.next(Event::Level(high)).pending() == other.next(Event::Level(high)).pending(),
        one.next(Event::Level(high)).pending() == (Op::Emit {
            report: if high {
                Report::Pass
            } else {
                Report::Fail
            },
        }),
        line_text(Report::Pass) == "OK\r\n"@,
        line_text(Report::Fail) == "BUG\r\n"@,
{
}

proof fn lemma_decimal_digits(n: nat)
    ensures
        decimal(n).len() >= 1,
        forall|i: int| 0 <= i < decimal(n).len() ==> '0' <= (#[trigger] decimal(n)[i]) <= '9',
    decreases n,
{
    if n >= 10 {
        lemma_decimal_digits(n / 10);
    }
}

/// Framing: every line that can be sent is plain ASCII and ends with a
/// carriage return and a line feed, which occur nowhere else in it.
pub proof fn law_lines_are_framed(report: Report)
    ensures
        is_framed_line(line_text(report)),
{
    reveal_strlit("starting\r\n");
    reveal_strlit("OK\r\n");
    reveal_strlit("BUG\r\n");
    reveal_strlit("value: ");
    reveal_strlit("\r\n");
    if let Report::Reading(n) = report {
        lemma_decimal_digits(n as nat);
    }
}

/// The start line is sent at most once: only the third operation of a run
/// ever sends it, before the bus is opened.
pub proof fn law_start_line_once(variant: Variant, events: Seq<Event>)
    ensures
        forall|k: int|
            0 <= k <= events.len() && #[trigger] issued(variant, events)[k] == (Op::Emit {
                report: Report::Starting,
            }) ==> k == 2,
{
    lemma_bring_up_ops();
    assert forall|k: int|
        0 <= k <= events.len() && #[trigger] issued(variant, events)[k] == (Op::Emit {
            report: Report::Starting,
        }) implies k == 2 by {
        lemma_issued_at(variant, events, k);
        lemma_shape(variant, events, k);
    }
}

/// The run is still in bring-up after `k` outcomes, at the operation in
/// position `k` of the plan, when no critical operation has failed so far.
proof fn lemma_bring_up_proceeds(variant: Variant, events: Seq<Event>, k: int)
    requires
        0 <= k <= events.len(),
        k < bring_up_ops().len(),
        forall|j: int|
            0 <= j < k ==> !((#[trigger] events[j]) is Failed && bring_up_ops()[j].is_critical()),
    ensures
        state_at(variant, events, k) == (Model { variant, stage: Stage::BringUp(k as usize) }),
    decreases k,
{
    lemma_bring_up_ops();
    if k == 0 {
        assert(events.take(0).len() == 0);
    } else {
        lemma_bring_up_proceeds(variant, events, k - 1);
        lemma_run_extends(Model::start(variant), events, k - 1);
        assert(!(events[k - 1] is Failed && bring_up_ops()[k - 1].is_critical()));
    }
}

/// Bring-up succeeds whenever it can: as long as no critical operation fails,
/// the run issues the whole plan in order and then takes its first sample.
/// Failures of other operations, the start line among them, change nothing.
pub proof fn law_bring_up_completes(variant: Variant, events: Seq<Event>)
    requires
        events.len() >= bring_up_ops().len(),
        forall|j: int|
            0 <= j < bring_up_ops().len() ==> !((#[trigger] events[j]) is Failed
                && bring_up_ops()[j].is_critical()),
    ensures
        issued(variant, events).take(bring_up_ops().len() as int) == bring_up_ops(),
        issued(variant, events)[bring_up_ops().len() as int] == variant.sample_op(),
{
    let plan = bring_up_ops();
    let trace = issued(variant, events);
    let last = plan.len() - 1;
    lemma_bring_up_ops();
    assert forall|j: int| 0 <= j < plan.len() implies trace.take(plan.len() as int)[j]
        == plan[j] by {
        lemma_bring_up_proceeds(variant, events, j);
        lemma_issued_at(variant, events, j);
    }
    assert(trace.take(plan.len() as int) =~= plan);
    lemma_bring_up_proceeds(variant, events, last);
    lemma_run_extends(Model::start(variant), events, last);
    lemma_issued_at(variant, events, plan.len() as int);
}

/// A fault is final: when a critical operation of the bring-up fails, the run
/// halts at once, and no sample is taken and no line is sent from then on.
pub proof fn law_failure_halts(variant: Variant, events: Seq<Event>, k: int)
    requires
        0 <= k < events.len(),
        k < bring_up_ops().len(),
        bring_up_ops()[k].is_critical(),
        events[k] is Failed,
        forall|j: int|
            0 <= j < k ==> !((#[trigger] events[j]) is Failed && bring_up_ops()[j].is_critical()),
    ensures
        forall|m: int|
            k < m <= events.len() ==> #[trigger] issued(variant, events)[m] == Op::Halt,
{
    lemma_bring_up_proceeds(variant, events, k);
    lemma_run_extends(Model::start(variant), events, k);
    assert forall|m: int| k < m <= events.len() implies #[trigger] issued(variant, events)[m]
        == Op::Halt by {
        lemma_halted_stays(variant, events, k + 1, m);
        lemma_issued_at(variant, events, m);
    }
}

} // verus!
