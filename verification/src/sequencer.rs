//! The sequencer: a state machine that issues one hardware operation at a
//! time and decides, from the outcome, which operation comes next.
//!
//! [`Model`] is the mathematical machine; [`Sequencer`] is its executable
//! form. A driver asks for the pending operation, performs it, and reports the
//! outcome with [`Sequencer::step`], which answers with the next operation.

use crate::ops::{Event, Op, Report, Variant};
use crate::report::{classify, report_of};
use crate::plan::{bring_up, bring_up_ops};
use vstd::prelude::*;

verus! {

/// Where a run stands.
#[derive(Clone, Copy, Debug, PartialEq, Eq, Structural)]
pub enum Stage {
    /// Bring-up: the operation at this position of the plan is pending.
    BringUp(usize),
    /// Polling: a sample is pending.
    Sample,
    /// Polling: the report of the sample just taken is pending.
    Send(Report),
    /// Polling: the pause that ends the iteration is pending.
    Pause,
    /// A critical operation failed during bring-up. Nothing more happens.
    Halted,
}

/// The state of the machine.
pub struct Model {
    pub variant: Variant,
    pub stage: Stage,
}

impl Model {
    /// The state at power-on.
    pub open spec fn start(variant: Variant) -> Model {
        Model { variant, stage: Stage::BringUp(0) }
    }

    /// The state names an operation: while in bring-up, its position lies
    /// within the plan. Every state that a run reaches is of this kind.
    pub open spec fn valid(self) -> bool {
        self.stage matches Stage::BringUp(at) ==> at < bring_up_ops().len()
    }

    /// The operation that the machine is waiting on.
    pub open spec fn pending(self) -> Op {
        match self.stage {
            Stage::BringUp(at) => bring_up_ops()[at as int],
            Stage::Sample => self.variant.sample_op(),
            Stage::Send(report) => Op::Emit { report },
            Stage::Pause => Op::Delay { ms: self.variant.interval_ms() },
            Stage::Halted => Op::Halt,
        }
    }

    /// The state after the pending operation ended with `event`.
    ///
    /// During bring-up a failure of a critical operation halts the machine;
    /// any other outcome moves on to the next operation of the plan, and from
    /// its last operation into the poll loop. In the poll loop a sample that
    /// the variant watches is reported and followed by the pause; as long as
    /// no such sample arrives the sampling operation stays pending. Outcomes
    /// of sending and pausing are not looked at.
    pub open spec fn next(self, event: Event) -> Model {
        let stage = match self.stage {
            Stage::BringUp(at) => if event is Failed && self.pending().is_critical() {
                Stage::Halted
            } else if at + 1 < bring_up_ops().len() {
                Stage::BringUp((at + 1) as usize)
            } else {
                Stage::Sample
            },
            Stage::Sample => match report_of(self.variant, event) {
                Some(report) => Stage::Send(report),
                None => Stage::Sample,
            },
            Stage::Send(_) => Stage::Pause,
            Stage::Pause => Stage::Sample,
            Stage::Halted => Stage::Halted,
        };
        Model { variant: self.variant, stage }
    }

    /// The state after a whole sequence of outcomes, oldest first.
    pub open spec fn run(self, events: Seq<Event>) -> Model
        decreases events.len(),
    {
        if events.len() == 0 {
            self
        } else {
            self.run(events.drop_last()).next(events.last())
        }
    }
}

/// Every operation issued in a run from power-on, in order: the first pending
/// operation, then the one that each outcome led to.
pub open spec fn issued(variant: Variant, events: Seq<Event>) -> Seq<Op> {
    Seq::new(events.len() + 1, |k: int| Model::start(variant).run(events.take(k)).pending())
}

/// The executable sequencer.
pub struct Sequencer {
    variant: Variant,
    stage: Stage,
    plan: Vec<Op>,
}

impl View for Sequencer {
    type V = Model;

    closed spec fn view(&self) -> Model {
        Model { variant: self.variant, stage: self.stage }
    }
}

impl Sequencer {
    #[verifier::type_invariant]
    spec fn well_formed(&self) -> bool {
        &&& self.plan@ == bring_up_ops()
        &&& self.stage matches Stage::BringUp(at) ==> at < self.plan@.len()
    }

    /// A sequencer at power-on.
    pub fn new(variant: Variant) -> (sequencer: Sequencer)
        ensures
            sequencer@ == Model::start(variant),
    {
        let plan = bring_up();
        proof {
            crate::plan::lemma_bring_up_ops();
        }
        Sequencer { variant, stage: Stage::BringUp(0), plan }
    }

    /// The operation that the driver has to perform now.
    pub fn pending(&self) -> (op: Op)
        ensures
            op == self@.pending(),
    {
        proof {
            use_type_invariant(self);
        }
        match self.stage {
            Stage::BringUp(at) => self.plan[at],
            Stage::Sample => self.variant.sample_op(),
            Stage::Send(report) => Op::Emit { report },
            Stage::Pause => Op::Delay { ms: self.variant.interval_ms() },
            Stage::Halted => Op::Halt,
        }
    }

    /// Takes the outcome of the pending operation and answers with the
    /// operation to perform next.
    pub fn step(&mut self, event: Event) -> (op: Op)
        ensures
            final(self)@ == old(self)@.next(event),
            op == final(self)@.pending(),
    {
        proof {
            use_type_invariant(&*self);
        }
        let stage = match self.stage {
            Stage::BringUp(at) => {
                let failed = match event {
                    Event::Failed => true,
                    _ => false,
                };
                if failed && self.plan[at].is_critical() {
                    Stage::Halted
                } else if at + 1 < self.plan.len() {
                    Stage::BringUp(at + 1)
                } else {
                    Stage::Sample
                }
            },
            Stage::Sample => match classify(self.variant, event) {
                Some(report) => Stage::Send(report),
                None => Stage::Sample,
            },
            Stage::Send(_) => Stage::Pause,
            Stage::Pause => Stage::Sample,
            Stage::Halted => Stage::Halted,
        };
        self.stage = stage;
        self.pending()
    }
}

/// One more outcome extends a run by one transition.
pub proof fn lemma_run_extends(model: Model, events: Seq<Event>, k: int)
    requires
        0 <= k < events.len(),
    ensures
        model.run(events.take(k + 1)) == model.run(events.take(k)).next(events[k]),
{
    assert(events.take(k + 1).drop_last() =~= events.take(k));
    assert(events.take(k + 1).last() == events[k]);
}

/// The operation at position `k` of a run is the one pending after the first
/// `k` outcomes.
pub proof fn lemma_issued_at(variant: Variant, events: Seq<Event>, k: int)
    requires
        0 <= k <= events.len(),
    ensures
        issued(variant, events).len() == events.len() + 1,
        issued(variant, events)[k] == Model::start(variant).run(events.take(k)).pending(),
{
}

/// A run that is one outcome longer issues the same operations and one more.
proof fn lemma_issued_extends(variant: Variant, events: Seq<Event>, k: int)
    requires
        0 <= k < events.len(),
    ensures
        issued(variant, events.take(k + 1)) == issued(variant, events.take(k)).push(
            Model::start(variant).run(events.take(k + 1)).pending(),
        ),
{
    let longer = issued(variant, events.take(k + 1));
    let shorter = issued(variant, events.take(k));
    let last = Model::start(variant).run(events.take(k + 1)).pending();
    assert(events.take(k + 1).take(k + 1) =~= events.take(k + 1));
    assert forall|j: int| 0 <= j <= k implies longer[j] == shorter[j] by {
        assert(events.take(k + 1).take(j) =~= events.take(j));
        assert(events.take(k).take(j) =~= events.take(j));
    }
    assert(longer =~= shorter.push(last));
}

/// Replays a run from power-on: feeds the sequencer the given outcomes, oldest
/// first, and returns every operation it issued.
pub fn replay(variant: Variant, events: &Vec<Event>) -> (trace: Vec<Op>)
    ensures
        trace@ == issued(variant, events@),
{
    let mut sequencer = Sequencer::new(variant);
    let mut trace: Vec<Op> = Vec::new();
    trace.push(sequencer.pending());
    let mut k: usize = 0;
    proof {
        assert(events@.take(0).take(0).len() == 0);
        assert(trace@ =~= issued(variant, events@.take(0)));
    }
    while k < events.len()
        invariant
            k <= events.len(),
            sequencer@ == Model::start(variant).run(events@.take(k as int)),
            trace@ == issued(variant, events@.take(k as int)),
        decreases events.len() - k,
    {
        let op = sequencer.step(events[k]);
        trace.push(op);
        proof {
            lemma_run_extends(Model::start(variant), events@, k as int);
            lemma_issued_extends(variant, events@, k as int);
        }
        k += 1;
    }
    proof {
        assert(events@.take(k as int) =~= events@);
    }
    trace
}

} // verus!
