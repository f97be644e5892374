//! The bring-up plan: which hardware operations take the board from power-on
//! to the point where polling may begin, and in which order.
//!
//! Each routine appends the operations of one bring-up stage to a plan. The
//! plan is data; a driver performs it one operation at a time under the
//! direction of the sequencer.

use crate::ops::{Op, PinMode, Report, BAUD, BUS_CLOCK_HZ, INPUT_PIN, OUTPUT_PIN, SETTLE_MS};
use vstd::prelude::*;

verus! {

/// Claiming the peripherals, bringing the serial line up and announcing the
/// start.
pub open spec fn console_ops() -> Seq<Op> {
    seq![Op::TakePeripherals, Op::OpenSerial { baud: BAUD }, Op::Emit { report: Report::Starting }]
}

/// Opening the bus, pulsing the expander's reset line high, low, high with a
/// settle time after the falling and after the rising edge, and only then
/// making the handle.
pub open spec fn attach_ops() -> Seq<Op> {
    seq![
        Op::OpenBus { clock_hz: BUS_CLOCK_HZ },
        Op::SetReset { high: true },
        Op::SetReset { high: false },
        Op::Delay { ms: SETTLE_MS },
        Op::SetReset { high: true },
        Op::Delay { ms: SETTLE_MS },
        Op::Attach,
    ]
}

/// Programming the expander: default directions first, then the output pin
/// (direction, level) and the input pin (direction, pull-up, latch level).
pub open spec fn configure_ops() -> Seq<Op> {
    seq![
        Op::InitExpander,
        Op::SetPinMode { pin: OUTPUT_PIN, mode: PinMode::Output },
        Op::WritePin { pin: OUTPUT_PIN, level: true },
        Op::SetPinMode { pin: INPUT_PIN, mode: PinMode::Input },
        Op::SetPullUp { pin: INPUT_PIN, enable: true },
        Op::WritePin { pin: INPUT_PIN, level: true },
    ]
}

/// The whole bring-up, in the order in which it must be performed.
pub open spec fn bring_up_ops() -> Seq<Op> {
    console_ops() + attach_ops() + configure_ops() + seq![Op::DriveLocalHigh]
}

/// Number of operations in the bring-up.
pub const BRING_UP_LEN: usize = 17;

/// The bring-up written out position by position.
pub proof fn lemma_bring_up_ops()
    ensures
        bring_up_ops().len() == BRING_UP_LEN,
        bring_up_ops() == seq![
            Op::TakePeripherals,
            Op::OpenSerial { baud: BAUD },
            Op::Emit { report: Report::Starting },
            Op::OpenBus { clock_hz: BUS_CLOCK_HZ },
            Op::SetReset { high: true },
            Op::SetReset { high: false },
            Op::Delay { ms: SETTLE_MS },
            Op::SetReset { high: true },
            Op::Delay { ms: SETTLE_MS },
            Op::Attach,
            Op::InitExpander,
            Op::SetPinMode { pin: OUTPUT_PIN, mode: PinMode::Output },
            Op::WritePin { pin: OUTPUT_PIN, level: true },
            Op::SetPinMode { pin: INPUT_PIN, mode: PinMode::Input },
            Op::SetPullUp { pin: INPUT_PIN, enable: true },
            Op::WritePin { pin: INPUT_PIN, level: true },
            Op::DriveLocalHigh,
        ],
{
    let flat = seq![
        Op::TakePeripherals,
        Op::OpenSerial { baud: BAUD },
        Op::Emit { report: Report::Starting },
        Op::OpenBus { clock_hz: BUS_CLOCK_HZ },
        Op::SetReset { high: true },
        Op::SetReset { high: false },
        Op::Delay { ms: SETTLE_MS },
        Op::SetReset { high: true },
        Op::Delay { ms: SETTLE_MS },
        Op::Attach,
        Op::InitExpander,
        Op::SetPinMode { pin: OUTPUT_PIN, mode: PinMode::Output },
        Op::WritePin { pin: OUTPUT_PIN, level: true },
        Op::SetPinMode { pin: INPUT_PIN, mode: PinMode::Input },
        Op::SetPullUp { pin: INPUT_PIN, enable: true },
        Op::WritePin { pin: INPUT_PIN, level: true },
        Op::DriveLocalHigh,
    ];
    assert(bring_up_ops() =~= flat);
}

/// Plans a blocking wait of `ms` milliseconds.
pub fn delay_ms(plan: &mut Vec<Op>, ms: u16)
    ensures
        final(plan)@ == old(plan)@.push(Op::Delay { ms }),
{
    plan.push(Op::Delay { ms });
}

/// Plans the steps that yield the expander handle: the bus session, the
/// reset pulse with both settle times, and the handle itself.
pub fn get_mcp23017(plan: &mut Vec<Op>)
    ensures
        final(plan)@ == old(plan)@ + attach_ops(),
{
    plan.push(Op::OpenBus { clock_hz: BUS_CLOCK_HZ });
    plan.push(Op::SetReset { high: true });
    plan.push(Op::SetReset { high: false });
    delay_ms(plan, SETTLE_MS);
    plan.push(Op::SetReset { high: true });
    delay_ms(plan, SETTLE_MS);
    plan.push(Op::Attach);
    assert(plan@ =~= old(plan)@ + attach_ops());
}

/// Plans the programming of the expander's pins.
pub fn configure_mcp23017(plan: &mut Vec<Op>)
    ensures
        final(plan)@ == old(plan)@ + configure_ops(),
{
    plan.push(Op::InitExpander);
    plan.push(Op::SetPinMode { pin: OUTPUT_PIN, mode: PinMode::Output });
    plan.push(Op::WritePin { pin: OUTPUT_PIN, level: true });
    plan.push(Op::SetPinMode { pin: INPUT_PIN, mode: PinMode::Input });
    plan.push(Op::SetPullUp { pin: INPUT_PIN, enable: true });
    plan.push(Op::WritePin { pin: INPUT_PIN, level: true });
    assert(plan@ =~= old(plan)@ + configure_ops());
}

/// Plans driving the local indicator pin high.
pub fn configure_pb2(plan: &mut Vec<Op>)
    ensures
        final(plan)@ == old(plan)@.push(Op::DriveLocalHigh),
{
    plan.push(Op::DriveLocalHigh);
}

/// Builds the whole bring-up plan.
pub fn bring_up() -> (plan: Vec<Op>)
    ensures
        plan@ == bring_up_ops(),
{
    let mut plan: Vec<Op> = Vec::new();
    plan.push(Op::TakePeripherals);
    plan.push(Op::OpenSerial { baud: BAUD });
    plan.push(Op::Emit { report: Report::Starting });
    get_mcp23017(&mut plan);
    configure_mcp23017(&mut plan);
    configure_pb2(&mut plan);
    assert(plan@ =~= bring_up_ops());
    plan
}

} // verus!
