//! The vocabulary shared by the sequencer and the driver that executes it:
//! hardware operations, their outcomes, and the fixed wiring constants.

use vstd::prelude::*;

verus! {

/// Serial line speed, in symbols per second.
pub const BAUD: u32 = 1200;

/// Clock of the two-wire bus, in hertz.
pub const BUS_CLOCK_HZ: u32 = 100_000;

/// How long the expander's reset line is held at each level, in milliseconds.
pub const SETTLE_MS: u16 = 50;

/// Expander pin driven as a digital output.
pub const OUTPUT_PIN: u8 = 1;

/// Expander pin read as an input with its pull-up enabled.
pub const INPUT_PIN: u8 = 6;

/// Pause between two reports when the digital input is watched.
pub const DIGITAL_INTERVAL_MS: u16 = 500;

/// Pause between two reports when the analog input is watched.
pub const ANALOG_INTERVAL_MS: u16 = 100;

/// Which input the poll loop watches. Chosen once, when the sequencer is made.
#[derive(Clone, Copy, Debug, PartialEq, Eq, Structural)]
pub enum Variant {
    /// Watch the floating digital input and report pass or fail.
    Digital,
    /// Watch the analog input and report the raw conversion result.
    Analog,
}

/// Direction of an expander pin.
#[derive(Clone, Copy, Debug, PartialEq, Eq, Structural)]
pub enum PinMode {
    Input,
    Output,
}

/// One line of telemetry.
#[derive(Clone, Copy, Debug, PartialEq, Eq, Structural)]
pub enum Report {
    /// Sent once, when the serial line is up.
    Starting,
    /// The digital input read high.
    Pass,
    /// The digital input read low.
    Fail,
    /// The analog input converted to this value.
    Reading(u16),
}

/// A hardware operation that the sequencer asks its driver to perform.
#[derive(Clone, Copy, Debug, PartialEq, Eq, Structural)]
pub enum Op {
    /// Claim every peripheral the board needs.
    TakePeripherals,
    /// Bring the serial line up at `baud`.
    OpenSerial { baud: u32 },
    /// Send one line of telemetry.
    Emit { report: Report },
    /// Open the two-wire bus, externally pulled up, at `clock_hz`.
    OpenBus { clock_hz: u32 },
    /// Drive the expander's reset line.
    SetReset { high: bool },
    /// Block for `ms` milliseconds.
    Delay { ms: u16 },
    /// Make the expander handle at the chip's default address.
    Attach,
    /// Put the expander's direction registers in their default state.
    InitExpander,
    /// Set the direction of one expander pin.
    SetPinMode { pin: u8, mode: PinMode },
    /// Enable or disable the pull-up of one expander pin.
    SetPullUp { pin: u8, enable: bool },
    /// Write the level of one expander pin.
    WritePin { pin: u8, level: bool },
    /// Turn the local indicator pin into an output and drive it high.
    DriveLocalHigh,
    /// Read the floating digital input once.
    SampleDigital,
    /// Run one analog conversion.
    SampleAnalog,
    /// Nothing more will be asked: stop for good.
    Halt,
}

/// What the driver reports back after performing an operation.
#[derive(Clone, Copy, Debug, PartialEq, Eq, Structural)]
pub enum Event {
    /// The operation completed.
    Done,
    /// The operation failed.
    Failed,
    /// The digital input was read; `true` is logic high.
    Level(bool),
    /// The analog conversion produced this value.
    Reading(u16),
}

impl Variant {
    /// The sampling operation of the poll loop.
    pub open spec fn spec_sample_op(self) -> Op {
        match self {
            Variant::Digital => Op::SampleDigital,
            Variant::Analog => Op::SampleAnalog,
        }
    }

    /// The pause between two reports, in milliseconds.
    pub open spec fn spec_interval_ms(self) -> u16 {
        match self {
            Variant::Digital => DIGITAL_INTERVAL_MS,
            Variant::Analog => ANALOG_INTERVAL_MS,
        }
    }

    /// The sampling operation of the poll loop.
    #[verifier::when_used_as_spec(spec_sample_op)]
    pub fn sample_op(self) -> (op: Op)
        ensures
            op == self.spec_sample_op(),
    {
        match self {
            Variant::Digital => Op::SampleDigital,
            Variant::Analog => Op::SampleAnalog,
        }
    }

    /// The pause between two reports, in milliseconds.
    #[verifier::when_used_as_spec(spec_interval_ms)]
    pub fn interval_ms(self) -> (ms: u16)
        ensures
            ms == self.spec_interval_ms(),
    {
        match self {
            Variant::Digital => DIGITAL_INTERVAL_MS,
            Variant::Analog => ANALOG_INTERVAL_MS,
        }
    }
}

impl Op {
    /// The operation talks to the expander over the two-wire bus.
    pub open spec fn spec_is_bus_transaction(self) -> bool {
        self is Attach || self is InitExpander || self is SetPinMode || self is SetPullUp
            || self is WritePin
    }

    /// A failure of this operation leaves the board in no state to go on
    /// from: the peripherals could not be claimed, or a bus transaction
    /// failed.
    pub open spec fn spec_is_critical(self) -> bool {
        self is TakePeripherals || self.spec_is_bus_transaction()
    }

    /// The operation reads an input.
    pub open spec fn spec_is_sample(self) -> bool {
        self is SampleDigital || self is SampleAnalog
    }

    /// The operation belongs to bring-up: it claims or opens something, or
    /// changes how a pin or the expander is set up.
    pub open spec fn spec_is_setup(self) -> bool {
        self is TakePeripherals || self is OpenSerial || self is OpenBus || self is SetReset
            || self is DriveLocalHigh || self.spec_is_bus_transaction()
    }

    /// The operation sends a line of the poll loop.
    pub open spec fn spec_is_poll_report(self) -> bool {
        self matches Op::Emit { report } && report != Report::Starting
    }

    /// Milliseconds the operation is known to block for.
    pub open spec fn blocks_for(self) -> nat {
        match self {
            Op::Delay { ms } => ms as nat,
            _ => 0,
        }
    }

    /// Whether the operation talks to the expander over the two-wire bus.
    #[verifier::when_used_as_spec(spec_is_bus_transaction)]
    pub fn is_bus_transaction(self) -> (yes: bool)
        ensures
            yes == self.spec_is_bus_transaction(),
    {
        match self {
            Op::Attach => true,
            Op::InitExpander => true,
            Op::SetPinMode { .. } => true,
            Op::SetPullUp { .. } => true,
            Op::WritePin { .. } => true,
            _ => false,
        }
    }

    /// Whether a failure of the operation is fatal.
    #[verifier::when_used_as_spec(spec_is_critical)]
    pub fn is_critical(self) -> (yes: bool)
        ensures
            yes == self.spec_is_critical(),
    {
        match self {
            Op::TakePeripherals => true,
            _ => self.is_bus_transaction(),
        }
    }

    /// Whether the operation reads an input.
    #[verifier::when_used_as_spec(spec_is_sample)]
    pub fn is_sample(self) -> (yes: bool)
        ensures
            yes == self.spec_is_sample(),
    {
        match self {
            Op::SampleDigital => true,
            Op::SampleAnalog => true,
            _ => false,
        }
    }

    /// Whether the operation belongs to bring-up.
    #[verifier::when_used_as_spec(spec_is_setup)]
    pub fn is_setup(self) -> (yes: bool)
        ensures
            yes == self.spec_is_setup(),
    {
        match self {
            Op::TakePeripherals => true,
            Op::OpenSerial { .. } => true,
            Op::OpenBus { .. } => true,
            Op::SetReset { .. } => true,
            Op::DriveLocalHigh => true,
            _ => self.is_bus_transaction(),
        }
    }

    /// Whether the operation sends a line of the poll loop.
    #[verifier::when_used_as_spec(spec_is_poll_report)]
    pub fn is_poll_report(self) -> (yes: bool)
        ensures
            yes == self.spec_is_poll_report(),
    {
        match self {
            Op::Emit { report } => match report {
                Report::Starting => false,
                _ => true,
            },
            _ => false,
        }
    }
}

} // verus!
