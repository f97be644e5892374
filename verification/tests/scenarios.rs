//! End-to-end runs of the sequencer against a simulated board.

use expander_bringup::ops::{Event, Op, PinMode, Report, Variant};
use expander_bringup::report::render;
use expander_bringup::plan::bring_up;
use expander_bringup::sequencer::Sequencer;

/// A board that exists only in memory: scripted inputs, a clock that only
/// delays advance, and a record of everything that was asked of it.
struct Bench {
    levels: Vec<bool>,
    readings: Vec<u16>,
    fails: Vec<Op>,
    serial: String,
    lines: Vec<String>,
    sent_at: Vec<u64>,
    clock_ms: u64,
    trace: Vec<Op>,
    halted: bool,
}

impl Bench {
    fn new(levels: &[bool], readings: &[u16], fails: &[Op]) -> Bench {
        Bench {
            levels: levels.to_vec(),
            readings: readings.to_vec(),
            fails: fails.to_vec(),
            serial: String::new(),
            lines: Vec::new(),
            sent_at: Vec::new(),
            clock_ms: 0,
            trace: Vec::new(),
            halted: false,
        }
    }

    /// Performs one operation. `None` means that the scripted inputs have run
    /// out, or that the board was told to stop.
    fn perform(&mut self, op: Op) -> Option<Event> {
        self.trace.push(op);
        if self.fails.contains(&op) {
            return Some(Event::Failed);
        }
        match op {
            Op::Halt => {
                self.halted = true;
                None
            }
            Op::Emit { report } => {
                let text = render(report);
                self.serial.push_str(&text);
                self.lines.push(text);
                self.sent_at.push(self.clock_ms);
                Some(Event::Done)
            }
            Op::Delay { ms } => {
                self.clock_ms += u64::from(ms);
                Some(Event::Done)
            }
            Op::SampleDigital => {
                if self.levels.is_empty() {
                    None
                } else {
                    Some(Event::Level(self.levels.remove(0)))
                }
            }
            Op::SampleAnalog => {
                if self.readings.is_empty() {
                    None
                } else {
                    Some(Event::Reading(self.readings.remove(0)))
                }
            }
            _ => Some(Event::Done),
        }
    }

    fn run(mut self, variant: Variant) -> Bench {
        let mut sequencer = Sequencer::new(variant);
        let mut op = sequencer.pending();
        while let Some(event) = self.perform(op) {
            op = sequencer.step(event);
        }
        self
    }
}

#[test]
fn input_held_high_for_five_polls_gives_five_ok_lines() {
    let bench = Bench::new(&[true; 5], &[], &[]).run(Variant::Digital);
    assert_eq!(bench.serial, "starting\r\nOK\r\nOK\r\nOK\r\nOK\r\nOK\r\n");
    assert_eq!(bench.lines.len(), 6);
    assert_eq!(bench.lines[0], "starting\r\n");
    assert_eq!(bench.lines.iter().filter(|l| l.as_str() == "starting\r\n").count(), 1);
    assert_eq!(bench.lines.iter().filter(|l| l.as_str() == "OK\r\n").count(), 5);
    for pair in bench.sent_at[1..].windows(2) {
        assert_eq!(pair[1] - pair[0], 500);
    }
    assert!(!bench.halted);
}

#[test]
fn input_low_on_third_poll_gives_one_bug_line_in_place() {
    let bench = Bench::new(&[true, true, false, true, true], &[], &[]).run(Variant::Digital);
    assert_eq!(
        bench.lines[1..].to_vec(),
        vec!["OK\r\n", "OK\r\n", "BUG\r\n", "OK\r\n", "OK\r\n"]
    );
    assert_eq!(bench.serial, "starting\r\nOK\r\nOK\r\nBUG\r\nOK\r\nOK\r\n");
}

#[test]
fn analog_readings_are_reported_one_line_per_poll() {
    let bench = Bench::new(&[], &[0, 512, 1023], &[]).run(Variant::Analog);
    assert_eq!(
        bench.lines,
        vec!["starting\r\n", "value: 0\r\n", "value: 512\r\n", "value: 1023\r\n"]
    );
    let samples = bench.trace.iter().filter(|op| **op == Op::SampleAnalog).count();
    assert_eq!(samples, 4);
    for pair in bench.sent_at[1..].windows(2) {
        assert_eq!(pair[1] - pair[0], 100);
    }
}

#[test]
fn bus_failure_while_attaching_halts_before_any_poll_line() {
    let bench = Bench::new(&[true; 5], &[], &[Op::Attach]).run(Variant::Digital);
    assert!(bench.halted);
    assert_eq!(bench.serial, "starting\r\n");
    assert_eq!(bench.levels.len(), 5);
    assert_eq!(bench.trace.last(), Some(&Op::Halt));
    assert_eq!(bench.trace[bench.trace.len() - 2], Op::Attach);
    assert!(!bench.trace.iter().any(|op| op.is_sample() || op.is_poll_report()));
}

#[test]
fn every_critical_operation_halts_the_run_when_it_fails() {
    let critical = [
        Op::TakePeripherals,
        Op::Attach,
        Op::InitExpander,
        Op::SetPinMode { pin: 1, mode: PinMode::Output },
        Op::WritePin { pin: 1, level: true },
        Op::SetPinMode { pin: 6, mode: PinMode::Input },
        Op::SetPullUp { pin: 6, enable: true },
        Op::WritePin { pin: 6, level: true },
    ];
    for op in critical {
        assert!(op.is_critical());
        let bench = Bench::new(&[true], &[], &[op]).run(Variant::Digital);
        assert!(bench.halted, "{:?}", op);
        assert_eq!(bench.trace[bench.trace.len() - 2], op);
        assert_eq!(bench.levels.len(), 1);
        assert!(bench.lines.iter().all(|l| l.as_str() == "starting\r\n"));
    }
}

#[test]
fn failing_to_claim_the_peripherals_halts_before_the_start_line() {
    let bench = Bench::new(&[true], &[], &[Op::TakePeripherals]).run(Variant::Digital);
    assert!(bench.halted);
    assert_eq!(bench.serial, "");
    assert_eq!(bench.trace, vec![Op::TakePeripherals, Op::Halt]);
}

#[test]
fn a_lost_start_line_does_not_stop_the_bring_up() {
    let lost = Op::Emit { report: Report::Starting };
    let bench = Bench::new(&[true, false], &[], &[lost]).run(Variant::Digital);
    assert!(!bench.halted);
    assert_eq!(bench.serial, "OK\r\nBUG\r\n");
    assert_eq!(bench.trace[..17].to_vec(), bring_up());
}

#[test]
fn a_lost_report_does_not_stop_the_poll_loop() {
    let lost = Op::Emit { report: Report::Fail };
    let bench = Bench::new(&[true, false, true], &[], &[lost]).run(Variant::Digital);
    assert!(!bench.halted);
    assert_eq!(bench.serial, "starting\r\nOK\r\nOK\r\n");
    assert_eq!(bench.trace.iter().filter(|op| op.is_poll_report()).count(), 3);
}

#[test]
fn failures_of_other_operations_are_not_fatal() {
    let fails = [
        Op::OpenSerial { baud: 1200 },
        Op::OpenBus { clock_hz: 100_000 },
        Op::SetReset { high: true },
        Op::SetReset { high: false },
        Op::Delay { ms: 50 },
        Op::Delay { ms: 500 },
        Op::DriveLocalHigh,
    ];
    for op in fails {
        assert!(!op.is_critical());
    }
    let bench = Bench::new(&[true, true], &[], &fails).run(Variant::Digital);
    assert!(!bench.halted);
    assert_eq!(bench.serial, "starting\r\nOK\r\nOK\r\n");
}

#[test]
fn sequencer_walks_the_plan_then_polls_forever() {
    let plan = bring_up();
    let mut sequencer = Sequencer::new(Variant::Digital);
    let mut op = sequencer.pending();
    for planned in &plan {
        assert_eq!(op, *planned);
        op = sequencer.step(Event::Done);
    }
    for round in 0..1000u32 {
        assert_eq!(op, Op::SampleDigital);
        op = sequencer.step(Event::Level(round % 3 == 0));
        let report = if round % 3 == 0 { Report::Pass } else { Report::Fail };
        assert_eq!(op, Op::Emit { report });
        op = sequencer.step(Event::Done);
        assert_eq!(op, Op::Delay { ms: 500 });
        op = sequencer.step(Event::Done);
    }
    assert_eq!(op, Op::SampleDigital);
}

#[test]
fn sampling_stays_pending_until_the_watched_sample_arrives() {
    let mut sequencer = Sequencer::new(Variant::Analog);
    for _ in 0..17 {
        sequencer.step(Event::Done);
    }
    assert_eq!(sequencer.pending(), Op::SampleAnalog);
    assert_eq!(sequencer.step(Event::Done), Op::SampleAnalog);
    assert_eq!(sequencer.step(Event::Failed), Op::SampleAnalog);
    assert_eq!(sequencer.step(Event::Level(true)), Op::SampleAnalog);
    assert_eq!(
        sequencer.step(Event::Reading(77)),
        Op::Emit { report: Report::Reading(77) }
    );
    assert_eq!(sequencer.step(Event::Failed), Op::Delay { ms: 100 });
    assert_eq!(sequencer.step(Event::Failed), Op::SampleAnalog);

    let mut digital = Sequencer::new(Variant::Digital);
    for _ in 0..17 {
        digital.step(Event::Done);
    }
    assert_eq!(digital.step(Event::Reading(1)), Op::SampleDigital);
    assert_eq!(digital.step(Event::Level(false)), Op::Emit { report: Report::Fail });
}

#[test]
fn a_halted_sequencer_stays_halted() {
    let mut sequencer = Sequencer::new(Variant::Digital);
    assert_eq!(sequencer.pending(), Op::TakePeripherals);
    assert_eq!(sequencer.step(Event::Failed), Op::Halt);
    for event in [Event::Done, Event::Failed, Event::Level(true), Event::Reading(3)] {
        assert_eq!(sequencer.step(event), Op::Halt);
        assert_eq!(sequencer.pending(), Op::Halt);
    }
}

#[test]
fn the_same_level_gives_the_same_line_in_any_iteration() {
    let mut early = Sequencer::new(Variant::Digital);
    for _ in 0..17 {
        early.step(Event::Done);
    }
    let late_bench = Bench::new(&[false, true, false, false, true, true, false], &[], &[]);
    let late = late_bench.run(Variant::Digital);
    for high in [true, false] {
        let mut fresh = Sequencer::new(Variant::Digital);
        for _ in 0..17 {
            fresh.step(Event::Done);
        }
        let expected = if high { "OK\r\n" } else { "BUG\r\n" };
        let first = match fresh.step(Event::Level(high)) {
            Op::Emit { report } => render(report),
            other => panic!("{:?}", other),
        };
        let again = match early.step(Event::Level(high)) {
            Op::Emit { report } => render(report),
            other => panic!("{:?}", other),
        };
        early.step(Event::Done);
        early.step(Event::Done);
        assert_eq!(first, expected);
        assert_eq!(again, expected);
    }
    let scripted = [false, true, false, false, true, true, false];
    for (level, text) in scripted.iter().zip(late.lines[1..].iter()) {
        assert_eq!(text, if *level { "OK\r\n" } else { "BUG\r\n" });
    }
}
