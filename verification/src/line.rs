//! Model of the two SWD lines, the timing source, and the events the
//! driver performs on them.
//!
//! A physical pin is represented by the part of it the driver's logic
//! reads or writes: an output pin carries the level it is currently
//! driven to, an input pin carries the levels the external target will
//! present on successive samples (a pulled-up line reads high once those
//! are exhausted), and the timing source is an owned capability with no
//! observable state of its own. Every action on the hardware is recorded
//! as a [`BusEvent`]; board glue replays the events onto the real lines.

use vstd::prelude::*;

verus! {

/// Logic level of a line.
#[derive(Clone, Copy, PartialEq, Eq, Structural, Debug)]
pub enum Level {
    Low,
    High,
}

/// Electrical direction of the data pin.
#[derive(Clone, Copy, PartialEq, Eq, Structural, Debug)]
pub enum PinDir {
    /// Pulled-up input: the driver senses the line.
    Input,
    /// Push-pull output: the driver drives the line.
    Output,
}

/// One action the driver performs on the hardware, in the order taken.
#[derive(Clone, Copy, PartialEq, Eq, Structural, Debug)]
pub enum BusEvent {
    /// The clock line was driven to this level.
    Clock(Level),
    /// The data line was driven to this level.
    Data(Level),
    /// The timing source blocked the caller for this many milliseconds.
    Wait(u32),
    /// The data pin's hardware direction was reconfigured.
    Mode(PinDir),
    /// The data line was sampled and read at this level.
    Sample(Level),
}

/// The clock line: a push-pull output holding its driven level.
#[derive(Debug)]
pub struct ClockPin {
    pub level: Level,
}

/// The data line configured as a push-pull output, holding its driven level.
#[derive(Debug)]
pub struct DataOutPin {
    pub level: Level,
}

/// The data line configured as a pulled-up input.
///
/// `pending` holds the levels the external target will drive on
/// successive samples; once they are exhausted the pull-up leaves the
/// undriven line reading high.
#[derive(Debug)]
pub struct DataInPin {
    pub pending: Vec<Level>,
}

/// An owned blocking delay capability of millisecond granularity.
///
/// Its effect is visible only as the [`BusEvent::Wait`] events it
/// produces, so the model carries no state of its own.
#[derive(Debug)]
pub struct DelaySource {}

/// The level that drives a single bit: 1 is high, anything else low.
pub open spec fn level_of_bit(b: nat) -> Level {
    if b == 1 {
        Level::High
    } else {
        Level::Low
    }
}

/// The bit a sampled level contributes: high is 1, low is 0.
pub open spec fn bit_of_level(l: Level) -> nat {
    match l {
        Level::High => 1,
        Level::Low => 0,
    }
}

/// The four actions of one full clock pulse: low, hold a half-period,
/// high, hold a half-period.
pub open spec fn pulse_events(p: u32) -> Seq<BusEvent> {
    seq![
        BusEvent::Clock(Level::Low),
        BusEvent::Wait(p),
        BusEvent::Clock(Level::High),
        BusEvent::Wait(p),
    ]
}

} // verus!
