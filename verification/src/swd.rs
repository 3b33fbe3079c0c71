//! The SWD line driver: owns the clock pin, the data pin in exactly one
//! electrical direction, and the timing source, and serializes bit
//! fields onto the lines least-significant-bit first.
//!
//! Every operation appends the hardware actions it takes to `trace`, in
//! order; board glue replays them onto the physical lines. Operations
//! that need a resource that has been released degrade to silent no-ops
//! (no partial clock pulse is ever emitted), except where a release or
//! an idle write itself demands the resource, which its `requires`
//! states. A read assembles sampled bits with the same
//! least-significant-bit-first convention the write path uses.

use vstd::prelude::*;

use crate::line::{
    bit_of_level, level_of_bit, pulse_events, BusEvent, ClockPin, DataInPin, DataOutPin,
    DelaySource, Level, PinDir,
};
use crate::trace::{
    head_sample, lemma_pending_after_step, lemma_read_events_snoc, lemma_samples_len,
    lemma_samples_snoc, lemma_value_of_levels_bound, lemma_value_of_levels_snoc, lemma_write_events_snoc, nth_sample,
    pending_after, read_block, read_events, rest_after_sample, samples, value_of_levels,
    write_block, write_events,
};
use vstd::arithmetic::div_mod::lemma_div_denominator;
use vstd::arithmetic::power2::{
    lemma2_to64, lemma_pow2_pos, lemma_pow2_strictly_increases, lemma_pow2_unfold, pow2,
};

verus! {

/// Debug port address for core 0: a target-selection value for a future
/// protocol layer, consumed by no operation at this bit-level layer.
pub const DP0: u32 = 0x01002927;

/// Debug port address for core 1: a target-selection value for a future
/// protocol layer, consumed by no operation at this bit-level layer.
pub const DP1: u32 = 0x11002927;

/// Rescue debug port address: a target-selection value for a future
/// protocol layer, consumed by no operation at this bit-level layer.
pub const DPR: u32 = 0xf1002927;

/// The single physical data line, held in exactly one electrical mode,
/// or in none once it has been handed back to the caller.
pub enum DataSlot {
    /// The pin has been released; data operations are no-ops.
    Released,
    /// The pin is configured as a pulled-up input.
    Input(DataInPin),
    /// The pin is configured as a push-pull output.
    Output(DataOutPin),
}

/// The mode-switch actions a forced change to `mode` performs: one
/// hardware reconfiguration when the slot holds the opposite mode,
/// none when it already holds `mode` or is released.
pub open spec fn mode_events(slot: DataSlot, mode: PinDir) -> Seq<BusEvent> {
    match slot {
        DataSlot::Input(_) => if mode == PinDir::Output {
            seq![BusEvent::Mode(PinDir::Output)]
        } else {
            Seq::empty()
        },
        DataSlot::Output(_) => if mode == PinDir::Input {
            seq![BusEvent::Mode(PinDir::Input)]
        } else {
            Seq::empty()
        },
        DataSlot::Released => Seq::empty(),
    }
}

/// The output level the data pin holds once direction is forced to
/// output: its current drive if it already was an output, low after a
/// fresh reconfiguration.
pub open spec fn forced_out_level(slot: DataSlot) -> Level {
    match slot {
        DataSlot::Output(pin) => pin.level,
        _ => Level::Low,
    }
}

/// The levels a forced switch to input leaves pending: what the pin
/// already held if it was an input, none after a fresh reconfiguration.
pub open spec fn forced_pending(slot: DataSlot) -> Seq<Level> {
    match slot {
        DataSlot::Input(pin) => pin.pending@,
        _ => Seq::empty(),
    }
}

/// The SWD line driver.
pub struct Swd {
    /// The clock line, until released.
    pub clock_pin: Option<ClockPin>,
    /// The data line, in exactly one direction, until released.
    pub data: DataSlot,
    /// The blocking timing source, until released.
    pub delay: Option<DelaySource>,
    /// The delay applied on each half of a clock pulse, in milliseconds.
    pub half_period: u32,
    /// Every hardware action taken so far, in order.
    pub trace: Vec<BusEvent>,
}

impl Swd {
    /// A clock pulse executes only while both the clock pin and the
    /// timing source are held.
    pub open spec fn can_pulse(self) -> bool {
        self.clock_pin is Some && self.delay is Some
    }

    /// The data line has not been released.
    pub open spec fn data_present(self) -> bool {
        !(self.data is Released)
    }

    /// Creates a driver owning an output-configured clock pin, an
    /// output-configured data pin and a timing source, with a zero
    /// half-period and an empty trace.
    pub fn new(clock_pin: ClockPin, data_pin: DataOutPin, delay: DelaySource) -> (s: Swd)
        ensures
            s.clock_pin == Some(clock_pin),
            s.data == DataSlot::Output(data_pin),
            s.delay == Some(delay),
            s.half_period == 0,
            s.trace@ == Seq::<BusEvent>::empty(),
    {
        Swd {
            clock_pin: Some(clock_pin),
            data: DataSlot::Output(data_pin),
            delay: Some(delay),
            half_period: 0,
            trace: Vec::new(),
        }
    }

    /// Configures the delay applied on each half of a clock pulse.
    pub fn set_half_period(&mut self, ms: u32)
        ensures
            *final(self) == (Swd { half_period: ms, ..*old(self) }),
    {
        self.half_period = ms;
    }

    /// Hands the recorded hardware actions to the caller and starts the
    /// record afresh, so board glue can perform them and discard them.
    pub fn take_actions(&mut self) -> (v: Vec<BusEvent>)
        ensures
            v@ == old(self).trace@,
            final(self).trace@ == Seq::<BusEvent>::empty(),
            final(self).clock_pin == old(self).clock_pin,
            final(self).data == old(self).data,
            final(self).delay == old(self).delay,
            final(self).half_period == old(self).half_period,
    {
        let mut v: Vec<BusEvent> = Vec::new();
        core::mem::swap(&mut v, &mut self.trace);
        v
    }

    /// Hands the timing source back to the caller; clock pulses become
    /// no-ops from here on.
    pub fn release_delay(&mut self) -> (d: DelaySource)
        requires
            old(self).delay is Some,
        ensures
            old(self).delay == Some(d),
            *final(self) == (Swd { delay: None, ..*old(self) }),
    {
        match self.delay.take() {
            Some(d) => d,
            None => vstd::pervasive::unreached(),
        }
    }

    /// Hands the clock pin back to the caller; clock pulses become
    /// no-ops from here on.
    pub fn release_clock_pin(&mut self) -> (p: ClockPin)
        requires
            old(self).clock_pin is Some,
        ensures
            old(self).clock_pin == Some(p),
            *final(self) == (Swd { clock_pin: None, ..*old(self) }),
    {
        match self.clock_pin.take() {
            Some(p) => p,
            None => vstd::pervasive::unreached(),
        }
    }

    /// Forces the data line's direction to output and hands the pin
    /// back to the caller; data operations are no-ops from here on. The
    /// returned pin is always in the output electrical mode, driving
    /// its prior level, or low if it had to be reconfigured.
    pub fn release_data_pin(&mut self) -> (p: DataOutPin)
        requires
            old(self).data_present(),
        ensures
            p.level == forced_out_level(old(self).data),
            final(self).data is Released,
            final(self).clock_pin == old(self).clock_pin,
            final(self).delay == old(self).delay,
            final(self).half_period == old(self).half_period,
            final(self).trace@ == old(self).trace@ + mode_events(old(self).data, PinDir::Output),
    {
        self.set_data_pin_mode(PinDir::Output);
        let mut slot = DataSlot::Released;
        core::mem::swap(&mut slot, &mut self.data);
        match slot {
            DataSlot::Output(pin) => pin,
            _ => vstd::pervasive::unreached(),
        }
    }

    /// Switches the data line to the requested electrical direction.
    /// A switch to the direction already held, or with the pin
    /// released, is a no-op and reconfigures no hardware. A fresh
    /// output drives low; a fresh input has sensed nothing yet.
    pub fn set_data_pin_mode(&mut self, pin_mode: PinDir)
        ensures
            final(self).clock_pin == old(self).clock_pin,
            final(self).delay == old(self).delay,
            final(self).half_period == old(self).half_period,
            final(self).trace@ == old(self).trace@ + mode_events(old(self).data, pin_mode),
            mode_events(old(self).data, pin_mode) == Seq::<BusEvent>::empty() ==> *final(self)
                == *old(self),
            pin_mode == PinDir::Output ==> final(self).data == (if old(self).data_present() {
                DataSlot::Output(DataOutPin { level: forced_out_level(old(self).data) })
            } else {
                DataSlot::Released
            }),
            pin_mode == PinDir::Input && old(self).data_present() ==> (final(self).data matches
                DataSlot::Input(pin) && pin.pending@ == forced_pending(old(self).data)),
            pin_mode == PinDir::Input && !old(self).data_present() ==> final(self).data
                is Released,
    {
        let is_in = match &self.data {
            DataSlot::Input(_) => true,
            _ => false,
        };
        let is_out = match &self.data {
            DataSlot::Output(_) => true,
            _ => false,
        };
        match pin_mode {
            PinDir::Input => {
                if is_out {
                    self.data = DataSlot::Input(DataInPin { pending: Vec::new() });
                    self.trace.push(BusEvent::Mode(PinDir::Input));
                }
            },
            PinDir::Output => {
                if is_in {
                    self.data = DataSlot::Output(DataOutPin { level: Level::Low });
                    self.trace.push(BusEvent::Mode(PinDir::Output));
                }
            },
        }
    }

    /// Drives the data line to the level of `bit`: low for 0, high
    /// for 1. With the pin released, not in output mode, or a value
    /// that is no single bit, nothing is driven.
    pub fn write_data_pin(&mut self, bit: u32)
        ensures
            final(self).clock_pin == old(self).clock_pin,
            final(self).delay == old(self).delay,
            final(self).half_period == old(self).half_period,
            old(self).data is Output && bit <= 1 ==> final(self).data == DataSlot::Output(
                DataOutPin { level: level_of_bit(bit as nat) },
            ) && final(self).trace@ == old(self).trace@ + seq![
                BusEvent::Data(level_of_bit(bit as nat)),
            ],
            !(old(self).data is Output) || bit > 1 ==> *final(self) == *old(self),
    {
        let is_out = match &self.data {
            DataSlot::Output(_) => true,
            _ => false,
        };
        if is_out && bit <= 1 {
            let level = if bit == 1 {
                Level::High
            } else {
                Level::Low
            };
            self.data = DataSlot::Output(DataOutPin { level });
            self.trace.push(BusEvent::Data(level));
        }
    }

    /// Emits one clock cycle: drive the clock low, hold a half-period,
    /// drive it high, hold a half-period, blocking the caller for two
    /// half-periods. With the clock pin or the timing source released,
    /// nothing happens — no partial pulse.
    pub fn write_clock(&mut self)
        ensures
            final(self).data == old(self).data,
            final(self).delay == old(self).delay,
            final(self).half_period == old(self).half_period,
            old(self).can_pulse() ==> final(self).clock_pin == Some(
                ClockPin { level: Level::High },
            ) && final(self).trace@ == old(self).trace@ + pulse_events(old(self).half_period),
            !old(self).can_pulse() ==> *final(self) == *old(self),
    {
        if self.clock_pin.is_some() && self.delay.is_some() {
            let p = self.half_period;
            self.clock_pin = Some(ClockPin { level: Level::Low });
            self.trace.push(BusEvent::Clock(Level::Low));
            self.trace.push(BusEvent::Wait(p));
            self.clock_pin = Some(ClockPin { level: Level::High });
            self.trace.push(BusEvent::Clock(Level::High));
            self.trace.push(BusEvent::Wait(p));
        }
    }

    /// Writes the `num_bits` low bits of `bits` onto the data line,
    /// least-significant-bit first: each bit is driven, then one clock
    /// pulse is emitted, so the line holds the bit for the pulse's full
    /// duration. Direction is forced to output first; a zero width
    /// switches direction only and emits no pulse.
    pub fn write_bits(&mut self, bits: u32, num_bits: usize)
        ensures
            final(self).delay == old(self).delay,
            final(self).half_period == old(self).half_period,
            final(self).trace@ == old(self).trace@ + mode_events(old(self).data, PinDir::Output)
                + write_events(
                bits as nat,
                num_bits as nat,
                old(self).half_period,
                old(self).data_present(),
                old(self).can_pulse(),
            ),
            old(self).data_present() ==> final(self).data == DataSlot::Output(
                DataOutPin {
                    level: if num_bits == 0 {
                        forced_out_level(old(self).data)
                    } else {
                        level_of_bit((bits as nat / pow2((num_bits - 1) as nat)) % 2)
                    },
                },
            ),
            !old(self).data_present() ==> final(self).data is Released,
            old(self).can_pulse() && num_bits > 0 ==> final(self).clock_pin == Some(
                ClockPin { level: Level::High },
            ),
            !(old(self).can_pulse() && num_bits > 0) ==> final(self).clock_pin == old(
                self,
            ).clock_pin,
    {
        self.set_data_pin_mode(PinDir::Output);
        let ghost s0 = *self;
        let ghost v0 = bits as nat;
        let mut b: u32 = bits;
        let mut i: usize = 0;
        proof {
            lemma2_to64();
            assert(v0 / 1 == v0) by (nonlinear_arith);
        }
        while i < num_bits
            invariant
                i <= num_bits,
                self.delay == s0.delay,
                self.half_period == s0.half_period,
                self.can_pulse() == s0.can_pulse(),
                b as nat == v0 / pow2(i as nat),
                self.trace@ == s0.trace@ + write_events(
                    v0,
                    i as nat,
                    s0.half_period,
                    s0.data_present(),
                    s0.can_pulse(),
                ),
                s0.data_present() ==> self.data == DataSlot::Output(
                    DataOutPin {
                        level: if i == 0 {
                            forced_out_level(s0.data)
                        } else {
                            level_of_bit((v0 / pow2((i - 1) as nat)) % 2)
                        },
                    },
                ),
                !s0.data_present() ==> self.data is Released,
                s0.can_pulse() && i > 0 ==> self.clock_pin == Some(
                    ClockPin { level: Level::High },
                ),
                !(s0.can_pulse() && i > 0) ==> self.clock_pin == s0.clock_pin,
            decreases num_bits - i,
        {
            proof {
                lemma_write_events_snoc(
                    v0,
                    i as nat,
                    s0.half_period,
                    s0.data_present(),
                    s0.can_pulse(),
                );
                lemma_pow2_pos(i as nat);
            }
            let ghost pre = *self;
            self.write_data_pin(b % 2);
            self.write_clock();
            proof {
                assert(b % 2 <= 1);
                assert((b % 2) as nat == (v0 / pow2(i as nat)) % 2);
                assert(self.trace@ =~= pre.trace@ + write_block(
                    v0 / pow2(i as nat),
                    s0.half_period,
                    s0.data_present(),
                    s0.can_pulse(),
                ));
                assert(self.trace@ =~= s0.trace@ + (write_events(
                    v0,
                    i as nat,
                    s0.half_period,
                    s0.data_present(),
                    s0.can_pulse(),
                ) + write_block(
                    v0 / pow2(i as nat),
                    s0.half_period,
                    s0.data_present(),
                    s0.can_pulse(),
                )));
                lemma_pow2_unfold((i + 1) as nat);
                lemma_div_denominator(v0 as int, pow2(i as nat) as int, 2);
            }
            b = b / 2;
            i = i + 1;
        }
    }

    /// Reads the level of the data line: 1 for high, 0 for low, with
    /// the pulled-up line reading high once the target drives nothing
    /// more. With no input resource held, nothing is sampled and the
    /// call reports that no level was available.
    pub fn read_data_pin(&mut self) -> (r: Option<u32>)
        ensures
            final(self).clock_pin == old(self).clock_pin,
            final(self).delay == old(self).delay,
            final(self).half_period == old(self).half_period,
            old(self).data matches DataSlot::Input(pin) ==> (r == Some(
                bit_of_level(head_sample(pin.pending@)) as u32,
            ) && (final(self).data matches DataSlot::Input(q) && q.pending@ == rest_after_sample(
                pin.pending@,
            )) && final(self).trace@ == old(self).trace@ + seq![
                BusEvent::Sample(head_sample(pin.pending@)),
            ]),
            !(old(self).data is Input) ==> r is None && *final(self) == *old(self),
    {
        let mut slot = DataSlot::Released;
        core::mem::swap(&mut slot, &mut self.data);
        match slot {
            DataSlot::Input(mut pin) => {
                let level = if pin.pending.len() > 0 {
                    pin.pending.remove(0)
                } else {
                    Level::High
                };
                proof {
                    assert(pin.pending@ =~= rest_after_sample(old(self).data->Input_0.pending@));
                }
                self.data = DataSlot::Input(pin);
                self.trace.push(BusEvent::Sample(level));
                match level {
                    Level::High => Some(1),
                    Level::Low => Some(0),
                }
            },
            other => {
                self.data = other;
                None
            },
        }
    }

    /// Reads `num_bits` bits from the data line, least-significant-bit
    /// first: each position is sampled, then one clock pulse is
    /// emitted, and the samples assemble into the returned value with
    /// the first sample as bit 0. Direction is forced to input first; a
    /// zero width switches direction only. With the data pin released,
    /// nothing is sampled and the result is zero, but the clock still
    /// pulses.
    pub fn read_bits(&mut self, num_bits: usize) -> (r: u32)
        requires
            num_bits <= 32,
        ensures
            final(self).delay == old(self).delay,
            final(self).half_period == old(self).half_period,
            final(self).trace@ == old(self).trace@ + mode_events(old(self).data, PinDir::Input)
                + read_events(
                forced_pending(old(self).data),
                num_bits as nat,
                old(self).half_period,
                old(self).data_present(),
                old(self).can_pulse(),
            ),
            old(self).data_present() ==> (r as nat == value_of_levels(
                samples(forced_pending(old(self).data), num_bits as nat),
            ) && (final(self).data matches DataSlot::Input(pin) && pin.pending@ == pending_after(
                forced_pending(old(self).data),
                num_bits as nat,
            ))),
            !old(self).data_present() ==> r == 0 && final(self).data is Released,
            old(self).can_pulse() && num_bits > 0 ==> final(self).clock_pin == Some(
                ClockPin { level: Level::High },
            ),
            !(old(self).can_pulse() && num_bits > 0) ==> final(self).clock_pin == old(
                self,
            ).clock_pin,
    {
        self.set_data_pin_mode(PinDir::Input);
        let ghost s0 = *self;
        let ghost pend0 = forced_pending(s0.data);
        let mut acc: u64 = 0;
        let mut weight: u64 = 1;
        let mut i: usize = 0;
        proof {
            lemma2_to64();
        }
        while i < num_bits
            invariant
                i <= num_bits,
                num_bits <= 32,
                self.delay == s0.delay,
                self.half_period == s0.half_period,
                self.can_pulse() == s0.can_pulse(),
                weight as nat == pow2(i as nat),
                s0.data_present() ==> acc as nat == value_of_levels(samples(pend0, i as nat)),
                !s0.data_present() ==> acc == 0,
                self.trace@ == s0.trace@ + read_events(
                    pend0,
                    i as nat,
                    s0.half_period,
                    s0.data_present(),
                    s0.can_pulse(),
                ),
                s0.data_present() ==> (self.data matches DataSlot::Input(pin) && pin.pending@
                    == pending_after(pend0, i as nat)),
                !s0.data_present() ==> self.data is Released,
                s0.can_pulse() && i > 0 ==> self.clock_pin == Some(
                    ClockPin { level: Level::High },
                ),
                !(s0.can_pulse() && i > 0) ==> self.clock_pin == s0.clock_pin,
            decreases num_bits - i,
        {
            proof {
                lemma_read_events_snoc(
                    pend0,
                    i as nat,
                    s0.half_period,
                    s0.data_present(),
                    s0.can_pulse(),
                );
                lemma_samples_snoc(pend0, i as nat);
                lemma_value_of_levels_snoc(samples(pend0, i as nat), nth_sample(pend0, i as nat));
                lemma_pending_after_step(pend0, i as nat);
                lemma_samples_len(pend0, i as nat);
                lemma_value_of_levels_bound(samples(pend0, i as nat));
                lemma_pow2_strictly_increases(i as nat, 32);
                lemma2_to64();
            }
            let ghost pre = *self;
            match self.read_data_pin() {
                Some(level) => {
                    proof {
                        assert(samples(pend0, i as nat).len() == i as nat);
                        assert(samples(pend0, (i + 1) as nat) == samples(pend0, i as nat)
                            + seq![nth_sample(pend0, i as nat)]);
                    }
                    acc = acc + (level as u64) * weight;
                },
                None => {
                },
            }
            self.write_clock();
            proof {
                assert(self.trace@ =~= s0.trace@ + (read_events(
                    pend0,
                    i as nat,
                    s0.half_period,
                    s0.data_present(),
                    s0.can_pulse(),
                ) + read_block(
                    nth_sample(pend0, i as nat),
                    s0.half_period,
                    s0.data_present(),
                    s0.can_pulse(),
                )));
                lemma_pow2_unfold((i + 1) as nat);
            }
            weight = weight * 2;
            i = i + 1;
        }
        proof {
            lemma_samples_len(pend0, num_bits as nat);
            lemma_value_of_levels_bound(samples(pend0, num_bits as nat));
            if (num_bits as nat) < 32 {
                lemma_pow2_strictly_increases(num_bits as nat, 32);
            }
            lemma2_to64();
            assert(acc < 0x1_0000_0000);
        }
        acc as u32
    }

    /// Returns the bus to its resting state: eight zero bits are
    /// written, then the clock line and the data line are each forced
    /// low, so both lines end at logic low whatever they held before.
    pub fn write_idle(&mut self)
        requires
            old(self).clock_pin is Some,
            old(self).data_present(),
        ensures
            final(self).clock_pin == Some(ClockPin { level: Level::Low }),
            final(self).data == DataSlot::Output(DataOutPin { level: Level::Low }),
            final(self).delay == old(self).delay,
            final(self).half_period == old(self).half_period,
            final(self).trace@ == old(self).trace@ + mode_events(old(self).data, PinDir::Output)
                + write_events(
                0,
                8,
                old(self).half_period,
                true,
                old(self).can_pulse(),
            ) + seq![BusEvent::Clock(Level::Low), BusEvent::Data(Level::Low)],
    {
        self.write_bits(0, 8);
        self.clock_pin = Some(ClockPin { level: Level::Low });
        self.trace.push(BusEvent::Clock(Level::Low));
        self.data = DataSlot::Output(DataOutPin { level: Level::Low });
        self.trace.push(BusEvent::Data(Level::Low));
    }
}

} // verus!
