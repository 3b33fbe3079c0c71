//! Line-level guarantees of the serialization model, stated over the
//! traces the driver's contracts promise.

use vstd::prelude::*;

use crate::line::{level_of_bit, pulse_events, BusEvent, Level};
use crate::trace::{
    clock_levels_of, data_levels_of, lemma_pulse_events_observed, lemma_pulse_train_len,
    lemma_samples_exact, lemma_write_events_observed, lemma_write_levels_value, pulse_train,
    samples, total_wait, value_of_levels, write_events, write_levels,
};
use vstd::arithmetic::power2::pow2;

verus! {

/// Loopback: the levels an `n`-bit write of `v` drives on the data line,
/// wired back in and sampled by an `n`-bit read, assemble into `v`
/// truncated to `n` bits. While it runs, the clock line makes exactly
/// `n` low-then-high pulses and the caller is blocked for `2 * n`
/// half-periods.
pub proof fn lemma_write_read_loopback(v: nat, n: nat, p: u32)
    ensures
        data_levels_of(write_events(v, n, p, true, true)) == write_levels(v, n),
        write_levels(v, n).len() == n,
        value_of_levels(samples(write_levels(v, n), n)) == v % pow2(n),
        clock_levels_of(write_events(v, n, p, true, true)) == pulse_train(n),
        pulse_train(n).len() == 2 * n,
        total_wait(write_events(v, n, p, true, true)) == 2 * n * p,
{
    lemma_write_events_observed(v, n, p, true, true);
    lemma_write_levels_value(v, n);
    lemma_samples_exact(write_levels(v, n));
    lemma_pulse_train_len(n);
}

/// Bits go out least-significant-bit first: the very first action of a
/// write is to drive the data line to bit 0 of the value.
pub proof fn lemma_write_lsb_first(v: nat, n: nat, p: u32, pulse: bool)
    requires
        n >= 1,
    ensures
        write_events(v, n, p, true, pulse)[0] == BusEvent::Data(level_of_bit(v % 2)),
        data_levels_of(write_events(v, n, p, true, pulse))[0] == level_of_bit(v % 2),
{
    lemma_write_events_observed(v, n, p, true, pulse);
}

/// One clock pulse blocks the caller for exactly two half-periods and
/// drives exactly two transitions on the clock line, low then high,
/// whatever the half-period — including zero.
pub proof fn lemma_pulse_shape(p: u32)
    ensures
        total_wait(pulse_events(p)) == 2 * p,
        clock_levels_of(pulse_events(p)) == seq![Level::Low, Level::High],
        data_levels_of(pulse_events(p)) == Seq::<Level>::empty(),
        pulse_events(p).len() == 4,
{
    lemma_pulse_events_observed(p);
}

} // verus!
