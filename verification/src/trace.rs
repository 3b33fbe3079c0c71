//! The serialization model: what sequence of hardware actions a bit-field
//! write or read performs, and what is observable in such a sequence.
//!
//! Writes and reads are least-significant-bit first: bit 0 of a value is
//! driven on (or sampled at) the first clock pulse. A pulse is skipped
//! when either the clock pin or the timing source is absent, and a data
//! drive or sample is skipped when the data slot is absent; the `data`,
//! `present` and `pulse` flags of the spec functions carry those cases.

use vstd::prelude::*;

use crate::line::{bit_of_level, level_of_bit, pulse_events, BusEvent, Level};
use vstd::arithmetic::div_mod::{lemma_div_denominator, lemma_mod_breakdown};
use vstd::arithmetic::power2::{lemma2_to64, lemma_pow2_pos, lemma_pow2_unfold, pow2};

verus! {

/// The levels a write of the `n` low bits of `v` drives on the data
/// line, in order: bit 0 first.
pub open spec fn write_levels(v: nat, n: nat) -> Seq<Level>
    decreases n,
{
    if n == 0 {
        Seq::empty()
    } else {
        seq![level_of_bit(v % 2)] + write_levels(v / 2, (n - 1) as nat)
    }
}

/// The actions of one write step for the low bit of `w`: drive the data
/// line (if a data pin is held), then pulse the clock (if clock and
/// timing source are held).
pub open spec fn write_block(w: nat, p: u32, data: bool, pulse: bool) -> Seq<BusEvent> {
    (if data {
        seq![BusEvent::Data(level_of_bit(w % 2))]
    } else {
        Seq::empty()
    }) + (if pulse {
        pulse_events(p)
    } else {
        Seq::empty()
    })
}

/// The actions of a full `n`-bit write of `v`, least-significant-bit
/// first, with half-period `p`.
pub open spec fn write_events(v: nat, n: nat, p: u32, data: bool, pulse: bool) -> Seq<BusEvent>
    decreases n,
{
    if n == 0 {
        Seq::empty()
    } else {
        write_block(v, p, data, pulse) + write_events(v / 2, (n - 1) as nat, p, data, pulse)
    }
}

/// The level the next sample of a pulled-up input reads: the head of the
/// pending levels, or high once they are exhausted.
pub open spec fn head_sample(pending: Seq<Level>) -> Level {
    if pending.len() > 0 {
        pending[0]
    } else {
        Level::High
    }
}

/// The pending levels left after one sample.
pub open spec fn rest_after_sample(pending: Seq<Level>) -> Seq<Level> {
    if pending.len() > 0 {
        pending.drop_first()
    } else {
        pending
    }
}

/// The level the sample at position `i` reads.
pub open spec fn nth_sample(pending: Seq<Level>, i: nat) -> Level {
    if i < pending.len() {
        pending[i as int]
    } else {
        Level::High
    }
}

/// The `n` levels successive samples read from `pending`.
pub open spec fn samples(pending: Seq<Level>, n: nat) -> Seq<Level>
    decreases n,
{
    if n == 0 {
        Seq::empty()
    } else {
        seq![head_sample(pending)] + samples(rest_after_sample(pending), (n - 1) as nat)
    }
}

/// The pending levels left after `n` samples.
pub open spec fn pending_after(pending: Seq<Level>, n: nat) -> Seq<Level> {
    if n <= pending.len() {
        pending.skip(n as int)
    } else {
        Seq::empty()
    }
}

/// The actions of one read step sampling level `l`: sample the data line
/// (if an input pin is held), then pulse the clock (if clock and timing
/// source are held).
pub open spec fn read_block(l: Level, p: u32, present: bool, pulse: bool) -> Seq<BusEvent> {
    (if present {
        seq![BusEvent::Sample(l)]
    } else {
        Seq::empty()
    }) + (if pulse {
        pulse_events(p)
    } else {
        Seq::empty()
    })
}

/// The actions of a full `n`-bit read over `pending`, with half-period `p`.
pub open spec fn read_events(pending: Seq<Level>, n: nat, p: u32, present: bool, pulse: bool) -> Seq<
    BusEvent,
>
    decreases n,
{
    if n == 0 {
        Seq::empty()
    } else {
        read_block(head_sample(pending), p, present, pulse) + read_events(
            rest_after_sample(pending),
            (n - 1) as nat,
            p,
            present,
            pulse,
        )
    }
}

/// The value sampled levels assemble into, least-significant-bit first:
/// the first level is bit 0.
pub open spec fn value_of_levels(ls: Seq<Level>) -> nat
    decreases ls.len(),
{
    if ls.len() == 0 {
        0
    } else {
        bit_of_level(ls[0]) + 2 * value_of_levels(ls.drop_first())
    }
}

/// The levels driven on the data line over a trace, in order.
pub open spec fn data_levels_of(tr: Seq<BusEvent>) -> Seq<Level>
    decreases tr.len(),
{
    if tr.len() == 0 {
        Seq::empty()
    } else {
        match tr[0] {
            BusEvent::Data(l) => seq![l] + data_levels_of(tr.drop_first()),
            _ => data_levels_of(tr.drop_first()),
        }
    }
}

/// The levels driven on the clock line over a trace, in order.
pub open spec fn clock_levels_of(tr: Seq<BusEvent>) -> Seq<Level>
    decreases tr.len(),
{
    if tr.len() == 0 {
        Seq::empty()
    } else {
        match tr[0] {
            BusEvent::Clock(l) => seq![l] + clock_levels_of(tr.drop_first()),
            _ => clock_levels_of(tr.drop_first()),
        }
    }
}

/// The total time a trace blocks the caller, in milliseconds.
pub open spec fn total_wait(tr: Seq<BusEvent>) -> nat
    decreases tr.len(),
{
    if tr.len() == 0 {
        0
    } else {
        (match tr[0] {
            BusEvent::Wait(p) => p as nat,
            _ => 0,
        }) + total_wait(tr.drop_first())
    }
}

/// The clock levels of `n` pulses: low then high, `n` times over.
pub open spec fn pulse_train(n: nat) -> Seq<Level>
    decreases n,
{
    if n == 0 {
        Seq::empty()
    } else {
        seq![Level::Low, Level::High] + pulse_train((n - 1) as nat)
    }
}

pub proof fn lemma_data_levels_append(a: Seq<BusEvent>, b: Seq<BusEvent>)
    ensures
        data_levels_of(a + b) == data_levels_of(a) + data_levels_of(b),
    decreases a.len(),
{
    if a.len() == 0 {
        assert(a + b =~= b);
        assert(data_levels_of(a) + data_levels_of(b) =~= data_levels_of(b));
    } else {
        assert((a + b).drop_first() =~= a.drop_first() + b);
        lemma_data_levels_append(a.drop_first(), b);
        if a[0] is Data {
            assert(seq![a[0]->Data_0] + (data_levels_of(a.drop_first()) + data_levels_of(b))
                =~= (seq![a[0]->Data_0] + data_levels_of(a.drop_first())) + data_levels_of(b));
        }
    }
}

pub proof fn lemma_clock_levels_append(a: Seq<BusEvent>, b: Seq<BusEvent>)
    ensures
        clock_levels_of(a + b) == clock_levels_of(a) + clock_levels_of(b),
    decreases a.len(),
{
    if a.len() == 0 {
        assert(a + b =~= b);
        assert(clock_levels_of(a) + clock_levels_of(b) =~= clock_levels_of(b));
    } else {
        assert((a + b).drop_first() =~= a.drop_first() + b);
        lemma_clock_levels_append(a.drop_first(), b);
        if a[0] is Clock {
            assert(seq![a[0]->Clock_0] + (clock_levels_of(a.drop_first()) + clock_levels_of(b))
                =~= (seq![a[0]->Clock_0] + clock_levels_of(a.drop_first())) + clock_levels_of(b));
        }
    }
}

pub proof fn lemma_total_wait_append(a: Seq<BusEvent>, b: Seq<BusEvent>)
    ensures
        total_wait(a + b) == total_wait(a) + total_wait(b),
    decreases a.len(),
{
    if a.len() == 0 {
        assert(a + b =~= b);
    } else {
        assert((a + b).drop_first() =~= a.drop_first() + b);
        lemma_total_wait_append(a.drop_first(), b);
    }
}

/// What one clock pulse shows: no data level, the clock driven low then
/// high, and a block of twice the half-period.
pub proof fn lemma_pulse_events_observed(p: u32)
    ensures
        data_levels_of(pulse_events(p)) == Seq::<Level>::empty(),
        clock_levels_of(pulse_events(p)) == seq![Level::Low, Level::High],
        total_wait(pulse_events(p)) == 2 * p,
        pulse_events(p).len() == 4,
{
    reveal_with_fuel(data_levels_of, 6);
    reveal_with_fuel(clock_levels_of, 6);
    reveal_with_fuel(total_wait, 6);
    let s = pulse_events(p);
    let s1 = s.drop_first();
    let s2 = s1.drop_first();
    let s3 = s2.drop_first();
    assert(s1 =~= seq![BusEvent::Wait(p), BusEvent::Clock(Level::High), BusEvent::Wait(p)]);
    assert(s2 =~= seq![BusEvent::Clock(Level::High), BusEvent::Wait(p)]);
    assert(s3 =~= seq![BusEvent::Wait(p)]);
    assert(s3.drop_first() =~= Seq::<BusEvent>::empty());
    assert(data_levels_of(s) =~= Seq::<Level>::empty());
    assert(clock_levels_of(s) =~= seq![Level::Low, Level::High]);
}

/// What an `n`-bit write shows on the lines: exactly the bit levels of
/// the value on the data line, exactly `n` low-then-high pulses on the
/// clock line, and a block of `2 * n` half-periods.
pub proof fn lemma_write_events_observed(v: nat, n: nat, p: u32, data: bool, pulse: bool)
    ensures
        data_levels_of(write_events(v, n, p, data, pulse)) == (if data {
            write_levels(v, n)
        } else {
            Seq::<Level>::empty()
        }),
        clock_levels_of(write_events(v, n, p, data, pulse)) == (if pulse {
            pulse_train(n)
        } else {
            Seq::<Level>::empty()
        }),
        total_wait(write_events(v, n, p, data, pulse)) == (if pulse {
            2 * n * p
        } else {
            0
        }),
    decreases n,
{
    if n == 0 {
    } else {
        let blk = write_block(v, p, data, pulse);
        let rest = write_events(v / 2, (n - 1) as nat, p, data, pulse);
        lemma_write_events_observed(v / 2, (n - 1) as nat, p, data, pulse);
        lemma_data_levels_append(blk, rest);
        lemma_clock_levels_append(blk, rest);
        lemma_total_wait_append(blk, rest);
        lemma_pulse_events_observed(p);
        let d = (if data {
            seq![BusEvent::Data(level_of_bit(v % 2))]
        } else {
            Seq::<BusEvent>::empty()
        });
        let c = (if pulse {
            pulse_events(p)
        } else {
            Seq::<BusEvent>::empty()
        });
        lemma_data_levels_append(d, c);
        lemma_clock_levels_append(d, c);
        lemma_total_wait_append(d, c);
        if data {
            reveal_with_fuel(data_levels_of, 3);
            reveal_with_fuel(clock_levels_of, 3);
            reveal_with_fuel(total_wait, 3);
            assert(d.drop_first() =~= Seq::<BusEvent>::empty());
            assert(data_levels_of(d) =~= seq![level_of_bit(v % 2)]);
            assert(clock_levels_of(d) =~= Seq::<Level>::empty());
            assert(total_wait(d) == 0);
            assert(seq![level_of_bit(v % 2)] + write_levels(v / 2, (n - 1) as nat)
                =~= write_levels(v, n));
        }
        if pulse {
            assert(seq![Level::Low, Level::High] + pulse_train((n - 1) as nat) =~= pulse_train(n));
            assert(2 * p + 2 * ((n - 1) as nat) * p == 2 * n * p) by (nonlinear_arith)
                requires n >= 1;
        }
        if data {
            assert(data_levels_of(write_events(v, n, p, data, pulse))
                =~= seq![level_of_bit(v % 2)] + write_levels(v / 2, (n - 1) as nat));
        } else {
            assert(data_levels_of(write_events(v, n, p, data, pulse)) =~= Seq::<Level>::empty());
        }
        if pulse {
            assert(clock_levels_of(write_events(v, n, p, data, pulse))
                =~= seq![Level::Low, Level::High] + pulse_train((n - 1) as nat));
        } else {
            assert(clock_levels_of(write_events(v, n, p, data, pulse)) =~= Seq::<Level>::empty());
        }
    }
}

/// The pulse train of `n` pulses holds `2 * n` clock transitions.
pub proof fn lemma_pulse_train_len(n: nat)
    ensures
        pulse_train(n).len() == 2 * n,
    decreases n,
{
    if n > 0 {
        lemma_pulse_train_len((n - 1) as nat);
    }
}

/// The bit levels of `v` over `n` positions assemble back into `v`
/// truncated to `n` bits.
pub proof fn lemma_write_levels_value(v: nat, n: nat)
    ensures
        write_levels(v, n).len() == n,
        value_of_levels(write_levels(v, n)) == v % pow2(n),
    decreases n,
{
    lemma2_to64();
    if n == 0 {
        assert(v % 1 == 0) by (nonlinear_arith);
    } else {
        lemma_write_levels_value(v / 2, (n - 1) as nat);
        let ls = write_levels(v, n);
        assert(ls.drop_first() =~= write_levels(v / 2, (n - 1) as nat));
        lemma_pow2_unfold(n);
        lemma_pow2_pos((n - 1) as nat);
        lemma_mod_breakdown(v as int, 2, pow2((n - 1) as nat) as int);
        assert(bit_of_level(level_of_bit(v % 2)) == v % 2);
    }
}

/// A value assembled from levels fits in as many bits as there are levels.
pub proof fn lemma_value_of_levels_bound(ls: Seq<Level>)
    ensures
        value_of_levels(ls) < pow2(ls.len()),
    decreases ls.len(),
{
    lemma2_to64();
    if ls.len() > 0 {
        lemma_value_of_levels_bound(ls.drop_first());
        lemma_pow2_unfold(ls.len());
    }
}

/// Taking `n` samples reads exactly `n` levels.
pub proof fn lemma_samples_len(pending: Seq<Level>, n: nat)
    ensures
        samples(pending, n).len() == n,
    decreases n,
{
    if n > 0 {
        lemma_samples_len(rest_after_sample(pending), (n - 1) as nat);
    }
}

/// Sampling exactly as many levels as are pending reads them all back.
pub proof fn lemma_samples_exact(ls: Seq<Level>)
    ensures
        samples(ls, ls.len()) == ls,
    decreases ls.len(),
{
    if ls.len() > 0 {
        lemma_samples_exact(ls.drop_first());
        assert(samples(ls, ls.len()) =~= ls);
    } else {
        assert(samples(ls, 0) =~= ls);
    }
}

/// An `n + 1`-bit write is an `n`-bit write followed by the step for
/// bit `n`.
pub proof fn lemma_write_events_snoc(v: nat, n: nat, p: u32, data: bool, pulse: bool)
    ensures
        write_events(v, n + 1, p, data, pulse) == write_events(v, n, p, data, pulse) + write_block(
            v / pow2(n),
            p,
            data,
            pulse,
        ),
    decreases n,
{
    lemma2_to64();
    reveal_with_fuel(write_events, 3);
    if n == 0 {
        assert(v / 1 == v) by (nonlinear_arith);
        assert(write_block(v, p, data, pulse) + Seq::<BusEvent>::empty()
            =~= Seq::<BusEvent>::empty() + write_block(v, p, data, pulse));
    } else {
        lemma_write_events_snoc(v / 2, (n - 1) as nat, p, data, pulse);
        lemma_pow2_unfold(n);
        lemma_pow2_pos((n - 1) as nat);
        lemma_div_denominator(v as int, 2, pow2((n - 1) as nat) as int);
        assert((v / 2) / pow2((n - 1) as nat) == v / pow2(n));
        assert(write_block(v, p, data, pulse) + (write_events(v / 2, (n - 1) as nat, p, data, pulse)
            + write_block(v / pow2(n), p, data, pulse)) =~= (write_block(v, p, data, pulse)
            + write_events(v / 2, (n - 1) as nat, p, data, pulse)) + write_block(
            v / pow2(n),
            p,
            data,
            pulse,
        ));
    }
}

/// An `n + 1`-bit read is an `n`-bit read followed by the step for the
/// sample at position `n`.
pub proof fn lemma_read_events_snoc(pending: Seq<Level>, n: nat, p: u32, present: bool, pulse: bool)
    ensures
        read_events(pending, n + 1, p, present, pulse) == read_events(pending, n, p, present, pulse)
            + read_block(nth_sample(pending, n), p, present, pulse),
    decreases n,
{
    reveal_with_fuel(read_events, 3);
    if n == 0 {
        assert(nth_sample(pending, 0) == head_sample(pending));
        assert(read_block(head_sample(pending), p, present, pulse) + Seq::<BusEvent>::empty()
            =~= Seq::<BusEvent>::empty() + read_block(head_sample(pending), p, present, pulse));
    } else {
        let rest = rest_after_sample(pending);
        lemma_read_events_snoc(rest, (n - 1) as nat, p, present, pulse);
        assert(nth_sample(rest, (n - 1) as nat) == nth_sample(pending, n));
        assert(read_block(head_sample(pending), p, present, pulse) + (read_events(
            rest,
            (n - 1) as nat,
            p,
            present,
            pulse,
        ) + read_block(nth_sample(pending, n), p, present, pulse)) =~= (read_block(
            head_sample(pending),
            p,
            present,
            pulse,
        ) + read_events(rest, (n - 1) as nat, p, present, pulse)) + read_block(
            nth_sample(pending, n),
            p,
            present,
            pulse,
        ));
    }
}

/// Taking `n + 1` samples takes `n` samples and then the one at
/// position `n`.
pub proof fn lemma_samples_snoc(pending: Seq<Level>, n: nat)
    ensures
        samples(pending, n + 1) == samples(pending, n) + seq![nth_sample(pending, n)],
    decreases n,
{
    reveal_with_fuel(samples, 3);
    if n == 0 {
        assert(samples(pending, 1) =~= seq![nth_sample(pending, 0)]);
        assert(samples(pending, 0) + seq![nth_sample(pending, 0)]
            =~= seq![nth_sample(pending, 0)]);
    } else {
        let rest = rest_after_sample(pending);
        lemma_samples_snoc(rest, (n - 1) as nat);
        assert(nth_sample(rest, (n - 1) as nat) == nth_sample(pending, n));
        assert(seq![head_sample(pending)] + (samples(rest, (n - 1) as nat) + seq![nth_sample(
            pending,
            n,
        )]) =~= (seq![head_sample(pending)] + samples(rest, (n - 1) as nat)) + seq![nth_sample(
            pending,
            n,
        )]);
    }
}

/// Appending a level to sampled levels adds its bit at the next weight.
pub proof fn lemma_value_of_levels_snoc(ls: Seq<Level>, l: Level)
    ensures
        value_of_levels(ls + seq![l]) == value_of_levels(ls) + bit_of_level(l) * pow2(ls.len()),
    decreases ls.len(),
{
    lemma2_to64();
    reveal_with_fuel(value_of_levels, 3);
    if ls.len() == 0 {
        assert(ls + seq![l] =~= seq![l]);
        assert((seq![l]).drop_first() =~= Seq::<Level>::empty());
    } else {
        lemma_value_of_levels_snoc(ls.drop_first(), l);
        assert((ls + seq![l]).drop_first() =~= ls.drop_first() + seq![l]);
        lemma_pow2_unfold(ls.len());
        assert(2 * (value_of_levels(ls.drop_first()) + bit_of_level(l) * pow2((ls.len() - 1) as nat))
            == 2 * value_of_levels(ls.drop_first()) + bit_of_level(l) * (2 * pow2(
            (ls.len() - 1) as nat,
        ))) by (nonlinear_arith);
    }
}

/// After `n` samples, the head and rest of what is left are the sample
/// at position `n` and what is left after `n + 1`.
pub proof fn lemma_pending_after_step(pending: Seq<Level>, n: nat)
    ensures
        head_sample(pending_after(pending, n)) == nth_sample(pending, n),
        rest_after_sample(pending_after(pending, n)) == pending_after(pending, n + 1),
{
    if n < pending.len() {
        assert(pending_after(pending, n).drop_first() =~= pending_after(pending, n + 1));
    } else {
        assert(pending_after(pending, n) =~= Seq::<Level>::empty());
        assert(pending_after(pending, n + 1) =~= Seq::<Level>::empty());
    }
}

} // verus!
