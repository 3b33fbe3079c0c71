use swd_driver::line::{BusEvent, ClockPin, DataInPin, DataOutPin, DelaySource, Level, PinDir};
use swd_driver::swd::{DataSlot, Swd};

fn fresh_driver() -> Swd {
    Swd::new(
        ClockPin { level: Level::Low },
        DataOutPin { level: Level::Low },
        DelaySource {},
    )
}

fn data_bits(trace: &[BusEvent]) -> Vec<u32> {
    let mut out: Vec<u32> = Vec::new();
    for e in trace {
        if let BusEvent::Data(l) = e {
            out.push(if *l == Level::High { 1 } else { 0 });
        }
    }
    out
}

fn clock_levels(trace: &[BusEvent]) -> Vec<Level> {
    let mut out: Vec<Level> = Vec::new();
    for e in trace {
        if let BusEvent::Clock(l) = e {
            out.push(*l);
        }
    }
    out
}

fn waited_ms(trace: &[BusEvent]) -> u64 {
    let mut total: u64 = 0;
    for e in trace {
        if let BusEvent::Wait(p) = e {
            total += *p as u64;
        }
    }
    total
}

fn pulse_count(trace: &[BusEvent]) -> usize {
    trace
        .iter()
        .filter(|e| matches!(e, BusEvent::Clock(Level::Low)))
        .count()
}

fn feed_back(levels: Vec<u32>) -> DataInPin {
    DataInPin {
        pending: levels
            .into_iter()
            .map(|b| if b == 1 { Level::High } else { Level::Low })
            .collect(),
    }
}

#[test]
fn construction_starts_in_output_with_zero_half_period() {
    let s = fresh_driver();
    assert_eq!(s.half_period, 0);
    assert!(s.trace.is_empty());
    assert!(matches!(s.data, DataSlot::Output(_)));
    assert!(s.clock_pin.is_some());
    assert!(s.delay.is_some());
}

#[test]
fn write_bits_scenario_101_with_half_period_10() {
    let mut s = fresh_driver();
    s.set_half_period(10);
    s.write_bits(0b101, 3);
    let expected = vec![
        BusEvent::Data(Level::High),
        BusEvent::Clock(Level::Low),
        BusEvent::Wait(10),
        BusEvent::Clock(Level::High),
        BusEvent::Wait(10),
        BusEvent::Data(Level::Low),
        BusEvent::Clock(Level::Low),
        BusEvent::Wait(10),
        BusEvent::Clock(Level::High),
        BusEvent::Wait(10),
        BusEvent::Data(Level::High),
        BusEvent::Clock(Level::Low),
        BusEvent::Wait(10),
        BusEvent::Clock(Level::High),
        BusEvent::Wait(10),
    ];
    assert_eq!(s.trace, expected);
    assert_eq!(data_bits(&s.trace), vec![1, 0, 1]);
    assert_eq!(waited_ms(&s.trace), 60);
}

#[test]
fn write_bits_emits_lsb_first() {
    let mut s = fresh_driver();
    s.write_bits(0b10, 2);
    assert_eq!(s.trace[0], BusEvent::Data(Level::Low));
    let mut t = fresh_driver();
    t.write_bits(0b01, 2);
    assert_eq!(t.trace[0], BusEvent::Data(Level::High));
    assert_eq!(data_bits(&t.trace), vec![1, 0]);
}

#[test]
fn write_bits_truncates_to_width() {
    let mut s = fresh_driver();
    s.write_bits(0b1111, 2);
    assert_eq!(data_bits(&s.trace), vec![1, 1]);
    assert_eq!(pulse_count(&s.trace), 2);
}

#[test]
fn set_direction_is_idempotent() {
    let mut s = fresh_driver();
    s.set_data_pin_mode(PinDir::Output);
    assert!(s.trace.is_empty());
    assert!(matches!(s.data, DataSlot::Output(_)));
    s.set_data_pin_mode(PinDir::Input);
    assert_eq!(s.trace, vec![BusEvent::Mode(PinDir::Input)]);
    s.set_data_pin_mode(PinDir::Input);
    assert_eq!(s.trace, vec![BusEvent::Mode(PinDir::Input)]);
}

#[test]
fn set_direction_after_release_is_noop() {
    let mut s = fresh_driver();
    let _pin = s.release_data_pin();
    let before = s.trace.clone();
    s.set_data_pin_mode(PinDir::Input);
    s.set_data_pin_mode(PinDir::Output);
    assert_eq!(s.trace, before);
    assert!(matches!(s.data, DataSlot::Released));
}

#[test]
fn write_idle_leaves_both_lines_low() {
    let mut s = fresh_driver();
    s.write_bits(0b11, 2);
    s.write_idle();
    assert!(matches!(s.clock_pin, Some(ClockPin { level: Level::Low })));
    assert!(matches!(s.data, DataSlot::Output(DataOutPin { level: Level::Low })));
    let n = s.trace.len();
    assert_eq!(s.trace[n - 2], BusEvent::Clock(Level::Low));
    assert_eq!(s.trace[n - 1], BusEvent::Data(Level::Low));
}

#[test]
fn write_idle_emits_eight_zero_bits() {
    let mut s = fresh_driver();
    s.write_idle();
    assert_eq!(data_bits(&s.trace), vec![0, 0, 0, 0, 0, 0, 0, 0, 0]);
    let rising_edges = s
        .trace
        .iter()
        .filter(|e| matches!(e, BusEvent::Clock(Level::High)))
        .count();
    assert_eq!(rising_edges, 8);
}

#[test]
fn pulse_clock_blocks_two_half_periods_and_toggles_twice() {
    let mut s = fresh_driver();
    s.set_half_period(10);
    s.write_clock();
    assert_eq!(
        s.trace,
        vec![
            BusEvent::Clock(Level::Low),
            BusEvent::Wait(10),
            BusEvent::Clock(Level::High),
            BusEvent::Wait(10),
        ]
    );
    assert!(waited_ms(&s.trace) >= 20);
    assert_eq!(clock_levels(&s.trace), vec![Level::Low, Level::High]);
}

#[test]
fn pulse_clock_with_zero_half_period_still_toggles() {
    let mut s = fresh_driver();
    s.write_clock();
    assert_eq!(waited_ms(&s.trace), 0);
    assert_eq!(clock_levels(&s.trace), vec![Level::Low, Level::High]);
}

#[test]
fn zero_width_write_and_read_issue_no_pulses() {
    let mut s = fresh_driver();
    s.write_bits(0xFF, 0);
    assert!(s.trace.is_empty());
    assert!(matches!(s.data, DataSlot::Output(_)));
    s.read_bits(0);
    assert_eq!(s.trace, vec![BusEvent::Mode(PinDir::Input)]);
    assert!(matches!(s.data, DataSlot::Input(_)));
}

#[test]
fn loopback_returns_value_truncated_to_width() {
    for &(value, width) in
        &[(0b101u32, 3usize), (0, 1), (1, 1), (0xA5, 8), (0xFFFF_FFFF, 31), (12345, 14)]
    {
        let mut writer = fresh_driver();
        writer.set_half_period(1);
        writer.write_bits(value, width);
        assert_eq!(pulse_count(&writer.trace), width);
        assert_eq!(waited_ms(&writer.trace), 2 * width as u64);

        let mut reader = fresh_driver();
        reader.data = DataSlot::Input(feed_back(data_bits(&writer.trace)));
        let got = reader.read_bits(width);
        let mask = if width == 32 { u32::MAX } else { (1u32 << width) - 1 };
        assert_eq!(got, value & mask);
    }
}

#[test]
fn read_bits_assembles_lsb_first() {
    let mut s = fresh_driver();
    s.data = DataSlot::Input(DataInPin {
        pending: vec![Level::High, Level::Low, Level::Low],
    });
    assert_eq!(s.read_bits(3), 1);
}

#[test]
fn read_bits_pulled_up_line_reads_high() {
    let mut s = fresh_driver();
    s.data = DataSlot::Input(DataInPin { pending: vec![Level::Low] });
    assert_eq!(s.read_bits(3), 0b110);
    let mut t = fresh_driver();
    assert_eq!(t.read_bits(4), 0b1111);
    let mut u = fresh_driver();
    u.data = DataSlot::Input(DataInPin { pending: Vec::new() });
    assert_eq!(u.read_bits(4), 0b1111);
}

#[test]
fn read_bits_samples_then_pulses() {
    let mut s = fresh_driver();
    s.data = DataSlot::Input(DataInPin { pending: vec![Level::High] });
    s.read_bits(1);
    assert_eq!(
        s.trace,
        vec![
            BusEvent::Sample(Level::High),
            BusEvent::Clock(Level::Low),
            BusEvent::Wait(0),
            BusEvent::Clock(Level::High),
            BusEvent::Wait(0),
        ]
    );
}

#[test]
fn release_data_pin_forces_output_mode() {
    let mut s = fresh_driver();
    s.read_bits(2);
    assert!(matches!(s.data, DataSlot::Input(_)));
    let before = s.trace.len();
    let pin: DataOutPin = s.release_data_pin();
    assert_eq!(pin.level, Level::Low);
    assert!(matches!(s.data, DataSlot::Released));
    assert_eq!(s.trace[before], BusEvent::Mode(PinDir::Output));
}

#[test]
fn release_data_pin_keeps_driven_level() {
    let mut s = fresh_driver();
    s.write_bits(1, 1);
    let pin = s.release_data_pin();
    assert_eq!(pin.level, Level::High);
}

#[test]
fn released_data_pin_degrades_writes_and_reads() {
    let mut s = fresh_driver();
    s.release_data_pin();
    s.write_bits(0b101, 3);
    assert_eq!(data_bits(&s.trace), Vec::<u32>::new());
    assert_eq!(pulse_count(&s.trace), 3);
    let before = s.trace.len();
    assert_eq!(s.read_bits(2), 0);
    assert_eq!(pulse_count(&s.trace[before..]), 2);
    assert!(!s.trace[before..].iter().any(|e| matches!(e, BusEvent::Sample(_))));
}

#[test]
fn released_clock_pin_silences_pulses() {
    let mut s = fresh_driver();
    let _pin: ClockPin = s.release_clock_pin();
    s.write_clock();
    assert!(s.trace.is_empty());
    s.write_bits(0b1, 1);
    assert_eq!(s.trace, vec![BusEvent::Data(Level::High)]);
}

#[test]
fn released_delay_silences_pulses() {
    let mut s = fresh_driver();
    let _d: DelaySource = s.release_delay();
    s.write_clock();
    assert!(s.trace.is_empty());
    s.write_bits(0b1, 1);
    assert_eq!(s.trace, vec![BusEvent::Data(Level::High)]);
}

#[test]
fn write_data_pin_ignores_multi_bit_values() {
    let mut s = fresh_driver();
    s.write_data_pin(2);
    assert!(s.trace.is_empty());
    s.write_data_pin(1);
    assert_eq!(s.trace, vec![BusEvent::Data(Level::High)]);
    s.write_data_pin(0);
    assert_eq!(
        s.trace,
        vec![BusEvent::Data(Level::High), BusEvent::Data(Level::Low)]
    );
}

#[test]
fn take_actions_drains_the_trace() {
    let mut s = fresh_driver();
    s.write_clock();
    let actions = s.take_actions();
    assert_eq!(actions.len(), 4);
    assert_eq!(actions[0], BusEvent::Clock(Level::Low));
    assert!(s.trace.is_empty());
    s.write_clock();
    assert_eq!(s.take_actions(), actions);
}

#[test]
fn read_data_pin_reports_absent_input() {
    let mut s = fresh_driver();
    assert_eq!(s.read_data_pin(), None);
    s.set_data_pin_mode(PinDir::Input);
    assert_eq!(s.read_data_pin(), Some(1));
}
