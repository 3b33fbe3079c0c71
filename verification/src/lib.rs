//! Bit-level transport for an ARM Serial Wire Debug (SWD) probe.
//!
//! The driver owns a clock line, a bidirectional data line and a blocking
//! timing source, and offers the primitives a SWD protocol layer would be
//! built on: switching the data line between drive and sense, emitting
//! clock pulses of a configured half-period, and serializing or
//! deserializing a bit field least-significant-bit first.
//!
//! Hardware is represented by plain model values: each pin records the
//! level it is driven to or the levels it will sense, and every action the
//! driver takes on the lines is appended to an ordered event trace. Board
//! glue replays that trace onto the physical GPIO and delay peripherals.

pub mod laws;
pub mod line;
pub mod swd;
pub mod trace;
