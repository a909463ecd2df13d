//! A verified CHIP-8 interpreter core.
//!
//! The machine state lives in [`cpu::YARCH8`]; one instruction step is
//! performed by `decode_execute`, whose behaviour is pinned down by the
//! specification relation in [`semantics`]. Timers are driven by an injected
//! monotonic clock (plain nanosecond readings), so their behaviour is
//! deterministic and fully specified.

pub mod cpu;
pub mod exec;
pub mod laws;
pub mod semantics;

