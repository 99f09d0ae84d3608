//! Signal-generation core of a small monophonic software instrument.
//!
//! The engine is driven by discrete musical events (note-on, note-off,
//! pitch bend) and exposes a host-automatable parameter layer that maps a
//! normalized `[0, 1]` control domain to plain engine values, with
//! bidirectional text formatting and parsing.
//!
//! All real-valued quantities of the control path are carried as exact
//! rationals ([`ratio::Ratio`]), so every contract here is exact integer
//! arithmetic. The transcendental audio math (the sine table, the
//! note-to-frequency and cents-to-ratio exponentials) lives outside this
//! library, in the unverified shell that owns the floating-point domain;
//! this crate decides *what* those computations are fed and when.

pub mod event;
pub mod parameters;
pub mod ratio;
pub mod sine;
pub mod stutter;
pub mod synth;
pub mod text;
pub mod utils;
