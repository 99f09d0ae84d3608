//! Musical events and the trigger protocol.
//!
//! Events are transient messages: they are delivered synchronously to a
//! component, which mutates its own state upon receipt; nothing queues or
//! buffers them.

use crate::ratio::Ratio;
use vstd::prelude::*;

verus! {

/// A musical event delivered by the host (or synthesized internally).
#[derive(Clone, Copy, PartialEq, Eq, Structural, Debug)]
pub enum Event {
    /// A key went down: `note` is the pitch index (69 sounds 440 Hz),
    /// `velocity` a strike strength in `[0, 1]`.
    NoteOn { note: u16, velocity: Ratio },
    /// A key went up.
    NoteOff { note: u16 },
    /// A pitch wheel moved: `ratio` is a frequency multiplier
    /// (`1` means no bend).
    PitchBend { ratio: Ratio },
}

impl Event {
    /// Every rational carried by the event denotes a value.
    pub open spec fn wf(self) -> bool {
        match self {
            Event::NoteOn { velocity, .. } => velocity.wf() && velocity.is_normalized(),
            Event::NoteOff { .. } => true,
            Event::PitchBend { ratio } => ratio.wf(),
        }
    }
}

} // verus!
