//! The oscillator voice's control state.
//!
//! The voice sounds `sin(phase)` where `phase` advances each sample by
//! `freq * pitch * 2 * pi / sample_rate`, `freq` is the equal-tempered
//! frequency of the last note received and `pitch` a bend multiplier.
//! The sample loop itself is the unverified shell's: it owns the phase
//! accumulator and the transcendental math. This type owns everything that
//! decides those computations: which note's frequency is current and what
//! the bend multiplier is. `pitch` starts at zero — the voice is silent
//! (a zero phase step from a zero start) until the first pitch-bend
//! arrives; that is the engine's documented behaviour, not an oversight to
//! fix here.

use crate::event::Event;
use crate::ratio::Ratio;
use vstd::prelude::*;

verus! {

/// The note number that the equal-tempered scale maps to 440 Hz.
pub const NOTE_NUMBER_OF_440_HZ: u16 = 69;

/// Control state of the sine voice: the shell renders
/// `sin(phase)` with `phase` stepping by
/// `frequency(note) * pitch * 2 * pi / sample_rate`.
#[derive(Clone, Copy, PartialEq, Eq, Structural, Debug)]
pub struct SineOscillator {
    /// The note whose equal-tempered frequency is currently sounded;
    /// `freq = 440 * 2^((note - 69) / 12)`.
    pub note: u16,
    /// The pitch-bend multiplier last received; zero until a bend arrives.
    pub pitch: Ratio,
}

impl SineOscillator {
    pub open spec fn wf(self) -> bool {
        self.pitch.wf()
    }

    /// The phase step is zero, so the voice holds `sin(0) == 0`: silence.
    pub open spec fn is_silent(self) -> bool {
        self.pitch.num == 0
    }

    /// A fresh voice sounds 440 Hz (note 69) once bent, and is silent
    /// until then.
    pub fn new() -> (r: SineOscillator)
        ensures
            r.wf(),
            r.note == NOTE_NUMBER_OF_440_HZ,
            r.pitch == (Ratio { num: 0i64, den: 1i64 }),
            r.is_silent(),
    {
        SineOscillator { note: NOTE_NUMBER_OF_440_HZ, pitch: Ratio { num: 0, den: 1 } }
    }

    /// A note-on retunes the voice; a note-off is ignored (amplitude is the
    /// caller's concern); a pitch bend replaces the multiplier.
    pub fn trigger(&mut self, event: &Event)
        requires
            old(self).wf(),
            event.wf(),
        ensures
            final(self).wf(),
            *final(self) == spec_osc_trigger(*old(self), *event),
    {
        match event {
            Event::NoteOn { note, velocity: _ } => {
                self.note = *note;
            },
            Event::NoteOff { note: _ } => {},
            Event::PitchBend { ratio } => {
                self.pitch = *ratio;
            },
        }
    }
}

/// The oscillator's whole reaction to one event.
pub open spec fn spec_osc_trigger(o: SineOscillator, event: Event) -> SineOscillator {
    match event {
        Event::NoteOn { note, .. } => SineOscillator { note, ..o },
        Event::NoteOff { .. } => o,
        Event::PitchBend { ratio } => SineOscillator { pitch: ratio, ..o },
    }
}

/// One interaction with the voice: an event delivery, or one rendered
/// sample. A render call reads the control state and advances only the
/// shell's phase accumulator; it changes nothing here.
#[derive(Clone, Copy, PartialEq, Eq, Structural, Debug)]
pub enum OscInput {
    Trigger(Event),
    Sample,
}

/// The control state after one interaction.
pub open spec fn spec_osc_step(o: SineOscillator, input: OscInput) -> SineOscillator {
    match input {
        OscInput::Trigger(event) => spec_osc_trigger(o, event),
        OscInput::Sample => o,
    }
}

/// The oscillator state after a whole interleaving of events and samples.
pub open spec fn spec_osc_after(o: SineOscillator, inputs: Seq<OscInput>) -> SineOscillator
    decreases inputs.len(),
{
    if inputs.len() == 0 {
        o
    } else {
        spec_osc_after(spec_osc_step(o, inputs[0]), inputs.subrange(1, inputs.len() as int))
    }
}

/// Silence by default: a voice whose bend multiplier is zero stays silent
/// under any interleaving of note-ons, note-offs and rendered samples that
/// contains no pitch bend. With the multiplier zero every phase step is
/// zero, so a phase accumulator started at zero stays there and the output
/// holds `sin(0) == 0` however many samples are processed.
pub proof fn lemma_silent_without_bend(o: SineOscillator, inputs: Seq<OscInput>)
    requires
        o.is_silent(),
        forall|i: int|
            0 <= i < inputs.len() ==> !(#[trigger] inputs[i] matches OscInput::Trigger(
                Event::PitchBend { .. },
            )),
    ensures
        spec_osc_after(o, inputs).is_silent(),
    decreases inputs.len(),
{
    if inputs.len() > 0 {
        let rest = inputs.subrange(1, inputs.len() as int);
        assert(forall|i: int|
            0 <= i < rest.len() ==> !(#[trigger] rest[i] matches OscInput::Trigger(
                Event::PitchBend { .. },
            )));
        lemma_silent_without_bend(spec_osc_step(o, inputs[0]), rest);
    }
}

} // verus!
