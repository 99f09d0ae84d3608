//! The monophonic synth orchestrator.
//!
//! Composes the oscillator voice behind the event protocol and the
//! parameter layer: a note-on flag silences the voice between notes, and the
//! detune parameter is applied by synthesizing a pitch-bend event for the
//! voice. Per sample, the shell renders the voice and scales it by the
//! headroom gain this type decides.

use crate::event::Event;
use crate::parameters::Parameter;
use crate::ratio::Ratio;
use crate::ratio::trunc_div;
use crate::sine::SineOscillator;
use crate::sine::spec_osc_trigger;
use vstd::prelude::*;

verus! {

/// Fixed headroom factor applied while a note sounds: `3 / 10`.
pub const HEADROOM_NUM: i64 = 3;

pub const HEADROOM_DEN: i64 = 10;

/// The monophonic voice with its note-on flag and parameter state.
#[derive(Clone, Copy, PartialEq, Eq, Structural, Debug)]
pub struct PiSynth {
    /// The composed oscillator voice.
    pub osc: SineOscillator,
    /// Whether a note is currently sounding (sets the output gain).
    pub note_on: bool,
    /// The detune parameter's plain value, in cents.
    pub detune: i16,
}

impl PiSynth {
    pub open spec fn wf(self) -> bool {
        self.osc.wf()
    }

    pub fn new() -> (r: PiSynth)
        ensures
            r.wf(),
            r.osc == (SineOscillator {
                note: crate::sine::NOTE_NUMBER_OF_440_HZ,
                pitch: Ratio { num: 0i64, den: 1i64 },
            }),
            r.osc.is_silent(),
            !r.note_on,
            r.detune == 0i16,
    {
        PiSynth { osc: SineOscillator::new(), note_on: false, detune: 0 }
    }

    /// Reacts to an event: a note-on marks the voice sounding and retunes it,
    /// a note-off marks it silent (the voice needs no notice), a pitch
    /// bend goes straight to the voice.
    pub fn trigger(&mut self, event: &Event)
        requires
            old(self).wf(),
            event.wf(),
        ensures
            final(self).wf(),
            *final(self) == spec_synth_trigger(*old(self), *event),
    {
        match event {
            Event::NoteOn { note: _, velocity: _ } => {
                self.note_on = true;
                self.osc.trigger(event);
            },
            Event::NoteOff { note: _ } => {
                self.note_on = false;
            },
            Event::PitchBend { ratio: _ } => {
                self.osc.trigger(event);
            },
        }
    }

    /// Applies a plain-domain parameter value. For the detune parameter
    /// the value is truncated toward zero to whole cents (saturating at
    /// the field's width) and stored; the returned cents ask the caller to
    /// synthesize the matching pitch-bend event — the frequency multiplier
    /// `2^(cents / 1200)` is the shell's transcendental to compute — and
    /// deliver it through [`Self::trigger`].
    pub fn set_param(&mut self, param: &Parameter, value: Ratio) -> (bend_cents: Option<i16>)
        requires
            old(self).wf(),
            value.wf(),
        ensures
            final(self).wf(),
            *final(self) == (PiSynth { detune: spec_detune_of(value), ..*old(self) }),
            bend_cents == Some(spec_detune_of(value)),
    {
        match param {
            Parameter::Detune => {
                let t: i64 = value.trunc();
                let cents: i16 = if t < -32768 {
                    -32768
                } else if t > 32767 {
                    32767
                } else {
                    t as i16
                };
                self.detune = cents;
                Some(cents)
            },
        }
    }

    /// Reads a parameter's plain-domain value.
    pub fn get_param(&self, param: &Parameter) -> (r: Ratio)
        ensures
            r == (Ratio { num: self.detune as i64, den: 1i64 }),
            r.wf(),
    {
        match param {
            Parameter::Detune => Ratio { num: self.detune as i64, den: 1 },
        }
    }

    /// The gain the shell multiplies into the voice's sample, on both
    /// stereo channels: the headroom factor while a note sounds, silence
    /// otherwise.
    pub fn output_gain(&self) -> (g: Ratio)
        ensures
            self.note_on ==> g == (Ratio { num: HEADROOM_NUM, den: HEADROOM_DEN }),
            !self.note_on ==> g == (Ratio { num: 0i64, den: 1i64 }),
            g.wf(),
    {
        if self.note_on {
            Ratio { num: HEADROOM_NUM, den: HEADROOM_DEN }
        } else {
            Ratio { num: 0, den: 1 }
        }
    }
}

/// The plain detune value stored for a written parameter value: truncated
/// toward zero and saturated to the field's width.
pub open spec fn spec_detune_of(value: Ratio) -> i16 {
    let t = trunc_div(value.num as int, value.den as int);
    if t < -32768 {
        -32768i16
    } else if t > 32767 {
        32767i16
    } else {
        t as i16
    }
}

/// The orchestrator's whole reaction to one event.
pub open spec fn spec_synth_trigger(s: PiSynth, event: Event) -> PiSynth {
    match event {
        Event::NoteOn { .. } => PiSynth {
            note_on: true,
            osc: spec_osc_trigger(s.osc, event),
            ..s
        },
        Event::NoteOff { .. } => PiSynth { note_on: false, ..s },
        Event::PitchBend { .. } => PiSynth { osc: spec_osc_trigger(s.osc, event), ..s },
    }
}

} // verus!
