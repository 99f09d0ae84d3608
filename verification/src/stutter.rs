//! The rhythmic amplitude-stutter effect.
//!
//! The effect re-triggers the note it last saw once per cycle of `time`
//! seconds, each time at a velocity reduced by exactly `1 - depth`; when
//! the velocity would fall below zero it is clamped and a note-off ends
//! the stutter. With `depth == 0` the effect is inert and the original
//! note sustains. Decisions are returned as the event to forward
//! downstream; the caller delivers it to its targets.
//!
//! Velocity, depth and the cycle period are exact rationals: a note-on's
//! velocity is stored and forwarded identically, and a period or depth
//! written is read back unchanged. Elapsed time is a count of samples,
//! which at a constant sample rate is exactly the seconds accumulated one
//! `1 / sample_rate` step per call. Exactness inside machine integers
//! needs denominators bounded: a new velocity or depth keeps its
//! denominator at most `DEN_LIMIT`, and one decay step may multiply the
//! velocity's denominator by the depth's, after which it is fixed (every
//! later step subtracts over the same denominator).

use crate::event::Event;
use crate::ratio::Ratio;
use vstd::prelude::*;

verus! {

/// Largest denominator accepted for an incoming velocity, depth or
/// period: exact decay arithmetic on two such rationals stays inside
/// 64-bit integers.
pub const DEN_LIMIT: i64 = 1_000_000_000;

/// State of the stutter effect.
#[derive(Clone, Copy, PartialEq, Eq, Structural, Debug)]
pub struct NoteStutter {
    /// Samples elapsed since the last retrigger (or since construction).
    pub time_count: u64,
    /// The note being stuttered.
    pub note: u16,
    /// Current velocity in `[0, 1]`; decays by `1 - depth` each cycle.
    pub velocity: Ratio,
    /// Retrigger period, in seconds.
    pub time: Ratio,
    /// Decay resistance in `[0, 1]`: each cycle removes `1 - depth` from
    /// the velocity, so zero disables the effect and higher values decay
    /// more slowly.
    pub depth: Ratio,
}

impl NoteStutter {
    pub open spec fn wf(self) -> bool {
        &&& self.velocity.wf()
        &&& self.velocity.is_normalized()
        &&& (self.velocity.den <= DEN_LIMIT || (self.velocity.den % self.depth.den == 0
            && self.velocity.den <= 1_000_000_000_000_000_000))
        &&& self.depth.wf()
        &&& self.depth.is_normalized()
        &&& self.depth.den <= DEN_LIMIT
        &&& self.time.wf()
        &&& self.time.num >= 0
    }

    /// A fresh effect: silent note zero, a 0.07 s cycle, and no decay
    /// (inert until a depth is set).
    pub fn new() -> (r: NoteStutter)
        ensures
            r.wf(),
            r == (NoteStutter {
                time_count: 0u64,
                note: 0u16,
                velocity: Ratio { num: 0i64, den: 1i64 },
                time: Ratio { num: 7i64, den: 100i64 },
                depth: Ratio { num: 0i64, den: 1i64 },
            }),
    {
        NoteStutter {
            time_count: 0,
            note: 0,
            velocity: Ratio { num: 0, den: 1 },
            time: Ratio { num: 7, den: 100 },
            depth: Ratio { num: 0, den: 1 },
        }
    }

    /// Sets the retrigger period to `t` seconds, stored exactly: a set
    /// followed by a get returns `t` unchanged.
    pub fn set_time(&mut self, t: Ratio)
        requires
            old(self).wf(),
            t.wf(),
            t.num >= 0,
        ensures
            final(self).wf(),
            *final(self) == (NoteStutter { time: t, ..*old(self) }),
    {
        self.time = t;
    }

    /// Sets the decay resistance to `d` in `[0, 1]`, stored exactly: a set
    /// followed by a get returns `d` unchanged. The denominator bounds are
    /// machine limits of the exact decay arithmetic: a mid-decay velocity
    /// already carries the old depth's denominator, and the new one must
    /// still divide into it (any fixed control resolution does).
    pub fn set_depth(&mut self, d: Ratio)
        requires
            old(self).wf(),
            d.wf(),
            d.is_normalized(),
            d.den <= DEN_LIMIT,
            old(self).velocity.den <= DEN_LIMIT || old(self).velocity.den % d.den == 0,
        ensures
            final(self).wf(),
            *final(self) == (NoteStutter { depth: d, ..*old(self) }),
    {
        self.depth = d;
    }

    /// The retrigger period, in seconds, as stored.
    pub fn get_time(&self) -> (r: Ratio)
        ensures
            r == self.time,
    {
        self.time
    }

    /// The decay resistance, as stored.
    pub fn get_depth(&self) -> (r: Ratio)
        ensures
            r == self.depth,
    {
        self.depth
    }

    /// Reacts to an event: a note-on's note and velocity are stored and an
    /// identical note-on is forwarded; a note-off zeroes the velocity and
    /// is forwarded; a pitch bend is ignored (pitch is not stuttered). The
    /// returned event, if any, is what the caller forwards to every
    /// downstream target.
    pub fn trigger(&mut self, event: &Event) -> (forward: Option<Event>)
        requires
            old(self).wf(),
            event.wf(),
            event matches Event::NoteOn { velocity, .. } ==> velocity.den <= DEN_LIMIT,
        ensures
            final(self).wf(),
            *final(self) == spec_stutter_trigger(*old(self), *event),
            forward == spec_stutter_trigger_forward(*old(self), *event),
            forward matches Some(e) ==> e.wf(),
    {
        match event {
            Event::NoteOn { note, velocity } => {
                self.note = *note;
                self.velocity = *velocity;
                Some(Event::NoteOn { note: self.note, velocity: self.velocity })
            },
            Event::NoteOff { note } => {
                self.velocity = Ratio { num: 0, den: 1 };
                Some(Event::NoteOff { note: *note })
            },
            Event::PitchBend { ratio: _ } => None,
        }
    }

    /// Advances one sample. When the effect is live (`depth != 0`) and the
    /// elapsed samples exceed the cycle period, the cycle restarts and the
    /// velocity decays by exactly `1 - depth`: the caller forwards the
    /// returned re-trigger (or, once the velocity runs out, the final
    /// note-off) to every downstream target.
    pub fn process(&mut self, sample_rate: u32) -> (forward: Option<Event>)
        requires
            old(self).wf(),
            sample_rate >= 1,
        ensures
            final(self).wf(),
            *final(self) == spec_stutter_process(*old(self), sample_rate).0,
            forward == spec_stutter_process(*old(self), sample_rate).1,
            forward matches Some(e) ==> e.wf(),
            old(self).depth.num == 0 ==> forward is None && final(self).velocity == old(
                self,
            ).velocity,
    {
        let next: u64 = if self.time_count < u64::MAX {
            self.time_count + 1
        } else {
            self.time_count
        };
        proof {
            assert((next as int) * (self.time.den as int) <= 0xffff_ffff_ffff_ffff
                * 0x8000_0000_0000_0000) by (nonlinear_arith)
                requires
                    0 <= next as int <= 0xffff_ffff_ffff_ffff,
                    0 <= self.time.den as int <= 0x8000_0000_0000_0000,
            ;
            assert((self.time.num as int) * (sample_rate as int) <= 0x8000_0000_0000_0000
                * 0x1_0000_0000) by (nonlinear_arith)
                requires
                    0 <= self.time.num as int <= 0x8000_0000_0000_0000,
                    0 <= sample_rate as int <= 0x1_0000_0000,
            ;
        }
        let live: bool = self.depth.num != 0 && (next as u128) * (self.time.den as u128) > (
        self.time.num as u128) * (sample_rate as u128);
        if live {
            self.time_count = 0;
            let decayed: Ratio = decay_step_exec(self.velocity, self.depth);
            if decayed.num < 0 {
                self.velocity = Ratio { num: 0, den: 1 };
                Some(Event::NoteOff { note: self.note })
            } else {
                self.velocity = decayed;
                Some(Event::NoteOn { note: self.note, velocity: decayed })
            }
        } else {
            self.time_count = next;
            None
        }
    }
}

/// The velocity after one decay step, before clamping: exactly
/// `v - (1 - d)`. When the depth's denominator divides the velocity's,
/// the subtraction stays over the velocity's own denominator; otherwise
/// the result is taken over the product of the two.
pub open spec fn spec_decay_step(v: Ratio, d: Ratio) -> Ratio {
    if v.den % d.den == 0 {
        Ratio { num: (v.num - (v.den / d.den) * (d.den - d.num)) as i64, den: v.den }
    } else {
        Ratio {
            num: (v.num * d.den - (d.den - d.num) * v.den) as i64,
            den: (v.den * d.den) as i64,
        }
    }
}

fn decay_step_exec(v: Ratio, d: Ratio) -> (r: Ratio)
    requires
        v.wf(),
        v.is_normalized(),
        d.wf(),
        d.is_normalized(),
        d.den <= DEN_LIMIT,
        v.den <= DEN_LIMIT || (v.den % d.den == 0 && v.den <= 1_000_000_000_000_000_000),
    ensures
        r == spec_decay_step(v, d),
        r.wf(),
        r.num <= r.den,
        r.den == v.den || r.den == v.den * d.den,
        r.den % d.den == 0,
        r.den <= 1_000_000_000_000_000_000,
        -r.den <= r.num,
{
    let vden_u: u64 = v.den as u64;
    let dden_u: u64 = d.den as u64;
    if vden_u % dden_u == 0 {
        let q: u64 = vden_u / dden_u;
        proof {
            vstd::arithmetic::div_mod::lemma_fundamental_div_mod(v.den as int, d.den as int);
            assert(v.den as int == (d.den as int) * (q as int));
            assert(0 <= (q as int) * ((d.den - d.num) as int) <= v.den as int)
                by (nonlinear_arith)
                requires
                    (d.den as int) * (q as int) == v.den as int,
                    q as int >= 0,
                    0 <= (d.den - d.num) as int <= d.den as int,
            ;
        }
        let step: i128 = (q as i128) * ((d.den - d.num) as i128);
        let num: i128 = (v.num as i128) - step;
        Ratio { num: num as i64, den: v.den }
    } else {
        proof {
            let lim: int = 1_000_000_000;
            assert(0 <= (v.num as int) * (d.den as int) <= lim * lim && 0 <= ((d.den - d.num)
                as int) * (v.den as int) <= lim * lim && 1 <= (v.den as int) * (d.den as int)
                <= lim * lim) by (nonlinear_arith)
                requires
                    lim == 1_000_000_000,
                    0 <= v.num <= v.den,
                    1 <= v.den <= lim,
                    0 <= d.num <= d.den,
                    1 <= d.den <= lim,
            ;
        }
        let num: i128 = (v.num as i128) * (d.den as i128) - ((d.den - d.num) as i128) * (
        v.den as i128);
        let den: i64 = v.den * d.den;
        proof {
            assert((v.num as int) * (d.den as int) <= (v.den as int) * (d.den as int)
                && ((d.den - d.num) as int) * (v.den as int) <= (v.den as int) * (d.den as int)
                && (v.den as int) * (d.den as int) % (d.den as int) == 0) by (nonlinear_arith)
                requires
                    0 <= v.num <= v.den,
                    0 <= d.num <= d.den,
                    1 <= v.den,
                    1 <= d.den,
            ;
        }
        Ratio { num: num as i64, den }
    }
}

/// Samples elapsed after one call, saturating at the counter's width.
pub open spec fn spec_next_count(s: NoteStutter) -> int {
    if s.time_count < u64::MAX {
        s.time_count + 1
    } else {
        s.time_count as int
    }
}

/// Whether this sample crosses the cycle boundary and retriggers: the
/// effect is live and the elapsed time exceeds the period
/// (`count / sample_rate > time`, cross-multiplied).
pub open spec fn spec_stutter_fires(s: NoteStutter, sample_rate: u32) -> bool {
    s.depth.num != 0 && spec_next_count(s) * s.time.den > s.time.num * sample_rate
}

/// The stutter's whole reaction to one event.
pub open spec fn spec_stutter_trigger(s: NoteStutter, event: Event) -> NoteStutter {
    match event {
        Event::NoteOn { note, velocity } => NoteStutter { note, velocity, ..s },
        Event::NoteOff { .. } => NoteStutter { velocity: Ratio { num: 0i64, den: 1i64 }, ..s },
        Event::PitchBend { .. } => s,
    }
}

/// What one event makes the stutter forward downstream: the identical
/// note-on, the note-off, nothing for a pitch bend.
pub open spec fn spec_stutter_trigger_forward(s: NoteStutter, event: Event) -> Option<Event> {
    match event {
        Event::NoteOn { note, velocity } => Some(Event::NoteOn { note, velocity }),
        Event::NoteOff { note } => Some(Event::NoteOff { note }),
        Event::PitchBend { .. } => None,
    }
}

/// The stutter's whole reaction to one sample: next state and the event to
/// forward, if any.
pub open spec fn spec_stutter_process(s: NoteStutter, sample_rate: u32) -> (NoteStutter, Option<
    Event,
>) {
    if spec_stutter_fires(s, sample_rate) {
        let decayed = spec_decay_step(s.velocity, s.depth);
        if decayed.num < 0 {
            (
                NoteStutter { time_count: 0, velocity: Ratio { num: 0i64, den: 1i64 }, ..s },
                Some(Event::NoteOff { note: s.note }),
            )
        } else {
            (
                NoteStutter { time_count: 0, velocity: decayed, ..s },
                Some(Event::NoteOn { note: s.note, velocity: decayed }),
            )
        }
    } else {
        (NoteStutter { time_count: spec_next_count(s) as u64, ..s }, None)
    }
}

/// The state after `n` samples with no intervening events.
pub open spec fn spec_stutter_run(s: NoteStutter, sample_rate: u32, n: nat) -> NoteStutter
    decreases n,
{
    if n == 0 {
        s
    } else {
        spec_stutter_run(spec_stutter_process(s, sample_rate).0, sample_rate, (n - 1) as nat)
    }
}

/// Inertness: with `depth == 0`, however many samples are processed, no
/// event is ever forwarded and the held note and velocity never change.
pub proof fn lemma_stutter_inert(s: NoteStutter, sample_rate: u32, n: nat)
    requires
        s.depth.num == 0,
    ensures
        spec_stutter_process(spec_stutter_run(s, sample_rate, n), sample_rate).1 is None,
        spec_stutter_run(s, sample_rate, n).velocity == s.velocity,
        spec_stutter_run(s, sample_rate, n).note == s.note,
        spec_stutter_run(s, sample_rate, n).depth == s.depth,
    decreases n,
{
    if n > 0 {
        lemma_stutter_inert(spec_stutter_process(s, sample_rate).0, sample_rate, (n - 1) as nat);
    }
}

} // verus!
