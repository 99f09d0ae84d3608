use pi_synth::event::Event;
use pi_synth::ratio::Ratio;
use pi_synth::sine::NOTE_NUMBER_OF_440_HZ;
use pi_synth::sine::SineOscillator;
use pi_synth::stutter::NoteStutter;
use pi_synth::synth::PiSynth;
use pi_synth::parameters::Parameter;

fn note_on(note: u16, num: i64, den: i64) -> Event {
    Event::NoteOn { note, velocity: Ratio { num, den } }
}

#[test]
fn oscillator_tunes_to_the_reference_note() {
    let mut osc = SineOscillator::new();
    osc.trigger(&note_on(69, 1, 1));
    assert_eq!(osc.note, 69);
    // the voice's frequency for that note is the 440 Hz reference
    let freq = 440.0f64 * 2.0f64.powf(((osc.note as i16 - 69) as f64) / 12.0);
    assert!((freq - 440.0).abs() < 1e-9);
}

#[test]
fn oscillator_is_silent_until_bent() {
    let mut osc = SineOscillator::new();
    assert_eq!(osc.pitch, Ratio { num: 0, den: 1 });
    osc.trigger(&note_on(69, 1, 1));
    osc.trigger(&Event::NoteOff { note: 69 });
    osc.trigger(&note_on(81, 1, 2));
    // the bend multiplier is still zero: the phase step is zero and the
    // rendered output stays sin(0) == 0 for any number of samples
    assert_eq!(osc.pitch.num, 0);
    let mut phase = 0.0f64;
    for _ in 0..10_000 {
        let freq = 440.0f64 * 2.0f64.powf(((osc.note as i16 - 69) as f64) / 12.0);
        let pitch = osc.pitch.num as f64 / osc.pitch.den as f64;
        phase += freq * pitch * 2.0 * std::f64::consts::PI / 44_100.0;
        assert_eq!(phase.sin(), 0.0);
    }
    osc.trigger(&Event::PitchBend { ratio: Ratio { num: 1, den: 1 } });
    assert_eq!(osc.pitch, Ratio { num: 1, den: 1 });
}

#[test]
fn oscillator_ignores_note_off() {
    let mut osc = SineOscillator::new();
    osc.trigger(&note_on(72, 9, 10));
    let before = osc;
    osc.trigger(&Event::NoteOff { note: 72 });
    assert_eq!(osc, before);
}

#[test]
fn stutter_starts_inert() {
    let s = NoteStutter::new();
    assert_eq!(s.time_count, 0);
    assert_eq!(s.note, 0);
    assert_eq!(s.velocity, Ratio { num: 0, den: 1 });
    assert_eq!(s.time, Ratio { num: 7, den: 100 }); // 0.07 seconds
    assert_eq!(s.depth, Ratio { num: 0, den: 1 });
    assert_eq!(s.get_time(), Ratio { num: 7, den: 100 });
    assert_eq!(s.get_depth(), Ratio { num: 0, den: 1 });
}

#[test]
fn stutter_parameters_round_trip_exactly() {
    // a written period or depth is read back unchanged
    let mut s = NoteStutter::new();
    s.set_time(Ratio { num: 1, den: 3 });
    assert_eq!(s.get_time(), Ratio { num: 1, den: 3 });
    s.set_depth(Ratio { num: 1, den: 3 });
    assert_eq!(s.get_depth(), Ratio { num: 1, den: 3 });
}

#[test]
fn stutter_stores_and_forwards_the_velocity_identically() {
    let mut s = NoteStutter::new();
    let fwd = s.trigger(&note_on(60, 1, 3));
    assert_eq!(fwd, Some(note_on(60, 1, 3)));
    assert_eq!(s.velocity, Ratio { num: 1, den: 3 });
}

#[test]
fn stutter_decay_scenario() {
    // time = 0.07 s, depth = 0.5; note 60 struck at full velocity, then
    // processed at 44100 Hz across three cycle boundaries
    let mut s = NoteStutter::new();
    s.set_time(Ratio { num: 7, den: 100 });
    s.set_depth(Ratio { num: 1, den: 2 });
    assert_eq!(s.time, Ratio { num: 7, den: 100 });
    assert_eq!(s.depth, Ratio { num: 1, den: 2 });
    let fwd = s.trigger(&note_on(60, 1, 1));
    assert_eq!(fwd, Some(note_on(60, 1, 1)));

    let mut forwarded = Vec::new();
    for _ in 0..200_000 {
        if let Some(e) = s.process(44_100) {
            forwarded.push(e);
        }
    }
    assert!(forwarded.len() >= 3);
    assert_eq!(forwarded[0], note_on(60, 1, 2)); // 1 - (1 - 1/2) == 1/2
    assert_eq!(forwarded[1], note_on(60, 0, 2)); // 1/2 - 1/2 == 0
    assert_eq!(forwarded[2], Event::NoteOff { note: 60 }); // 0 - 1/2 < 0
}

#[test]
fn stutter_cycle_boundary_is_exact() {
    // at 44100 Hz a 0.07 s cycle passes once 3088 samples have elapsed
    // (3087 / 44100 is not yet past 0.07)
    let mut s = NoteStutter::new();
    s.set_time(Ratio { num: 7, den: 100 });
    s.set_depth(Ratio { num: 1, den: 2 });
    s.trigger(&note_on(60, 1, 1));
    for _ in 0..3087 {
        assert_eq!(s.process(44_100), None);
    }
    assert_eq!(s.process(44_100), Some(note_on(60, 1, 2)));
}

#[test]
fn stutter_with_zero_depth_never_retriggers() {
    let mut s = NoteStutter::new();
    s.set_depth(Ratio { num: 0, den: 1 });
    let fwd = s.trigger(&note_on(64, 3, 4));
    assert_eq!(fwd, Some(note_on(64, 3, 4)));
    for _ in 0..500_000 {
        assert_eq!(s.process(44_100), None);
    }
    assert_eq!(s.velocity, Ratio { num: 3, den: 4 });
    assert_eq!(s.note, 64);
}

#[test]
fn stutter_forwards_note_off_and_silences() {
    let mut s = NoteStutter::new();
    s.trigger(&note_on(60, 1, 1));
    let fwd = s.trigger(&Event::NoteOff { note: 60 });
    assert_eq!(fwd, Some(Event::NoteOff { note: 60 }));
    assert_eq!(s.velocity, Ratio { num: 0, den: 1 });
}

#[test]
fn stutter_ignores_pitch_bend() {
    let mut s = NoteStutter::new();
    let before = s;
    let fwd = s.trigger(&Event::PitchBend { ratio: Ratio { num: 3, den: 2 } });
    assert_eq!(fwd, None);
    assert_eq!(s, before);
}

#[test]
fn synth_output_follows_notes() {
    let mut synth = PiSynth::new();
    assert_eq!(synth.output_gain(), Ratio { num: 0, den: 1 });
    synth.trigger(&note_on(69, 1, 1));
    assert!(synth.note_on);
    assert_eq!(synth.output_gain(), Ratio { num: 3, den: 10 });
    assert_eq!(synth.osc.note, 69);
    synth.trigger(&Event::NoteOff { note: 69 });
    assert!(!synth.note_on);
    assert_eq!(synth.output_gain(), Ratio { num: 0, den: 1 });
}

#[test]
fn synth_forwards_bends_to_the_voice() {
    let mut synth = PiSynth::new();
    synth.trigger(&Event::PitchBend { ratio: Ratio { num: 4, den: 3 } });
    assert_eq!(synth.osc.pitch, Ratio { num: 4, den: 3 });
}

#[test]
fn detune_round_trip_through_the_registry() {
    // normalized 0.5 on the [-200, 200] range denormalizes to plain 0
    let registry = pi_synth::parameters::make_parameter_info();
    let (_, descriptor) = &registry[0];
    let plain = descriptor.denormalize(Ratio { num: 1, den: 2 });
    assert_eq!(plain, 0);
    let mut synth = PiSynth::new();
    let bend = synth.set_param(&Parameter::Detune, Ratio { num: plain, den: 1 });
    assert_eq!(bend, Some(0));
    assert_eq!(synth.get_param(&Parameter::Detune), Ratio { num: 0, den: 1 });
    assert_eq!(descriptor.format(Ratio { num: 1, den: 2 }), "0.00 cent");
}

#[test]
fn detune_truncates_and_saturates() {
    let mut synth = PiSynth::new();
    synth.set_param(&Parameter::Detune, Ratio { num: 301, den: 2 });
    assert_eq!(synth.detune, 150);
    synth.set_param(&Parameter::Detune, Ratio { num: -301, den: 2 });
    assert_eq!(synth.detune, -150);
    synth.set_param(&Parameter::Detune, Ratio { num: 100_000, den: 1 });
    assert_eq!(synth.detune, 32767);
    synth.set_param(&Parameter::Detune, Ratio { num: -100_000, den: 1 });
    assert_eq!(synth.detune, -32768);
}

#[test]
fn fresh_voice_references_the_440_hz_note() {
    let osc = SineOscillator::new();
    assert_eq!(osc.note, NOTE_NUMBER_OF_440_HZ);
    assert_eq!(NOTE_NUMBER_OF_440_HZ, 69);
}

#[test]
fn ratio_truncates_toward_zero() {
    assert_eq!(Ratio { num: 7, den: 2 }.trunc(), 3);
    assert_eq!(Ratio { num: -7, den: 2 }.trunc(), -3);
    assert_eq!(Ratio { num: 0, den: 5 }.trunc(), 0);
}
