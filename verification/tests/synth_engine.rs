use pxtone_plug::synth::arith::div_toward_zero;
use pxtone_plug::synth::tone::{Tone, CHANNELS, TIME_PAN_LEN};
use pxtone_plug::synth::voice::{
    advance_voice, compute_voice_work, new_voice_tone, MixParams, VoiceInstance, VoiceMotion, VoiceUnit, UNIT_OFFSET_FREQ,
};
use pxtone_plug::synth::{
    channel_pans, wrap64, LoadedWoice, NoteEvent, PxtoneSynth, SynthError, TimedEvent, Woice, WoiceState,
};

const ONE_F32: u32 = 0x3F80_0000;

fn instance() -> VoiceInstance {
    VoiceInstance {
        smp_head_w: 0,
        smp_body_w: 4,
        smp_tail_w: 0,
        samples: vec![1000, -1000, 2000, -2000, 3000, -3000, 4000, -4000],
        env: vec![10, 20, 30],
        env_release: 4,
    }
}

fn unit(flags: u32) -> VoiceUnit {
    VoiceUnit { basic_key: 0x4500, tuning: ONE_F32, voice_flags: flags }
}

fn woice() -> Woice {
    Woice { voice_num: 1, units: vec![unit(0)], insts: vec![instance()] }
}

fn ready_synth() -> PxtoneSynth {
    let mut s = PxtoneSynth::new(0, true).unwrap();
    s.set_audio_format(44100, true).unwrap();
    s.load_woice(woice(), 0).unwrap();
    s
}

fn loaded(s: &PxtoneSynth) -> &LoadedWoice {
    match &s.woice_state {
        WoiceState::Loaded(l) => l,
        WoiceState::Unloaded => panic!("no woice"),
    }
}

fn note_on(note: u8, velocity: u8) -> TimedEvent {
    TimedEvent {
        timing: 0,
        event: NoteEvent::NoteOn { note, velocity, note_freq: 0x43DC_0000, offset_freqs: [0x4000_0000, 0x4000_0000] },
    }
}

fn motion() -> VoiceMotion {
    VoiceMotion { frames: [0, 1], past_end: [false, false], positions: [0, 11, 22] }
}

fn motions(s: &PxtoneSynth) -> Vec<Vec<VoiceMotion>> {
    (0..s.tone_count()).map(|_| vec![motion(), motion()]).collect()
}

#[test]
fn new_reports_service_init_error() {
    assert!(matches!(PxtoneSynth::new(3, true), Err(SynthError::ServiceInit(3))));
}

#[test]
fn new_reports_frequency_init_error() {
    assert!(matches!(PxtoneSynth::new(0, false), Err(SynthError::FrequencyInit)));
}

#[test]
fn new_starts_unloaded_without_rate() {
    let s = PxtoneSynth::new(0, true).unwrap();
    assert!(!s.loaded());
    assert_eq!(s.sample_rate, None);
    assert_eq!(s.tone_count(), 0);
}

#[test]
fn load_woice_failure_changes_nothing() {
    let mut s = PxtoneSynth::new(0, true).unwrap();
    assert_eq!(s.load_woice(woice(), 5), Err(SynthError::PtvRead(5)));
    assert!(!s.loaded());
}

#[test]
fn load_woice_installs_empty_state() {
    let s = ready_synth();
    assert!(s.loaded());
    let l = loaded(&s);
    assert_eq!(l.tones.len(), 0);
    assert_eq!(l.time_pan_index, 0);
    assert_eq!(l.time_pan, [0, 0]);
    assert_eq!(l.vol_pan, [0, 0]);
    assert_eq!(l.woice.voice_num, 1);
}

#[test]
fn set_audio_format_rejected() {
    let mut s = PxtoneSynth::new(0, true).unwrap();
    assert_eq!(s.set_audio_format(48000, false), Err(SynthError::DestinationQuality));
    assert_eq!(s.sample_rate, None);
}

#[test]
fn set_audio_format_records_rate() {
    let mut s = PxtoneSynth::new(0, true).unwrap();
    assert_eq!(s.set_audio_format(48000, true), Ok(()));
    assert_eq!(s.sample_rate, Some(48000));
}

#[test]
fn tone_ready_without_rate_fails() {
    let mut s = PxtoneSynth::new(0, true).unwrap();
    assert_eq!(s.tone_ready_rate(), Err(SynthError::NoSampleRate));
    assert_eq!(s.tone_ready(0, vec![]), Err(SynthError::NoSampleRate));
}

#[test]
fn tone_ready_without_woice_is_nothing_to_do() {
    let mut s = PxtoneSynth::new(0, true).unwrap();
    s.set_audio_format(44100, true).unwrap();
    assert_eq!(s.tone_ready_rate(), Ok(None));
    assert_eq!(s.tone_ready(0, vec![]), Ok(()));
    assert!(!s.loaded());
}

#[test]
fn tone_ready_error_still_takes_instances() {
    let mut s = ready_synth();
    assert_eq!(s.tone_ready_rate(), Ok(Some(44100)));
    let mut inst = instance();
    inst.env_release = 9;
    assert_eq!(s.tone_ready(2, vec![inst]), Err(SynthError::ToneReady(2)));
    assert_eq!(loaded(&s).woice.insts[0].env_release, 9);
    assert_eq!(s.tone_ready(0, vec![instance()]), Ok(()));
    assert_eq!(loaded(&s).woice.insts[0].env_release, 4);
}

#[test]
fn events_ignored_before_rate_and_woice() {
    let mut s = PxtoneSynth::new(0, true).unwrap();
    assert!(!s.takes_note_events());
    assert!(!s.handle_event(&note_on(60, 100), 0));
    s.set_audio_format(44100, true).unwrap();
    assert!(!s.handle_event(&note_on(60, 100), 0));
    s.load_woice(woice(), 0).unwrap();
    assert!(s.takes_note_events());
    assert!(s.handle_event(&note_on(60, 100), 0));
    assert_eq!(s.tone_count(), 1);
}

#[test]
fn late_event_stops_the_run_untouched() {
    let mut s = ready_synth();
    let mut ev = note_on(60, 100);
    ev.timing = 5;
    assert!(!s.handle_event(&ev, 4));
    assert_eq!(s.tone_count(), 0);
    assert!(s.handle_event(&ev, 5));
    assert_eq!(s.tone_count(), 1);
}

#[test]
fn note_on_strikes_a_tone_and_centres_pans() {
    let mut s = ready_synth();
    assert!(s.handle_event(&note_on(60, 100), 0));
    let l = loaded(&s);
    assert_eq!(l.vol_pan, [64, 64]);
    assert_eq!(l.time_pan, [0, 0]);
    let t: &Tone = &l.tones[0];
    assert!(t.on);
    assert_eq!(t.note_id, 60);
    assert_eq!(t.velocity, 100);
    assert_eq!(t.note_freq, 0x43DC_0000);
    assert_eq!(t.voice_tones.len(), 2);
    assert_eq!(t.time_pan_buf, vec![0; CHANNELS * TIME_PAN_LEN]);
    let v = t.voice_tones[0];
    assert_eq!(v.life_count, 1);
    assert_eq!(v.env_volume, 0);
    assert_eq!(v.env_start, 0);
    assert_eq!(v.offset_freq, 0x4000_0000);
    // The woice has one voice: the second voice tone keeps its initial state.
    let w = t.voice_tones[1];
    assert_eq!(w.env_volume, 128);
    assert_eq!(w.offset_freq, UNIT_OFFSET_FREQ);
}

#[test]
fn note_on_beatfit_voice_keeps_unit_pitch() {
    let mut s = PxtoneSynth::new(0, true).unwrap();
    s.set_audio_format(44100, true).unwrap();
    let mut inst = instance();
    inst.env = vec![];
    s.load_woice(Woice { voice_num: 1, units: vec![unit(4)], insts: vec![inst] }, 0).unwrap();
    s.handle_event(&note_on(61, 90), 0);
    let v = loaded(&s).tones[0].voice_tones[0];
    assert_eq!(v.offset_freq, UNIT_OFFSET_FREQ);
    assert_eq!(v.env_volume, 128);
    assert_eq!(v.env_start, 128);
}

#[test]
fn note_off_releases_first_held_tone_only() {
    let mut s = ready_synth();
    s.handle_event(&note_on(60, 100), 0);
    s.handle_event(&note_on(60, 100), 0);
    s.sample(&motions(&s));
    assert!(s.handle_event(&TimedEvent { timing: 0, event: NoteEvent::NoteOff { note: 60 } }, 0));
    let l = loaded(&s);
    assert!(!l.tones[0].on);
    assert!(l.tones[1].on);
    assert_eq!(l.tones[0].voice_tones[0].env_start, 10);
    assert_eq!(l.tones[0].voice_tones[0].env_pos, 0);
    assert_eq!(l.tones[1].voice_tones[0].env_pos, 1);
}

#[test]
fn note_off_without_holder_changes_nothing() {
    let mut s = ready_synth();
    s.handle_event(&note_on(60, 100), 0);
    assert!(s.handle_event(&TimedEvent { timing: 0, event: NoteEvent::NoteOff { note: 61 } }, 0));
    assert!(loaded(&s).tones[0].on);
}

#[test]
fn choke_drops_every_tone_of_the_note() {
    let mut s = ready_synth();
    s.handle_event(&note_on(60, 100), 0);
    s.handle_event(&note_on(62, 100), 0);
    s.handle_event(&note_on(60, 100), 0);
    assert!(s.handle_event(&TimedEvent { timing: 0, event: NoteEvent::Choke { note: 60 } }, 0));
    let l = loaded(&s);
    assert_eq!(l.tones.len(), 1);
    assert_eq!(l.tones[0].note_id, 62);
}

#[test]
fn pressure_and_other_events_change_nothing() {
    let mut s = ready_synth();
    s.handle_event(&note_on(60, 100), 0);
    assert!(s.handle_event(&TimedEvent { timing: 0, event: NoteEvent::PolyPressure { note: 60 } }, 0));
    assert!(s.handle_event(&TimedEvent { timing: 0, event: NoteEvent::Other }, 0));
    assert_eq!(s.tone_count(), 1);
    assert!(loaded(&s).tones[0].on);
}

#[test]
fn sample_silent_without_rate_or_woice() {
    let mut s = PxtoneSynth::new(0, true).unwrap();
    assert_eq!(s.sample(&vec![]), Some([0, 0]));
    s.set_audio_format(44100, true).unwrap();
    assert_eq!(s.sample(&vec![]), Some([0, 0]));
}

#[test]
fn sample_mixes_one_tone_exactly() {
    let mut s = ready_synth();
    s.handle_event(&note_on(60, 100), 0);
    let out = s.sample(&motions(&s)).unwrap();
    // left: 1000 * 100 / 128 = 781; * 64 / 64 = 781; * 10 / 128 = 61
    // right (frame 1, word 3 = -2000): -1562 then * 10 / 128 = -122 (toward zero)
    assert_eq!(out, [61, -122]);
    let l = loaded(&s);
    assert_eq!(l.time_pan_index, 1);
    let t = &l.tones[0];
    assert_eq!(t.time_pan_buf[0], 61);
    assert_eq!(t.time_pan_buf[TIME_PAN_LEN], -122);
    let v = t.voice_tones[0];
    assert_eq!(v.env_volume, 10);
    assert_eq!(v.env_pos, 1);
    assert_eq!(v.smp_pos, 22);
    assert_eq!(v.smp_count, 0);
}

#[test]
fn sample_reads_delay_line_behind_write_slot() {
    let mut s = ready_synth();
    s.handle_event(&note_on(60, 100), 0);
    if let WoiceState::Loaded(l) = &mut s.woice_state {
        l.time_pan = [3, 0];
        l.time_pan_index = 1;
        l.tones[0].time_pan_buf[62] = 777;
    }
    let out = s.sample(&motions(&s)).unwrap();
    // Channel 0 reads slot (1 - 3) mod 64 = 62.
    assert_eq!(out[0], 777);
    assert_eq!(out[1], -122);
    assert_eq!(loaded(&s).time_pan_index, 2);
}

#[test]
fn delay_line_slot_wraps_around() {
    let mut s = ready_synth();
    if let WoiceState::Loaded(l) = &mut s.woice_state {
        l.time_pan_index = 63;
    }
    s.sample(&vec![]);
    assert_eq!(loaded(&s).time_pan_index, 0);
}

#[test]
fn sample_sums_tones() {
    let mut s = ready_synth();
    s.handle_event(&note_on(60, 100), 0);
    s.handle_event(&note_on(64, 100), 0);
    let out = s.sample(&motions(&s)).unwrap();
    assert_eq!(out, [122, -244]);
}

#[test]
fn released_tone_fades_and_is_dropped() {
    let mut s = ready_synth();
    s.handle_event(&note_on(60, 100), 0);
    s.sample(&motions(&s));
    s.sample(&motions(&s));
    // envelope volume is now 20
    s.handle_event(&TimedEvent { timing: 0, event: NoteEvent::NoteOff { note: 60 } }, 0);
    let mut volumes = vec![];
    for _ in 0..4 {
        s.sample(&motions(&s));
        volumes.push(loaded(&s).tones[0].voice_tones[0].env_volume);
    }
    // 20 - 20*p/4 for p = 0, 1, 2, 3
    assert_eq!(volumes, vec![20, 15, 10, 5]);
    s.sample(&motions(&s));
    assert_eq!(s.tone_count(), 0);
}

#[test]
fn stop_all_drops_tones_and_silences() {
    let mut s = ready_synth();
    s.handle_event(&note_on(60, 100), 0);
    s.stop_all();
    assert_eq!(s.tone_count(), 0);
    assert!(s.loaded());
    assert_eq!(s.sample(&vec![]), Some([0, 0]));
}

#[test]
fn mono_mix_averages_channels() {
    let mut vt = new_voice_tone();
    vt.env_volume = 128;
    let p = MixParams { dst_ch: 1, looping: true, min_ct: 4410, smooth: 441 };
    // (1000 + -1000) / 2 = 0
    assert_eq!(compute_voice_work(&vt, &instance(), 0, 0, 127, 64, p), 0);
    let mut inst = instance();
    inst.samples[1] = 3001;
    // (1000 + 3001) / 2 = 2000; * 127 / 128 = 1984; * 64 / 64; * 128 / 128
    assert_eq!(compute_voice_work(&vt, &inst, 0, 0, 127, 64, p), 1984);
}

#[test]
fn fade_constant_for_voice_without_release() {
    let mut vt = new_voice_tone();
    vt.smp_count = 4000;
    let mut inst = instance();
    inst.env_release = 0;
    let p = MixParams { dst_ch: 2, looping: true, min_ct: 4410, smooth: 441 };
    // smp_count > 4410 - 441: work becomes (4410 - 441) / 441 = 9
    assert_eq!(compute_voice_work(&vt, &inst, 0, 0, 100, 64, p), 9);
}

#[test]
fn released_voice_without_release_counts_and_dies() {
    let mut vt = new_voice_tone();
    vt.smp_count = 4409;
    let mut inst = instance();
    inst.env_release = 0;
    let p = MixParams { dst_ch: 2, looping: true, min_ct: 4410, smooth: 441 };
    advance_voice(&mut vt, &inst, true, p, false, 5);
    assert_eq!(vt.smp_count, 4409);
    assert_eq!(vt.life_count, 1);
    advance_voice(&mut vt, &inst, false, p, false, 6);
    assert_eq!(vt.smp_count, 4410);
    assert_eq!(vt.life_count, 0);
    assert_eq!(vt.smp_pos, 6);
}

#[test]
fn non_looping_voice_dies_past_body_end() {
    let mut vt = new_voice_tone();
    let p = MixParams { dst_ch: 2, looping: false, min_ct: 4410, smooth: 441 };
    advance_voice(&mut vt, &instance(), true, p, true, 7);
    assert_eq!(vt.life_count, 0);
    assert_eq!(vt.smp_count, 0);
}

#[test]
fn pans_for_offcentre_positions() {
    assert_eq!(channel_pans(2, 64, 64, 44100), ([64, 64], [0, 0]));
    assert_eq!(channel_pans(2, 100, 100, 44100), ([28, 64], [36, 0]));
    // 54 * 44100 / 48000 = 49.6 -> 49
    assert_eq!(channel_pans(2, 10, 10, 48000), ([64, 10], [0, 49]));
    // span clamped to 63
    assert_eq!(channel_pans(2, 0, 128, 22050), ([64, 0], [126, 0]));
    assert_eq!(channel_pans(2, 0, 0, -44100), ([64, 0], [0, -63]));
    assert_eq!(channel_pans(1, 0, 0, 44100), ([64, 64], [0, 0]));
}

#[test]
fn wrap64_is_euclidean() {
    assert_eq!(wrap64(-1), 63);
    assert_eq!(wrap64(-64), 0);
    assert_eq!(wrap64(-65), 63);
    assert_eq!(wrap64(130), 2);
    assert_eq!(wrap64(0), 0);
}

#[test]
fn division_rounds_toward_zero() {
    assert_eq!(div_toward_zero(-7, 2), -3);
    assert_eq!(div_toward_zero(7, -2), -3);
    assert_eq!(div_toward_zero(-7, -2), 3);
    assert_eq!(div_toward_zero(i32::MIN, i32::MIN), 1);
    assert_eq!(div_toward_zero(5, i32::MIN), 0);
    assert_eq!(div_toward_zero(i32::MIN, 2), -1073741824);
}

#[test]
fn mix_overflow_yields_no_output_but_frame_advances() {
    let mut s = ready_synth();
    s.handle_event(&note_on(60, 100), 0);
    s.handle_event(&note_on(61, 100), 0);
    if let WoiceState::Loaded(l) = &mut s.woice_state {
        l.time_pan = [1, 0];
        l.time_pan_index = 5;
        l.tones[0].time_pan_buf[4] = i32::MAX - 10;
        l.tones[1].time_pan_buf[4] = 11;
    }
    assert!(s.can_sample(&motions(&s)));
    assert_eq!(s.sample(&motions(&s)), None);
    assert_eq!(loaded(&s).time_pan_index, 6);
    assert_eq!(s.tone_count(), 2);
}

#[test]
fn can_sample_checks_frames_counts_and_rate() {
    let mut s = ready_synth();
    s.handle_event(&note_on(60, 100), 0);
    assert!(s.can_sample(&motions(&s)));
    // one motion list per tone
    assert!(!s.can_sample(&vec![]));
    // frame 3 is the last frame of four
    let bad = VoiceMotion { frames: [0, 4], past_end: [false, false], positions: [0, 1, 2] };
    assert!(!s.can_sample(&vec![vec![bad]]));
    let last = VoiceMotion { frames: [3, 3], past_end: [false, false], positions: [0, 1, 2] };
    assert!(s.can_sample(&vec![vec![last]]));
    let neg = VoiceMotion { frames: [-1, 0], past_end: [false, false], positions: [0, 1, 2] };
    assert!(!s.can_sample(&vec![vec![neg]]));
    // sample_rate * 100 must fit in 32 bits
    s.set_audio_format(30_000_000, true).unwrap();
    assert!(!s.can_sample(&motions(&s)));
}

#[test]
fn can_sample_rejects_fade_dividing_by_zero() {
    let mut s = PxtoneSynth::new(0, true).unwrap();
    s.set_audio_format(50, true).unwrap();
    let mut inst = instance();
    inst.env_release = 0;
    s.load_woice(Woice { voice_num: 1, units: vec![unit(0)], insts: vec![inst] }, 0).unwrap();
    s.handle_event(&note_on(60, 100), 0);
    // min_ct = 5, smooth = 0: a fresh voice (count 0) is fine
    assert!(s.can_sample(&motions(&s)));
    if let WoiceState::Loaded(l) = &mut s.woice_state {
        l.tones[0].voice_tones[0].smp_count = 6;
    }
    assert!(!s.can_sample(&motions(&s)));
}

#[test]
fn woice_fits_checks_shape_and_sizes() {
    assert!(woice().fits());
    let mut w = woice();
    w.voice_num = 3;
    assert!(!w.fits());
    let mut w = woice();
    w.units.clear();
    assert!(!w.fits());
    let mut inst = instance();
    assert!(inst.fits());
    inst.env_release = 0x7fff_ffff / 255 + 1;
    assert!(!inst.fits());
    inst.env_release = -1;
    assert!(inst.fits());
}

#[test]
fn negative_release_means_no_release_phase() {
    let mut s = PxtoneSynth::new(0, true).unwrap();
    s.set_audio_format(44100, true).unwrap();
    let mut inst = instance();
    inst.env_release = -3;
    s.load_woice(Woice { voice_num: 1, units: vec![unit(0)], insts: vec![inst] }, 0).unwrap();
    s.handle_event(&note_on(60, 100), 0);
    s.sample(&motions(&s));
    assert_eq!(s.tone_count(), 1);
    s.handle_event(&TimedEvent { timing: 0, event: NoteEvent::NoteOff { note: 60 } }, 0);
    // the envelope ends the released voice at once
    s.sample(&motions(&s));
    assert_eq!(s.tone_count(), 0);
}

#[test]
fn voice_dying_at_left_step_reads_no_right_frame() {
    let mut s = PxtoneSynth::new(0, true).unwrap();
    s.set_audio_format(50, true).unwrap();
    let mut inst = instance();
    inst.env = vec![];
    inst.env_release = 0;
    s.load_woice(Woice { voice_num: 1, units: vec![unit(0)], insts: vec![inst] }, 0).unwrap();
    s.handle_event(&note_on(60, 100), 0);
    s.handle_event(&TimedEvent { timing: 0, event: NoteEvent::NoteOff { note: 60 } }, 0);
    // min_ct = 5: a released voice at count 4 dies at its left step
    if let WoiceState::Loaded(l) = &mut s.woice_state {
        l.tones[0].voice_tones[0].smp_count = 4;
    }
    let right_out = VoiceMotion { frames: [0, 4], past_end: [false, false], positions: [0, 1, 2] };
    assert!(s.can_sample(&vec![vec![right_out]]));
    assert!(s.sample(&vec![vec![right_out]]).is_some());
    assert_eq!(s.tone_count(), 0);
    // at count 3 it lives on and reads the right frame
    let mut s2 = PxtoneSynth::new(0, true).unwrap();
    s2.set_audio_format(50, true).unwrap();
    let mut inst2 = instance();
    inst2.env = vec![];
    inst2.env_release = 0;
    s2.load_woice(Woice { voice_num: 1, units: vec![unit(0)], insts: vec![inst2] }, 0).unwrap();
    s2.handle_event(&note_on(60, 100), 0);
    s2.handle_event(&TimedEvent { timing: 0, event: NoteEvent::NoteOff { note: 60 } }, 0);
    if let WoiceState::Loaded(l) = &mut s2.woice_state {
        l.tones[0].voice_tones[0].smp_count = 2;
    }
    assert!(!s2.can_sample(&vec![vec![right_out]]));
}

#[test]
fn voice_dying_at_envelope_reads_no_frame() {
    let mut s = ready_synth();
    s.handle_event(&note_on(60, 100), 0);
    s.handle_event(&TimedEvent { timing: 0, event: NoteEvent::NoteOff { note: 60 } }, 0);
    // past the release length the envelope ends the voice before any read
    if let WoiceState::Loaded(l) = &mut s.woice_state {
        l.tones[0].voice_tones[0].env_pos = 4;
    }
    let nowhere = VoiceMotion { frames: [-1, -1], past_end: [false, false], positions: [0, 1, 2] };
    assert!(s.can_sample(&vec![vec![nowhere]]));
    assert!(s.sample(&vec![vec![nowhere]]).is_some());
    assert_eq!(s.tone_count(), 0);
}

#[test]
fn can_sample_checks_rate_without_woice() {
    let mut s = PxtoneSynth::new(0, true).unwrap();
    assert!(s.can_sample(&vec![]));
    s.set_audio_format(21_474_836, true).unwrap();
    assert!(s.can_sample(&vec![]));
    s.set_audio_format(21_474_837, true).unwrap();
    assert!(!s.can_sample(&vec![]));
}
