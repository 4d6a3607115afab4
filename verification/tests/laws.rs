use pxtone_plug::synth::voice::{
    compute_voice_work, new_voice_tone, update_envelope, voice_channel_step, MixParams, VoiceInstance, VoiceMotion,
    VoiceUnit,
};
use pxtone_plug::synth::{NoteEvent, PxtoneSynth, TimedEvent, Woice, WoiceState};
use pxtone_plug::PtPlug;


fn instance() -> VoiceInstance {
    VoiceInstance {
        smp_head_w: 0,
        smp_body_w: 4,
        smp_tail_w: 0,
        samples: vec![1000, -1000, 2000, -2000, 3000, -3000, 4000, -4000],
        env: vec![50, 100],
        env_release: 6,
    }
}

fn ready_synth() -> PxtoneSynth {
    let mut s = PxtoneSynth::new(0, true).unwrap();
    s.set_audio_format(44100, true).unwrap();
    s.load_woice(
        Woice {
            voice_num: 1,
            units: vec![VoiceUnit { basic_key: 0x4500, tuning: 0x3F80_0000, voice_flags: 0 }],
            insts: vec![instance()],
        },
        0,
    )
    .unwrap();
    s
}

fn ev(event: NoteEvent) -> TimedEvent {
    TimedEvent { timing: 0, event }
}

fn on(note: u8) -> TimedEvent {
    ev(NoteEvent::NoteOn { note, velocity: 100, note_freq: 0, offset_freqs: [0, 0] })
}

fn motions(s: &PxtoneSynth) -> Vec<Vec<VoiceMotion>> {
    let m = VoiceMotion { frames: [0, 1], past_end: [false, false], positions: [0, 1, 2] };
    (0..s.tone_count()).map(|_| vec![m, m]).collect()
}

fn tones(s: &PxtoneSynth) -> Vec<(u8, bool)> {
    match &s.woice_state {
        WoiceState::Loaded(l) => l.tones.iter().map(|t| (t.note_id, t.on)).collect(),
        WoiceState::Unloaded => vec![],
    }
}

#[test]
fn choke_removes_exactly_the_note() {
    let mut s = ready_synth();
    for n in [60, 61, 60, 62] {
        s.handle_event(&on(n), 0);
    }
    s.handle_event(&ev(NoteEvent::Choke { note: 60 }), 0);
    assert_eq!(tones(&s), vec![(61, true), (62, true)]);
    s.handle_event(&ev(NoteEvent::Choke { note: 70 }), 0);
    assert_eq!(tones(&s), vec![(61, true), (62, true)]);
}

#[test]
fn sample_keeps_exactly_live_tones() {
    let mut s = ready_synth();
    s.handle_event(&on(60), 0);
    s.handle_event(&on(61), 0);
    s.handle_event(&on(62), 0);
    if let WoiceState::Loaded(l) = &mut s.woice_state {
        l.tones[1].voice_tones[0].life_count = 0;
    }
    s.sample(&motions(&s));
    assert_eq!(tones(&s), vec![(60, true), (62, true)]);
}

#[test]
fn dead_voice_is_frozen() {
    let mut vt = new_voice_tone();
    vt.life_count = 0;
    vt.env_volume = 33;
    let before = vt;
    update_envelope(&mut vt, &instance(), false);
    assert_eq!(vt, before);
    let m = VoiceMotion { frames: [0, 1], past_end: [true, true], positions: [0, 9, 9] };
    let p = MixParams { dst_ch: 2, looping: true, min_ct: 4410, smooth: 441 };
    assert_eq!(voice_channel_step(&mut vt, &instance(), &m, 0, true, 100, 64, p), 0);
    assert_eq!(vt, before);
}

#[test]
fn release_never_rises() {
    let mut vt = new_voice_tone();
    vt.env_start = 100;
    vt.env_volume = 100;
    let inst = instance();
    let mut last = vt.env_volume;
    for _ in 0..10 {
        update_envelope(&mut vt, &inst, false);
        assert!(vt.env_volume <= last);
        last = vt.env_volume;
    }
    assert_eq!(vt.life_count, 0);
    assert_eq!(vt.env_volume, 0);
}

#[test]
fn note_off_releases_struck_tone() {
    let mut s = ready_synth();
    s.handle_event(&on(60), 0);
    s.handle_event(&ev(NoteEvent::NoteOff { note: 60 }), 0);
    s.handle_event(&on(60), 0);
    s.handle_event(&ev(NoteEvent::NoteOff { note: 60 }), 0);
    assert_eq!(tones(&s), vec![(60, false), (60, false)]);
}

#[test]
fn note_off_ends_hold() {
    let mut s = ready_synth();
    s.handle_event(&on(60), 0);
    s.handle_event(&on(61), 0);
    s.handle_event(&ev(NoteEvent::NoteOff { note: 60 }), 0);
    assert_eq!(tones(&s), vec![(60, false), (61, true)]);
    // A second note-off finds no holder and changes nothing.
    s.handle_event(&ev(NoteEvent::NoteOff { note: 60 }), 0);
    assert_eq!(tones(&s), vec![(60, false), (61, true)]);
}

#[test]
fn no_tones_is_silence() {
    let mut s = ready_synth();
    s.handle_event(&on(60), 0);
    assert_ne!(s.sample(&motions(&s)), Some([0, 0]));
    s.stop_all();
    for _ in 0..3 {
        assert_eq!(s.sample(&vec![]), Some([0, 0]));
    }
    assert_eq!(s.tone_count(), 0);
}

#[test]
fn zero_velocity_is_silent() {
    let mut vt = new_voice_tone();
    vt.env_volume = 255;
    let p = MixParams { dst_ch: 2, looping: true, min_ct: 4410, smooth: 441 };
    assert_eq!(compute_voice_work(&vt, &instance(), 3, 1, 0, 128, p), 0);
    assert_ne!(compute_voice_work(&vt, &instance(), 3, 1, 127, 128, p), 0);
}

#[test]
fn kept_woice_is_reloaded() {
    let w = || Woice {
        voice_num: 1,
        units: vec![VoiceUnit { basic_key: 0x4500, tuning: 0x3F80_0000, voice_flags: 0 }],
        insts: vec![instance()],
    };
    let mut first = PtPlug::new(PxtoneSynth::new(0, true).unwrap());
    first.load_file(vec![1, 2, 3], "x.ptvoice".to_string(), w());
    let mut restarted = PtPlug::new(PxtoneSynth::new(0, true).unwrap());
    restarted.params.file_data = first.params.file_data.clone();
    restarted.params.woice_name = first.params.woice_name.clone();
    assert!(restarted.initialize(44100));
    restarted.load_stored_woice(w());
    restarted.init_woice(w().insts);
    assert!(restarted.synth.loaded());
    assert_eq!(restarted.params.woice_label(), "x.ptvoice");
}

#[test]
fn released_note_ends() {
    let mut s = ready_synth();
    s.handle_event(&on(60), 0);
    s.handle_event(&ev(NoteEvent::NoteOff { note: 60 }), 0);
    // release of 6 samples: the tone is gone after at most 7 frames
    let mut frames = 0;
    while s.tone_count() > 0 {
        s.sample(&motions(&s));
        frames += 1;
        assert!(frames <= 7);
    }
}

#[test]
fn held_note_keeps_sounding() {
    let mut s = ready_synth();
    s.handle_event(&on(60), 0);
    for _ in 0..50 {
        s.sample(&motions(&s));
    }
    assert_eq!(tones(&s), vec![(60, true)]);
}

#[test]
fn velocity_never_quieter() {
    let out = |v: u8| {
        let mut s = ready_synth();
        s.handle_event(&ev(NoteEvent::NoteOn { note: 60, velocity: v, note_freq: 0, offset_freqs: [0, 0] }), 0);
        s.sample(&motions(&s));
        s.sample(&motions(&s)).unwrap()
    };
    let mut last = [0i32, 0];
    for v in [0u8, 1, 10, 64, 100, 127] {
        let o = out(v);
        assert!(o[0].abs() >= last[0].abs() && o[1].abs() >= last[1].abs());
        last = o;
    }
}

#[test]
fn events_applied_once_in_order() {
    let mut s = ready_synth();
    let events = vec![
        TimedEvent { timing: 0, event: NoteEvent::NoteOn { note: 60, velocity: 1, note_freq: 0, offset_freqs: [0, 0] } },
        TimedEvent { timing: 2, event: NoteEvent::NoteOn { note: 61, velocity: 1, note_freq: 0, offset_freqs: [0, 0] } },
        TimedEvent { timing: 2, event: NoteEvent::NoteOff { note: 60 } },
        TimedEvent { timing: 5, event: NoteEvent::Choke { note: 61 } },
    ];
    let mut next = 0;
    let mut seen = vec![];
    for sample in 0..4u32 {
        next = s.handle_events(&events, next, sample);
        seen.push(next);
    }
    assert_eq!(seen, vec![1, 1, 3, 3]);
    assert_eq!(tones(&s), vec![(60, false), (61, true)]);
    // the late choke is still pending and applies at its sample
    next = s.handle_events(&events, next, 5);
    assert_eq!(next, 4);
    assert_eq!(tones(&s), vec![(60, false)]);
}

#[test]
fn events_wait_for_rate_and_woice() {
    let mut s = PxtoneSynth::new(0, true).unwrap();
    let events = vec![TimedEvent { timing: 0, event: NoteEvent::NoteOff { note: 1 } }];
    assert_eq!(s.handle_events(&events, 0, 3), 0);
}

#[test]
fn held_note_counts_nothing_at_low_rate() {
    // at 10 Hz min_ct is 1: a held note must still never be cut
    let mut s = PxtoneSynth::new(0, true).unwrap();
    s.set_audio_format(10, true).unwrap();
    let mut inst = instance();
    inst.env = vec![];
    inst.env_release = 0;
    s.load_woice(
        Woice {
            voice_num: 1,
            units: vec![VoiceUnit { basic_key: 0x4500, tuning: 0x3F80_0000, voice_flags: 0 }],
            insts: vec![inst],
        },
        0,
    )
    .unwrap();
    s.handle_event(&on(60), 0);
    for _ in 0..20 {
        s.sample(&motions(&s));
        match &s.woice_state {
            WoiceState::Loaded(l) => {
                assert_eq!(l.tones[0].voice_tones[0].smp_count, 0);
                assert!(l.tones[0].voice_tones[0].life_count > 0);
            },
            WoiceState::Unloaded => panic!("no woice"),
        }
    }
    assert_eq!(tones(&s), vec![(60, true)]);
    // once released the count runs out at min_ct
    s.handle_event(&ev(NoteEvent::NoteOff { note: 60 }), 0);
    s.sample(&motions(&s));
    assert_eq!(s.tone_count(), 0);
}
