use pxtone_plug::synth::voice::{VoiceInstance, VoiceUnit};
use pxtone_plug::synth::{NoteEvent, PxtoneSynth, TimedEvent, Woice};
use pxtone_plug::plugin::OUTPUT_CHANNELS;
use pxtone_plug::{PtParams, PtPlug};

fn woice() -> Woice {
    Woice {
        voice_num: 1,
        units: vec![VoiceUnit { basic_key: 0x4500, tuning: 0x3F80_0000, voice_flags: 0 }],
        insts: vec![VoiceInstance {
            smp_head_w: 0,
            smp_body_w: 1,
            smp_tail_w: 0,
            samples: vec![0, 0],
            env: vec![],
            env_release: 0,
        }],
    }
}

fn plug() -> PtPlug {
    PtPlug::new(PxtoneSynth::new(0, true).unwrap())
}

#[test]
fn default_params_are_empty() {
    let p = PtParams::default();
    assert_eq!(p.file_data, None);
    assert_eq!(p.woice_name, None);
    assert_eq!(p.num_tones, 0);
}

#[test]
fn woice_label_shows_name_or_none() {
    let mut p = PtParams::default();
    assert_eq!(p.woice_label(), "None");
    p.woice_name = Some("flute.ptvoice".to_string());
    assert_eq!(p.woice_label(), "flute.ptvoice");
}

#[test]
fn new_plug_is_not_initialised() {
    let p = plug();
    assert!(!p.initted);
    assert!(!p.processing());
}

#[test]
fn initialize_without_stored_file_loads_nothing() {
    let mut p = plug();
    assert!(!p.initialize(44100));
    assert!(p.initted);
    assert!(p.processing());
    assert_eq!(p.synth.sample_rate, Some(44100));
}

#[test]
fn initialize_reloads_kept_file() {
    let mut p = plug();
    p.params.file_data = Some(vec![1, 2, 3]);
    assert!(p.initialize(48000));
    assert_eq!(p.synth.sample_rate, Some(48000));
    p.load_stored_woice(woice());
    assert!(p.synth.loaded());
    p.init_woice(woice().insts);
    assert_eq!(p.synth.sample_rate, Some(48000));
    assert!(p.synth.loaded());
}

#[test]
fn stored_woice_replaces_loaded_one() {
    let mut p = plug();
    p.params.file_data = Some(vec![1]);
    p.load_stored_woice(woice());
    let mut other = woice();
    other.units[0].basic_key = 0x4600;
    p.load_stored_woice(other);
    assert!(p.synth.loaded());
    assert_eq!(p.params.file_data, Some(vec![1]));
    assert_eq!(p.synth.tone_count(), 0);
}

#[test]
fn init_woice_without_woice_changes_nothing() {
    let mut p = plug();
    assert!(!p.initialize(44100));
    p.init_woice(vec![]);
    assert!(!p.synth.loaded());
    assert_eq!(p.synth.sample_rate, Some(44100));
}

#[test]
fn synthesiser_renders_stereo() {
    assert_eq!(OUTPUT_CHANNELS, 2);
}

#[test]
fn initialize_keeps_loaded_woice() {
    let mut p = plug();
    p.params.file_data = Some(vec![1, 2, 3]);
    p.synth.load_woice(woice(), 0).unwrap();
    assert!(!p.initialize(44100));
}

#[test]
fn load_file_before_initialisation_defers_readying() {
    let mut p = plug();
    assert!(!p.load_file(vec![7, 8], "a.ptvoice".to_string(), woice()));
    assert_eq!(p.params.file_data, Some(vec![7, 8]));
    assert_eq!(p.params.woice_name, Some("a.ptvoice".to_string()));
    assert!(p.synth.loaded());
}

#[test]
fn load_file_after_initialisation_readies_now() {
    let mut p = plug();
    p.initialize(44100);
    assert!(p.load_file(vec![9], "b.ptvoice".to_string(), woice()));
    assert!(p.synth.loaded());
}

#[test]
fn load_file_replaces_kept_file() {
    let mut p = plug();
    p.params.file_data = Some(vec![1]);
    p.params.woice_name = Some("old.ptvoice".to_string());
    p.params.num_tones = 3;
    p.load_file(vec![9], "b.ptvoice".to_string(), woice());
    assert_eq!(p.params.file_data, Some(vec![9]));
    assert_eq!(p.params.woice_name, Some("b.ptvoice".to_string()));
    assert_eq!(p.params.num_tones, 3);
}

#[test]
fn tone_count_published_only_while_taking_events() {
    let mut p = plug();
    p.params.num_tones = 5;
    assert!(!p.publish_tone_count());
    assert_eq!(p.params.num_tones, 5);
    p.synth.set_audio_format(44100, true).unwrap();
    p.synth.load_woice(woice(), 0).unwrap();
    p.synth.handle_event(
        &TimedEvent {
            timing: 0,
            event: NoteEvent::NoteOn { note: 1, velocity: 1, note_freq: 0, offset_freqs: [0, 0] },
        },
        0,
    );
    assert!(p.publish_tone_count());
    assert_eq!(p.params.num_tones, 1);
}

#[test]
fn reset_stops_all_tones() {
    let mut p = plug();
    p.synth.set_audio_format(44100, true).unwrap();
    p.synth.load_woice(woice(), 0).unwrap();
    p.synth.handle_event(
        &TimedEvent {
            timing: 0,
            event: NoteEvent::NoteOn { note: 1, velocity: 1, note_freq: 0, offset_freqs: [0, 0] },
        },
        0,
    );
    p.reset();
    assert_eq!(p.synth.tone_count(), 0);
    assert!(p.synth.loaded());
}
