//! A sounding tone: its voices, its time-pan delay line, and the rules that
//! create, release and step it.

use vstd::prelude::*;
use crate::synth::voice::{
    VoiceInstance, VoiceMotion, VoiceTone, VoiceUnit, frame_in_range, MixParams, UNIT_OFFSET_FREQ, VOICE_WORK_BOUND, initial_voice_tone,
    new_voice_tone, envelope_step, update_envelope, channel_step, channel_step_ok, voice_channel_step,
    advance_voice, after_left_step, voice_frame_ok,
};

verus! {

/// Voices a tone carries (one per voice a woice unit may have).
pub const TONE_VOICES: usize = 2;
/// Output channels.
pub const CHANNELS: usize = 2;
/// Length of each channel's time-pan delay line (a power of two).
pub const TIME_PAN_LEN: usize = 64;
/// Largest magnitude of a delay-line entry: what the voices of a tone add
/// to a channel in one frame.
pub const PAN_BUF_BOUND: i32 = 520_200;
/// Voice flag bit: the voice keeps its own pitch (no key offset applied).
pub const VOICE_FLAG_BEATFIT: u32 = 4;

/// A held or fading note.  `note_freq` is the bit pattern of the note's
/// frequency, carried for the caller's pitch arithmetic.  The time-pan delay
/// line of channel `c` occupies `time_pan_buf[c * 64 .. c * 64 + 64]`.
#[derive(Debug, PartialEq)]
pub struct Tone {
    pub on: bool,
    pub note_id: u8,
    pub note_freq: u32,
    pub velocity: u8,
    pub voice_tones: Vec<VoiceTone>,
    pub time_pan_buf: Vec<i32>,
}

/// Mathematical content of a [`Tone`].
pub struct ToneModel {
    pub on: bool,
    pub note_id: u8,
    pub note_freq: u32,
    pub velocity: u8,
    pub voices: Seq<VoiceTone>,
    pub time_pan_buf: Seq<i32>,
}

impl View for Tone {
    type V = ToneModel;

    open spec fn view(&self) -> ToneModel {
        ToneModel {
            on: self.on,
            note_id: self.note_id,
            note_freq: self.note_freq,
            velocity: self.velocity,
            voices: self.voice_tones@,
            time_pan_buf: self.time_pan_buf@,
        }
    }
}

impl ToneModel {
    pub open spec fn wf(self) -> bool {
        &&& self.voices.len() == TONE_VOICES
        &&& self.time_pan_buf.len() == CHANNELS * TIME_PAN_LEN
        &&& forall|v: int| 0 <= v < TONE_VOICES ==> #[trigger] self.voices[v].wf()
        &&& self.on ==> forall|v: int| 0 <= v < TONE_VOICES ==> #[trigger] self.voices[v].smp_count == 0
        &&& forall|i: int|
            0 <= i < CHANNELS * TIME_PAN_LEN ==> -PAN_BUF_BOUND <= #[trigger] self.time_pan_buf[i] <= PAN_BUF_BOUND
    }

    /// Some voice among the first `n` is still alive.
    pub open spec fn alive(self, n: int) -> bool {
        exists|v: int| 0 <= v < n && #[trigger] self.voices[v].life_count > 0
    }

    /// The tone is held and plays note `note`.
    pub open spec fn holds(self, note: u8) -> bool {
        self.on && self.note_id == note
    }
}

/// The models of a sequence of tones.
pub open spec fn models(ts: Seq<Tone>) -> Seq<ToneModel> {
    ts.map_values(|t: Tone| t@)
}

/// The elements of `s` whose mask entry is set, in order.
pub open spec fn select<A>(s: Seq<A>, mask: Seq<bool>) -> Seq<A>
    decreases s.len(),
{
    if s.len() == 0 {
        Seq::empty()
    } else {
        let rest = select(s.drop_last(), mask.take(s.len() - 1));
        if mask[s.len() - 1] { rest.push(s.last()) } else { rest }
    }
}

/// Selecting commutes with taking models.
pub proof fn lemma_select_models(s: Seq<Tone>, mask: Seq<bool>)
    requires
        mask.len() == s.len(),
    ensures
        models(select(s, mask)) == select(models(s), mask),
    decreases s.len(),
{
    if s.len() > 0 {
        lemma_select_models(s.drop_last(), mask.take(s.len() - 1));
        assert(models(s.drop_last()) =~= models(s).drop_last());
        let rest = select(s.drop_last(), mask.take(s.len() - 1));
        assert(models(rest.push(s.last())) =~= models(rest).push(s.last()@));
    } else {
        assert(models(select(s, mask)) =~= select(models(s), mask));
    }
}

/// Selection never lengthens a sequence.
pub proof fn lemma_select_len<A>(s: Seq<A>, mask: Seq<bool>)
    requires
        mask.len() == s.len(),
    ensures
        select(s, mask).len() <= s.len(),
    decreases s.len(),
{
    if s.len() > 0 {
        lemma_select_len(s.drop_last(), mask.take(s.len() - 1));
    }
}

/// Every selected element is an element of `s` whose mask entry is set.
pub proof fn lemma_select_from<A>(s: Seq<A>, mask: Seq<bool>, i: int)
    requires
        mask.len() == s.len(),
        0 <= i < select(s, mask).len(),
    ensures
        exists|j: int| 0 <= j < s.len() && mask[j] && select(s, mask)[i] == s[j],
    decreases s.len(),
{
    let rest = select(s.drop_last(), mask.take(s.len() - 1));
    if i < rest.len() {
        lemma_select_from(s.drop_last(), mask.take(s.len() - 1), i);
        let j = choose|j: int| 0 <= j < s.len() - 1 && mask.take(s.len() - 1)[j] && rest[i] == s.drop_last()[j];
        assert(select(s, mask)[i] == s[j]);
    } else {
        assert(select(s, mask)[i] == s[s.len() - 1]);
    }
}

/// Every element of `s` whose mask entry is set is selected.
pub proof fn lemma_select_keeps<A>(s: Seq<A>, mask: Seq<bool>, j: int)
    requires
        mask.len() == s.len(),
        0 <= j < s.len(),
        mask[j],
    ensures
        exists|i: int| 0 <= i < select(s, mask).len() && select(s, mask)[i] == s[j],
    decreases s.len(),
{
    let rest = select(s.drop_last(), mask.take(s.len() - 1));
    if j < s.len() - 1 {
        lemma_select_keeps(s.drop_last(), mask.take(s.len() - 1), j);
        let i = choose|i: int| 0 <= i < rest.len() && rest[i] == s.drop_last()[j];
        assert(select(s, mask)[i] == s[j]);
    } else {
        assert(select(s, mask)[rest.len() as int] == s[j]);
    }
}

/// Selecting with an all-set mask keeps everything.
pub proof fn lemma_select_all<A>(s: Seq<A>, mask: Seq<bool>)
    requires
        mask.len() == s.len(),
        forall|j: int| 0 <= j < s.len() ==> mask[j],
    ensures
        select(s, mask) == s,
    decreases s.len(),
{
    if s.len() > 0 {
        lemma_select_all(s.drop_last(), mask.take(s.len() - 1));
        assert(s.drop_last().push(s.last()) =~= s);
    } else {
        assert(select(s, mask) =~= s);
    }
}

/// Keep exactly the tones whose mask entry is set, preserving their order.
pub fn retain_selected(tones: &mut Vec<Tone>, mask: &Vec<bool>)
    requires
        mask@.len() == old(tones)@.len(),
    ensures
        final(tones)@ == select(old(tones)@, mask@),
{
    let ghost orig = tones@;
    let total: usize = tones.len();
    let mut kept: Vec<Tone> = Vec::new();
    let mut i: usize = 0;
    while tones.len() > 0
        invariant
            orig.len() == total,
            i + tones@.len() == orig.len(),
            mask@.len() == orig.len(),
            tones@ == orig.skip(i as int),
            kept@ == select(orig.take(i as int), mask@.take(i as int)),
        decreases tones@.len(),
    {
        let t = tones.remove(0);
        assert(orig.take(i + 1).drop_last() =~= orig.take(i as int));
        assert(mask@.take(i + 1).take(i as int) =~= mask@.take(i as int));
        assert(orig.take(i + 1).last() == orig[i as int]);
        if mask[i] {
            kept.push(t);
        }
        i = i + 1;
        assert(tones@ =~= orig.skip(i as int));
    }
    assert(orig.take(i as int) =~= orig);
    assert(mask@.take(i as int) =~= mask@);
    *tones = kept;
}

/// Envelope step of the first `n` voices of a tone.
pub open spec fn tone_envelope(t: ToneModel, insts: Seq<VoiceInstance>, n: int) -> ToneModel {
    ToneModel {
        voices: Seq::new(
            t.voices.len(),
            |v: int| if v < n { envelope_step(t.voices[v], insts[v], t.on) } else { t.voices[v] },
        ),
        ..t
    }
}

pub fn update_tone_envelope(tone: &mut Tone, insts: &Vec<VoiceInstance>, n: usize)
    requires
        old(tone)@.wf(),
        n <= TONE_VOICES,
        n <= insts@.len(),
        forall|v: int| 0 <= v < n ==> #[trigger] insts@[v].wf(),
    ensures
        final(tone)@ == tone_envelope(old(tone)@, insts@, n as int),
        final(tone)@.wf(),
{
    let ghost t0 = tone@;
    for v in 0..n
        invariant
            n <= TONE_VOICES,
            n <= insts@.len(),
            forall|j: int| 0 <= j < n ==> #[trigger] insts@[j].wf(),
            tone@.wf(),
            tone.on == t0.on,
            tone@.voices.len() == t0.voices.len(),
            tone@.time_pan_buf == t0.time_pan_buf,
            tone.note_id == t0.note_id,
            tone.note_freq == t0.note_freq,
            tone.velocity == t0.velocity,
            forall|j: int| 0 <= j < v ==> tone@.voices[j] == envelope_step(t0.voices[j], insts@[j], t0.on),
            forall|j: int| v <= j < t0.voices.len() ==> tone@.voices[j] == t0.voices[j],
    {
        let mut vt = tone.voice_tones[v];
        update_envelope(&mut vt, &insts[v], tone.on);
        tone.voice_tones.set(v, vt);
    }
    assert(tone@.voices =~= tone_envelope(t0, insts@, n as int).voices);
}

/// Sum of what the first `n` voices of a tone add to channel `ch`.
pub open spec fn channel_work(
    t: ToneModel,
    insts: Seq<VoiceInstance>,
    ms: Seq<VoiceMotion>,
    n: int,
    ch: int,
    vol_pan: int,
    p: MixParams,
) -> int
    decreases n,
{
    if n <= 0 {
        0
    } else {
        channel_work(t, insts, ms, n - 1, ch, vol_pan, p)
            + channel_step(t.voices[n - 1], insts[n - 1], ms[n - 1], ch, t.on, t.velocity as int, vol_pan, p).1
    }
}

/// Channel `ch` step of a tone: its first `n` voices take their channel step
/// and their summed work is written to delay-line slot `slot` of the channel.
pub open spec fn tone_channel(
    t: ToneModel,
    insts: Seq<VoiceInstance>,
    ms: Seq<VoiceMotion>,
    n: int,
    ch: int,
    vol_pan: int,
    p: MixParams,
    slot: int,
) -> ToneModel {
    ToneModel {
        voices: Seq::new(
            t.voices.len(),
            |v: int|
                if v < n {
                    channel_step(t.voices[v], insts[v], ms[v], ch, t.on, t.velocity as int, vol_pan, p).0
                } else {
                    t.voices[v]
                },
        ),
        time_pan_buf: t.time_pan_buf.update(
            ch * TIME_PAN_LEN + slot,
            channel_work(t, insts, ms, n, ch, vol_pan, p) as i32,
        ),
        ..t
    }
}

/// The first `n` voices of a tone can all take channel step `ch`.
pub open spec fn tone_channel_ok(
    t: ToneModel,
    insts: Seq<VoiceInstance>,
    ms: Seq<VoiceMotion>,
    n: int,
    ch: int,
    p: MixParams,
) -> bool {
    forall|v: int| 0 <= v < n ==> #[trigger] channel_step_ok(t.voices[v], insts[v], ms[v], ch, p)
}

pub fn mix_tone_channel(
    tone: &mut Tone,
    insts: &Vec<VoiceInstance>,
    ms: &Vec<VoiceMotion>,
    n: usize,
    ch: usize,
    vol_pan: i32,
    p: MixParams,
    slot: usize,
)
    requires
        old(tone)@.wf(),
        n <= TONE_VOICES,
        n <= insts@.len(),
        n <= ms@.len(),
        forall|v: int| 0 <= v < n ==> #[trigger] insts@[v].wf(),
        p.wf(),
        ch < p.dst_ch,
        ch < CHANNELS,
        slot < TIME_PAN_LEN,
        0 <= vol_pan <= 128,
        tone_channel_ok(old(tone)@, insts@, ms@, n as int, ch as int, p),
    ensures
        final(tone)@ == tone_channel(old(tone)@, insts@, ms@, n as int, ch as int, vol_pan as int, p, slot as int),
        final(tone)@.wf(),
{
    let ghost t0 = tone@;
    let mut pan: i32 = 0;
    for v in 0..n
        invariant
            n <= TONE_VOICES,
            n <= insts@.len(),
            n <= ms@.len(),
            forall|j: int| 0 <= j < n ==> #[trigger] insts@[j].wf(),
            p.wf(),
            ch < p.dst_ch,
            0 <= vol_pan <= 128,
            tone_channel_ok(t0, insts@, ms@, n as int, ch as int, p),
            tone@.wf(),
            tone.on == t0.on,
            tone.note_id == t0.note_id,
            tone.note_freq == t0.note_freq,
            tone.velocity == t0.velocity,
            tone@.voices.len() == t0.voices.len(),
            tone@.time_pan_buf == t0.time_pan_buf,
            forall|j: int|
                0 <= j < v ==> tone@.voices[j] == channel_step(
                    t0.voices[j],
                    insts@[j],
                    ms@[j],
                    ch as int,
                    t0.on,
                    t0.velocity as int,
                    vol_pan as int,
                    p,
                ).0,
            forall|j: int| v <= j < t0.voices.len() ==> tone@.voices[j] == t0.voices[j],
            pan == channel_work(t0, insts@, ms@, v as int, ch as int, vol_pan as int, p),
            -(v as int) * VOICE_WORK_BOUND <= pan <= (v as int) * VOICE_WORK_BOUND,
    {
        let mut vt = tone.voice_tones[v];
        assert(channel_step_ok(t0.voices[v as int], insts@[v as int], ms@[v as int], ch as int, p));
        let w = voice_channel_step(&mut vt, &insts[v], &ms[v], ch, tone.on, tone.velocity, vol_pan, p);
        tone.voice_tones.set(v, vt);
        pan = pan + w;
    }
    let ghost before = tone@;
    tone.time_pan_buf.set(ch * TIME_PAN_LEN + slot, pan);
    assert forall|i: int| 0 <= i < CHANNELS * TIME_PAN_LEN implies -PAN_BUF_BOUND <= #[trigger] tone@.time_pan_buf[i]
        <= PAN_BUF_BOUND by {
        if i != ch * TIME_PAN_LEN + slot {
            assert(tone@.time_pan_buf[i] == before.time_pan_buf[i]);
        }
    }
    assert(tone@.voices =~= tone_channel(t0, insts@, ms@, n as int, ch as int, vol_pan as int, p, slot as int).voices);
}

/// Whether some voice among the first `n` of a tone is alive.
pub fn tone_is_alive(tone: &Tone, n: usize) -> (b: bool)
    requires
        n <= tone@.voices.len(),
    ensures
        b == tone@.alive(n as int),
{
    for v in 0..n
        invariant
            n <= tone@.voices.len(),
            forall|j: int| 0 <= j < v ==> tone@.voices[j].life_count <= 0,
    {
        if tone.voice_tones[v].life_count > 0 {
            return true;
        }
    }
    false
}

/// Voice `v` of a freshly struck tone: the first `n` voices start alive from
/// the beginning of their sample, take the supplied pitch factor unless their
/// unit is beat-fit, and start their envelope at zero when it has a table
/// (full volume otherwise).
pub open spec fn struck_voice(
    v: int,
    n: int,
    units: Seq<VoiceUnit>,
    insts: Seq<VoiceInstance>,
    offset_freqs: Seq<u32>,
) -> VoiceTone {
    if v < n {
        let vol: i32 = if insts[v].env@.len() > 0 { 0 } else { 128 };
        VoiceTone {
            life_count: 1,
            smp_pos: 0,
            smp_count: 0,
            env_pos: 0,
            offset_freq: if units[v].voice_flags & VOICE_FLAG_BEATFIT == 0 { offset_freqs[v] } else { UNIT_OFFSET_FREQ },
            env_volume: vol,
            env_start: vol,
            ..initial_voice_tone()
        }
    } else {
        initial_voice_tone()
    }
}

/// A freshly struck tone.
pub open spec fn struck_tone(
    note: u8,
    velocity: u8,
    note_freq: u32,
    n: int,
    units: Seq<VoiceUnit>,
    insts: Seq<VoiceInstance>,
    offset_freqs: Seq<u32>,
) -> ToneModel {
    ToneModel {
        on: true,
        note_id: note,
        note_freq,
        velocity,
        voices: Seq::new(TONE_VOICES as nat, |v: int| struck_voice(v, n, units, insts, offset_freqs)),
        time_pan_buf: Seq::new((CHANNELS * TIME_PAN_LEN) as nat, |i: int| 0i32),
    }
}

pub fn strike_tone(
    note: u8,
    velocity: u8,
    note_freq: u32,
    n: usize,
    units: &Vec<VoiceUnit>,
    insts: &Vec<VoiceInstance>,
    offset_freqs: &[u32; 2],
) -> (tone: Tone)
    requires
        n <= TONE_VOICES,
        n <= units@.len(),
        n <= insts@.len(),
    ensures
        tone@ == struck_tone(note, velocity, note_freq, n as int, units@, insts@, offset_freqs@),
        tone@.wf(),
{
    let mut voices: Vec<VoiceTone> = Vec::new();
    for v in 0..TONE_VOICES
        invariant
            n <= TONE_VOICES,
            n <= units@.len(),
            n <= insts@.len(),
            voices@.len() == v,
            forall|j: int| 0 <= j < v ==> voices@[j] == struck_voice(j, n as int, units@, insts@, offset_freqs@),
    {
        let mut vt = new_voice_tone();
        if v < n {
            vt.life_count = 1;
            vt.smp_pos = 0;
            vt.smp_count = 0;
            vt.env_pos = 0;
            if units[v].voice_flags & VOICE_FLAG_BEATFIT == 0 {
                vt.offset_freq = offset_freqs[v];
            }
            if insts[v].env.len() > 0 {
                vt.env_volume = 0;
                vt.env_start = 0;
            } else {
                vt.env_volume = 128;
                vt.env_start = 128;
            }
        }
        voices.push(vt);
    }
    let mut buf: Vec<i32> = Vec::new();
    for i in 0..CHANNELS * TIME_PAN_LEN
        invariant
            buf@.len() == i,
            forall|j: int| 0 <= j < i ==> buf@[j] == 0,
    {
        buf.push(0);
    }
    let tone = Tone { on: true, note_id: note, note_freq, velocity, voice_tones: voices, time_pan_buf: buf };
    assert(tone@.voices =~= struck_tone(note, velocity, note_freq, n as int, units@, insts@, offset_freqs@).voices);
    assert(tone@.time_pan_buf =~= struck_tone(note, velocity, note_freq, n as int, units@, insts@, offset_freqs@).time_pan_buf);
    tone
}

/// A released tone: no longer held, and each of its first `n` voices starts
/// its release from the current envelope volume.
pub open spec fn released_tone(t: ToneModel, n: int) -> ToneModel {
    ToneModel {
        on: false,
        voices: Seq::new(
            t.voices.len(),
            |v: int|
                if v < n {
                    VoiceTone { env_start: t.voices[v].env_volume, env_pos: 0, ..t.voices[v] }
                } else {
                    t.voices[v]
                },
        ),
        ..t
    }
}

pub fn release_tone(tone: &mut Tone, n: usize)
    requires
        old(tone)@.wf(),
        n <= TONE_VOICES,
    ensures
        final(tone)@ == released_tone(old(tone)@, n as int),
        final(tone)@.wf(),
{
    let ghost t0 = tone@;
    tone.on = false;
    for v in 0..n
        invariant
            n <= TONE_VOICES,
            tone@.wf(),
            !tone.on,
            tone.note_id == t0.note_id,
            tone.note_freq == t0.note_freq,
            tone.velocity == t0.velocity,
            tone@.time_pan_buf == t0.time_pan_buf,
            tone@.voices.len() == t0.voices.len(),
            forall|j: int|
                0 <= j < v ==> tone@.voices[j] == (VoiceTone {
                    env_start: t0.voices[j].env_volume,
                    env_pos: 0,
                    ..t0.voices[j]
                }),
            forall|j: int| v <= j < t0.voices.len() ==> tone@.voices[j] == t0.voices[j],
    {
        let ghost prev = tone@;
        let mut vt = tone.voice_tones[v];
        vt.env_start = vt.env_volume;
        vt.env_pos = 0;
        assert(prev.voices[v as int].wf());
        tone.voice_tones.set(v, vt);
        assert forall|j: int| 0 <= j < TONE_VOICES implies #[trigger] tone@.voices[j].wf() by {
            if j != v {
                assert(prev.voices[j].wf());
            }
        }
    }
    assert(tone@.voices =~= released_tone(t0, n as int).voices);
}

/// Whether frame `frame` can be read from a voice instance.
pub fn frame_fits(vi: &VoiceInstance, frame: i32) -> (b: bool)
    ensures
        b == frame_in_range(*vi, frame as int),
{
    frame >= 0 && (frame as u64) * 2 + 2 <= vi.samples.len() as u64
}

/// Whether a tone can take a whole output frame: every channel step that a
/// voice takes while still alive reads an existing frame and cannot divide
/// by zero in its fade.
pub open spec fn tone_sample_ok(
    t: ToneModel,
    insts: Seq<VoiceInstance>,
    ms: Seq<VoiceMotion>,
    n: int,
    p: MixParams,
) -> bool {
    forall|v: int| 0 <= v < n ==> #[trigger] voice_frame_ok(t.voices[v], insts[v], ms[v], t.on, p)
}

/// One output frame of a tone: envelope step of its voices, then the left
/// and the right channel step, each writing delay-line slot `slot`.
pub open spec fn tone_sample(
    t: ToneModel,
    insts: Seq<VoiceInstance>,
    ms: Seq<VoiceMotion>,
    n: int,
    vol_pan: Seq<i32>,
    p: MixParams,
    slot: int,
) -> ToneModel {
    let t0 = tone_envelope(t, insts, n);
    let t1 = tone_channel(t0, insts, ms, n, 0, vol_pan[0] as int, p, slot);
    tone_channel(t1, insts, ms, n, 1, vol_pan[1] as int, p, slot)
}

/// Whether a live voice may take channel step `ch` at frame `frame`.
fn step_fits(vt: &VoiceTone, vi: &VoiceInstance, frame: i32, p: MixParams) -> (b: bool)
    requires
        vt.life_count > 0,
        p.wf(),
    ensures
        b == (frame_in_range(*vi, frame as int) && !p.fade_divides_by_zero(*vt, *vi)),
{
    frame_fits(vi, frame) && !(vi.env_release <= 0 && p.looping && vt.smp_count as i64 > p.min_ct as i64 - p.smooth as i64
        && p.smooth == 0)
}

/// Whether a tone can take a whole output frame.
pub fn tone_can_sample(tone: &Tone, insts: &Vec<VoiceInstance>, ms: &Vec<VoiceMotion>, n: usize, p: MixParams) -> (b: bool)
    requires
        tone@.wf(),
        n <= TONE_VOICES,
        n <= insts@.len(),
        n <= ms@.len(),
        forall|v: int| 0 <= v < n ==> #[trigger] insts@[v].wf(),
        p.wf(),
    ensures
        b == tone_sample_ok(tone@, insts@, ms@, n as int, p),
{
    for v in 0..n
        invariant
            tone@.wf(),
            n <= TONE_VOICES,
            n <= insts@.len(),
            n <= ms@.len(),
            forall|j: int| 0 <= j < n ==> #[trigger] insts@[j].wf(),
            p.wf(),
            forall|j: int| 0 <= j < v ==> #[trigger] voice_frame_ok(tone@.voices[j], insts@[j], ms@[j], tone.on, p),
    {
        let mut vt = tone.voice_tones[v];
        let vi = &insts[v];
        let m = ms[v];
        assert(tone@.voices[v as int].wf());
        assert(insts@[v as int].wf());
        update_envelope(&mut vt, vi, tone.on);
        if vt.life_count > 0 {
            if !step_fits(&vt, vi, m.frames[0], p) {
                assert(!voice_frame_ok(tone@.voices[v as int], insts@[v as int], ms@[v as int], tone@.on, p));
                return false;
            }
            advance_voice(&mut vt, vi, tone.on, p, m.past_end[0], m.positions[1]);
            if vt.life_count > 0 && !step_fits(&vt, vi, m.frames[1], p) {
                assert(!voice_frame_ok(tone@.voices[v as int], insts@[v as int], ms@[v as int], tone@.on, p));
                return false;
            }
        }
        assert(voice_frame_ok(tone@.voices[v as int], insts@[v as int], ms@[v as int], tone.on, p));
    }
    true
}

pub fn sample_tone(
    tone: &mut Tone,
    insts: &Vec<VoiceInstance>,
    ms: &Vec<VoiceMotion>,
    n: usize,
    vol_pan: &[i32; 2],
    p: MixParams,
    slot: usize,
)
    requires
        old(tone)@.wf(),
        n <= TONE_VOICES,
        n <= insts@.len(),
        n <= ms@.len(),
        forall|v: int| 0 <= v < n ==> #[trigger] insts@[v].wf(),
        p.wf(),
        p.dst_ch == CHANNELS,
        slot < TIME_PAN_LEN,
        forall|c: int| 0 <= c < 2 ==> 0 <= #[trigger] vol_pan@[c] <= 128,
        tone_sample_ok(old(tone)@, insts@, ms@, n as int, p),
    ensures
        final(tone)@ == tone_sample(old(tone)@, insts@, ms@, n as int, vol_pan@, p, slot as int),
        final(tone)@.wf(),
{
    let ghost t = tone@;
    update_tone_envelope(tone, insts, n);
    let ghost t0 = tone@;
    assert forall|v: int| 0 <= v < n implies #[trigger] channel_step_ok(t0.voices[v], insts@[v], ms@[v], 0, p) by {
        assert(voice_frame_ok(t.voices[v], insts@[v], ms@[v], t.on, p));
    }
    mix_tone_channel(tone, insts, ms, n, 0, vol_pan[0], p, slot);
    let ghost t1 = tone@;
    assert forall|v: int| 0 <= v < n implies #[trigger] channel_step_ok(t1.voices[v], insts@[v], ms@[v], 1, p) by {
        assert(voice_frame_ok(t.voices[v], insts@[v], ms@[v], t.on, p));
        assert(t1.voices[v] == after_left_step(t.voices[v], insts@[v], ms@[v], t.on, p));
    }
    mix_tone_channel(tone, insts, ms, n, 1, vol_pan[1], p, slot);
}

/// Sum, over a sequence of tones, of their delay-line entry `index`.
pub open spec fn mix_sum(ts: Seq<ToneModel>, index: int) -> int
    decreases ts.len(),
{
    if ts.len() == 0 {
        0
    } else {
        mix_sum(ts.drop_last(), index) + ts.last().time_pan_buf[index] as int
    }
}

/// A sum of delay-line entries over tones is bounded by the number of tones
/// times the entry bound.
pub proof fn lemma_mix_sum_bound(ts: Seq<ToneModel>, index: int)
    requires
        0 <= index < CHANNELS * TIME_PAN_LEN,
        forall|i: int| 0 <= i < ts.len() ==> #[trigger] ts[i].wf(),
    ensures
        -(ts.len() * PAN_BUF_BOUND) <= mix_sum(ts, index) <= ts.len() * PAN_BUF_BOUND,
    decreases ts.len(),
{
    if ts.len() > 0 {
        lemma_mix_sum_bound(ts.drop_last(), index);
        assert(ts.last().wf());
        assert((ts.len() - 1) * PAN_BUF_BOUND + PAN_BUF_BOUND == ts.len() * PAN_BUF_BOUND) by (nonlinear_arith);
    }
}

} // verus!
