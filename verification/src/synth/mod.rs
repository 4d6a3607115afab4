//! The synthesiser state and its operations.

pub mod arith;
pub mod laws;
pub mod step_laws;
pub mod tone;
pub mod voice;

use vstd::prelude::*;
use crate::synth::arith::{tdiv, mod64, div_toward_zero, lemma_tdiv_bound_any};
use crate::synth::tone::{
    Tone, ToneModel, CHANNELS, TIME_PAN_LEN, TONE_VOICES, PAN_BUF_BOUND, lemma_mix_sum_bound, models, select, lemma_select_models,
    retain_selected, tone_sample, tone_sample_ok, tone_can_sample, sample_tone, mix_sum, tone_is_alive,
    struck_tone, strike_tone, released_tone, release_tone,
};
use crate::synth::voice::{VoiceInstance, VoiceMotion, VoiceUnit, MixParams};

verus! {

/// Neutral pan position (centre) used for both volume and time pan.
pub const CENTER_PAN: i32 = 64;
/// Number of tones up to which the channel mix can never overflow 32 bits
/// (`MAX_MIXED_TONES * PAN_BUF_BOUND <= i32::MAX`).
pub const MAX_MIXED_TONES: usize = 4128;
/// Magnitude bound of a time-pan delay in samples (63 * 44100).
pub const TIME_PAN_BOUND: i32 = 2_778_300;

/// A loaded woice: its units' parameters and its voice instances as readied
/// for the current sample rate.
pub struct Woice {
    pub voice_num: usize,
    pub units: Vec<VoiceUnit>,
    pub insts: Vec<VoiceInstance>,
}

impl Woice {
    pub open spec fn wf(&self) -> bool {
        &&& self.voice_num <= TONE_VOICES
        &&& self.units@.len() == self.voice_num
        &&& self.insts@.len() == self.voice_num
        &&& forall|v: int| 0 <= v < self.voice_num ==> #[trigger] self.insts@[v].wf()
    }

    /// Whether the woice has the shape [`Woice::wf`] asks for.
    pub fn fits(&self) -> (b: bool)
        ensures
            b == self.wf(),
    {
        if self.voice_num > TONE_VOICES || self.units.len() != self.voice_num || self.insts.len() != self.voice_num {
            return false;
        }
        instances_fit(&self.insts)
    }
}

/// Whether every voice instance has the sizes [`VoiceInstance::wf`] asks for.
pub fn instances_fit(insts: &Vec<VoiceInstance>) -> (b: bool)
    ensures
        b == forall|v: int| 0 <= v < insts@.len() ==> #[trigger] insts@[v].wf(),
{
    for v in 0..insts.len()
        invariant
            forall|j: int| 0 <= j < v ==> #[trigger] insts@[j].wf(),
    {
        if !insts[v].fits() {
            return false;
        }
    }
    true
}

/// Everything the engine holds once a woice is loaded.  `time_pan` and
/// `vol_pan` are per output channel.
pub struct LoadedWoice {
    pub woice: Woice,
    pub time_pan: [i32; 2],
    pub vol_pan: [i32; 2],
    pub tones: Vec<Tone>,
    pub time_pan_index: usize,
}

impl LoadedWoice {
    pub open spec fn wf(&self) -> bool {
        &&& self.woice.wf()
        &&& self.time_pan_index < TIME_PAN_LEN
        &&& forall|c: int| 0 <= c < 2 ==> 0 <= #[trigger] self.vol_pan@[c] <= 128
        &&& forall|c: int| 0 <= c < 2 ==> -TIME_PAN_BOUND <= #[trigger] self.time_pan@[c] <= TIME_PAN_BOUND
        &&& forall|i: int| 0 <= i < self.tones@.len() ==> #[trigger] self.tones@[i]@.wf()
    }
}

pub enum WoiceState {
    Unloaded,
    Loaded(LoadedWoice),
}

/// Why an operation of the synthesiser failed; the codes are the woice
/// library's error codes.
#[derive(Clone, Copy, Debug, PartialEq, Eq)]
pub enum SynthError {
    ServiceInit(i32),
    FrequencyInit,
    PtvRead(i32),
    ToneReady(i32),
    NoSampleRate,
    DestinationQuality,
}

/// A note event as the engine sees it.  For a note-on, `velocity` is the
/// 0..=127 velocity, and `note_freq` and `offset_freqs` are the bit patterns
/// of the note's frequency and of each voice's key-offset pitch factor.
#[derive(Clone, Copy, Debug, PartialEq, Eq)]
pub enum NoteEvent {
    NoteOn { note: u8, velocity: u8, note_freq: u32, offset_freqs: [u32; 2] },
    NoteOff { note: u8 },
    PolyPressure { note: u8 },
    Choke { note: u8 },
    Other,
}

/// A note event and the sample index within the block at which it applies.
#[derive(Clone, Copy, Debug, PartialEq, Eq)]
pub struct TimedEvent {
    pub timing: u32,
    pub event: NoteEvent,
}

/// The synthesiser: the loaded woice (if any) with its sounding tones, and
/// the output sample rate (once the host has set it).
pub struct PxtoneSynth {
    pub woice_state: WoiceState,
    pub sample_rate: Option<i32>,
}

/// Volume pan of channel `ch` for pan position `pan`.
pub open spec fn vol_pan_of(ch: int, dst_ch: int, pan: int) -> int {
    if dst_ch == 2 {
        if pan >= 64 {
            if ch == 0 { 128 - pan } else { 64 }
        } else {
            if ch == 1 { pan } else { 64 }
        }
    } else {
        64
    }
}

/// Time pan (delay in samples) of channel `ch` for pan position `pan`.
pub open spec fn time_pan_of(ch: int, dst_ch: int, pan: int, sample_rate: int) -> int {
    let span = if pan >= 64 { pan - 64 } else { 64 - pan };
    let clamped = if span >= 64 { 63 } else { span };
    if dst_ch == 2 && ((pan >= 64 && ch == 0) || (pan < 64 && ch == 1)) {
        tdiv(clamped * 44100, sample_rate)
    } else {
        0
    }
}

/// Volume and time pans of both channels for the given pan positions.
pub fn channel_pans(dst_ch: usize, vol_pan: i32, time_pan: i32, sample_rate: i32) -> (pans: ([i32; 2], [i32; 2]))
    requires
        0 <= vol_pan <= 128,
        0 <= time_pan <= 128,
        sample_rate != 0,
    ensures
        forall|c: int| 0 <= c < 2 ==> #[trigger] pans.0@[c] == vol_pan_of(c, dst_ch as int, vol_pan as int),
        forall|c: int| 0 <= c < 2 ==> #[trigger] pans.1@[c] == time_pan_of(c, dst_ch as int, time_pan as int, sample_rate as int),
        forall|c: int| 0 <= c < 2 ==> 0 <= #[trigger] pans.0@[c] <= 128,
        forall|c: int| 0 <= c < 2 ==> -TIME_PAN_BOUND <= #[trigger] pans.1@[c] <= TIME_PAN_BOUND,
{
    let mut v0: i32 = 64;
    let mut v1: i32 = 64;
    if dst_ch == 2 {
        if vol_pan >= 64 {
            v0 = 128 - vol_pan;
        } else {
            v1 = vol_pan;
        }
    }
    let mut t0: i32 = 0;
    let mut t1: i32 = 0;
    if dst_ch == 2 {
        if time_pan >= 64 {
            t0 = time_pan - 64;
            if t0 >= 64 {
                t0 = 63;
            }
            proof { lemma_tdiv_bound_any(t0 * 44100, sample_rate as int, TIME_PAN_BOUND as int); }
            t0 = div_toward_zero(t0 * 44100, sample_rate);
        } else {
            t1 = 64 - time_pan;
            if t1 >= 64 {
                t1 = 63;
            }
            proof { lemma_tdiv_bound_any(t1 * 44100, sample_rate as int, TIME_PAN_BOUND as int); }
            t1 = div_toward_zero(t1 * 44100, sample_rate);
        }
    }
    let pans = ([v0, v1], [t0, t1]);
    assert(pans.0@[0] == v0 && pans.0@[1] == v1);
    assert(pans.1@[0] == t0 && pans.1@[1] == t1);
    pans
}

/// The mixer settings for a sample rate: stereo, looping voices,
/// `min_ct` = a tenth of a second and `smooth` = a hundredth of a second of
/// samples.
pub open spec fn mix_params(sample_rate: int) -> MixParams {
    MixParams {
        dst_ch: CHANNELS,
        looping: true,
        min_ct: tdiv(sample_rate * 100, 1000) as i32,
        smooth: tdiv(sample_rate, 100) as i32,
    }
}

/// The mixer settings of a sample rate whose arithmetic fits are well formed.
pub proof fn lemma_mix_params_wf(sample_rate: int)
    requires
        rate_fits(sample_rate),
    ensures
        mix_params(sample_rate).wf(),
{
    lemma_tdiv_bound_any(sample_rate * 100, 1000, 0x8000_0000);
    lemma_tdiv_bound_any(sample_rate, 100, 21_474_836);
}

/// The mixer settings for an output sample rate.
pub fn mixer_settings(sample_rate: i32) -> (p: MixParams)
    requires
        rate_fits(sample_rate as int),
    ensures
        p == mix_params(sample_rate as int),
        p.wf(),
{
    proof {
        lemma_tdiv_bound_any(sample_rate * 100, 1000, 0x8000_0000);
        lemma_tdiv_bound_any(sample_rate as int, 100, 21_474_836);
        lemma_mix_params_wf(sample_rate as int);
    }
    MixParams { dst_ch: CHANNELS, looping: true, min_ct: sample_rate * 100 / 1000, smooth: sample_rate / 100 }
}

/// Sample rates for which `sample_rate * 100` fits in 32 bits.
pub open spec fn rate_fits(sample_rate: int) -> bool {
    -0x8000_0000 <= sample_rate * 100 <= 0x7fff_ffff
}

/// Delay-line index that channel `ch` reads: `time_pan[ch]` samples behind
/// the write slot, wrapping around the line.
pub open spec fn read_index(l: LoadedWoice, ch: int) -> int {
    ch * TIME_PAN_LEN + mod64(l.time_pan_index - l.time_pan@[ch])
}

/// The tones of a loaded woice after they each take one output frame.
pub open spec fn sampled_tones(l: LoadedWoice, sample_rate: int, motions: Seq<Vec<VoiceMotion>>) -> Seq<ToneModel> {
    Seq::new(
        l.tones@.len(),
        |i: int|
            tone_sample(
                l.tones@[i]@,
                l.woice.insts@,
                motions[i]@,
                l.woice.voice_num as int,
                l.vol_pan@,
                mix_params(sample_rate),
                l.time_pan_index as int,
            ),
    )
}

/// Which tones still have a live voice.
pub open spec fn alive_mask(ts: Seq<ToneModel>, n: int) -> Seq<bool> {
    Seq::new(ts.len(), |i: int| ts[i].alive(n))
}

/// Which tones do not play note `note`.
pub open spec fn not_note_mask(ts: Seq<ToneModel>, note: u8) -> Seq<bool> {
    Seq::new(ts.len(), |i: int| ts[i].note_id != note)
}

/// `i` is the first tone that holds `note`.
pub open spec fn first_holding(ts: Seq<ToneModel>, note: u8, i: int) -> bool {
    &&& 0 <= i < ts.len()
    &&& ts[i].holds(note)
    &&& forall|j: int| 0 <= j < i ==> !(#[trigger] ts[j]).holds(note)
}


/// `x` reduced into `0..64`, as `x & 63` does in two's complement.
pub fn wrap64(x: i32) -> (r: usize)
    ensures
        r == mod64(x as int),
        r < TIME_PAN_LEN,
{
    let m: i32 = x % 64;
    if m < 0 { (m + 64) as usize } else { m as usize }
}

/// Every partial sum of the delay-line entry `index` over the tones, in
/// order, fits in 32 bits.
pub open spec fn mix_fits(ts: Seq<ToneModel>, index: int) -> bool {
    forall|k: int| 0 <= k <= ts.len() ==> -0x8000_0000 <= #[trigger] mix_sum(ts.take(k), index) <= 0x7fff_ffff
}

/// Sum of the delay-line entry `index` over all tones as a 32-bit
/// accumulation: `None` exactly when some partial sum leaves 32 bits.
pub fn mix_channel(tones: &Vec<Tone>, index: usize) -> (sum: Option<i32>)
    requires
        index < CHANNELS * TIME_PAN_LEN,
        forall|i: int| 0 <= i < tones@.len() ==> #[trigger] tones@[i]@.wf(),
    ensures
        sum is Some <==> mix_fits(models(tones@), index as int),
        sum matches Some(v) ==> v == mix_sum(models(tones@), index as int),
{
    let ghost ts = models(tones@);
    let mut sum: i64 = 0;
    for i in 0..tones.len()
        invariant
            index < CHANNELS * TIME_PAN_LEN,
            ts == models(tones@),
            forall|j: int| 0 <= j < tones@.len() ==> #[trigger] tones@[j]@.wf(),
            sum == mix_sum(ts.take(i as int), index as int),
            forall|k: int| 0 <= k <= i ==> -0x8000_0000 <= #[trigger] mix_sum(ts.take(k), index as int) <= 0x7fff_ffff,
    {
        assert(ts.take(i + 1).drop_last() =~= ts.take(i as int));
        assert(tones@[i as int]@.wf());
        let v: i32 = tones[i].time_pan_buf[index];
        assert(mix_sum(ts.take(i + 1), index as int) == sum + v);
        sum = sum + v as i64;
        if sum < -0x8000_0000 || sum > 0x7fff_ffff {
            assert(!mix_fits(ts, index as int)) by {
                assert(-0x8000_0000 <= mix_sum(ts.take(i + 1), index as int) <= 0x7fff_ffff ==> false);
            }
            return None;
        }
    }
    assert(ts.take(tones@.len() as int) =~= ts);
    Some(sum as i32)
}

/// Index of the first tone that holds `note`, if any.
pub fn first_holding_index(tones: &Vec<Tone>, note: u8) -> (found: Option<usize>)
    ensures
        match found {
            Some(i) => first_holding(models(tones@), note, i as int),
            None => forall|j: int| 0 <= j < tones@.len() ==> !(#[trigger] tones@[j]@).holds(note),
        },
{
    for i in 0..tones.len()
        invariant
            forall|j: int| 0 <= j < i ==> !(#[trigger] tones@[j]@).holds(note),
    {
        if tones[i].on && tones[i].note_id == note {
            return Some(i);
        }
    }
    None
}

impl LoadedWoice {
    /// Strike a note: centre the pans and append a fresh tone.
    pub fn note_on(&mut self, note: u8, velocity: u8, note_freq: u32, offset_freqs: &[u32; 2], sample_rate: i32)
        requires
            old(self).wf(),
            sample_rate != 0,
        ensures
            final(self).wf(),
            final(self).woice == old(self).woice,
            final(self).time_pan_index == old(self).time_pan_index,
            forall|c: int| 0 <= c < 2 ==> #[trigger] final(self).vol_pan@[c] == vol_pan_of(c, CHANNELS as int, CENTER_PAN as int),
            forall|c: int|
                0 <= c < 2 ==> #[trigger] final(self).time_pan@[c] == time_pan_of(c, CHANNELS as int, CENTER_PAN as int, sample_rate as int),
            models(final(self).tones@) == models(old(self).tones@).push(
                struck_tone(
                    note,
                    velocity,
                    note_freq,
                    old(self).woice.voice_num as int,
                    old(self).woice.units@,
                    old(self).woice.insts@,
                    offset_freqs@,
                ),
            ),
    {
        let pans = channel_pans(CHANNELS, CENTER_PAN, CENTER_PAN, sample_rate);
        self.vol_pan = pans.0;
        self.time_pan = pans.1;
        let tone = strike_tone(note, velocity, note_freq, self.woice.voice_num, &self.woice.units, &self.woice.insts, offset_freqs);
        let ghost before = self.tones@;
        self.tones.push(tone);
        assert(models(self.tones@) =~= models(before).push(tone@));
    }

    /// Release the first tone that holds `note`, if any; returns its index.
    pub fn note_off(&mut self, note: u8) -> (found: Option<usize>)
        requires
            old(self).wf(),
        ensures
            final(self).wf(),
            final(self).woice == old(self).woice,
            final(self).time_pan == old(self).time_pan,
            final(self).vol_pan == old(self).vol_pan,
            final(self).time_pan_index == old(self).time_pan_index,
            match found {
                Some(i) => {
                    &&& first_holding(models(old(self).tones@), note, i as int)
                    &&& models(final(self).tones@) == models(old(self).tones@).update(
                        i as int,
                        released_tone(old(self).tones@[i as int]@, old(self).woice.voice_num as int),
                    )
                },
                None => {
                    &&& forall|j: int| 0 <= j < old(self).tones@.len() ==> !(#[trigger] old(self).tones@[j]@).holds(note)
                    &&& final(self).tones@ == old(self).tones@
                },
            },
    {
        let found = first_holding_index(&self.tones, note);
        match found {
            Some(i) => {
                let ghost before = self.tones@;
                assert(first_holding(models(before), note, i as int));
                let mut t = self.tones.remove(i);
                release_tone(&mut t, self.woice.voice_num);
                self.tones.insert(i, t);
                assert(models(self.tones@) =~= models(before).update(i as int, released_tone(before[i as int]@, self.woice.voice_num as int)));
                assert forall|j: int| 0 <= j < self.tones@.len() implies #[trigger] self.tones@[j]@.wf() by {
                    if j != i {
                        assert(self.tones@[j] == before[j]);
                    }
                }
                Some(i)
            },
            None => None,
        }
    }

    /// Drop every tone that plays `note`.
    pub fn choke(&mut self, note: u8)
        requires
            old(self).wf(),
        ensures
            final(self).wf(),
            final(self).woice == old(self).woice,
            final(self).time_pan == old(self).time_pan,
            final(self).vol_pan == old(self).vol_pan,
            final(self).time_pan_index == old(self).time_pan_index,
            models(final(self).tones@) == select(models(old(self).tones@), not_note_mask(models(old(self).tones@), note)),
    {
        let ghost before = self.tones@;
        let mut mask: Vec<bool> = Vec::new();
        for i in 0..self.tones.len()
            invariant
                mask@.len() == i,
                forall|j: int| 0 <= j < i ==> mask@[j] == (self.tones@[j].note_id != note),
        {
            mask.push(self.tones[i].note_id != note);
        }
        retain_selected(&mut self.tones, &mask);
        proof {
            lemma_select_models(before, mask@);
            assert(mask@ =~= not_note_mask(models(before), note));
            lemma_select_wf(before, mask@);
        }
    }
}

/// Selecting tones keeps each kept tone well formed.
proof fn lemma_select_wf(s: Seq<Tone>, mask: Seq<bool>)
    requires
        mask.len() == s.len(),
        forall|i: int| 0 <= i < s.len() ==> #[trigger] s[i]@.wf(),
    ensures
        forall|i: int| 0 <= i < select(s, mask).len() ==> #[trigger] select(s, mask)[i]@.wf(),
    decreases s.len(),
{
    if s.len() > 0 {
        lemma_select_wf(s.drop_last(), mask.take(s.len() - 1));
        assert forall|i: int| 0 <= i < select(s, mask).len() implies #[trigger] select(s, mask)[i]@.wf() by {
            let rest = select(s.drop_last(), mask.take(s.len() - 1));
            if i < rest.len() {
                assert(select(s, mask)[i] == rest[i]);
            } else {
                assert(select(s, mask)[i] == s.last());
            }
        }
    }
}

impl PxtoneSynth {
    pub open spec fn wf(&self) -> bool {
        match self.woice_state {
            WoiceState::Loaded(l) => l.wf(),
            WoiceState::Unloaded => true,
        }
    }

    pub open spec fn is_loaded(&self) -> bool {
        self.woice_state is Loaded
    }

    /// The loaded woice (meaningful only when one is loaded).
    pub open spec fn loaded_woice(&self) -> LoadedWoice {
        match self.woice_state {
            WoiceState::Loaded(l) => l,
            WoiceState::Unloaded => arbitrary(),
        }
    }

    /// The models of the sounding tones (none when no woice is loaded).
    pub open spec fn tone_models(&self) -> Seq<ToneModel> {
        match self.woice_state {
            WoiceState::Loaded(l) => models(l.tones@),
            WoiceState::Unloaded => Seq::empty(),
        }
    }

    /// Events are acted on only once the sample rate is known and a woice is
    /// loaded.
    pub open spec fn takes_events(&self) -> bool {
        self.sample_rate is Some && self.is_loaded()
    }

    /// Everything of the loaded state but the tones is the same in both.
    pub open spec fn same_but_tones(&self, other: &PxtoneSynth) -> bool {
        &&& self.sample_rate == other.sample_rate
        &&& self.is_loaded() == other.is_loaded()
        &&& self.is_loaded() ==> {
            &&& self.loaded_woice().woice == other.loaded_woice().woice
            &&& self.loaded_woice().time_pan == other.loaded_woice().time_pan
            &&& self.loaded_woice().vol_pan == other.loaded_woice().vol_pan
            &&& self.loaded_woice().time_pan_index == other.loaded_woice().time_pan_index
        }
    }

    /// What the mixer may be asked for this frame: the sample rate's
    /// arithmetic fits, there is one motion per tone and voice, and every
    /// tone can take the frame.
    pub open spec fn sample_ready(&self, motions: Seq<Vec<VoiceMotion>>) -> bool {
        match (self.sample_rate, self.woice_state) {
            (Some(sr), WoiceState::Loaded(l)) => {
                &&& rate_fits(sr as int)
                &&& motions.len() == l.tones@.len()
                &&& forall|i: int| 0 <= i < motions.len() ==> l.woice.voice_num <= (#[trigger] motions[i])@.len()
                &&& forall|i: int|
                    0 <= i < motions.len() ==> tone_sample_ok(
                        (#[trigger] l.tones@[i])@,
                        l.woice.insts@,
                        motions[i]@,
                        l.woice.voice_num as int,
                        mix_params(sr as int),
                    )
            },
            (Some(sr), WoiceState::Unloaded) => rate_fits(sr as int),
            (None, _) => true,
        }
    }

    /// A synthesiser whose woice library started: `init_result` is the
    /// service's initialisation code and `frequency_ready` whether the
    /// frequency table initialised.
    pub fn new(init_result: i32, frequency_ready: bool) -> (r: Result<PxtoneSynth, SynthError>)
        ensures
            init_result != 0 ==> r == Err::<PxtoneSynth, SynthError>(SynthError::ServiceInit(init_result)),
            init_result == 0 && !frequency_ready ==> r == Err::<PxtoneSynth, SynthError>(SynthError::FrequencyInit),
            init_result == 0 && frequency_ready ==> (r matches Ok(s) && !s.is_loaded() && s.sample_rate is None),
            r matches Ok(s) ==> s.wf(),
    {
        if init_result != 0 {
            return Err(SynthError::ServiceInit(init_result));
        }
        if !frequency_ready {
            return Err(SynthError::FrequencyInit);
        }
        Ok(PxtoneSynth { woice_state: WoiceState::Unloaded, sample_rate: None })
    }

    /// Install a woice that the woice library read with result `read_result`:
    /// on success the woice replaces any previous one, with centred-off pans,
    /// no tones and the delay line at slot 0; on failure nothing changes.
    pub fn load_woice(&mut self, woice: Woice, read_result: i32) -> (r: Result<(), SynthError>)
        requires
            old(self).wf(),
            read_result == 0 ==> woice.wf(),
        ensures
            final(self).wf(),
            final(self).is_loaded() == (old(self).is_loaded() || read_result == 0),
            read_result != 0 ==> r == Err::<(), SynthError>(SynthError::PtvRead(read_result)) && *final(self) == *old(self),
            read_result == 0 ==> {
                &&& r is Ok
                &&& final(self).sample_rate == old(self).sample_rate
                &&& final(self).is_loaded()
                &&& final(self).loaded_woice().woice == woice
                &&& final(self).loaded_woice().time_pan@ == seq![0i32, 0i32]
                &&& final(self).loaded_woice().vol_pan@ == seq![0i32, 0i32]
                &&& final(self).loaded_woice().tones@.len() == 0
                &&& final(self).loaded_woice().time_pan_index == 0
            },
    {
        if read_result != 0 {
            return Err(SynthError::PtvRead(read_result));
        }
        self.woice_state = WoiceState::Loaded(LoadedWoice {
            woice,
            time_pan: [0, 0],
            vol_pan: [0, 0],
            tones: Vec::new(),
            time_pan_index: 0,
        });
        proof {
            assert(self.loaded_woice().time_pan@ =~= seq![0i32, 0i32]);
            assert(self.loaded_woice().vol_pan@ =~= seq![0i32, 0i32]);
        }
        Ok(())
    }

    pub fn loaded(&self) -> (b: bool)
        ensures
            b == self.is_loaded(),
    {
        match &self.woice_state {
            WoiceState::Loaded(_) => true,
            WoiceState::Unloaded => false,
        }
    }

    /// Silence everything: all sounding tones are dropped.
    pub fn stop_all(&mut self)
        requires
            old(self).wf(),
        ensures
            final(self).wf(),
            final(self).same_but_tones(&*old(self)),
            final(self).tone_models().len() == 0,
    {
        let mut state = WoiceState::Unloaded;
        std::mem::swap(&mut state, &mut self.woice_state);
        match state {
            WoiceState::Loaded(mut l) => {
                l.tones.clear();
                self.woice_state = WoiceState::Loaded(l);
                assert(models(self.loaded_woice().tones@) =~= Seq::<ToneModel>::empty());
            },
            WoiceState::Unloaded => {},
        }
    }

    /// Record the output sample rate once the woice library accepted the
    /// output format (`accepted`); otherwise fail and change nothing.
    pub fn set_audio_format(&mut self, sample_rate: i32, accepted: bool) -> (r: Result<(), SynthError>)
        ensures
            final(self).is_loaded() == old(self).is_loaded(),
            accepted ==> r is Ok && final(self).sample_rate == Some(sample_rate)
                && final(self).woice_state == old(self).woice_state,
            !accepted ==> r == Err::<(), SynthError>(SynthError::DestinationQuality) && *final(self) == *old(self),
    {
        if accepted {
            self.sample_rate = Some(sample_rate);
            Ok(())
        } else {
            Err(SynthError::DestinationQuality)
        }
    }

    /// The sample rate at which the loaded woice's voices must be readied:
    /// an error without a sample rate, nothing to do without a woice.
    pub fn tone_ready_rate(&self) -> (r: Result<Option<i32>, SynthError>)
        ensures
            self.sample_rate is None ==> r == Err::<Option<i32>, SynthError>(SynthError::NoSampleRate),
            self.sample_rate is Some && !self.is_loaded() ==> r == Ok::<Option<i32>, SynthError>(None),
            self.sample_rate is Some && self.is_loaded() ==> r == Ok::<Option<i32>, SynthError>(self.sample_rate),
    {
        match self.sample_rate {
            None => Err(SynthError::NoSampleRate),
            Some(sr) => match &self.woice_state {
                WoiceState::Loaded(_) => Ok(Some(sr)),
                WoiceState::Unloaded => Ok(None),
            },
        }
    }

    /// Take the voice instances the woice library readied (with result code
    /// `result`) for the current sample rate.  Without a sample rate this
    /// fails; without a woice there is nothing to ready.
    pub fn tone_ready(&mut self, result: i32, insts: Vec<VoiceInstance>) -> (r: Result<(), SynthError>)
        requires
            old(self).wf(),
            old(self).is_loaded() ==> insts@.len() == old(self).loaded_woice().woice.voice_num,
            old(self).is_loaded() ==> forall|v: int| 0 <= v < insts@.len() ==> #[trigger] insts@[v].wf(),
        ensures
            final(self).wf(),
            final(self).is_loaded() == old(self).is_loaded(),
            old(self).sample_rate is None ==> r == Err::<(), SynthError>(SynthError::NoSampleRate) && *final(self) == *old(self),
            old(self).sample_rate is Some && !old(self).is_loaded() ==> r is Ok && *final(self) == *old(self),
            old(self).sample_rate is Some && old(self).is_loaded() ==> {
                &&& final(self).sample_rate == old(self).sample_rate
                &&& final(self).is_loaded()
                &&& final(self).loaded_woice().woice.insts == insts
                &&& final(self).loaded_woice().woice.units == old(self).loaded_woice().woice.units
                &&& final(self).loaded_woice().woice.voice_num == old(self).loaded_woice().woice.voice_num
                &&& final(self).loaded_woice().tones == old(self).loaded_woice().tones
                &&& final(self).loaded_woice().time_pan == old(self).loaded_woice().time_pan
                &&& final(self).loaded_woice().vol_pan == old(self).loaded_woice().vol_pan
                &&& final(self).loaded_woice().time_pan_index == old(self).loaded_woice().time_pan_index
                &&& result != 0 ==> r == Err::<(), SynthError>(SynthError::ToneReady(result))
                &&& result == 0 ==> r is Ok
            },
    {
        if self.sample_rate.is_none() {
            return Err(SynthError::NoSampleRate);
        }
        let mut state = WoiceState::Unloaded;
        std::mem::swap(&mut state, &mut self.woice_state);
        match state {
            WoiceState::Loaded(mut l) => {
                l.woice.insts = insts;
                self.woice_state = WoiceState::Loaded(l);
                if result != 0 {
                    return Err(SynthError::ToneReady(result));
                }
                Ok(())
            },
            WoiceState::Unloaded => {
                self.woice_state = WoiceState::Unloaded;
                Ok(())
            },
        }
    }

    pub fn takes_note_events(&self) -> (b: bool)
        ensures
            b == self.takes_events(),
    {
        self.sample_rate.is_some() && self.loaded()
    }

    /// Number of sounding tones.
    pub fn tone_count(&self) -> (n: usize)
        ensures
            n == self.tone_models().len(),
    {
        match &self.woice_state {
            WoiceState::Loaded(l) => l.tones.len(),
            WoiceState::Unloaded => 0,
        }
    }
}

/// What acting on event `ev` does to a synthesiser that takes events:
/// a note-on centres the pans and appends a struck tone, a note-off
/// releases the first tone holding its note (if any), a choke drops every
/// tone of its note, and other events change nothing.
pub open spec fn event_effect(a: PxtoneSynth, ev: NoteEvent, b: PxtoneSynth) -> bool {
    match ev {
        NoteEvent::NoteOn { note, velocity, note_freq, offset_freqs } => {
            let l = a.loaded_woice();
            let sr = a.sample_rate.unwrap();
            &&& b.sample_rate == a.sample_rate
            &&& b.is_loaded()
            &&& b.loaded_woice().woice == l.woice
            &&& b.loaded_woice().time_pan_index == l.time_pan_index
            &&& forall|c: int|
                0 <= c < 2 ==> #[trigger] b.loaded_woice().vol_pan@[c] == vol_pan_of(
                    c,
                    CHANNELS as int,
                    CENTER_PAN as int,
                )
            &&& forall|c: int|
                0 <= c < 2 ==> #[trigger] b.loaded_woice().time_pan@[c] == time_pan_of(
                    c,
                    CHANNELS as int,
                    CENTER_PAN as int,
                    sr as int,
                )
            &&& b.tone_models() == a.tone_models().push(
                struck_tone(
                    note,
                    velocity,
                    note_freq,
                    l.woice.voice_num as int,
                    l.woice.units@,
                    l.woice.insts@,
                    offset_freqs@,
                ),
            )
        },
        NoteEvent::NoteOff { note } => {
            let ts = a.tone_models();
            let n = a.loaded_woice().woice.voice_num as int;
            &&& b.same_but_tones(&a)
            &&& (exists|i: int|
                first_holding(ts, note, i) && b.tone_models() == ts.update(
                    i,
                    released_tone(ts[i], n),
                )) || ((forall|j: int| 0 <= j < ts.len() ==> !(#[trigger] ts[j]).holds(note))
                && b.tone_models() == ts)
        },
        NoteEvent::Choke { note } => {
            let ts = a.tone_models();
            &&& b.same_but_tones(&a)
            &&& b.tone_models() == select(ts, not_note_mask(ts, note))
        },
        _ => b == a,
    }
}

/// Index of the first event at or after `from` timed after `sample_id`
/// (the number of events when there is none).
pub open spec fn first_late(events: Seq<TimedEvent>, from: int, sample_id: int) -> int
    decreases events.len() - from,
{
    if from < 0 || from >= events.len() {
        events.len() as int
    } else if events[from].timing > sample_id {
        from
    } else {
        first_late(events, from + 1, sample_id)
    }
}

/// [`first_late`] lies between `from` and the number of events.
pub proof fn lemma_first_late_bounds(events: Seq<TimedEvent>, from: int, sample_id: int)
    requires
        0 <= from <= events.len(),
    ensures
        from <= first_late(events, from, sample_id) <= events.len(),
        forall|j: int| from <= j < first_late(events, from, sample_id) ==> (#[trigger] events[j]).timing <= sample_id,
        first_late(events, from, sample_id) < events.len() ==> events[first_late(events, from, sample_id)].timing
            > sample_id,
    decreases events.len() - from,
{
    if from < events.len() && events[from].timing <= sample_id {
        lemma_first_late_bounds(events, from + 1, sample_id);
    }
}

/// `states` runs from one synthesiser state to the next by acting on
/// `events[from..to]`, in order.
pub open spec fn event_chain(states: Seq<PxtoneSynth>, events: Seq<TimedEvent>, from: int, to: int) -> bool {
    &&& states.len() == to - from + 1
    &&& forall|k: int| 0 <= k < to - from ==> event_effect(#[trigger] states[k], events[from + k].event, states[k + 1])
}

impl PxtoneSynth {
    /// Act on one event of the host's queue for output sample `sample_id`.
    /// Events are taken only once a sample rate is known and a woice is
    /// loaded; an event timed after `sample_id` ends the run for this sample
    /// and is not acted on.  Returns whether the caller should go on with the
    /// next event.
    pub fn handle_event(&mut self, ev: &TimedEvent, sample_id: u32) -> (go_on: bool)
        requires
            old(self).wf(),
            old(self).takes_events() && ev.event is NoteOn ==> old(self).sample_rate.unwrap() != 0,
        ensures
            final(self).wf(),
            go_on == (old(self).takes_events() && ev.timing <= sample_id),
            !go_on ==> *final(self) == *old(self),
            go_on ==> event_effect(*old(self), ev.event, *final(self)),
            old(self).is_loaded() == final(self).is_loaded(),
    {
        if !self.takes_note_events() || ev.timing > sample_id {
            return false;
        }
        let sr = match self.sample_rate {
            Some(sr) => sr,
            None => 0,
        };
        match ev.event {
            NoteEvent::PolyPressure { .. } | NoteEvent::Other => {
                return true;
            },
            _ => {},
        }
        let mut state = WoiceState::Unloaded;
        std::mem::swap(&mut state, &mut self.woice_state);
        match state {
            WoiceState::Loaded(mut l) => {
                match ev.event {
                    NoteEvent::NoteOn { note, velocity, note_freq, offset_freqs } => {
                        l.note_on(note, velocity, note_freq, &offset_freqs, sr);
                    },
                    NoteEvent::NoteOff { note } => {
                        let ghost before = l.tones@;
                        let found = l.note_off(note);
                        proof {
                            match found {
                                Some(i) => {
                                    assert(models(before)[i as int] == before[i as int]@);
                                    assert(first_holding(models(before), note, i as int));
                                },
                                None => {},
                            }
                        }
                    },
                    NoteEvent::Choke { note } => {
                        l.choke(note);
                    },
                    _ => {},
                }
                self.woice_state = WoiceState::Loaded(l);
            },
            WoiceState::Unloaded => {
                self.woice_state = WoiceState::Unloaded;
            },
        }
        true
    }

    /// Act, for output sample `sample_id`, on the events of the host's block
    /// from index `next` on that are due by then; returns the index of the
    /// first event left for a later sample.  Nothing is taken until a sample
    /// rate is known and a woice is loaded; an event timed later than
    /// `sample_id` stays pending.
    pub fn handle_events(&mut self, events: &Vec<TimedEvent>, next: usize, sample_id: u32) -> (after: usize)
        requires
            old(self).wf(),
            next <= events@.len(),
            old(self).takes_events() && old(self).sample_rate == Some(0i32) ==> forall|j: int|
                next <= j < first_late(events@, next as int, sample_id as int) ==> !((#[trigger] events@[j]).event is NoteOn),
        ensures
            final(self).wf(),
            final(self).is_loaded() == old(self).is_loaded(),
            !old(self).takes_events() ==> after == next && *final(self) == *old(self),
            old(self).takes_events() ==> {
                &&& after == first_late(events@, next as int, sample_id as int)
                &&& exists|states: Seq<PxtoneSynth>|
                    event_chain(states, events@, next as int, after as int) && states[0] == *old(self) && states.last()
                        == *final(self)
            },
    {
        if !self.takes_note_events() {
            return next;
        }
        let ghost s0 = *self;
        let ghost mut states: Seq<PxtoneSynth> = seq![*self];
        let mut i: usize = next;
        while i < events.len() && events[i].timing <= sample_id
            invariant
                next <= i <= events@.len(),
                self.wf(),
                self.takes_events(),
                self.is_loaded() == s0.is_loaded(),
                self.sample_rate == s0.sample_rate,
                s0.takes_events(),
                first_late(events@, next as int, sample_id as int) == first_late(events@, i as int, sample_id as int),
                s0.sample_rate == Some(0i32) ==> forall|j: int|
                    next <= j < first_late(events@, next as int, sample_id as int) ==> !((#[trigger] events@[j]).event is NoteOn),
                event_chain(states, events@, next as int, i as int),
                states[0] == s0,
                states.last() == *self,
            decreases events@.len() - i,
        {
            assert(first_late(events@, i as int, sample_id as int) == first_late(events@, i + 1, sample_id as int));
            assert(i < first_late(events@, next as int, sample_id as int)) by {
                assert(first_late(events@, i as int, sample_id as int) >= i + 1) by {
                    lemma_first_late_bounds(events@, i + 1, sample_id as int);
                }
            }
            let ghost before = *self;
            let go_on = self.handle_event(&events[i], sample_id);
            proof {
                let old_states = states;
                states = states.push(*self);
                assert forall|k: int| 0 <= k < i + 1 - next implies event_effect(
                    #[trigger] states[k],
                    events@[next + k].event,
                    states[k + 1],
                ) by {
                    if k < i - next {
                        assert(states[k] == old_states[k]);
                        assert(states[k + 1] == old_states[k + 1]);
                    } else {
                        assert(states[k] == before);
                    }
                }
            }
            i = i + 1;
        }
        proof {
            if i < events@.len() {
                assert(first_late(events@, i as int, sample_id as int) == i);
            }
        }
        i
    }

    /// Whether [`PxtoneSynth::sample`] may be asked for a frame with these
    /// motions.
    pub fn can_sample(&self, motions: &Vec<Vec<VoiceMotion>>) -> (b: bool)
        requires
            self.wf(),
        ensures
            b == self.sample_ready(motions@),
    {
        let sr = match self.sample_rate {
            Some(sr) => sr,
            None => return true,
        };
        let scaled: i64 = sr as i64 * 100;
        if scaled < -0x8000_0000 || scaled > 0x7fff_ffff {
            return false;
        }
        match &self.woice_state {
            WoiceState::Unloaded => true,
            WoiceState::Loaded(l) => {
                let p = mixer_settings(sr);
                if motions.len() != l.tones.len() {
                    return false;
                }
                let n = l.woice.voice_num;
                for i in 0..motions.len()
                    invariant
                        motions@.len() == l.tones@.len(),
                        n == l.woice.voice_num,
                        l.wf(),
                        self.sample_rate == Some(sr),
                        self.woice_state == WoiceState::Loaded(*l),
                        rate_fits(sr as int),
                        p == mix_params(sr as int),
                        forall|j: int|
                            0 <= j < i ==> n <= (#[trigger] motions@[j])@.len() && tone_sample_ok(
                                l.tones@[j]@,
                                l.woice.insts@,
                                motions@[j]@,
                                n as int,
                                p,
                            ),
                {
                    if motions[i].len() < n {
                        assert(!(l.woice.voice_num <= motions@[i as int]@.len()));
                        return false;
                    }
                    assert(l.tones@[i as int]@.wf());
                    if !tone_can_sample(&l.tones[i], &l.woice.insts, &motions[i], n, p) {
                        assert(!tone_sample_ok(l.tones@[i as int]@, l.woice.insts@, motions@[i as int]@, n as int, p));
                        return false;
                    }
                }
                true
            },
        }
    }

    /// Produce one output frame.  Without a sample rate or a woice the output
    /// is silent and nothing changes.  Otherwise every tone takes the frame
    /// (envelope, then left and right channel steps writing the current
    /// delay-line slot), each channel outputs the sum over tones of its delay
    /// line `time_pan` samples behind the write slot, the slot moves on by
    /// one, and only tones with a live voice are kept, in order.  `motions`
    /// gives, per tone and voice, the play steps of this frame.  The output
    /// is `None` exactly when a channel's 32-bit accumulation over the tones
    /// would overflow.
    pub fn sample(&mut self, motions: &Vec<Vec<VoiceMotion>>) -> (out: Option<[i32; 2]>)
        requires
            old(self).wf(),
            old(self).sample_ready(motions@),
        ensures
            final(self).wf(),
            final(self).is_loaded() == old(self).is_loaded(),
            match (old(self).sample_rate, old(self).woice_state) {
                (Some(sr), WoiceState::Loaded(l)) => {
                    let ts = sampled_tones(l, sr as int, motions@);
                    &&& final(self).sample_rate == old(self).sample_rate
                    &&& final(self).is_loaded()
                    &&& final(self).loaded_woice().woice == l.woice
                    &&& final(self).loaded_woice().time_pan == l.time_pan
                    &&& final(self).loaded_woice().vol_pan == l.vol_pan
                    &&& final(self).loaded_woice().time_pan_index == (l.time_pan_index + 1) % 64
                    &&& final(self).tone_models() == select(ts, alive_mask(ts, l.woice.voice_num as int))
                    &&& out is Some <==> mix_fits(ts, read_index(l, 0)) && mix_fits(ts, read_index(l, 1))
                    &&& l.tones@.len() <= MAX_MIXED_TONES ==> out is Some
                    &&& out matches Some(o) ==> o@[0] == mix_sum(ts, read_index(l, 0)) && o@[1] == mix_sum(
                        ts,
                        read_index(l, 1),
                    )
                },
                _ => (out matches Some(o) && o@ == seq![0i32, 0i32]) && *final(self) == *old(self),
            },
    {
        let sr = match self.sample_rate {
            Some(sr) => sr,
            None => {
                let out = [0i32, 0i32];
                assert(out@ =~= seq![0i32, 0i32]);
                return Some(out);
            },
        };
        if !self.loaded() {
            let out = [0i32, 0i32];
            assert(out@ =~= seq![0i32, 0i32]);
            return Some(out);
        }
        let ghost old_self = *self;
        let mut state = WoiceState::Unloaded;
        std::mem::swap(&mut state, &mut self.woice_state);
        match state {
            WoiceState::Loaded(mut l) => {
                let ghost l0 = l;
                let p = mixer_settings(sr);
                let n = l.woice.voice_num;
                let slot = l.time_pan_index;
                let ghost ts = sampled_tones(l0, sr as int, motions@);
                let ghost orig = l.tones@;
                let total = l.tones.len();
                let mut done: Vec<Tone> = Vec::new();
                let mut i: usize = 0;
                while l.tones.len() > 0
                    invariant
                        l0.wf(),
                        l.woice == l0.woice,
                        l.vol_pan == l0.vol_pan,
                        l.time_pan == l0.time_pan,
                        l.time_pan_index == l0.time_pan_index,
                        slot == l0.time_pan_index,
                        n == l0.woice.voice_num,
                        p == mix_params(sr as int),
                        p.wf(),
                        orig == l0.tones@,
                        orig.len() == total,
                        i + l.tones@.len() == total,
                        l.tones@ == orig.skip(i as int),
                        old_self.sample_ready(motions@),
                        old_self.sample_rate == Some(sr),
                        old_self.woice_state == WoiceState::Loaded(l0),
                        ts == sampled_tones(l0, sr as int, motions@),
                        models(done@) == ts.take(i as int),
                        forall|j: int| 0 <= j < done@.len() ==> #[trigger] done@[j]@.wf(),
                    decreases l.tones@.len(),
                {
                    let mut t = l.tones.remove(0);
                    assert(t == orig[i as int]);
                    assert(orig[i as int]@.wf());
                    assert(l0.woice.voice_num <= motions@[i as int]@.len());
                    assert(tone_sample_ok(orig[i as int]@, l0.woice.insts@, motions@[i as int]@, n as int, p));
                    sample_tone(&mut t, &l.woice.insts, &motions[i], n, &l.vol_pan, p, slot);
                    let ghost before = done@;
                    done.push(t);
                    assert(models(done@) =~= models(before).push(t@));
                    assert(ts.take(i + 1) =~= ts.take(i as int).push(ts[i as int]));
                    i = i + 1;
                    assert(l.tones@ =~= orig.skip(i as int));
                }
                assert(ts.take(total as int) =~= ts);
                assert(models(done@) == ts);
                let idx0: usize = wrap64(slot as i32 - l.time_pan[0]);
                let idx1: usize = TIME_PAN_LEN + wrap64(slot as i32 - l.time_pan[1]);
                assert(idx0 == read_index(l0, 0));
                assert(idx1 == read_index(l0, 1));
                proof {
                    if total <= MAX_MIXED_TONES {
                        assert forall|c: int, k: int| 0 <= c < 2 && 0 <= k <= ts.len() implies -0x8000_0000
                            <= #[trigger] mix_sum(ts.take(k), read_index(l0, c)) <= 0x7fff_ffff by {
                            assert forall|j: int| 0 <= j < ts.take(k).len() implies #[trigger] ts.take(k)[j].wf() by {
                                assert(ts.take(k)[j] == models(done@)[j]);
                                assert(done@[j]@.wf());
                            }
                            lemma_mix_sum_bound(ts.take(k), read_index(l0, c));
                            assert(k * PAN_BUF_BOUND <= 0x7fff_ffff) by (nonlinear_arith)
                                requires 0 <= k <= MAX_MIXED_TONES;
                        }
                        assert(mix_fits(ts, read_index(l0, 0)));
                        assert(mix_fits(ts, read_index(l0, 1)));
                    }
                }
                let out0 = mix_channel(&done, idx0);
                let out1 = mix_channel(&done, idx1);
                l.time_pan_index = (slot + 1) % TIME_PAN_LEN;
                let mut mask: Vec<bool> = Vec::new();
                for j in 0..done.len()
                    invariant
                        n <= TONE_VOICES,
                        forall|k: int| 0 <= k < done@.len() ==> #[trigger] done@[k]@.wf(),
                        mask@.len() == j,
                        forall|k: int| 0 <= k < j ==> mask@[k] == done@[k]@.alive(n as int),
                {
                    assert(done@[j as int]@.wf());
                    let alive = tone_is_alive(&done[j], n);
                    mask.push(alive);
                }
                let ghost before = done@;
                retain_selected(&mut done, &mask);
                proof {
                    lemma_select_models(before, mask@);
                    assert(mask@ =~= alive_mask(ts, n as int));
                    lemma_select_wf(before, mask@);
                }
                l.tones = done;
                self.woice_state = WoiceState::Loaded(l);
                match (out0, out1) {
                    (Some(a), Some(b)) => {
                        let out = [a, b];
                        assert(out@[0] == a && out@[1] == b);
                        Some(out)
                    },
                    _ => None,
                }
            },
            WoiceState::Unloaded => {
                proof { assert(false); }
                None
            },
        }
    }
}

} // verus!
