//! One voice of one sounding tone: its envelope and its contribution to a
//! channel for one output frame.

use vstd::prelude::*;
use vstd::arithmetic::div_mod::{lemma_div_is_ordered, lemma_div_multiples_vanish, lemma_div_pos_is_pos};
use crate::synth::arith::{tdiv, lemma_tdiv_bound, div_toward_zero};

verus! {

/// Bit pattern of the single-precision value 1.0, the neutral pitch offset.
pub const UNIT_OFFSET_FREQ: u32 = 0x3F80_0000;

/// Largest magnitude a single voice contributes to a channel in one frame
/// (a full-scale sample word at velocity 255, channel pan 128 and envelope
/// volume 255).
pub const VOICE_WORK_BOUND: i32 = 260_100;

/// Everything a voice instance of a readied woice provides to the engine:
/// interleaved stereo 16-bit sample words, the envelope table and the length
/// of the release phase, all at the output sample rate.
pub struct VoiceInstance {
    pub smp_head_w: i32,
    pub smp_body_w: i32,
    pub smp_tail_w: i32,
    /// Interleaved left/right sample words; frame `f` of channel `c` is word `2 * f + c`.
    pub samples: Vec<i16>,
    /// Attack/sustain envelope, one volume per output sample.
    pub env: Vec<u8>,
    /// Length of the release phase in output samples; zero or less means
    /// the voice has no release phase.
    pub env_release: i32,
}

impl VoiceInstance {
    /// Sizes for which the engine's 32-bit arithmetic cannot overflow.
    pub open spec fn wf(&self) -> bool {
        &&& self.env@.len() < 0x7fff_ffff
        &&& 255 * self.env_release <= 0x7fff_ffff
        &&& self.samples@.len() < 0x4000_0000
    }

    /// Whether the instance has the sizes [`VoiceInstance::wf`] asks for.
    pub fn fits(&self) -> (b: bool)
        ensures
            b == self.wf(),
    {
        self.env.len() < 0x7fff_ffff && self.env_release <= 0x7fff_ffff / 255
            && self.samples.len() < 0x4000_0000
    }
}

/// The parameters of a woice unit's voice that striking a note reads.
/// `tuning` is the bit pattern of the unit's tuning factor.
#[derive(Clone, Copy, Debug, PartialEq, Eq)]
pub struct VoiceUnit {
    pub basic_key: i32,
    pub tuning: u32,
    pub voice_flags: u32,
}

/// Playback state of one voice of one tone.  `smp_pos` and `offset_freq` are
/// the bit patterns of the floating-point play position and pitch factor; the
/// engine carries them and stores new positions handed to it, without reading
/// them as numbers.
#[derive(Clone, Copy, Debug, PartialEq, Eq)]
pub struct VoiceTone {
    pub smp_pos: u64,
    pub offset_freq: u32,
    pub env_volume: i32,
    pub life_count: i32,
    pub on_count: i32,
    pub smp_count: i32,
    pub env_start: i32,
    pub env_pos: i32,
    pub env_release_clock: i32,
    pub smooth_volume: i32,
}

impl VoiceTone {
    /// Ranges every voice tone stays in while the engine runs.
    pub open spec fn wf(&self) -> bool {
        &&& 0 <= self.env_start <= 255
        &&& 0 <= self.env_volume <= 255
        &&& 0 <= self.env_pos
        &&& 0 <= self.smp_count
        &&& self.life_count > 0 ==> self.env_pos < i32::MAX && self.smp_count < i32::MAX
    }

    pub open spec fn alive(&self) -> bool {
        self.life_count > 0
    }
}

/// The voice tone that every new tone starts from.
pub open spec fn initial_voice_tone() -> VoiceTone {
    VoiceTone {
        smp_pos: 0,
        offset_freq: UNIT_OFFSET_FREQ,
        env_volume: 128,
        life_count: 1,
        on_count: 0,
        smp_count: 0,
        env_start: 0,
        env_pos: 0,
        env_release_clock: 0,
        smooth_volume: 0,
    }
}

pub fn new_voice_tone() -> (vt: VoiceTone)
    ensures
        vt == initial_voice_tone(),
        vt.wf(),
{
    VoiceTone {
        smp_pos: 0,
        offset_freq: UNIT_OFFSET_FREQ,
        env_volume: 128,
        life_count: 1,
        on_count: 0,
        smp_count: 0,
        env_start: 0,
        env_pos: 0,
        env_release_clock: 0,
        smooth_volume: 0,
    }
}

/// One envelope step of a voice.  A finished voice, or one whose woice has no
/// envelope, is left alone.  While the note is held the volume follows the
/// envelope table until its end; once released it falls linearly from the
/// volume at release to zero over the release length, after which the voice
/// dies.
pub open spec fn envelope_step(vt: VoiceTone, vi: VoiceInstance, on: bool) -> VoiceTone {
    if vt.life_count <= 0 || vi.env@.len() == 0 {
        vt
    } else if on {
        if vt.env_pos < vi.env@.len() {
            VoiceTone {
                env_volume: vi.env@[vt.env_pos as int] as i32,
                env_pos: (vt.env_pos + 1) as i32,
                ..vt
            }
        } else {
            vt
        }
    } else if vt.env_pos < vi.env_release {
        VoiceTone {
            env_volume: (vt.env_start + tdiv(-vt.env_start * vt.env_pos, vi.env_release as int)) as i32,
            env_pos: (vt.env_pos + 1) as i32,
            ..vt
        }
    } else {
        VoiceTone { life_count: 0, env_volume: 0, env_pos: (vt.env_pos + 1) as i32, ..vt }
    }
}

/// During release the volume lies between zero and the volume at release.
pub proof fn lemma_release_volume(start: int, pos: int, release: int)
    requires
        0 <= start <= 255,
        0 <= pos < release,
        255 * release <= 0x7fff_ffff,
    ensures
        0 <= start + tdiv(-start * pos, release) <= start,
        -0x7fff_ffff <= -start * pos <= 0,
{
    assert(0 <= start * pos <= start * release) by (nonlinear_arith)
        requires 0 <= start, 0 <= pos < release;
    assert(start * release <= 255 * release) by (nonlinear_arith)
        requires 0 <= start <= 255, 0 < release;
    lemma_div_is_ordered(start * pos, start * release, release);
    lemma_div_multiples_vanish(start, release);
    assert(release * start == start * release) by (nonlinear_arith);
    lemma_div_pos_is_pos(start * pos, release);
    assert(-start * pos == -(start * pos)) by (nonlinear_arith);
}

pub fn update_envelope(vt: &mut VoiceTone, vi: &VoiceInstance, on: bool)
    requires
        old(vt).wf(),
        vi.wf(),
    ensures
        *final(vt) == envelope_step(*old(vt), *vi, on),
        final(vt).wf(),
{
    if vt.life_count <= 0 || vi.env.len() == 0 {
        return;
    }
    if on {
        if (vt.env_pos as usize) < vi.env.len() {
            vt.env_volume = vi.env[vt.env_pos as usize] as i32;
            vt.env_pos = vt.env_pos + 1;
        }
    } else {
        if vt.env_pos < vi.env_release {
            proof {
                lemma_release_volume(vt.env_start as int, vt.env_pos as int, vi.env_release as int);
            }
            vt.env_volume = vt.env_start + (-vt.env_start * vt.env_pos / vi.env_release);
        } else {
            vt.life_count = 0;
            vt.env_volume = 0;
        }
        vt.env_pos = vt.env_pos + 1;
    }
}

/// How the mixer runs: output channel count, whether voices loop, and the
/// two sample-rate derived counts (`min_ct`, `smooth`) of the end-of-note fade.
#[derive(Clone, Copy, Debug, PartialEq, Eq)]
pub struct MixParams {
    pub dst_ch: usize,
    pub looping: bool,
    pub min_ct: i32,
    pub smooth: i32,
}

impl MixParams {
    pub open spec fn wf(&self) -> bool {
        &&& 1 <= self.dst_ch <= 2
        &&& -214_748_364 <= self.min_ct <= 214_748_364
        &&& -21_474_836 <= self.smooth <= 21_474_836
        &&& self.smooth > 0 ==> -20 * self.smooth <= self.min_ct - self.smooth <= 20 * self.smooth
        &&& self.smooth < 0 ==> 20 * self.smooth <= self.min_ct - self.smooth <= -20 * self.smooth
    }

    /// The fade branch of a voice with no release would divide by zero.
    pub open spec fn fade_divides_by_zero(&self, vt: VoiceTone, vi: VoiceInstance) -> bool {
        &&& vi.env_release <= 0
        &&& self.looping
        &&& vt.smp_count > self.min_ct - self.smooth
        &&& self.smooth == 0
    }
}

/// Positions for the (at most two) play steps a voice takes during one output
/// frame, precomputed by the caller from the floating-point play position:
/// `frames[k]` is the integer frame read at step `k`, `past_end[k]` whether the
/// position after step `k` reached the end of the body (used when not
/// looping), and `positions[k]` the position bits after `k` steps.
#[derive(Clone, Copy, Debug, PartialEq, Eq)]
pub struct VoiceMotion {
    pub frames: [i32; 2],
    pub past_end: [bool; 2],
    pub positions: [u64; 3],
}

/// Whether a frame index can be read from a voice instance.
pub open spec fn frame_in_range(vi: VoiceInstance, frame: int) -> bool {
    0 <= frame && frame * 2 + 2 <= vi.samples@.len()
}

/// What a live voice adds to channel `ch` at play frame `frame`: the sample
/// word (averaged with the other channel for mono output) scaled by velocity,
/// channel volume pan and envelope; a voice without release instead yields
/// the fade constant once its counter has passed the fade start.
pub open spec fn voice_work(
    vt: VoiceTone,
    vi: VoiceInstance,
    frame: int,
    ch: int,
    velocity: int,
    vol_pan: int,
    p: MixParams,
) -> int {
    let pos = frame * 2 + ch;
    let raw = vi.samples@[pos] as int;
    let w1 = if p.dst_ch == 1 { tdiv(raw + vi.samples@[pos + 1] as int, 2) } else { raw };
    let w2 = tdiv(w1 * velocity, 128);
    let w3 = tdiv(w2 * vol_pan, 64);
    if vi.env_release > 0 {
        tdiv(w3 * vt.env_volume, 128)
    } else if p.looping && vt.smp_count > p.min_ct - p.smooth {
        tdiv(p.min_ct - p.smooth, p.smooth as int)
    } else {
        w3
    }
}

/// What a voice contributes stays within [`VOICE_WORK_BOUND`].
pub proof fn lemma_voice_work_bound(
    vt: VoiceTone,
    vi: VoiceInstance,
    frame: int,
    ch: int,
    velocity: int,
    vol_pan: int,
    p: MixParams,
)
    requires
        vt.wf(),
        p.wf(),
        0 <= velocity <= 255,
        0 <= vol_pan <= 128,
        !p.fade_divides_by_zero(vt, vi),
    ensures
        -VOICE_WORK_BOUND <= voice_work(vt, vi, frame, ch, velocity, vol_pan, p) <= VOICE_WORK_BOUND,
{
    let pos = frame * 2 + ch;
    let raw = vi.samples@[pos] as int;
    let w1 = if p.dst_ch == 1 { tdiv(raw + vi.samples@[pos + 1] as int, 2) } else { raw };
    if p.dst_ch == 1 {
        lemma_tdiv_bound(raw + vi.samples@[pos + 1] as int, 2, 65536);
    }
    assert(-32768 * 255 <= w1 * velocity <= 32768 * 255) by (nonlinear_arith)
        requires -32768 <= w1 <= 32768, 0 <= velocity <= 255;
    lemma_tdiv_bound(w1 * velocity, 128, (32768 * 255) as int);
    let w2 = tdiv(w1 * velocity, 128);
    assert(-65280 * 128 <= w2 * vol_pan <= 65280 * 128) by (nonlinear_arith)
        requires -65280 <= w2 <= 65280, 0 <= vol_pan <= 128;
    lemma_tdiv_bound(w2 * vol_pan, 64, (65280 * 128) as int);
    let w3 = tdiv(w2 * vol_pan, 64);
    assert(-130560 * 255 <= w3 * vt.env_volume <= 130560 * 255) by (nonlinear_arith)
        requires -130560 <= w3 <= 130560, 0 <= vt.env_volume <= 255;
    lemma_tdiv_bound(w3 * vt.env_volume, 128, (130560 * 255) as int);
    if p.smooth != 0 {
        let b: int = if p.smooth > 0 { p.smooth as int } else { -(p.smooth as int) };
        let span: int = p.min_ct - p.smooth;
        lemma_tdiv_bound(span, b, 20 * b);
        lemma_div_multiples_vanish(20, b);
        assert(b * 20 == 20 * b);
        assert(-20 <= tdiv(span, b) <= 20);
        if p.smooth < 0 {
            assert(tdiv(span, p.smooth as int) == -tdiv(span, b));
        }
        assert(-20 <= tdiv(span, p.smooth as int) <= 20);
    }
}

pub fn compute_voice_work(
    vt: &VoiceTone,
    vi: &VoiceInstance,
    frame: i32,
    ch: usize,
    velocity: u8,
    vol_pan: i32,
    p: MixParams,
) -> (work: i32)
    requires
        vt.wf(),
        vi.wf(),
        p.wf(),
        ch < p.dst_ch,
        0 <= vol_pan <= 128,
        frame_in_range(*vi, frame as int),
        !p.fade_divides_by_zero(*vt, *vi),
    ensures
        work == voice_work(*vt, *vi, frame as int, ch as int, velocity as int, vol_pan as int, p),
        -VOICE_WORK_BOUND <= work <= VOICE_WORK_BOUND,
{
    let pos: usize = (frame as usize) * 2 + ch;
    let raw: i32 = vi.samples[pos] as i32;
    let mut work: i32 = raw;
    if p.dst_ch == 1 {
        let other: i32 = vi.samples[pos + 1] as i32;
        work = (raw + other) / 2;
        proof { lemma_tdiv_bound(raw + other, 2, 65536); }
    }
    assert(-32768 <= work <= 32768);
    assert(-32768 * 255 <= work * (velocity as i32) <= 32768 * 255) by (nonlinear_arith)
        requires -32768 <= work <= 32768, 0 <= velocity <= 255;
    proof { lemma_tdiv_bound(work * (velocity as i32), 128, (32768 * 255) as int); }
    work = work * (velocity as i32) / 128;
    assert(-65280 * 128 <= work * vol_pan <= 65280 * 128) by (nonlinear_arith)
        requires -65280 <= work <= 65280, 0 <= vol_pan <= 128;
    proof { lemma_tdiv_bound(work * vol_pan, 64, (65280 * 128) as int); }
    work = work * vol_pan / 64;
    if vi.env_release > 0 {
        assert(-130560 * 255 <= work * vt.env_volume <= 130560 * 255) by (nonlinear_arith)
            requires -130560 <= work <= 130560, 0 <= vt.env_volume <= 255;
        proof { lemma_tdiv_bound(work * vt.env_volume, 128, (130560 * 255) as int); }
        work = work * vt.env_volume / 128;
    } else if p.looping && vt.smp_count > p.min_ct - p.smooth {
        let span: i32 = p.min_ct - p.smooth;
        work = div_toward_zero(span, p.smooth);
        proof {
            let b: int = if p.smooth > 0 { p.smooth as int } else { -(p.smooth as int) };
            lemma_tdiv_bound(span as int, b, 20 * b);
            lemma_div_multiples_vanish(20, b);
            assert(b * 20 == 20 * b);
        }
    }
    work
}

/// The counters of a live voice after its play position moved by one step to
/// `new_pos`: looping voices without tail or release count samples once the
/// note is released; non-looping voices die at the end of the body and count
/// every released sample; a voice whose count reaches `min_ct` dies.
pub open spec fn voice_advance(
    vt: VoiceTone,
    vi: VoiceInstance,
    on: bool,
    p: MixParams,
    past_end: bool,
    new_pos: u64,
) -> VoiceTone {
    let life1 = if !p.looping && past_end { 0 } else { vt.life_count };
    let counts = if p.looping { vi.smp_tail_w == 0 && vi.env_release == 0 && !on } else { !on };
    let count1 = if counts { vt.smp_count + 1 } else { vt.smp_count as int };
    let life2 = if count1 >= p.min_ct { 0 } else { life1 };
    VoiceTone { smp_pos: new_pos, life_count: life2 as i32, smp_count: count1 as i32, ..vt }
}

pub fn advance_voice(
    vt: &mut VoiceTone,
    vi: &VoiceInstance,
    on: bool,
    p: MixParams,
    past_end: bool,
    new_pos: u64,
)
    requires
        old(vt).wf(),
        old(vt).alive(),
        p.wf(),
    ensures
        *final(vt) == voice_advance(*old(vt), *vi, on, p, past_end, new_pos),
        final(vt).wf(),
{
    vt.smp_pos = new_pos;
    if p.looping {
        if vi.smp_tail_w == 0 && vi.env_release == 0 && !on {
            vt.smp_count = vt.smp_count + 1;
        }
    } else {
        if past_end {
            vt.life_count = 0;
        }
        if !on {
            vt.smp_count = vt.smp_count + 1;
        }
    }
    if vt.smp_count >= p.min_ct {
        vt.life_count = 0;
    }
}

/// One channel step of a voice: a live voice yields its work and advances;
/// a finished voice yields nothing and stays as it is.
pub open spec fn channel_step(
    vt: VoiceTone,
    vi: VoiceInstance,
    m: VoiceMotion,
    ch: int,
    on: bool,
    velocity: int,
    vol_pan: int,
    p: MixParams,
) -> (VoiceTone, int) {
    if vt.life_count > 0 {
        (
            voice_advance(vt, vi, on, p, m.past_end[ch], m.positions[ch + 1]),
            voice_work(vt, vi, m.frames[ch] as int, ch, velocity, vol_pan, p),
        )
    } else {
        (vt, 0)
    }
}

/// What the caller must guarantee for a channel step of a voice to be
/// defined: a live voice reads an existing frame and does not divide by zero.
pub open spec fn channel_step_ok(vt: VoiceTone, vi: VoiceInstance, m: VoiceMotion, ch: int, p: MixParams) -> bool {
    vt.life_count > 0 ==> frame_in_range(vi, m.frames[ch] as int) && !p.fade_divides_by_zero(vt, vi)
}

/// The voice after its left channel step, following its envelope step.
pub open spec fn after_left_step(vt: VoiceTone, vi: VoiceInstance, m: VoiceMotion, on: bool, p: MixParams) -> VoiceTone {
    let a = envelope_step(vt, vi, on);
    if a.life_count > 0 {
        voice_advance(a, vi, on, p, m.past_end[0], m.positions[1])
    } else {
        a
    }
}

/// What a whole output frame of a voice needs: each channel step that a
/// still-live voice takes (after the envelope step, and for the right
/// channel after the left step) reads an existing frame and does not divide
/// by zero.  A voice that has died before a step reads nothing there.
pub open spec fn voice_frame_ok(vt: VoiceTone, vi: VoiceInstance, m: VoiceMotion, on: bool, p: MixParams) -> bool {
    &&& channel_step_ok(envelope_step(vt, vi, on), vi, m, 0, p)
    &&& channel_step_ok(after_left_step(vt, vi, m, on, p), vi, m, 1, p)
}

pub fn voice_channel_step(
    vt: &mut VoiceTone,
    vi: &VoiceInstance,
    m: &VoiceMotion,
    ch: usize,
    on: bool,
    velocity: u8,
    vol_pan: i32,
    p: MixParams,
) -> (work: i32)
    requires
        old(vt).wf(),
        vi.wf(),
        p.wf(),
        ch < p.dst_ch,
        0 <= vol_pan <= 128,
        channel_step_ok(*old(vt), *vi, *m, ch as int, p),
    ensures
        (*final(vt), work as int) == channel_step(*old(vt), *vi, *m, ch as int, on, velocity as int, vol_pan as int, p),
        final(vt).wf(),
        -VOICE_WORK_BOUND <= work <= VOICE_WORK_BOUND,
{
    if vt.life_count > 0 {
        let work = compute_voice_work(vt, vi, m.frames[ch], ch, velocity, vol_pan, p);
        advance_voice(vt, vi, on, p, m.past_end[ch], m.positions[ch + 1]);
        work
    } else {
        0
    }
}

} // verus!
