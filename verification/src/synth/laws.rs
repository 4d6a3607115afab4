//! Properties of the engine that span its operations.

use vstd::prelude::*;
use vstd::arithmetic::div_mod::lemma_div_is_ordered;
use crate::synth::arith::tdiv;
use crate::synth::tone::{
    ToneModel, CHANNELS, TIME_PAN_LEN, select, lemma_select_from, lemma_select_keeps, lemma_select_all,
    lemma_select_len, struck_tone, released_tone, mix_sum, tone_sample, tone_envelope, tone_channel,
    channel_work,
};
use crate::synth::voice::{
    VoiceInstance, VoiceMotion, VoiceTone, VoiceUnit, MixParams, envelope_step, channel_step, voice_work,
    voice_advance, lemma_release_volume, lemma_voice_work_bound,
};
use crate::synth::{
    LoadedWoice, TimedEvent, alive_mask, not_note_mask, first_holding, sampled_tones, read_index, mix_params,
    rate_fits, lemma_mix_params_wf, first_late, lemma_first_late_bounds,
};
use crate::synth::arith::mod64;

verus! {

/// Choking a note leaves no tone playing it, keeps every tone that plays
/// another note, and changes nothing when no tone plays it.
pub proof fn law_choke_removes_exactly_the_note(ts: Seq<ToneModel>, note: u8)
    ensures
        forall|i: int|
            0 <= i < select(ts, not_note_mask(ts, note)).len() ==> (#[trigger] select(
                ts,
                not_note_mask(ts, note),
            )[i]).note_id != note,
        forall|j: int|
            0 <= j < ts.len() && (#[trigger] ts[j]).note_id != note ==> exists|i: int|
                0 <= i < select(ts, not_note_mask(ts, note)).len() && select(ts, not_note_mask(ts, note))[i] == ts[j],
        (forall|j: int| 0 <= j < ts.len() ==> (#[trigger] ts[j]).note_id != note) ==> select(
            ts,
            not_note_mask(ts, note),
        ) == ts,
{
    let mask = not_note_mask(ts, note);
    assert forall|i: int| 0 <= i < select(ts, mask).len() implies (#[trigger] select(ts, mask)[i]).note_id != note by {
        lemma_select_from(ts, mask, i);
    }
    assert forall|j: int| 0 <= j < ts.len() && (#[trigger] ts[j]).note_id != note implies exists|i: int|
        0 <= i < select(ts, mask).len() && select(ts, mask)[i] == ts[j] by {
        lemma_select_keeps(ts, mask, j);
    }
    if forall|j: int| 0 <= j < ts.len() ==> (#[trigger] ts[j]).note_id != note {
        lemma_select_all(ts, mask);
    }
}

/// After an output frame exactly the tones with a live voice remain: each
/// kept tone is alive, each alive tone is kept, and no tone is added.
pub proof fn law_sample_keeps_exactly_live_tones(ts: Seq<ToneModel>, n: int)
    ensures
        forall|i: int|
            0 <= i < select(ts, alive_mask(ts, n)).len() ==> (#[trigger] select(ts, alive_mask(ts, n))[i]).alive(n),
        forall|j: int|
            0 <= j < ts.len() && (#[trigger] ts[j]).alive(n) ==> exists|i: int|
                0 <= i < select(ts, alive_mask(ts, n)).len() && select(ts, alive_mask(ts, n))[i] == ts[j],
        select(ts, alive_mask(ts, n)).len() <= ts.len(),
{
    let mask = alive_mask(ts, n);
    assert forall|i: int| 0 <= i < select(ts, mask).len() implies (#[trigger] select(ts, mask)[i]).alive(n) by {
        lemma_select_from(ts, mask, i);
    }
    assert forall|j: int| 0 <= j < ts.len() && (#[trigger] ts[j]).alive(n) implies exists|i: int|
        0 <= i < select(ts, mask).len() && select(ts, mask)[i] == ts[j] by {
        lemma_select_keeps(ts, mask, j);
    }
    lemma_select_len(ts, mask);
}

/// A finished voice stays finished: its envelope step and its channel steps
/// leave it unchanged, and it adds nothing to the mix.
pub proof fn law_dead_voice_is_frozen(
    vt: VoiceTone,
    vi: VoiceInstance,
    m: VoiceMotion,
    ch: int,
    on: bool,
    velocity: int,
    vol_pan: int,
    p: MixParams,
)
    requires
        vt.life_count <= 0,
    ensures
        envelope_step(vt, vi, on) == vt,
        channel_step(vt, vi, m, ch, on, velocity, vol_pan, p) == (vt, 0int),
{
}

/// Once a note is released its envelope volume never rises from one step
/// to the next.
pub proof fn law_release_never_rises(vt: VoiceTone, vi: VoiceInstance)
    requires
        vt.wf(),
        vi.wf(),
    ensures
        envelope_step(envelope_step(vt, vi, false), vi, false).env_volume <= envelope_step(vt, vi, false).env_volume,
{
    let a = envelope_step(vt, vi, false);
    if vt.life_count > 0 && vi.env@.len() != 0 && vt.env_pos < vi.env_release {
        lemma_release_volume(vt.env_start as int, vt.env_pos as int, vi.env_release as int);
    }
    if vt.life_count > 0 && vi.env@.len() != 0 && vt.env_pos < vi.env_release && vt.env_pos + 1 < vi.env_release {
        lemma_release_volume(vt.env_start as int, vt.env_pos + 1, vi.env_release as int);
        let s = vt.env_start as int;
        let r = vi.env_release as int;
        let p0 = vt.env_pos as int;
        assert(s * p0 <= s * (p0 + 1)) by (nonlinear_arith)
            requires 0 <= s;
        lemma_div_is_ordered(s * p0, s * (p0 + 1), r);
        assert(-s * p0 == -(s * p0)) by (nonlinear_arith);
        assert(-s * (p0 + 1) == -(s * (p0 + 1))) by (nonlinear_arith);
        assert(0 <= s * p0) by (nonlinear_arith)
            requires 0 <= s, 0 <= p0;
        assert(tdiv(-s * p0, r) == -((s * p0) / r));
        assert(tdiv(-s * (p0 + 1), r) == -((s * (p0 + 1)) / r));
    }
}

/// A note struck while no tone holds it is the tone that a following
/// note-off for the same note releases.
pub proof fn law_note_off_releases_struck_tone(
    ts: Seq<ToneModel>,
    note: u8,
    velocity: u8,
    note_freq: u32,
    n: int,
    units: Seq<VoiceUnit>,
    insts: Seq<VoiceInstance>,
    offset_freqs: Seq<u32>,
)
    requires
        forall|j: int| 0 <= j < ts.len() ==> !(#[trigger] ts[j]).holds(note),
    ensures
        first_holding(ts.push(struck_tone(note, velocity, note_freq, n, units, insts, offset_freqs)), note, ts.len() as int),
{
    let ts2 = ts.push(struck_tone(note, velocity, note_freq, n, units, insts, offset_freqs));
    assert forall|j: int| 0 <= j < ts.len() implies !(#[trigger] ts2[j]).holds(note) by {
        assert(ts2[j] == ts[j]);
    }
}

/// After a note-off, the released tone no longer holds its note; if it was
/// the only tone holding it, none does.
pub proof fn law_note_off_ends_hold(ts: Seq<ToneModel>, note: u8, i: int, n: int)
    requires
        first_holding(ts, note, i),
    ensures
        !released_tone(ts[i], n).holds(note),
        (forall|j: int| 0 <= j < ts.len() && j != i ==> !(#[trigger] ts[j]).holds(note)) ==> forall|j: int|
            0 <= j < ts.len() ==> !(#[trigger] ts.update(i, released_tone(ts[i], n))[j]).holds(note),
{
}

/// Without tones an output frame is silent on both channels and leaves no
/// tones; in particular every frame after the synthesiser is stopped is
/// silent until a note is struck.
pub proof fn law_no_tones_is_silence(l: LoadedWoice, sample_rate: int, motions: Seq<Vec<VoiceMotion>>, index: int)
    requires
        l.tones@.len() == 0,
    ensures
        sampled_tones(l, sample_rate, motions).len() == 0,
        mix_sum(sampled_tones(l, sample_rate, motions), index) == 0,
        select(
            sampled_tones(l, sample_rate, motions),
            alive_mask(sampled_tones(l, sample_rate, motions), l.woice.voice_num as int),
        ).len() == 0,
{
    let ts = sampled_tones(l, sample_rate, motions);
    lemma_select_len(ts, alive_mask(ts, l.woice.voice_num as int));
}

/// A note struck with velocity zero adds nothing through a voice that has a
/// release phase or is not in its fade.
pub proof fn law_zero_velocity_is_silent(
    vt: VoiceTone,
    vi: VoiceInstance,
    frame: int,
    ch: int,
    vol_pan: int,
    p: MixParams,
)
    requires
        vi.env_release > 0 || !(p.looping && vt.smp_count > p.min_ct - p.smooth),
    ensures
        voice_work(vt, vi, frame, ch, 0, vol_pan, p) == 0,
{
    let pos = frame * 2 + ch;
    let raw = vi.samples@[pos] as int;
    let w1 = if p.dst_ch == 1 { tdiv(raw + vi.samples@[pos + 1] as int, 2) } else { raw };
    assert(w1 * 0 == 0);
    assert(tdiv(0, 128) == 0);
    assert(0int * vol_pan == 0);
    assert(tdiv(0, 64) == 0);
    assert(0 * vt.env_volume == 0);
}

/// A frame never changes which note a tone plays, whether it is held, its
/// frequency or its velocity, nor how many voices it has.
pub proof fn law_sample_keeps_tone_identity(
    t: ToneModel,
    insts: Seq<VoiceInstance>,
    ms: Seq<VoiceMotion>,
    n: int,
    vol_pan: Seq<i32>,
    p: MixParams,
    slot: int,
)
    ensures
        tone_sample(t, insts, ms, n, vol_pan, p, slot).on == t.on,
        tone_sample(t, insts, ms, n, vol_pan, p, slot).note_id == t.note_id,
        tone_sample(t, insts, ms, n, vol_pan, p, slot).note_freq == t.note_freq,
        tone_sample(t, insts, ms, n, vol_pan, p, slot).velocity == t.velocity,
        tone_sample(t, insts, ms, n, vol_pan, p, slot).voices.len() == t.voices.len(),
{
}

/// The three voice steps of one frame (envelope, left, right).
pub open spec fn voice_frame(
    vt: VoiceTone,
    vi: VoiceInstance,
    m: VoiceMotion,
    on: bool,
    velocity: int,
    vol_pan: Seq<i32>,
    p: MixParams,
) -> VoiceTone {
    let a = envelope_step(vt, vi, on);
    let b = channel_step(a, vi, m, 0, on, velocity, vol_pan[0] as int, p).0;
    channel_step(b, vi, m, 1, on, velocity, vol_pan[1] as int, p).0
}

/// Voice `v` of a tone after a frame is the voice after its three steps.
pub proof fn lemma_tone_sample_voice(
    t: ToneModel,
    insts: Seq<VoiceInstance>,
    ms: Seq<VoiceMotion>,
    n: int,
    vol_pan: Seq<i32>,
    p: MixParams,
    slot: int,
    v: int,
)
    requires
        0 <= v < n,
        v < t.voices.len(),
    ensures
        tone_sample(t, insts, ms, n, vol_pan, p, slot).voices[v] == voice_frame(
            t.voices[v],
            insts[v],
            ms[v],
            t.on,
            t.velocity as int,
            vol_pan,
            p,
        ),
{
    let t0 = tone_envelope(t, insts, n);
    let t1 = tone_channel(t0, insts, ms, n, 0, vol_pan[0] as int, p, slot);
    assert(t0.voices[v] == envelope_step(t.voices[v], insts[v], t.on));
    assert(t1.voices[v] == channel_step(t0.voices[v], insts[v], ms[v], 0, t.on, t.velocity as int, vol_pan[0] as int, p).0);
}

/// A held note is never cut by a frame: a live voice of a held, looping
/// tone whose sample count is below `min_ct` stays alive with the same
/// count, so the tone stays held and alive.  A struck tone starts every
/// voice's count at zero, so with `min_ct >= 1` (a sample rate of at least
/// 10) only a note-off, a choke, stopping or loading a woice ends a note.
pub proof fn law_held_note_keeps_sounding(
    t: ToneModel,
    insts: Seq<VoiceInstance>,
    ms: Seq<VoiceMotion>,
    n: int,
    vol_pan: Seq<i32>,
    p: MixParams,
    slot: int,
    v: int,
)
    requires
        t.on,
        p.looping,
        0 <= v < n,
        v < t.voices.len(),
        t.voices[v].wf(),
        t.voices[v].life_count > 0,
        t.voices[v].smp_count < p.min_ct,
    ensures
        tone_sample(t, insts, ms, n, vol_pan, p, slot).voices[v].life_count > 0,
        tone_sample(t, insts, ms, n, vol_pan, p, slot).voices[v].smp_count == t.voices[v].smp_count,
        tone_sample(t, insts, ms, n, vol_pan, p, slot).on,
        tone_sample(t, insts, ms, n, vol_pan, p, slot).alive(n),
{
    lemma_tone_sample_voice(t, insts, ms, n, vol_pan, p, slot, v);
    let r = tone_sample(t, insts, ms, n, vol_pan, p, slot);
    assert(r.voices[v].life_count > 0);
}

/// `sample` never cuts a held note: at a sample rate of at least 10, a held
/// tone of a loaded woice with a live voice comes out of a frame still held,
/// with that voice alive, and is among the tones the frame keeps.  (A held
/// tone's voices count no samples, so only a note-off, a choke, stopping or
/// loading a woice ends a note.)
pub proof fn law_sample_never_cuts_held_note(
    l: LoadedWoice,
    sample_rate: int,
    motions: Seq<Vec<VoiceMotion>>,
    i: int,
    v: int,
)
    requires
        l.wf(),
        rate_fits(sample_rate),
        10 <= sample_rate,
        0 <= i < l.tones@.len(),
        l.tones@[i]@.on,
        0 <= v < l.woice.voice_num,
        l.tones@[i]@.voices[v].life_count > 0,
    ensures
        sampled_tones(l, sample_rate, motions)[i].on,
        sampled_tones(l, sample_rate, motions)[i].voices[v].life_count > 0,
        exists|k: int|
            0 <= k < select(
                sampled_tones(l, sample_rate, motions),
                alive_mask(sampled_tones(l, sample_rate, motions), l.woice.voice_num as int),
            ).len() && select(
                sampled_tones(l, sample_rate, motions),
                alive_mask(sampled_tones(l, sample_rate, motions), l.woice.voice_num as int),
            )[k] == sampled_tones(l, sample_rate, motions)[i],
{
    let p = mix_params(sample_rate);
    lemma_mix_params_wf(sample_rate);
    lemma_div_is_ordered(1000, sample_rate * 100, 1000);
    assert(p.min_ct >= 1);
    let n = l.woice.voice_num as int;
    let t = l.tones@[i]@;
    assert(t.wf());
    assert(t.voices[v].wf());
    assert(t.voices[v].smp_count == 0);
    law_held_note_keeps_sounding(t, l.woice.insts@, motions[i]@, n, l.vol_pan@, p, l.time_pan_index as int, v);
    let ts = sampled_tones(l, sample_rate, motions);
    assert(ts[i] == tone_sample(t, l.woice.insts@, motions[i]@, n, l.vol_pan@, p, l.time_pan_index as int));
    assert(ts[i].alive(n));
    law_sample_keeps_exactly_live_tones(ts, n);
}

/// A struck tone's voices have counted no samples.
pub proof fn law_struck_tone_counts_nothing(
    note: u8,
    velocity: u8,
    note_freq: u32,
    n: int,
    units: Seq<VoiceUnit>,
    insts: Seq<VoiceInstance>,
    offset_freqs: Seq<u32>,
    v: int,
)
    requires
        0 <= v < 2,
    ensures
        struck_tone(note, velocity, note_freq, n, units, insts, offset_freqs).voices[v].smp_count == 0,
        struck_tone(note, velocity, note_freq, n, units, insts, offset_freqs).voices[v].life_count == 1,
{
}

/// An envelope step keeps a voice tone well formed.
pub proof fn lemma_envelope_keeps_wf(vt: VoiceTone, vi: VoiceInstance, on: bool)
    requires
        vt.wf(),
        vi.wf(),
    ensures
        envelope_step(vt, vi, on).wf(),
{
    if vt.life_count > 0 && vi.env@.len() != 0 && !on && vt.env_pos < vi.env_release {
        lemma_release_volume(vt.env_start as int, vt.env_pos as int, vi.env_release as int);
    }
}

pub open spec fn abs(x: int) -> int {
    if x < 0 { -x } else { x }
}

/// Rounding toward zero divides the magnitude.
proof fn lemma_tdiv_abs(a: int, b: int)
    requires
        b > 0,
    ensures
        abs(tdiv(a, b)) == abs(a) / b,
{
    if a >= 0 {
        vstd::arithmetic::div_mod::lemma_div_pos_is_pos(a, b);
    } else {
        vstd::arithmetic::div_mod::lemma_div_pos_is_pos(-a, b);
    }
}

/// Scaling by a nonnegative factor and rounding toward zero is monotone in
/// the magnitude of the scaled value and in the factor.
proof fn lemma_scale_monotone(a1: int, a2: int, f1: int, f2: int, d: int)
    requires
        abs(a1) <= abs(a2),
        0 <= f1 <= f2,
        d > 0,
    ensures
        abs(tdiv(a1 * f1, d)) <= abs(tdiv(a2 * f2, d)),
{
    lemma_tdiv_abs(a1 * f1, d);
    lemma_tdiv_abs(a2 * f2, d);
    assert(abs(a1 * f1) == abs(a1) * f1) by (nonlinear_arith)
        requires 0 <= f1;
    assert(abs(a2 * f2) == abs(a2) * f2) by (nonlinear_arith)
        requires 0 <= f2;
    assert(abs(a1) * f1 <= abs(a2) * f2) by (nonlinear_arith)
        requires 0 <= abs(a1) <= abs(a2), 0 <= f1 <= f2;
    lemma_div_is_ordered(abs(a1) * f1, abs(a2) * f2, d);
}

/// A higher velocity never makes a voice's contribution smaller in
/// magnitude.
pub proof fn law_velocity_never_quieter_voice(
    vt: VoiceTone,
    vi: VoiceInstance,
    frame: int,
    ch: int,
    v1: int,
    v2: int,
    vol_pan: int,
    p: MixParams,
)
    requires
        0 <= v1 <= v2,
        0 <= vol_pan,
        0 <= vt.env_volume,
    ensures
        abs(voice_work(vt, vi, frame, ch, v1, vol_pan, p)) <= abs(voice_work(vt, vi, frame, ch, v2, vol_pan, p)),
{
    let pos = frame * 2 + ch;
    let raw = vi.samples@[pos] as int;
    let w1 = if p.dst_ch == 1 { tdiv(raw + vi.samples@[pos + 1] as int, 2) } else { raw };
    lemma_scale_monotone(w1, w1, v1, v2, 128);
    let a2 = tdiv(w1 * v1, 128);
    let b2 = tdiv(w1 * v2, 128);
    lemma_scale_monotone(a2, b2, vol_pan, vol_pan, 64);
    let a3 = tdiv(a2 * vol_pan, 64);
    let b3 = tdiv(b2 * vol_pan, 64);
    lemma_scale_monotone(a3, b3, vt.env_volume as int, vt.env_volume as int, 128);
}

/// A higher note-on velocity never gives a quieter output: for a woice with
/// one voice, two tones that differ only in velocity take the frame into
/// the same voice states, and the lower velocity's delay-line entries are no
/// larger in magnitude.  With the centred time pan of a struck note the
/// output of each channel is that entry (see
/// [`law_velocity_never_quieter_output`]).
pub proof fn law_velocity_never_quieter_tone(
    t1: ToneModel,
    t2: ToneModel,
    insts: Seq<VoiceInstance>,
    ms: Seq<VoiceMotion>,
    vol_pan: Seq<i32>,
    p: MixParams,
    slot: int,
    c: int,
)
    requires
        t1.on == t2.on,
        t1.voices == t2.voices,
        t1.time_pan_buf == t2.time_pan_buf,
        t1.velocity <= t2.velocity,
        t1.voices.len() >= 1,
        t1.time_pan_buf.len() == CHANNELS * TIME_PAN_LEN,
        0 <= slot < TIME_PAN_LEN,
        0 <= c < 2,
        vol_pan.len() == 2,
        0 <= vol_pan[0] <= 128,
        0 <= vol_pan[1] <= 128,
        p.wf(),
        t1.voices[0].wf(),
        insts.len() >= 1,
        insts[0].wf(),
    ensures
        tone_sample(t1, insts, ms, 1, vol_pan, p, slot).voices == tone_sample(t2, insts, ms, 1, vol_pan, p, slot).voices,
        abs(tone_sample(t1, insts, ms, 1, vol_pan, p, slot).time_pan_buf[c * TIME_PAN_LEN + slot] as int) <= abs(
            tone_sample(t2, insts, ms, 1, vol_pan, p, slot).time_pan_buf[c * TIME_PAN_LEN + slot] as int,
        ),
{
    let e1 = tone_envelope(t1, insts, 1);
    let e2 = tone_envelope(t2, insts, 1);
    assert(e1.voices =~= e2.voices);
    let a1 = tone_channel(e1, insts, ms, 1, 0, vol_pan[0] as int, p, slot);
    let a2 = tone_channel(e2, insts, ms, 1, 0, vol_pan[0] as int, p, slot);
    assert(a1.voices =~= a2.voices);
    let b1 = tone_channel(a1, insts, ms, 1, 1, vol_pan[1] as int, p, slot);
    let b2 = tone_channel(a2, insts, ms, 1, 1, vol_pan[1] as int, p, slot);
    assert(b1.voices =~= b2.voices);
    let vt0 = e1.voices[0];
    assert(vt0 == envelope_step(t1.voices[0], insts[0], t1.on));
    lemma_envelope_keeps_wf(t1.voices[0], insts[0], t1.on);
    let vt1 = a1.voices[0];
    assert(vt1 == channel_step(vt0, insts[0], ms[0], 0, e1.on, e1.velocity as int, vol_pan[0] as int, p).0);
    if vt0.life_count > 0 {
        if !(insts[0].env_release <= 0 && p.looping && vt0.smp_count > p.min_ct - p.smooth) {
            lemma_voice_work_bound(vt0, insts[0], ms[0].frames[0] as int, 0, t1.velocity as int, vol_pan[0] as int, p);
            lemma_voice_work_bound(vt0, insts[0], ms[0].frames[0] as int, 0, t2.velocity as int, vol_pan[0] as int, p);
        }
        law_velocity_never_quieter_voice(vt0, insts[0], ms[0].frames[0] as int, 0, t1.velocity as int, t2.velocity as int, vol_pan[0] as int, p);
    }
    if vt1.life_count > 0 {
        assert(vt1.env_volume == vt0.env_volume && vt1.env_start == vt0.env_start);
        assert(vt1.wf());
        if !(insts[0].env_release <= 0 && p.looping && vt1.smp_count > p.min_ct - p.smooth) {
            lemma_voice_work_bound(vt1, insts[0], ms[0].frames[1] as int, 1, t1.velocity as int, vol_pan[1] as int, p);
            lemma_voice_work_bound(vt1, insts[0], ms[0].frames[1] as int, 1, t2.velocity as int, vol_pan[1] as int, p);
        }
        law_velocity_never_quieter_voice(vt1, insts[0], ms[0].frames[1] as int, 1, t1.velocity as int, t2.velocity as int, vol_pan[1] as int, p);
    }
    reveal_with_fuel(channel_work, 2);
    assert(channel_work(e1, insts, ms, 1, 0, vol_pan[0] as int, p) == channel_step(vt0, insts[0], ms[0], 0, t1.on, t1.velocity as int, vol_pan[0] as int, p).1);
    assert(channel_work(e2, insts, ms, 1, 0, vol_pan[0] as int, p) == channel_step(vt0, insts[0], ms[0], 0, t1.on, t2.velocity as int, vol_pan[0] as int, p).1);
    assert(channel_work(a1, insts, ms, 1, 1, vol_pan[1] as int, p) == channel_step(vt1, insts[0], ms[0], 1, t1.on, t1.velocity as int, vol_pan[1] as int, p).1);
    assert(channel_work(a2, insts, ms, 1, 1, vol_pan[1] as int, p) == channel_step(vt1, insts[0], ms[0], 1, t1.on, t2.velocity as int, vol_pan[1] as int, p).1);
}

/// A higher note-on velocity never gives a quieter output sample: two
/// loaded woices with one voice, the centred time pan of a struck note and
/// a single tone that differs only in velocity produce, on each channel, an
/// output no larger in magnitude for the lower velocity.
pub proof fn law_velocity_never_quieter_output(
    l1: LoadedWoice,
    l2: LoadedWoice,
    sample_rate: int,
    motions: Seq<Vec<VoiceMotion>>,
    c: int,
)
    requires
        l1.wf(),
        l2.wf(),
        l1.woice == l2.woice,
        l1.woice.voice_num == 1,
        l1.vol_pan == l2.vol_pan,
        l1.time_pan@ == seq![0i32, 0i32],
        l2.time_pan@ == seq![0i32, 0i32],
        l1.time_pan_index == l2.time_pan_index,
        l1.tones@.len() == 1,
        l2.tones@.len() == 1,
        l1.tones@[0]@.on == l2.tones@[0]@.on,
        l1.tones@[0]@.voices == l2.tones@[0]@.voices,
        l1.tones@[0]@.time_pan_buf == l2.tones@[0]@.time_pan_buf,
        l1.tones@[0]@.velocity <= l2.tones@[0]@.velocity,
        rate_fits(sample_rate),
        0 <= c < 2,
    ensures
        abs(mix_sum(sampled_tones(l1, sample_rate, motions), read_index(l1, c))) <= abs(
            mix_sum(sampled_tones(l2, sample_rate, motions), read_index(l2, c)),
        ),
{
    let p = mix_params(sample_rate);
    lemma_mix_params_wf(sample_rate);
    let slot = l1.time_pan_index as int;
    let t1 = l1.tones@[0]@;
    let t2 = l2.tones@[0]@;
    assert(t1.wf());
    assert(l1.woice.insts@[0].wf());
    assert(0 <= l1.vol_pan@[0] <= 128);
    assert(0 <= l1.vol_pan@[1] <= 128);
    law_velocity_never_quieter_tone(t1, t2, l1.woice.insts@, motions[0]@, l1.vol_pan@, p, slot, c);
    let ts1 = sampled_tones(l1, sample_rate, motions);
    let ts2 = sampled_tones(l2, sample_rate, motions);
    assert(ts1[0] == tone_sample(t1, l1.woice.insts@, motions[0]@, 1, l1.vol_pan@, p, slot));
    assert(ts2[0] == tone_sample(t2, l1.woice.insts@, motions[0]@, 1, l1.vol_pan@, p, slot));
    assert(mod64(slot - 0) == slot);
    assert(read_index(l1, c) == c * TIME_PAN_LEN + slot);
    assert(read_index(l2, c) == c * TIME_PAN_LEN + slot);
    reveal_with_fuel(mix_sum, 2);
    assert(ts1.drop_last().len() == 0);
    assert(ts2.drop_last().len() == 0);
    assert(ts1.last() == ts1[0]);
    assert(ts2.last() == ts2[0]);
    assert(mix_sum(ts1, read_index(l1, c)) == ts1[0].time_pan_buf[c * TIME_PAN_LEN + slot] as int);
    assert(mix_sum(ts2, read_index(l2, c)) == ts2[0].time_pan_buf[c * TIME_PAN_LEN + slot] as int);
}

/// A voice of this instance dies out once its note is released: it has
/// neither release nor tail (its sample count runs out), or an envelope
/// (whose release phase, if any, ends it).
pub open spec fn fades_out(vi: VoiceInstance) -> bool {
    ||| vi.env_release == 0 && vi.smp_tail_w == 0
    ||| vi.env@.len() > 0
}

/// Frames a released voice can still sound, at most: zero once it is
/// finished.
pub open spec fn voice_fade_left(vt: VoiceTone, vi: VoiceInstance, p: MixParams) -> int {
    if vt.life_count <= 0 {
        0
    } else if vi.env_release > 0 {
        if vt.env_pos <= vi.env_release { vi.env_release - vt.env_pos + 1 } else { 1 }
    } else {
        if p.min_ct > vt.smp_count { p.min_ct - vt.smp_count + 1 } else { 1 }
    }
}

/// Bound on [`voice_fade_left`] for a voice of this instance.
pub open spec fn voice_fade_budget(vi: VoiceInstance, p: MixParams) -> int {
    if vi.env_release > 0 {
        vi.env_release + 1
    } else if p.min_ct > 0 {
        p.min_ct + 1
    } else {
        1
    }
}

pub open spec fn larger(a: int, b: int) -> int {
    if a < b { b } else { a }
}

/// Frames a released tone can still sound, at most: the largest over its
/// first `k` voices, which fade side by side.
pub open spec fn tone_fade_left(t: ToneModel, insts: Seq<VoiceInstance>, k: int, p: MixParams) -> int
    decreases k,
{
    if k <= 0 {
        0
    } else {
        larger(tone_fade_left(t, insts, k - 1, p), voice_fade_left(t.voices[k - 1], insts[k - 1], p))
    }
}

/// Bound on [`tone_fade_left`] over the first `k` voices: the largest of
/// their own bounds.
pub open spec fn tone_fade_budget(insts: Seq<VoiceInstance>, k: int, p: MixParams) -> int
    decreases k,
{
    if k <= 0 {
        0
    } else {
        larger(tone_fade_budget(insts, k - 1, p), voice_fade_budget(insts[k - 1], p))
    }
}

/// A channel step keeps a voice tone well formed.
proof fn lemma_channel_step_keeps_wf(
    vt: VoiceTone,
    vi: VoiceInstance,
    m: VoiceMotion,
    ch: int,
    on: bool,
    velocity: int,
    vol_pan: int,
    p: MixParams,
)
    requires
        vt.wf(),
        p.wf(),
    ensures
        channel_step(vt, vi, m, ch, on, velocity, vol_pan, p).0.wf(),
{
}

/// One frame of a released voice that fades out never lengthens what is
/// left of its fade, shortens it while the voice sounds, and keeps it well
/// formed.
proof fn lemma_voice_fades(
    vt: VoiceTone,
    vi: VoiceInstance,
    m: VoiceMotion,
    velocity: int,
    vol_pan: Seq<i32>,
    p: MixParams,
)
    requires
        vt.wf(),
        vi.wf(),
        fades_out(vi),
        p.looping,
        p.wf(),
    ensures
        voice_frame(vt, vi, m, false, velocity, vol_pan, p).wf(),
        voice_fade_left(voice_frame(vt, vi, m, false, velocity, vol_pan, p), vi, p) <= voice_fade_left(vt, vi, p),
        vt.life_count > 0 ==> voice_fade_left(voice_frame(vt, vi, m, false, velocity, vol_pan, p), vi, p)
            < voice_fade_left(vt, vi, p),
        0 <= voice_fade_left(vt, vi, p) <= voice_fade_budget(vi, p),
        voice_fade_left(vt, vi, p) == 0 <==> vt.life_count <= 0,
{
    let a = envelope_step(vt, vi, false);
    lemma_envelope_keeps_wf(vt, vi, false);
    let b = channel_step(a, vi, m, 0, false, velocity, vol_pan[0] as int, p).0;
    lemma_channel_step_keeps_wf(a, vi, m, 0, false, velocity, vol_pan[0] as int, p);
    let c = channel_step(b, vi, m, 1, false, velocity, vol_pan[1] as int, p).0;
    lemma_channel_step_keeps_wf(b, vi, m, 1, false, velocity, vol_pan[1] as int, p);
    if vt.life_count > 0 {
        if vi.env_release > 0 {
            assert(a.smp_count == vt.smp_count);
            if a.life_count > 0 {
                assert(a.env_pos == vt.env_pos + 1 && vt.env_pos < vi.env_release);
                assert(b.env_pos == a.env_pos);
                assert(c.env_pos == a.env_pos);
            }
        } else {
            if vi.env@.len() > 0 {
                assert(a.life_count == 0);
            } else {
                assert(vi.env_release == 0 && vi.smp_tail_w == 0);
                assert(a == vt);
                if b.life_count > 0 {
                    assert(b == voice_advance(a, vi, false, p, m.past_end[0], m.positions[1]));
                    assert(b.smp_count == vt.smp_count + 1);
                    if c.life_count > 0 {
                        assert(c.smp_count == vt.smp_count + 2);
                    }
                }
            }
        }
    }
}

/// Over the voices' fade measures: a frame never lengthens a released
/// tone's fade and shortens it while one of the first `k` voices sounds.
proof fn lemma_tone_fades_upto(
    t: ToneModel,
    insts: Seq<VoiceInstance>,
    ms: Seq<VoiceMotion>,
    n: int,
    vol_pan: Seq<i32>,
    p: MixParams,
    slot: int,
    k: int,
)
    requires
        !t.on,
        p.looping,
        p.wf(),
        0 <= k <= n,
        n <= t.voices.len(),
        forall|v: int| 0 <= v < n ==> (#[trigger] t.voices[v]).wf() && insts[v].wf() && fades_out(insts[v]),
    ensures
        tone_fade_left(tone_sample(t, insts, ms, n, vol_pan, p, slot), insts, k, p) <= tone_fade_left(t, insts, k, p),
        t.alive(k) ==> tone_fade_left(tone_sample(t, insts, ms, n, vol_pan, p, slot), insts, k, p) < tone_fade_left(
            t,
            insts,
            k,
            p,
        ),
        0 <= tone_fade_left(t, insts, k, p) <= tone_fade_budget(insts, k, p),
        0 <= tone_fade_left(tone_sample(t, insts, ms, n, vol_pan, p, slot), insts, k, p),
        tone_fade_left(t, insts, k, p) == 0 <==> !t.alive(k),
        forall|v: int| 0 <= v < k ==> (#[trigger] tone_sample(t, insts, ms, n, vol_pan, p, slot).voices[v]).wf(),
    decreases k,
{
    if k > 0 {
        lemma_tone_fades_upto(t, insts, ms, n, vol_pan, p, slot, k - 1);
        let v = k - 1;
        assert(t.voices[v].wf() && insts[v].wf() && fades_out(insts[v]));
        lemma_tone_sample_voice(t, insts, ms, n, vol_pan, p, slot, v);
        lemma_voice_fades(t.voices[v], insts[v], ms[v], t.velocity as int, vol_pan, p);
        let r = tone_sample(t, insts, ms, n, vol_pan, p, slot);
        if t.alive(k) {
            if !t.alive(k - 1) {
                let w = choose|w: int| 0 <= w < k && #[trigger] t.voices[w].life_count > 0;
                assert(w == v);
            }
        }
        if t.voices[v].life_count > 0 {
            assert(t.alive(k));
        }
        if t.alive(k - 1) {
            let w = choose|w: int| 0 <= w < k - 1 && #[trigger] t.voices[w].life_count > 0;
            assert(t.alive(k));
        }
        assert forall|j: int| 0 <= j < k implies (#[trigger] r.voices[j]).wf() by {
            if j == v {
                assert(r.voices[v] == voice_frame(t.voices[v], insts[v], ms[v], t.on, t.velocity as int, vol_pan, p));
            }
        }
    }
}

/// A released note always stops sounding within a bounded number of
/// frames.  For a released tone whose voices all fade out (no release and
/// no tail, or an envelope), [`tone_fade_left`] is zero
/// exactly when no voice sounds, never exceeds [`tone_fade_budget`], and
/// drops by at least one in every frame in which a voice still sounds; the
/// tone stays released and well formed.  Since a frame keeps exactly the
/// sounding tones, the tone is gone after at most
/// `tone_fade_budget(insts, n, p)` frames.
pub proof fn law_released_note_ends(
    t: ToneModel,
    insts: Seq<VoiceInstance>,
    ms: Seq<VoiceMotion>,
    n: int,
    vol_pan: Seq<i32>,
    p: MixParams,
    slot: int,
)
    requires
        !t.on,
        p.looping,
        p.wf(),
        0 <= n <= t.voices.len(),
        forall|v: int| 0 <= v < n ==> (#[trigger] t.voices[v]).wf() && insts[v].wf() && fades_out(insts[v]),
    ensures
        tone_fade_left(t, insts, n, p) == 0 <==> !t.alive(n),
        0 <= tone_fade_left(t, insts, n, p) <= tone_fade_budget(insts, n, p),
        t.alive(n) ==> tone_fade_left(tone_sample(t, insts, ms, n, vol_pan, p, slot), insts, n, p) < tone_fade_left(
            t,
            insts,
            n,
            p,
        ),
        !tone_sample(t, insts, ms, n, vol_pan, p, slot).on,
        forall|v: int| 0 <= v < n ==> (#[trigger] tone_sample(t, insts, ms, n, vol_pan, p, slot).voices[v]).wf(),
{
    lemma_tone_fades_upto(t, insts, ms, n, vol_pan, p, slot, n);
}

/// A tone after `k` consecutive frames, frame `i` taking the play motions
/// `mss[i]` and writing delay-line slot `slot + i` (modulo its length).
pub open spec fn tone_frames(
    t: ToneModel,
    insts: Seq<VoiceInstance>,
    mss: Seq<Seq<VoiceMotion>>,
    n: int,
    vol_pan: Seq<i32>,
    p: MixParams,
    slot: int,
    k: nat,
) -> ToneModel
    decreases k,
{
    if k == 0 {
        t
    } else {
        tone_frames(
            tone_sample(t, insts, mss[0], n, vol_pan, p, slot),
            insts,
            mss.drop_first(),
            n,
            vol_pan,
            p,
            (slot + 1) % (TIME_PAN_LEN as int),
            (k - 1) as nat,
        )
    }
}

/// A frame keeps the number of voice states of a tone.
proof fn lemma_tone_sample_len(
    t: ToneModel,
    insts: Seq<VoiceInstance>,
    ms: Seq<VoiceMotion>,
    n: int,
    vol_pan: Seq<i32>,
    p: MixParams,
    slot: int,
)
    ensures
        tone_sample(t, insts, ms, n, vol_pan, p, slot).voices.len() == t.voices.len(),
{
}

/// A released tone with at most `k` frames of fade left no longer sounds
/// after `k` frames.
proof fn lemma_released_tone_silent_after(
    t: ToneModel,
    insts: Seq<VoiceInstance>,
    mss: Seq<Seq<VoiceMotion>>,
    n: int,
    vol_pan: Seq<i32>,
    p: MixParams,
    slot: int,
    k: nat,
)
    requires
        !t.on,
        p.looping,
        p.wf(),
        0 <= n <= t.voices.len(),
        forall|v: int| 0 <= v < n ==> (#[trigger] t.voices[v]).wf() && insts[v].wf() && fades_out(insts[v]),
        tone_fade_left(t, insts, n, p) <= k,
    ensures
        !tone_frames(t, insts, mss, n, vol_pan, p, slot, k).on,
        !tone_frames(t, insts, mss, n, vol_pan, p, slot, k).alive(n),
    decreases k,
{
    law_released_note_ends(t, insts, mss[0], n, vol_pan, p, slot);
    if k > 0 {
        let r = tone_sample(t, insts, mss[0], n, vol_pan, p, slot);
        lemma_tone_sample_len(t, insts, mss[0], n, vol_pan, p, slot);
        lemma_tone_fades_upto(t, insts, mss[0], n, vol_pan, p, slot, n);
        assert(forall|v: int| 0 <= v < n ==> (#[trigger] r.voices[v]).wf() && insts[v].wf() && fades_out(insts[v]));
        lemma_released_tone_silent_after(
            r,
            insts,
            mss.drop_first(),
            n,
            vol_pan,
            p,
            (slot + 1) % (TIME_PAN_LEN as int),
            (k - 1) as nat,
        );
    }
}

/// A released note stops sounding within a bounded number of frames: a
/// released tone whose voices all fade out no longer sounds after
/// [`tone_fade_budget`] frames, whatever the play motions, so the next frame
/// of the synthesiser drops it.  The budget is the largest over the voices
/// of `env_release + 1` (a voice with a release phase) or `min_ct + 1` (a
/// voice without).
pub proof fn law_released_note_ends_within_budget(
    t: ToneModel,
    insts: Seq<VoiceInstance>,
    mss: Seq<Seq<VoiceMotion>>,
    n: int,
    vol_pan: Seq<i32>,
    p: MixParams,
    slot: int,
    k: nat,
)
    requires
        !t.on,
        p.looping,
        p.wf(),
        0 <= n <= t.voices.len(),
        forall|v: int| 0 <= v < n ==> (#[trigger] t.voices[v]).wf() && insts[v].wf() && fades_out(insts[v]),
        tone_fade_budget(insts, n, p) <= k,
    ensures
        !tone_frames(t, insts, mss, n, vol_pan, p, slot, k).alive(n),
{
    law_released_note_ends(t, insts, mss[0], n, vol_pan, p, slot);
    lemma_released_tone_silent_after(t, insts, mss, n, vol_pan, p, slot, k);
}

/// A held note is never cut, however many frames pass: a live voice of a
/// held, looping tone whose count is below `min_ct` stays alive through
/// every frame with the same count, and the tone stays held and sounding.
pub proof fn law_held_note_sounds_through_frames(
    t: ToneModel,
    insts: Seq<VoiceInstance>,
    mss: Seq<Seq<VoiceMotion>>,
    n: int,
    vol_pan: Seq<i32>,
    p: MixParams,
    slot: int,
    v: int,
    k: nat,
)
    requires
        t.on,
        p.looping,
        p.wf(),
        0 <= v < n,
        v < t.voices.len(),
        t.voices[v].wf(),
        insts[v].wf(),
        t.voices[v].life_count > 0,
        t.voices[v].smp_count < p.min_ct,
    ensures
        tone_frames(t, insts, mss, n, vol_pan, p, slot, k).on,
        tone_frames(t, insts, mss, n, vol_pan, p, slot, k).voices[v].life_count > 0,
        tone_frames(t, insts, mss, n, vol_pan, p, slot, k).voices[v].smp_count == t.voices[v].smp_count,
        tone_frames(t, insts, mss, n, vol_pan, p, slot, k).alive(n),
    decreases k,
{
    if k > 0 {
        let ms = mss[0];
        law_held_note_keeps_sounding(t, insts, ms, n, vol_pan, p, slot, v);
        lemma_tone_sample_voice(t, insts, ms, n, vol_pan, p, slot, v);
        lemma_tone_sample_len(t, insts, ms, n, vol_pan, p, slot);
        let a = envelope_step(t.voices[v], insts[v], t.on);
        lemma_envelope_keeps_wf(t.voices[v], insts[v], t.on);
        let b = channel_step(a, insts[v], ms[v], 0, t.on, t.velocity as int, vol_pan[0] as int, p).0;
        lemma_channel_step_keeps_wf(a, insts[v], ms[v], 0, t.on, t.velocity as int, vol_pan[0] as int, p);
        lemma_channel_step_keeps_wf(b, insts[v], ms[v], 1, t.on, t.velocity as int, vol_pan[1] as int, p);
        let r = tone_sample(t, insts, ms, n, vol_pan, p, slot);
        law_held_note_sounds_through_frames(
            r,
            insts,
            mss.drop_first(),
            n,
            vol_pan,
            p,
            (slot + 1) % (TIME_PAN_LEN as int),
            v,
            (k - 1) as nat,
        );
    } else {
        assert(t.voices[v].life_count > 0);
    }
}

/// A struck note keeps sounding until something ends it: with `min_ct >= 1`
/// (a sample rate of at least 10), a tone struck on a woice with at least
/// one voice stays held and sounding through any number of frames, its
/// first voice alive with a zero count.
pub proof fn law_struck_note_sounds_until_released(
    note: u8,
    velocity: u8,
    note_freq: u32,
    n: int,
    units: Seq<VoiceUnit>,
    insts: Seq<VoiceInstance>,
    offset_freqs: Seq<u32>,
    mss: Seq<Seq<VoiceMotion>>,
    vol_pan: Seq<i32>,
    p: MixParams,
    slot: int,
    k: nat,
)
    requires
        1 <= n <= 2,
        insts[0].wf(),
        p.looping,
        p.wf(),
        p.min_ct >= 1,
    ensures
        tone_frames(struck_tone(note, velocity, note_freq, n, units, insts, offset_freqs), insts, mss, n, vol_pan, p, slot, k).on,
        tone_frames(struck_tone(note, velocity, note_freq, n, units, insts, offset_freqs), insts, mss, n, vol_pan, p, slot, k).voices[0].life_count > 0,
        tone_frames(struck_tone(note, velocity, note_freq, n, units, insts, offset_freqs), insts, mss, n, vol_pan, p, slot, k).alive(n),
{
    let t = struck_tone(note, velocity, note_freq, n, units, insts, offset_freqs);
    law_struck_tone_counts_nothing(note, velocity, note_freq, n, units, insts, offset_freqs, 0);
    assert(t.voices[0].wf());
    law_held_note_sounds_through_frames(t, insts, mss, n, vol_pan, p, slot, 0, k);
}

/// The events of a block come in order of their timing.
pub open spec fn sorted_by_timing(events: Seq<TimedEvent>) -> bool {
    forall|i: int, j: int| 0 <= i <= j < events.len() ==> (#[trigger] events[i]).timing <= (#[trigger] events[j]).timing
}

/// No event is lost or applied twice: when a block's events are in timing
/// order and [`PxtoneSynth::handle_events`] is called for samples 0, 1, 2,
/// ... in turn, each call continuing from where the previous one stopped,
/// the call for sample `s` stops where a single run from the start up to
/// `s` would, the events it acts on are exactly those timed `s`, every event
/// before its stopping point is timed at most `s`, and every later event is
/// timed after `s` and still pending.
pub proof fn law_events_applied_once(events: Seq<TimedEvent>, s: int)
    requires
        sorted_by_timing(events),
        0 <= s,
    ensures
        first_late(events, first_late(events, 0, s - 1), s) == first_late(events, 0, s),
        forall|j: int|
            first_late(events, 0, s - 1) <= j < first_late(events, 0, s) ==> (#[trigger] events[j]).timing == s,
        forall|j: int| 0 <= j < first_late(events, 0, s) ==> (#[trigger] events[j]).timing <= s,
        forall|j: int| first_late(events, 0, s) <= j < events.len() ==> (#[trigger] events[j]).timing > s,
{
    let a = first_late(events, 0, s - 1);
    let b = first_late(events, 0, s);
    lemma_first_late_bounds(events, 0, s - 1);
    lemma_first_late_bounds(events, 0, s);
    lemma_first_late_bounds(events, a, s);
    let r = first_late(events, a, s);
    if r < b {
        assert(events[r].timing <= s);
    }
    if b < r {
        if b < a {
            assert(events[b].timing <= s - 1);
        } else {
            assert(events[b].timing <= s);
        }
    }
    assert forall|j: int| a <= j < b implies (#[trigger] events[j]).timing == s by {
        assert(events[j].timing <= s);
        assert(events[a].timing > s - 1);
        assert(events[a].timing <= events[j].timing);
    }
    assert forall|j: int| b <= j < events.len() implies (#[trigger] events[j]).timing > s by {
        assert(events[b].timing > s);
        assert(events[b].timing <= events[j].timing);
    }
}

} // verus!
