//! What each step of the engine does to a voice or a tone: the envelope
//! while a note is held, the sum a tone writes to its delay line, the state
//! a struck or released tone starts from, and how a play step counts.

use vstd::prelude::*;
use vstd::arithmetic::div_mod::{lemma_fundamental_div_mod, lemma_mod_bound, lemma_div_by_multiple};
use crate::synth::arith::tdiv;
use crate::synth::tone::{
    ToneModel, CHANNELS, TIME_PAN_LEN, struck_tone, released_tone, tone_sample, tone_envelope, tone_channel,
    channel_work, VOICE_FLAG_BEATFIT,
};
use crate::synth::voice::{
    VoiceInstance, VoiceMotion, VoiceTone, VoiceUnit, MixParams, envelope_step, channel_step, voice_work,
    voice_advance, lemma_release_volume, after_left_step, UNIT_OFFSET_FREQ,
};
use crate::synth::laws::voice_frame;
use crate::synth::tone::mix_sum;
use crate::synth::{
    PxtoneSynth, NoteEvent, event_effect, first_holding, mix_params, rate_fits, vol_pan_of, time_pan_of, read_index,
    LoadedWoice, CENTER_PAN,
};
use crate::synth::arith::mod64;

verus! {

/// While a note is held, a voice's envelope step plays its envelope table:
/// a live voice with table entries left takes the next entry as its volume
/// and moves on by one, and once the table is played through the voice
/// sustains, its state unchanged.  A voice without a table, or a finished
/// one, is never changed by an envelope step.
pub proof fn law_held_envelope_plays_table_then_sustains(vt: VoiceTone, vi: VoiceInstance)
    requires
        vt.wf(),
    ensures
        vt.life_count > 0 && vt.env_pos < vi.env@.len() ==> {
            &&& envelope_step(vt, vi, true).env_volume == vi.env@[vt.env_pos as int] as int
            &&& envelope_step(vt, vi, true).env_pos == vt.env_pos + 1
            &&& envelope_step(vt, vi, true).life_count == vt.life_count
            &&& envelope_step(vt, vi, true).env_start == vt.env_start
            &&& envelope_step(vt, vi, true).smp_count == vt.smp_count
        },
        vt.env_pos >= vi.env@.len() ==> envelope_step(vt, vi, true) == vt,
        vi.env@.len() == 0 ==> envelope_step(vt, vi, true) == vt && envelope_step(vt, vi, false) == vt,
        vt.life_count <= 0 ==> envelope_step(vt, vi, true) == vt && envelope_step(vt, vi, false) == vt,
{
}

/// What a voice yields to a channel at a step it takes in state `vt`: its
/// work while it is alive, nothing once it has finished.
pub open spec fn yield_at(vt: VoiceTone, vi: VoiceInstance, frame: int, ch: int, velocity: int, vol_pan: int, p: MixParams) -> int {
    if vt.life_count > 0 { voice_work(vt, vi, frame, ch, velocity, vol_pan, p) } else { 0 }
}

/// What voice `v` of a tone yields to the left channel in a frame: its work
/// in the state after its envelope step.
pub open spec fn left_yield(t: ToneModel, insts: Seq<VoiceInstance>, ms: Seq<VoiceMotion>, vol_pan: Seq<i32>, p: MixParams, v: int) -> int {
    yield_at(
        envelope_step(t.voices[v], insts[v], t.on),
        insts[v],
        ms[v].frames[0] as int,
        0,
        t.velocity as int,
        vol_pan[0] as int,
        p,
    )
}

/// What voice `v` of a tone yields to the right channel in a frame: its
/// work in the state after its envelope step and its left step.
pub open spec fn right_yield(t: ToneModel, insts: Seq<VoiceInstance>, ms: Seq<VoiceMotion>, vol_pan: Seq<i32>, p: MixParams, v: int) -> int {
    yield_at(
        after_left_step(t.voices[v], insts[v], ms[v], t.on, p),
        insts[v],
        ms[v].frames[1] as int,
        1,
        t.velocity as int,
        vol_pan[1] as int,
        p,
    )
}

/// A tone's delay-line entries sum all of its voices: after a frame, the
/// entry of each channel at the written slot is the sum, over the first `n`
/// voices (at most two), of what each voice yields to that channel; every
/// other entry is unchanged.
pub proof fn law_tone_entry_sums_its_voices(
    t: ToneModel,
    insts: Seq<VoiceInstance>,
    ms: Seq<VoiceMotion>,
    n: int,
    vol_pan: Seq<i32>,
    p: MixParams,
    slot: int,
)
    requires
        0 <= n <= 2,
        n <= t.voices.len(),
        0 <= slot < TIME_PAN_LEN,
        t.time_pan_buf.len() == CHANNELS * TIME_PAN_LEN,
    ensures
        tone_sample(t, insts, ms, n, vol_pan, p, slot).time_pan_buf[slot] == ((if n >= 1 {
            left_yield(t, insts, ms, vol_pan, p, 0)
        } else {
            0
        }) + (if n >= 2 {
            left_yield(t, insts, ms, vol_pan, p, 1)
        } else {
            0
        })) as i32,
        tone_sample(t, insts, ms, n, vol_pan, p, slot).time_pan_buf[TIME_PAN_LEN + slot] == ((if n >= 1 {
            right_yield(t, insts, ms, vol_pan, p, 0)
        } else {
            0
        }) + (if n >= 2 {
            right_yield(t, insts, ms, vol_pan, p, 1)
        } else {
            0
        })) as i32,
        forall|i: int|
            0 <= i < CHANNELS * TIME_PAN_LEN && i != slot && i != TIME_PAN_LEN + slot
                ==> #[trigger] tone_sample(t, insts, ms, n, vol_pan, p, slot).time_pan_buf[i] == t.time_pan_buf[i],
{
    let t0 = tone_envelope(t, insts, n);
    let t1 = tone_channel(t0, insts, ms, n, 0, vol_pan[0] as int, p, slot);
    let r = tone_channel(t1, insts, ms, n, 1, vol_pan[1] as int, p, slot);
    reveal_with_fuel(channel_work, 3);
    if n >= 1 {
        assert(t0.voices[0] == envelope_step(t.voices[0], insts[0], t.on));
        assert(t1.voices[0] == after_left_step(t.voices[0], insts[0], ms[0], t.on, p));
    }
    if n >= 2 {
        assert(t0.voices[1] == envelope_step(t.voices[1], insts[1], t.on));
        assert(t1.voices[1] == after_left_step(t.voices[1], insts[1], ms[1], t.on, p));
    }
    assert(r.time_pan_buf[slot] == t1.time_pan_buf[slot]);
}

/// A struck tone starts every voice of the woice at the beginning of its
/// sample with no samples counted: a voice whose unit is not beat-fit plays
/// at the pitch factor given for that very voice, a beat-fit voice at the
/// neutral factor 1.0; a voice with an envelope table starts silent at the
/// table's start, one without at full volume 128.  The tone is held, with
/// the note, velocity and frequency given and an empty delay line.
pub proof fn law_struck_voices_start_at_their_own_pitch(
    note: u8,
    velocity: u8,
    note_freq: u32,
    n: int,
    units: Seq<VoiceUnit>,
    insts: Seq<VoiceInstance>,
    offset_freqs: Seq<u32>,
    v: int,
)
    requires
        0 <= v < n <= 2,
    ensures
        units[v].voice_flags & VOICE_FLAG_BEATFIT == 0 ==> struck_tone(
            note,
            velocity,
            note_freq,
            n,
            units,
            insts,
            offset_freqs,
        ).voices[v].offset_freq == offset_freqs[v],
        units[v].voice_flags & VOICE_FLAG_BEATFIT != 0 ==> struck_tone(
            note,
            velocity,
            note_freq,
            n,
            units,
            insts,
            offset_freqs,
        ).voices[v].offset_freq == UNIT_OFFSET_FREQ,
        struck_tone(note, velocity, note_freq, n, units, insts, offset_freqs).voices[v].life_count == 1,
        struck_tone(note, velocity, note_freq, n, units, insts, offset_freqs).voices[v].smp_pos == 0,
        struck_tone(note, velocity, note_freq, n, units, insts, offset_freqs).voices[v].smp_count == 0,
        struck_tone(note, velocity, note_freq, n, units, insts, offset_freqs).voices[v].env_pos == 0,
        insts[v].env@.len() > 0 ==> struck_tone(note, velocity, note_freq, n, units, insts, offset_freqs).voices[v].env_volume == 0
            && struck_tone(note, velocity, note_freq, n, units, insts, offset_freqs).voices[v].env_start == 0,
        insts[v].env@.len() == 0 ==> struck_tone(note, velocity, note_freq, n, units, insts, offset_freqs).voices[v].env_volume == 128
            && struck_tone(note, velocity, note_freq, n, units, insts, offset_freqs).voices[v].env_start == 128,
        struck_tone(note, velocity, note_freq, n, units, insts, offset_freqs).on,
        struck_tone(note, velocity, note_freq, n, units, insts, offset_freqs).note_id == note,
        struck_tone(note, velocity, note_freq, n, units, insts, offset_freqs).velocity == velocity,
        struck_tone(note, velocity, note_freq, n, units, insts, offset_freqs).note_freq == note_freq,
        forall|i: int|
            0 <= i < CHANNELS * TIME_PAN_LEN ==> #[trigger] struck_tone(
                note,
                velocity,
                note_freq,
                n,
                units,
                insts,
                offset_freqs,
            ).time_pan_buf[i] == 0,
{
}

/// A note-off makes every voice of the woice fade from where it is: each of
/// the first `n` voices of the released tone starts its release at the
/// volume it had, from release position 0, with everything else of it
/// unchanged; the other voices are untouched and the tone is no longer
/// held, with its note, velocity, frequency and delay line kept.
pub proof fn law_release_starts_every_voice_from_its_volume(t: ToneModel, n: int)
    requires
        0 <= n <= t.voices.len(),
    ensures
        !released_tone(t, n).on,
        released_tone(t, n).voices.len() == t.voices.len(),
        forall|v: int|
            0 <= v < n ==> {
                &&& (#[trigger] released_tone(t, n).voices[v]).env_start == t.voices[v].env_volume
                &&& released_tone(t, n).voices[v].env_pos == 0
                &&& released_tone(t, n).voices[v].env_volume == t.voices[v].env_volume
                &&& released_tone(t, n).voices[v].life_count == t.voices[v].life_count
                &&& released_tone(t, n).voices[v].smp_count == t.voices[v].smp_count
                &&& released_tone(t, n).voices[v].smp_pos == t.voices[v].smp_pos
                &&& released_tone(t, n).voices[v].offset_freq == t.voices[v].offset_freq
            },
        forall|v: int| n <= v < t.voices.len() ==> #[trigger] released_tone(t, n).voices[v] == t.voices[v],
        released_tone(t, n).note_id == t.note_id,
        released_tone(t, n).velocity == t.velocity,
        released_tone(t, n).note_freq == t.note_freq,
        released_tone(t, n).time_pan_buf == t.time_pan_buf,
{
}

/// How a looping voice's sample count moves at a play step: it counts only
/// after its note is released, and only when its instance has neither a
/// tail nor a release phase (such a voice ends when its count reaches
/// `min_ct`); a voice with a release phase or a tail, or a held voice, keeps
/// its count.  A non-looping voice counts every released step.  The step
/// ends the voice exactly when its new count reaches `min_ct` or, when not
/// looping, its play position passed the body's end.
pub proof fn law_step_counts_only_voices_without_release(
    vt: VoiceTone,
    vi: VoiceInstance,
    on: bool,
    p: MixParams,
    past_end: bool,
    new_pos: u64,
)
    requires
        vt.wf(),
        vt.life_count > 0,
    ensures
        p.looping && (vi.env_release != 0 || vi.smp_tail_w != 0 || on) ==> voice_advance(vt, vi, on, p, past_end, new_pos).smp_count
            == vt.smp_count,
        p.looping && vi.env_release == 0 && vi.smp_tail_w == 0 && !on ==> voice_advance(vt, vi, on, p, past_end, new_pos).smp_count
            == vt.smp_count + 1,
        !p.looping && on ==> voice_advance(vt, vi, on, p, past_end, new_pos).smp_count == vt.smp_count,
        !p.looping && !on ==> voice_advance(vt, vi, on, p, past_end, new_pos).smp_count == vt.smp_count + 1,
        voice_advance(vt, vi, on, p, past_end, new_pos).life_count <= 0 <==> (voice_advance(vt, vi, on, p, past_end, new_pos).smp_count
            >= p.min_ct || (!p.looping && past_end)),
        voice_advance(vt, vi, on, p, past_end, new_pos).life_count > 0 ==> voice_advance(vt, vi, on, p, past_end, new_pos).life_count
            == vt.life_count,
        voice_advance(vt, vi, on, p, past_end, new_pos).smp_pos == new_pos,
        voice_advance(vt, vi, on, p, past_end, new_pos).env_volume == vt.env_volume,
        voice_advance(vt, vi, on, p, past_end, new_pos).env_pos == vt.env_pos,
{
}

/// A released voice with a release phase is ended by its envelope alone: a
/// live, released voice of a looping instance with an envelope table and a
/// release of `env_release` samples that is `env_pos < env_release` into its
/// release comes out of a frame alive, one sample further into its release,
/// with its sample count unchanged.  So it sounds through its whole release
/// and ends only when the release position reaches `env_release`.
pub proof fn law_release_phase_sounds_to_its_end(
    vt: VoiceTone,
    vi: VoiceInstance,
    m: VoiceMotion,
    velocity: int,
    vol_pan: Seq<i32>,
    p: MixParams,
)
    requires
        vt.wf(),
        vi.wf(),
        p.looping,
        vt.life_count > 0,
        vi.env@.len() > 0,
        vi.env_release > 0,
        vt.env_pos < vi.env_release,
        vt.smp_count < p.min_ct,
    ensures
        voice_frame(vt, vi, m, false, velocity, vol_pan, p).life_count > 0,
        voice_frame(vt, vi, m, false, velocity, vol_pan, p).env_pos == vt.env_pos + 1,
        voice_frame(vt, vi, m, false, velocity, vol_pan, p).smp_count == vt.smp_count,
{
    let a = envelope_step(vt, vi, false);
    lemma_release_volume(vt.env_start as int, vt.env_pos as int, vi.env_release as int);
    assert(a.life_count == vt.life_count && a.smp_count == vt.smp_count);
    let b = channel_step(a, vi, m, 0, false, velocity, vol_pan[0] as int, p).0;
    assert(b == voice_advance(a, vi, false, p, m.past_end[0], m.positions[1]));
    assert(b.life_count > 0 && b.smp_count == vt.smp_count);
}

/// Division as the engine does it rounds toward zero: for a positive
/// divisor the quotient times the divisor lies between zero and the
/// dividend, less than one divisor away from it.
pub proof fn law_tdiv_rounds_toward_zero(a: int, b: int)
    requires
        b > 0,
    ensures
        a >= 0 ==> 0 <= a - b * tdiv(a, b) < b && tdiv(a, b) >= 0,
        a < 0 ==> -b < a - b * tdiv(a, b) <= 0 && tdiv(a, b) <= 0,
{
    if a >= 0 {
        lemma_fundamental_div_mod(a, b);
        lemma_mod_bound(a, b);
        assert(a / b >= 0) by (nonlinear_arith)
            requires a >= 0, b > 0, a == b * (a / b) + (a % b), 0 <= a % b < b;
    } else {
        lemma_fundamental_div_mod(-a, b);
        lemma_mod_bound(-a, b);
        assert((-a) / b >= 0) by (nonlinear_arith)
            requires -a >= 0, b > 0, -a == b * ((-a) / b) + ((-a) % b), 0 <= (-a) % b < b;
        assert(b * tdiv(a, b) == -(b * ((-a) / b))) by (nonlinear_arith)
            requires tdiv(a, b) == -((-a) / b);
    }
}

/// Scaling a value by `f / d` (with `f == d`) rounds nothing away.
proof fn lemma_tdiv_neutral(a: int, d: int)
    requires
        d > 0,
    ensures
        tdiv(a * d, d) == a,
{
    if a >= 0 {
        lemma_div_by_multiple(a, d);
        assert(a * d >= 0) by (nonlinear_arith)
            requires a >= 0, d > 0;
    } else {
        lemma_div_by_multiple(-a, d);
        assert(a * d < 0 && -(a * d) == (-a) * d) by (nonlinear_arith)
            requires a < 0, d > 0;
    }
}

/// After its note is released a voice with an envelope fades linearly: at
/// release position `pos < env_release` its volume is `env_start` scaled by
/// `(env_release - pos) / env_release`, rounded up, and it moves one step
/// further; once the position reaches `env_release` the voice finishes
/// silent.
pub proof fn law_release_fades_linearly(vt: VoiceTone, vi: VoiceInstance)
    requires
        vt.wf(),
        vi.wf(),
        vt.life_count > 0,
        vi.env@.len() > 0,
    ensures
        vt.env_pos < vi.env_release ==> {
            &&& vt.env_start * (vi.env_release - vt.env_pos) <= envelope_step(vt, vi, false).env_volume * vi.env_release
            &&& envelope_step(vt, vi, false).env_volume * vi.env_release < vt.env_start * (vi.env_release - vt.env_pos)
                + vi.env_release
            &&& envelope_step(vt, vi, false).env_pos == vt.env_pos + 1
            &&& envelope_step(vt, vi, false).env_start == vt.env_start
            &&& envelope_step(vt, vi, false).life_count == vt.life_count
        },
        vt.env_pos >= vi.env_release ==> envelope_step(vt, vi, false).life_count == 0 && envelope_step(
            vt,
            vi,
            false,
        ).env_volume == 0,
{
    if vt.env_pos < vi.env_release {
        let rel = vi.env_release as int;
        let start = vt.env_start as int;
        let pos = vt.env_pos as int;
        lemma_release_volume(start, pos, rel);
        let q = tdiv(-start * pos, rel);
        law_tdiv_rounds_toward_zero(-start * pos, rel);
        let vol = envelope_step(vt, vi, false).env_volume as int;
        assert(vol == start + q);
        assert(start * (rel - pos) <= vol * rel < start * (rel - pos) + rel) by (nonlinear_arith)
            requires
                vol == start + q,
                -rel < -start * pos - rel * q <= 0,
                rel > 0;
    }
}

/// A voice's work is its sample word scaled by velocity / 128, channel
/// pan / 64 and (for a voice with a release phase) envelope volume / 128,
/// each rounded toward zero: at the neutral velocity 128 and pan 64 a voice
/// at envelope volume 128 (or without a release phase, before its fade)
/// yields the sample word itself (for mono output the average of the
/// frame's two words), one at envelope volume 64 half of it, and a silent
/// envelope, pan or velocity yields nothing.  Past the fade start a voice
/// without a release phase yields the same constant whatever its frame,
/// velocity and pan.
pub proof fn law_voice_work_scales_the_sample(
    vt: VoiceTone,
    vi: VoiceInstance,
    frame: int,
    ch: int,
    p: MixParams,
)
    ensures
        p.dst_ch != 1 && (vi.env_release > 0 ==> vt.env_volume == 128) && (vi.env_release <= 0 ==> !(p.looping
            && vt.smp_count > p.min_ct - p.smooth)) ==> voice_work(vt, vi, frame, ch, 128, 64, p)
            == vi.samples@[frame * 2 + ch] as int,
        p.dst_ch == 1 && (vi.env_release > 0 ==> vt.env_volume == 128) && (vi.env_release <= 0 ==> !(p.looping
            && vt.smp_count > p.min_ct - p.smooth)) ==> voice_work(vt, vi, frame, ch, 128, 64, p) == tdiv(
            vi.samples@[frame * 2 + ch] as int + vi.samples@[frame * 2 + ch + 1] as int,
            2,
        ),
        p.dst_ch != 1 && vi.env_release > 0 && vt.env_volume == 64 ==> voice_work(vt, vi, frame, ch, 128, 64, p)
            == tdiv(vi.samples@[frame * 2 + ch] as int, 2),
        vi.env_release > 0 && vt.env_volume == 0 ==> voice_work(vt, vi, frame, ch, 128, 64, p) == 0,
        vi.env_release > 0 || !(p.looping && vt.smp_count > p.min_ct - p.smooth) ==> {
            &&& forall|vel: int, pan: int| #[trigger] voice_work(vt, vi, frame, ch, vel, pan, p) == 0 <== vel == 0
            &&& forall|vel: int| #[trigger] voice_work(vt, vi, frame, ch, vel, 0, p) == 0
        },
        vi.env_release <= 0 && p.looping && vt.smp_count > p.min_ct - p.smooth ==> forall|f: int, c: int, vel: int, pan: int|
            #[trigger] voice_work(vt, vi, f, c, vel, pan, p) == voice_work(vt, vi, frame, ch, 128, 64, p),
{
    let pos = frame * 2 + ch;
    let raw = vi.samples@[pos] as int;
    let w1 = if p.dst_ch == 1 { tdiv(raw + vi.samples@[pos + 1] as int, 2) } else { raw };
    lemma_tdiv_neutral(w1, 128);
    lemma_tdiv_neutral(w1, 64);
    assert(tdiv(w1 * 128, 128) * 64 == w1 * 64);
    assert(tdiv(w1 * 64, 128) == tdiv(w1, 2)) by {
        if w1 >= 0 {
            lemma_cancel_common_factor(w1, 2, 64);
        } else {
            lemma_cancel_common_factor(-w1, 2, 64);
            assert((-w1) * 64 == -(w1 * 64)) by (nonlinear_arith);
            assert(w1 * 64 < 0) by (nonlinear_arith) requires w1 < 0;
        }
    }
    assert forall|vel: int, pan: int| vel == 0 implies #[trigger] voice_work(vt, vi, frame, ch, vel, pan, p) == 0
        || !(vi.env_release > 0 || !(p.looping && vt.smp_count > p.min_ct - p.smooth)) by {
        assert(w1 * vel == 0) by (nonlinear_arith) requires vel == 0;
        assert(0int * pan == 0) by (nonlinear_arith);
        assert(0int * vt.env_volume == 0) by (nonlinear_arith);
    }
    assert forall|vel: int| #[trigger] voice_work(vt, vi, frame, ch, vel, 0, p) == 0
        || !(vi.env_release > 0 || !(p.looping && vt.smp_count > p.min_ct - p.smooth)) by {
        let w2 = tdiv(w1 * vel, 128);
        assert(w2 * 0 == 0) by (nonlinear_arith);
        assert(0int * vt.env_volume == 0) by (nonlinear_arith);
    }
    assert(0int * vt.env_volume == 0) by (nonlinear_arith);
}

/// `(a * f) / (d * f) == a / d` for nonnegative `a` and positive `d`, `f`,
/// with rounding toward zero.
proof fn lemma_cancel_common_factor(a: int, d: int, f: int)
    requires
        a >= 0,
        d > 0,
        f > 0,
    ensures
        tdiv(a * f, d * f) == tdiv(a, d),
{
    lemma_fundamental_div_mod(a, d);
    lemma_mod_bound(a, d);
    let q = a / d;
    let r = a % d;
    assert(q >= 0) by (nonlinear_arith) requires a >= 0, d > 0, a == d * q + r, 0 <= r < d;
    assert(a * f == (d * f) * q + r * f && 0 <= r * f < d * f && a * f >= 0 && d * f > 0) by (nonlinear_arith)
        requires a == d * q + r, 0 <= r < d, f > 0, q >= 0;
    vstd::arithmetic::div_mod::lemma_div_multiples_vanish_fancy(q, r * f, d * f);
}

/// The channel mix adds up every tone: the mix over two runs of tones one
/// after the other is the sum of their mixes, a single tone contributes its
/// own entry, and no tones mix to zero.
pub proof fn law_mix_adds_every_tone(a: Seq<ToneModel>, b: Seq<ToneModel>, t: ToneModel, index: int)
    ensures
        mix_sum(a + b, index) == mix_sum(a, index) + mix_sum(b, index),
        mix_sum(seq![t], index) == t.time_pan_buf[index] as int,
        mix_sum(Seq::<ToneModel>::empty(), index) == 0,
    decreases b.len(),
{
    reveal_with_fuel(mix_sum, 2);
    assert(seq![t].drop_last() =~= Seq::<ToneModel>::empty());
    if b.len() > 0 {
        law_mix_adds_every_tone(a, b.drop_last(), t, index);
        assert((a + b).drop_last() =~= a + b.drop_last());
        assert((a + b).last() == b.last());
    } else {
        assert(a + b =~= a);
    }
}

/// The mixer settings of a sample rate: output is stereo over looping
/// voices, a released voice without release phase lives `sample_rate / 10`
/// counted samples (a tenth of a second), and the fade is `sample_rate /
/// 100` samples long.
pub proof fn law_mixer_settings_of_rate(sample_rate: int)
    requires
        0 <= sample_rate,
        rate_fits(sample_rate),
    ensures
        mix_params(sample_rate).min_ct == sample_rate / 10,
        mix_params(sample_rate).smooth == sample_rate / 100,
        mix_params(sample_rate).dst_ch == CHANNELS,
        mix_params(sample_rate).looping,
{
    lemma_cancel_common_factor(sample_rate, 10, 100);
    assert(sample_rate * 100 >= 0) by (nonlinear_arith) requires sample_rate >= 0;
    assert(sample_rate / 10 <= sample_rate) by (nonlinear_arith) requires sample_rate >= 0;
    assert(sample_rate / 100 <= sample_rate) by (nonlinear_arith) requires sample_rate >= 0;
}

/// A frame touches only the woice's voices of a tone: the voices beyond
/// the first `n` are left as they were, and the tone keeps its note,
/// holding state, frequency and velocity.
pub proof fn law_frame_leaves_other_voices(
    t: ToneModel,
    insts: Seq<VoiceInstance>,
    ms: Seq<VoiceMotion>,
    n: int,
    vol_pan: Seq<i32>,
    p: MixParams,
    slot: int,
)
    requires
        0 <= n,
    ensures
        forall|v: int|
            n <= v < t.voices.len() ==> #[trigger] tone_sample(t, insts, ms, n, vol_pan, p, slot).voices[v]
                == t.voices[v],
        tone_sample(t, insts, ms, n, vol_pan, p, slot).voices.len() == t.voices.len(),
        tone_sample(t, insts, ms, n, vol_pan, p, slot).on == t.on,
        tone_sample(t, insts, ms, n, vol_pan, p, slot).note_id == t.note_id,
        tone_sample(t, insts, ms, n, vol_pan, p, slot).velocity == t.velocity,
{
}

/// A note-on keeps every sounding tone and adds one more, the struck tone,
/// after them; it centres the pans (volume pan 64 on both channels, no time
/// pan) and keeps the woice, the sample rate and the delay-line slot.
pub proof fn law_note_on_adds_one_struck_tone(
    a: PxtoneSynth,
    b: PxtoneSynth,
    note: u8,
    velocity: u8,
    note_freq: u32,
    offset_freqs: [u32; 2],
)
    requires
        a.takes_events(),
        a.sample_rate.unwrap() != 0,
        event_effect(a, NoteEvent::NoteOn { note, velocity, note_freq, offset_freqs }, b),
    ensures
        b.tone_models().len() == a.tone_models().len() + 1,
        forall|i: int| 0 <= i < a.tone_models().len() ==> #[trigger] b.tone_models()[i] == a.tone_models()[i],
        b.tone_models().last() == struck_tone(
            note,
            velocity,
            note_freq,
            a.loaded_woice().woice.voice_num as int,
            a.loaded_woice().woice.units@,
            a.loaded_woice().woice.insts@,
            offset_freqs@,
        ),
        b.loaded_woice().vol_pan@[0] == 64,
        b.loaded_woice().vol_pan@[1] == 64,
        b.loaded_woice().time_pan@[0] == 0,
        b.loaded_woice().time_pan@[1] == 0,
        b.loaded_woice().woice == a.loaded_woice().woice,
        b.loaded_woice().time_pan_index == a.loaded_woice().time_pan_index,
        b.sample_rate == a.sample_rate,
{
    let sr = a.sample_rate.unwrap() as int;
    assert(b.loaded_woice().vol_pan@[0] == vol_pan_of(0, CHANNELS as int, CENTER_PAN as int));
    assert(b.loaded_woice().vol_pan@[1] == vol_pan_of(1, CHANNELS as int, CENTER_PAN as int));
    assert(b.loaded_woice().time_pan@[0] == time_pan_of(0, CHANNELS as int, CENTER_PAN as int, sr));
    assert(b.loaded_woice().time_pan@[1] == time_pan_of(1, CHANNELS as int, CENTER_PAN as int, sr));
    assert(0int * 44100 == 0);
    if sr < 0 {
        assert(0int / (-sr) == 0) by (nonlinear_arith) requires sr < 0;
    }
}

/// A note-off changes at most one tone, the first that holds the note: that
/// tone becomes released (see the release law) and every other tone, the
/// woice, pans, slot and sample rate stay as they were; without a holder
/// nothing changes.
pub proof fn law_note_off_releases_only_the_first_holder(a: PxtoneSynth, b: PxtoneSynth, note: u8)
    requires
        a.takes_events(),
        event_effect(a, NoteEvent::NoteOff { note }, b),
    ensures
        b.tone_models().len() == a.tone_models().len(),
        b.sample_rate == a.sample_rate,
        b.is_loaded(),
        b.loaded_woice().woice == a.loaded_woice().woice,
        b.loaded_woice().vol_pan == a.loaded_woice().vol_pan,
        b.loaded_woice().time_pan == a.loaded_woice().time_pan,
        b.loaded_woice().time_pan_index == a.loaded_woice().time_pan_index,
        forall|j: int| 0 <= j < a.tone_models().len() && !(#[trigger] a.tone_models()[j]).holds(note) ==> b.tone_models()[j]
            == a.tone_models()[j],
        forall|i: int|
            first_holding(a.tone_models(), note, i) ==> {
                &&& #[trigger] b.tone_models()[i] == released_tone(a.tone_models()[i], a.loaded_woice().woice.voice_num as int)
                &&& forall|j: int| 0 <= j < a.tone_models().len() && j != i ==> #[trigger] b.tone_models()[j] == a.tone_models()[j]
            },
        (forall|j: int| 0 <= j < a.tone_models().len() ==> !(#[trigger] a.tone_models()[j]).holds(note)) ==> b.tone_models()
            == a.tone_models(),
{
    let ts = a.tone_models();
    let n = a.loaded_woice().woice.voice_num as int;
    if exists|i: int| first_holding(ts, note, i) && b.tone_models() == ts.update(i, released_tone(ts[i], n)) {
        let i = choose|i: int| first_holding(ts, note, i) && b.tone_models() == ts.update(i, released_tone(ts[i], n));
        assert forall|k: int| first_holding(ts, note, k) implies k == i by {
            if k < i {
                assert(!ts[k].holds(note));
            } else if i < k {
                assert(!ts[i].holds(note));
            }
        }
    }
}

/// Each channel reads its delay line `time_pan` samples behind the write
/// slot: the read index lies in the channel's line, and it plus the time pan
/// is the write slot, modulo the line's length.
pub proof fn law_channel_reads_time_pan_behind(l: LoadedWoice, ch: int)
    requires
        0 <= ch < 2,
    ensures
        ch * TIME_PAN_LEN <= read_index(l, ch) < ch * TIME_PAN_LEN + TIME_PAN_LEN,
        (read_index(l, ch) - ch * TIME_PAN_LEN + l.time_pan@[ch] - l.time_pan_index) % 64 == 0,
{
    let x = l.time_pan_index - l.time_pan@[ch];
    lemma_mod_bound(x, 64);
    lemma_fundamental_div_mod(x, 64);
    let r = mod64(x);
    assert(r - x == -64 * (x / 64)) by (nonlinear_arith) requires x == 64 * (x / 64) + (x % 64), r == x % 64;
    vstd::arithmetic::div_mod::lemma_mod_multiples_basic(-(x / 64), 64);
    assert(-(x / 64) * 64 == -64 * (x / 64)) by (nonlinear_arith);
}

} // verus!
