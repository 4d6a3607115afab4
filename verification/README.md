# pxtone_plug

A pxtone woice instrument (CLAP / VST3). Its sound engine is an integer-only library whose operations carry machine-checked contracts.

- `src/synth/voice.rs` — one voice of a tone: envelope step, per-channel work, counter advance.
- `src/synth/tone.rs` — tones: striking, releasing, the per-frame step, the time-pan delay line, order-preserving selection.
- `src/synth/mod.rs` — the synthesiser: woice loading, sample rate, readying, note events (one at a time and a block's timed list), the per-frame mix.
- `src/synth/laws.rs` — properties that span operations: release never rises and a released note ends, held notes keep sounding, a higher velocity is never quieter (one-voice woice, centred time pan), timed events apply once and in order.
- `src/synth/arith.rs` — division toward zero and its bounds.
- `src/plugin.rs` — the plugin state: the kept woice file, initialisation at a sample rate, loading a chosen file, the published tone count.
- `app/` — host plumbing: pxtone calls, floating-point play positions and gain, the editor, logging.

The engine holds integers only. Floating-point values (play positions, pitch factors, note frequencies) travel through it as bit patterns; the host side advances play positions and hands the engine the frames to read.
