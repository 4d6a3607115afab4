//! Verified core of a pxtone woice instrument: the per-sample voice engine
//! (envelopes, mixing, time-pan delay line), the note-event rules and the
//! plugin's load/initialise decisions, over plain integer state.

pub mod plugin;
pub mod synth;

pub use plugin::{PtParams, PtPlug};
