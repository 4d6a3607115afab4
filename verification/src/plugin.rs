//! The instrument plugin's own state: the woice file it keeps across
//! sessions, whether the host has initialised it, and the synthesiser.

use vstd::prelude::*;
use crate::synth::{PxtoneSynth, Woice};
use crate::synth::voice::VoiceInstance;

verus! {

/// Output channels the synthesiser renders, whatever the host's layout.
pub const OUTPUT_CHANNELS: u8 = 2;

/// Persisted and displayed parameters: the bytes and name of the chosen
/// woice file, and the number of sounding tones.
pub struct PtParams {
    pub file_data: Option<Vec<u8>>,
    pub woice_name: Option<String>,
    pub num_tones: usize,
}

impl Default for PtParams {
    fn default() -> (p: PtParams)
        ensures
            p.file_data is None,
            p.woice_name is None,
            p.num_tones == 0,
    {
        PtParams { file_data: None, woice_name: None, num_tones: 0 }
    }
}

impl PtParams {
    /// What the editor shows for the woice: its file name, or `None`.
    pub fn woice_label(&self) -> (label: String)
        ensures
            match self.woice_name {
                Some(name) => label@ == name@,
                None => label@ == "None"@,
            },
    {
        match &self.woice_name {
            Some(name) => name.as_str().to_owned(),
            None => "None".to_owned(),
        }
    }
}

pub struct PtPlug {
    pub params: PtParams,
    pub initted: bool,
    pub synth: PxtoneSynth,
}

impl PtPlug {
    /// A plugin around a started synthesiser, with default parameters and
    /// not yet initialised by the host.
    pub fn new(synth: PxtoneSynth) -> (plug: PtPlug)
        ensures
            plug.synth == synth,
            !plug.initted,
            plug.params.file_data is None,
            plug.params.woice_name is None,
            plug.params.num_tones == 0,
    {
        PtPlug { params: PtParams::default(), initted: false, synth }
    }

    /// Initialisation must load the kept woice file: none is loaded yet and
    /// one was kept.
    pub open spec fn needs_stored_woice(&self) -> bool {
        !self.synth.is_loaded() && self.params.file_data is Some
    }

    /// The host initialises the plugin at `sample_rate`, which the woice
    /// library has accepted for [`OUTPUT_CHANNELS`] channels (a refused
    /// format stops initialisation before this call).  The plugin counts as
    /// initialised from then on and the synthesiser records the rate.
    /// Returns whether the kept woice file must now be loaded (with
    /// [`PtPlug::load_stored_woice`]) before the voices are readied.
    pub fn initialize(&mut self, sample_rate: i32) -> (load_stored: bool)
        ensures
            final(self).initted,
            final(self).params == old(self).params,
            load_stored == old(self).needs_stored_woice(),
            final(self).synth.sample_rate == Some(sample_rate),
            final(self).synth.woice_state == old(self).synth.woice_state,
    {
        self.initted = true;
        let accepted = self.synth.set_audio_format(sample_rate, true);
        assert(accepted is Ok);
        !self.synth.loaded() && self.params.file_data.is_some()
    }

    /// Load the woice that the woice library read, successfully, from the
    /// kept file (an unreadable kept file stops before this call).  It
    /// replaces any loaded woice, with zeroed pans, no tones and the delay
    /// line at slot 0.
    pub fn load_stored_woice(&mut self, woice: Woice)
        requires
            old(self).synth.wf(),
            woice.wf(),
        ensures
            final(self).synth.wf(),
            final(self).params == old(self).params,
            final(self).initted == old(self).initted,
            final(self).synth.sample_rate == old(self).synth.sample_rate,
            final(self).synth.is_loaded(),
            final(self).synth.loaded_woice().woice == woice,
            final(self).synth.loaded_woice().time_pan@ == seq![0i32, 0i32],
            final(self).synth.loaded_woice().vol_pan@ == seq![0i32, 0i32],
            final(self).synth.loaded_woice().tones@.len() == 0,
            final(self).synth.loaded_woice().time_pan_index == 0,
    {
        let loaded = self.synth.load_woice(woice, 0);
        assert(loaded is Ok);
    }

    /// Ready the loaded woice's voices with the instances the woice library
    /// readied, successfully, for the recorded sample rate (readying needs a
    /// sample rate, and a failed readying stops before this call).  Without
    /// a woice nothing changes.
    pub fn init_woice(&mut self, insts: Vec<VoiceInstance>)
        requires
            old(self).synth.wf(),
            old(self).synth.sample_rate is Some,
            old(self).synth.is_loaded() ==> insts@.len() == old(self).synth.loaded_woice().woice.voice_num,
            old(self).synth.is_loaded() ==> forall|v: int| 0 <= v < insts@.len() ==> #[trigger] insts@[v].wf(),
        ensures
            final(self).synth.wf(),
            final(self).params == old(self).params,
            final(self).initted == old(self).initted,
            final(self).synth.sample_rate == old(self).synth.sample_rate,
            final(self).synth.is_loaded() == old(self).synth.is_loaded(),
            !old(self).synth.is_loaded() ==> final(self).synth == old(self).synth,
            old(self).synth.is_loaded() ==> {
                &&& final(self).synth.loaded_woice().woice.insts == insts
                &&& final(self).synth.loaded_woice().woice.units == old(self).synth.loaded_woice().woice.units
                &&& final(self).synth.loaded_woice().woice.voice_num == old(self).synth.loaded_woice().woice.voice_num
                &&& final(self).synth.loaded_woice().tones == old(self).synth.loaded_woice().tones
                &&& final(self).synth.loaded_woice().time_pan == old(self).synth.loaded_woice().time_pan
                &&& final(self).synth.loaded_woice().vol_pan == old(self).synth.loaded_woice().vol_pan
                &&& final(self).synth.loaded_woice().time_pan_index == old(self).synth.loaded_woice().time_pan_index
            },
    {
        let readied = self.synth.tone_ready(0, insts);
        assert(readied is Ok);
    }

    /// Audio is processed only once the host has initialised the plugin.
    pub fn processing(&self) -> (b: bool)
        ensures
            b == self.initted,
    {
        self.initted
    }

    /// A woice file chosen by the user, which the woice library read,
    /// successfully, into `woice` (an unreadable file stops before this
    /// call).  The woice is loaded into the synthesiser, with zeroed pans,
    /// no tones and the delay line at slot 0, and the file's bytes and name
    /// are kept.  Returns whether the voices must be readied now: only once
    /// the plugin is initialised.
    pub fn load_file(&mut self, file_data: Vec<u8>, file_name: String, woice: Woice) -> (ready_now: bool)
        requires
            old(self).synth.wf(),
            woice.wf(),
        ensures
            final(self).synth.wf(),
            ready_now == old(self).initted,
            final(self).params.file_data == Some(file_data),
            final(self).params.woice_name == Some(file_name),
            final(self).params.num_tones == old(self).params.num_tones,
            final(self).initted == old(self).initted,
            final(self).synth.sample_rate == old(self).synth.sample_rate,
            final(self).synth.is_loaded(),
            final(self).synth.loaded_woice().woice == woice,
            final(self).synth.loaded_woice().time_pan@ == seq![0i32, 0i32],
            final(self).synth.loaded_woice().vol_pan@ == seq![0i32, 0i32],
            final(self).synth.loaded_woice().tones@.len() == 0,
            final(self).synth.loaded_woice().time_pan_index == 0,
    {
        let loaded = self.synth.load_woice(woice, 0);
        assert(loaded is Ok);
        self.params.file_data = Some(file_data);
        self.params.woice_name = Some(file_name);
        self.initted
    }

    /// Publish the number of sounding tones while the synthesiser takes note
    /// events; returns whether it does.
    pub fn publish_tone_count(&mut self) -> (taking: bool)
        ensures
            taking == old(self).synth.takes_events(),
            final(self).synth == old(self).synth,
            final(self).initted == old(self).initted,
            final(self).params.file_data == old(self).params.file_data,
            final(self).params.woice_name == old(self).params.woice_name,
            taking ==> final(self).params.num_tones == old(self).synth.tone_models().len(),
            !taking ==> final(self).params.num_tones == old(self).params.num_tones,
    {
        if self.synth.takes_note_events() {
            self.params.num_tones = self.synth.tone_count();
            true
        } else {
            false
        }
    }

    /// The host resets the plugin: every sounding tone stops.
    pub fn reset(&mut self)
        requires
            old(self).synth.wf(),
        ensures
            final(self).synth.wf(),
            final(self).synth.same_but_tones(&old(self).synth),
            final(self).synth.tone_models().len() == 0,
            final(self).params == old(self).params,
            final(self).initted == old(self).initted,
    {
        self.synth.stop_all();
    }
}

} // verus!
