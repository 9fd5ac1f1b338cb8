//! The capability set shared by the two processors: `process`,
//! `validate_config` and `processor_type`, each with a promise the
//! implementing processor fills in.

use vstd::prelude::*;
use crate::audio::AudioData;
use crate::config::ProcessorConfig;
use crate::errors::AudioResult;
use crate::result::ProcessingResult;

verus! {

pub trait AudioProcessor {
    /// What this processor's `process` promises for a source, a
    /// configuration and an outcome.
    spec fn process_post(
        &self,
        audio: AudioData,
        config: ProcessorConfig,
        r: AudioResult<ProcessingResult>,
    ) -> bool;

    /// What this processor's `validate_config` promises for a
    /// configuration and an outcome.
    spec fn validate_post(&self, config: ProcessorConfig, r: AudioResult<()>) -> bool;

    /// The tag this processor reports.
    spec fn type_tag(&self) -> Seq<char>;

    /// Runs this processor's transformation on a decoded source.
    fn process(&self, audio: &AudioData, config: &ProcessorConfig) -> (r: AudioResult<
        ProcessingResult,
    >)
        requires
            audio.is_valid(),
        ensures
            self.process_post(*audio, *config, r),
    ;

    /// Checks a configuration without touching any source, allowing a
    /// cheap pre-flight check before expensive input and output.
    fn validate_config(&self, config: &ProcessorConfig) -> (r: AudioResult<()>)
        ensures
            self.validate_post(*config, r),
    ;

    /// The immutable tag used in metadata and in a caller's dispatch.
    fn processor_type(&self) -> (r: &'static str)
        ensures
            r@ == self.type_tag(),
    ;
}

} // verus!
