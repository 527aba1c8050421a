use vstd::prelude::*;

verus! {

/// Tuning shared by every unit of one session. An absent value leaves the
/// model's own default in place.
#[derive(Clone, Copy, Debug, PartialEq, Eq, Structural)]
pub struct OutputConfig {
    pub rate: Option<u8>,
    pub volume: Option<u8>,
    pub pitch: Option<u8>,
    pub appended_silence_ms: Option<u32>,
}

impl OutputConfig {
    /// A configuration that leaves every setting to the model.
    pub fn model_defaults() -> (r: OutputConfig)
        ensures
            r.rate is None,
            r.volume is None,
            r.pitch is None,
            r.appended_silence_ms is None,
    {
        OutputConfig { rate: None, volume: None, pitch: None, appended_silence_ms: None }
    }
}

/// Why a request or a unit failed.
#[derive(Clone, Debug, PartialEq, Eq)]
pub enum SynthError {
    /// A strategy parameter is out of range; raised before any work starts.
    InvalidConfiguration,
    /// The model failed on one unit; other units go on.
    Inference(String),
    /// The model can no longer work; every later unit fails the same way.
    ModelUnusable(String),
    /// The text could not be split; kept for completeness.
    Segmentation,
}

/// The audio of one unit.
#[derive(Clone, Debug, PartialEq, Eq)]
pub struct AudioChunk {
    pub index: usize,
    pub samples: Vec<i16>,
}

/// What became of one unit, tagged by the unit's index.
#[derive(Clone, Debug, PartialEq, Eq)]
pub enum SynthesisResult {
    Success(AudioChunk),
    Failure(usize, SynthError),
}

/// The index of the unit that a result belongs to.
pub open spec fn result_index(r: SynthesisResult) -> nat {
    match r {
        SynthesisResult::Success(a) => a.index as nat,
        SynthesisResult::Failure(i, _) => i as nat,
    }
}

/// The result for unit `index` when the model returned `outcome` for it.
pub open spec fn result_of(index: usize, outcome: Result<Vec<i16>, SynthError>) -> SynthesisResult {
    match outcome {
        Ok(samples) => SynthesisResult::Success(AudioChunk { index, samples }),
        Err(e) => SynthesisResult::Failure(index, e),
    }
}

impl SynthesisResult {
    /// The index of the unit that this result belongs to.
    pub fn index(&self) -> (r: usize)
        ensures
            r == result_index(*self),
    {
        match self {
            SynthesisResult::Success(a) => a.index,
            SynthesisResult::Failure(i, _) => *i,
        }
    }

    pub fn is_success(&self) -> (r: bool)
        ensures
            r == (*self is Success),
    {
        match self {
            SynthesisResult::Success(_) => true,
            SynthesisResult::Failure(_, _) => false,
        }
    }

    /// The result for unit `index` built from what the model returned for it.
    pub fn from_outcome(index: usize, outcome: Result<Vec<i16>, SynthError>) -> (r: SynthesisResult)
        ensures
            r == result_of(index, outcome),
            result_index(r) == index,
    {
        match outcome {
            Ok(samples) => SynthesisResult::Success(AudioChunk { index, samples }),
            Err(e) => SynthesisResult::Failure(index, e),
        }
    }
}

/// A speech model that turns the text of one unit into audio samples. One
/// model is shared by every worker of a session and may be called from
/// several of them at once.
pub trait SpeechModel {
    fn infer(&self, text: &str, config: &OutputConfig) -> Result<Vec<i16>, SynthError>;
}

} // verus!
