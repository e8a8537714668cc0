//! The recording file of a session and what happens to it after the stop:
//! the hand-off to the transcription engine and the paste of the result.
use vstd::prelude::*;
use crate::decimal::{nat_digits, push_nat_digits};

verus! {

/// `murmure-<seconds>.wav`.
pub open spec fn wav_name(unix_seconds: u64) -> Seq<char> {
    "murmure-"@ + nat_digits(unix_seconds as nat) + ".wav"@
}

/// The file name of a recording started at `unix_seconds`.
pub fn wav_file_name(unix_seconds: u64) -> (r: String)
    ensures
        r@ == wav_name(unix_seconds),
{
    let mut r = String::from_str("murmure-");
    push_nat_digits(&mut r, unix_seconds);
    r.append(".wav");
    r
}

/// Relies on `SystemTime::now` and `SystemTime::duration_since(UNIX_EPOCH)`
/// for the whole seconds since the Unix epoch; a clock set before the epoch
/// reads as 0.
#[verifier::external_body]
fn unix_seconds_now() -> (r: u64) {
    match std::time::SystemTime::now().duration_since(std::time::UNIX_EPOCH) {
        Ok(d) => d.as_secs(),
        Err(_) => 0,
    }
}

/// A file name for a recording that starts now, named from the current
/// Unix time in seconds.
pub fn generate_unique_wav_name() -> (r: String)
    ensures
        exists|t: u64| r@ == wav_name(t),
{
    let t = unix_seconds_now();
    wav_file_name(t)
}

/// What the hand-off waits for.
#[derive(Clone, Copy, Debug, PartialEq, Eq, Structural)]
pub enum HandoffStage {
    AwaitEngine,
    AwaitTranscript,
    AwaitDelivery,
    AwaitSweep,
    Done,
}

/// Why a finished recording produced no transcription.
#[derive(Debug)]
pub enum HandoffError {
    /// The engine could not be loaded.
    EngineUnavailable(String),
    /// The engine failed on the recording.
    TranscriptionFailed(String),
}

/// What the caller does next with a finished recording.
#[derive(Debug)]
pub enum HandoffAction {
    /// Load the engine (it was not loaded yet in this process).
    LoadEngine,
    /// Transcribe the recording.
    Transcribe,
    /// Correct the text, add it to the history and paste it.
    Deliver { text: String },
    /// Delete every file of the recordings directory.
    SweepRecordings,
    /// The hand-off is over.
    Finish { outcome: Result<(), HandoffError> },
}

/// The kind of a hand-off action, for contracts.
#[derive(Clone, Copy, Debug, PartialEq, Eq, Structural)]
pub enum HandoffOp {
    LoadEngine,
    Transcribe,
    Deliver,
    SweepRecordings,
    FinishOk,
    FinishEngineUnavailable,
    FinishTranscriptionFailed,
}

pub open spec fn op_of(a: HandoffAction) -> HandoffOp {
    match a {
        HandoffAction::LoadEngine => HandoffOp::LoadEngine,
        HandoffAction::Transcribe => HandoffOp::Transcribe,
        HandoffAction::Deliver { .. } => HandoffOp::Deliver,
        HandoffAction::SweepRecordings => HandoffOp::SweepRecordings,
        HandoffAction::Finish { outcome } => match outcome {
            Ok(_) => HandoffOp::FinishOk,
            Err(HandoffError::EngineUnavailable(_)) => HandoffOp::FinishEngineUnavailable,
            Err(HandoffError::TranscriptionFailed(_)) => HandoffOp::FinishTranscriptionFailed,
        },
    }
}

/// The hand-off of one finished recording: the engine is loaded at most
/// once, a transcript is delivered, and the recordings are swept only after
/// a transcript was delivered.
pub struct Handoff {
    stage: HandoffStage,
}

impl View for Handoff {
    type V = HandoffStage;

    closed spec fn view(&self) -> HandoffStage {
        self.stage
    }
}

impl Handoff {
    /// Starts a hand-off; the engine is loaded first unless it already is.
    pub fn new(engine_loaded: bool) -> (r: (Self, HandoffAction))
        ensures
            engine_loaded ==> r.0@ == HandoffStage::AwaitTranscript && op_of(r.1) == HandoffOp::Transcribe,
            !engine_loaded ==> r.0@ == HandoffStage::AwaitEngine && op_of(r.1) == HandoffOp::LoadEngine,
    {
        if engine_loaded {
            (Handoff { stage: HandoffStage::AwaitTranscript }, HandoffAction::Transcribe)
        } else {
            (Handoff { stage: HandoffStage::AwaitEngine }, HandoffAction::LoadEngine)
        }
    }

    pub fn stage(&self) -> (r: HandoffStage)
        ensures
            r == self@,
    {
        self.stage
    }

    /// Reports the outcome of loading the engine.
    pub fn engine_ready(&mut self, result: Result<(), String>) -> (a: HandoffAction)
        requires
            old(self)@ == HandoffStage::AwaitEngine,
        ensures
            result is Ok ==> final(self)@ == HandoffStage::AwaitTranscript && op_of(a) == HandoffOp::Transcribe,
            result is Err ==> final(self)@ == HandoffStage::Done && op_of(a) == HandoffOp::FinishEngineUnavailable,
    {
        match result {
            Ok(()) => {
                self.stage = HandoffStage::AwaitTranscript;
                HandoffAction::Transcribe
            },
            Err(m) => {
                self.stage = HandoffStage::Done;
                HandoffAction::Finish { outcome: Err(HandoffError::EngineUnavailable(m)) }
            },
        }
    }

    /// Reports the engine's transcript, or its failure.
    pub fn transcribed(&mut self, result: Result<String, String>) -> (a: HandoffAction)
        requires
            old(self)@ == HandoffStage::AwaitTranscript,
        ensures
            result is Ok ==> final(self)@ == HandoffStage::AwaitDelivery && (a matches HandoffAction::Deliver {
                text,
            } && text@ == result->Ok_0@),
            result is Err ==> final(self)@ == HandoffStage::Done && op_of(a) == HandoffOp::FinishTranscriptionFailed,
    {
        match result {
            Ok(text) => {
                self.stage = HandoffStage::AwaitDelivery;
                HandoffAction::Deliver { text }
            },
            Err(m) => {
                self.stage = HandoffStage::Done;
                HandoffAction::Finish { outcome: Err(HandoffError::TranscriptionFailed(m)) }
            },
        }
    }

    /// Reports that delivery was attempted (its failures are only logged);
    /// the recordings are swept next.
    pub fn delivered(&mut self) -> (a: HandoffAction)
        requires
            old(self)@ == HandoffStage::AwaitDelivery,
        ensures
            final(self)@ == HandoffStage::AwaitSweep,
            op_of(a) == HandoffOp::SweepRecordings,
    {
        self.stage = HandoffStage::AwaitSweep;
        HandoffAction::SweepRecordings
    }

    /// Reports that the sweep was attempted; the hand-off succeeded.
    pub fn swept(&mut self) -> (a: HandoffAction)
        requires
            old(self)@ == HandoffStage::AwaitSweep,
        ensures
            final(self)@ == HandoffStage::Done,
            op_of(a) == HandoffOp::FinishOk,
    {
        self.stage = HandoffStage::Done;
        HandoffAction::Finish { outcome: Ok(()) }
    }
}

} // verus!
