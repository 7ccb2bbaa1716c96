//! The reading of a whole sentence. A service gives the sentence's pinyin;
//! a syllable parser, which may fail, cuts it into tokens; where it fails,
//! an operator corrects the pinyin once. What is decided here is what to
//! do next; parsing and asking are done by whoever drives the job.

use crate::phonetics::{assemble_zhuyin, assembled_zhuyin, normalise_separators, normalised_separators};
use vstd::prelude::*;

verus! {

/// The reading of a sentence in both notations.
#[derive(Debug)]
pub struct SentenceReading {
    pub pinyin: String,
    pub zhuyin: String,
}

/// How far the conversion of a sentence's pinyin has come.
#[derive(Debug, Clone, Copy, PartialEq, Eq, Structural)]
pub enum ReadingStage {
    /// The pinyin as the service gave it is with the parser.
    FirstParse,
    /// The parser failed; the operator has the pinyin.
    AwaitingCorrection,
    /// The operator's correction is with the parser.
    SecondParse,
    /// The reading was handed out, or given up.
    Finished,
}

/// A conversion under way: its stage and the pinyin that the service gave.
#[derive(Debug)]
pub struct ReadingJob {
    pub stage: ReadingStage,
    pub pinyin: String,
}

/// What came back from outside.
#[derive(Debug)]
pub enum ReadingEvent {
    /// The parser cut the text into these tokens.
    Parsed(Vec<String>),
    /// The parser failed on the text.
    ParseFailed,
    /// The operator gave this correction.
    Corrected(String),
}

/// What is to be done next.
#[derive(Debug)]
pub enum ReadingAction {
    /// Hand this text to the parser.
    Parse(String),
    /// Show this pinyin to the operator and ask for a correction.
    AskOperator(String),
    /// The reading is complete.
    Finish(SentenceReading),
    /// The parser failed on the correction too: there is no reading.
    GiveUp,
}

/// Whether `event` is one that a job at `stage` waits for.
pub open spec fn awaits(stage: ReadingStage, event: ReadingEvent) -> bool {
    match stage {
        ReadingStage::FirstParse | ReadingStage::SecondParse => event is Parsed
            || event is ParseFailed,
        ReadingStage::AwaitingCorrection => event is Corrected,
        ReadingStage::Finished => false,
    }
}

impl ReadingJob {
    /// Starts the conversion of the pinyin that the service gave for a
    /// sentence: the pinyin, with its separators normalised, goes to the
    /// parser.
    pub fn begin(pinyin: String) -> (started: (ReadingJob, ReadingAction))
        ensures
            started.0.stage == ReadingStage::FirstParse,
            started.0.pinyin@ == pinyin@,
            started.1 matches ReadingAction::Parse(text) && text@ == normalised_separators(pinyin@),
    {
        let text = normalise_separators(pinyin.as_str());
        (ReadingJob { stage: ReadingStage::FirstParse, pinyin }, ReadingAction::Parse(text))
    }

    /// Whether `event` is one that the job waits for.
    pub fn expects(&self, event: &ReadingEvent) -> (r: bool)
        ensures
            r == awaits(self.stage, *event),
    {
        match self.stage {
            ReadingStage::FirstParse | ReadingStage::SecondParse => match event {
                ReadingEvent::Parsed(_) => true,
                ReadingEvent::ParseFailed => true,
                ReadingEvent::Corrected(_) => false,
            },
            ReadingStage::AwaitingCorrection => match event {
                ReadingEvent::Corrected(_) => true,
                _ => false,
            },
            ReadingStage::Finished => false,
        }
    }

    /// Takes the job one step on. Tokens from the parser finish it, with
    /// the service's pinyin and the zhuyin put together from the tokens.
    /// A first failure of the parser sends the service's pinyin to the
    /// operator; the correction goes to the parser with its separators
    /// normalised; a second failure ends the job without a reading. The
    /// operator is asked on a first failure and never else.
    pub fn step(self, event: ReadingEvent) -> (next: (ReadingJob, ReadingAction))
        requires
            awaits(self.stage, event),
        ensures
            next.0.pinyin@ == self.pinyin@,
            next.1 is AskOperator <==> self.stage == ReadingStage::FirstParse
                && event is ParseFailed,
            match event {
                ReadingEvent::Parsed(tokens) => {
                    &&& next.0.stage == ReadingStage::Finished
                    &&& next.1 matches ReadingAction::Finish(reading)
                    &&& reading.pinyin@ == self.pinyin@
                    &&& reading.zhuyin@ == assembled_zhuyin(tokens.deep_view())
                },
                ReadingEvent::ParseFailed => if self.stage == ReadingStage::FirstParse {
                    &&& next.0.stage == ReadingStage::AwaitingCorrection
                    &&& next.1 matches ReadingAction::AskOperator(candidate)
                    &&& candidate@ == self.pinyin@
                } else {
                    &&& next.0.stage == ReadingStage::Finished
                    &&& next.1 is GiveUp
                },
                ReadingEvent::Corrected(line) => {
                    &&& next.0.stage == ReadingStage::SecondParse
                    &&& next.1 matches ReadingAction::Parse(text)
                    &&& text@ == normalised_separators(line@)
                },
            },
    {
        match event {
            ReadingEvent::Parsed(tokens) => {
                let zhuyin = assemble_zhuyin(&tokens);
                let reading = SentenceReading { pinyin: self.pinyin.clone(), zhuyin };
                (
                    ReadingJob { stage: ReadingStage::Finished, pinyin: self.pinyin },
                    ReadingAction::Finish(reading),
                )
            },
            ReadingEvent::ParseFailed => match self.stage {
                ReadingStage::FirstParse => {
                    let candidate = self.pinyin.clone();
                    (
                        ReadingJob { stage: ReadingStage::AwaitingCorrection, pinyin: self.pinyin },
                        ReadingAction::AskOperator(candidate),
                    )
                },
                _ => (
                    ReadingJob { stage: ReadingStage::Finished, pinyin: self.pinyin },
                    ReadingAction::GiveUp,
                ),
            },
            ReadingEvent::Corrected(line) => {
                let text = normalise_separators(line.as_str());
                (
                    ReadingJob { stage: ReadingStage::SecondParse, pinyin: self.pinyin },
                    ReadingAction::Parse(text),
                )
            },
        }
    }
}

} // verus!
