//! The card of a sentence. What is decided here is what to do next, step
//! by step; translating, transliterating and synthesising speech are done
//! by whoever drives the job.

use crate::audio::{sound_reference, AudioFile};
use crate::config::MandarinReading;
use crate::emphasis::{build_note_reading, emphasised_text, plain_text, single_characters};
use crate::sentence::MandarinSentence;
use crate::transliteration::SentenceReading;
use vstd::pervasive::unreached;
use vstd::prelude::*;

verus! {

/// The fields of a sentence's note.
#[derive(Debug)]
pub struct SentenceCard {
    pub timestamp: String,
    pub hanzi: String,
    pub definition: String,
    pub audio: String,
    pub reading: String,
}

impl SentenceCard {
    /// The fields in the order in which a sentence's note holds them.
    pub fn fields(self) -> (fields: Vec<String>)
        ensures
            fields.deep_view() == seq![
                self.timestamp@,
                self.hanzi@,
                self.definition@,
                self.audio@,
                self.reading@,
            ],
    {
        let mut fields: Vec<String> = Vec::new();
        fields.push(self.timestamp);
        fields.push(self.hanzi);
        fields.push(self.definition);
        fields.push(self.audio);
        fields.push(self.reading);
        assert(fields.deep_view() =~= seq![
            self.timestamp@,
            self.hanzi@,
            self.definition@,
            self.audio@,
            self.reading@,
        ]);
        fields
    }
}

/// How far the card of a sentence has come.
#[derive(Debug)]
pub enum SentenceStage {
    /// The plain sentence is with the translation service.
    AwaitingTranslation,
    /// The definition is known; the sentence is with the transliteration
    /// service.
    AwaitingReading { definition: String },
    /// The reading is there; the plain sentence is with the speech
    /// service.
    AwaitingAudio { definition: String, reading: String },
    /// The card was handed out, or there is none.
    Finished,
}

/// A card of a sentence under way.
#[derive(Debug)]
pub struct SentenceJob {
    pub sentence: MandarinSentence,
    pub notation: MandarinReading,
    pub stage: SentenceStage,
}

/// What came back from outside.
#[derive(Debug)]
pub enum SentenceEvent {
    /// The translation of the plain sentence.
    Translated(String),
    /// The reading of the sentence in both notations.
    Transliterated(SentenceReading),
    /// The recording of the plain sentence, and the time at which it
    /// arrived.
    Synthesised { audio: AudioFile, timestamp: String },
}

/// What is to be done next.
#[derive(Debug)]
pub enum SentenceAction {
    /// The dictionary knows no word of the sentence: there is no card.
    Skip,
    /// Have this text translated.
    Translate(String),
    /// Have this text transliterated.
    Transliterate(String),
    /// Have this text spoken.
    Synthesise(String),
    /// The card is complete; the recording goes with it.
    Emit { card: SentenceCard, audio: AudioFile },
}

/// Whether `event` is one that a job at `stage` waits for.
pub open spec fn awaits(stage: SentenceStage, event: SentenceEvent) -> bool {
    match stage {
        SentenceStage::AwaitingTranslation => event is Translated,
        SentenceStage::AwaitingReading { .. } => event is Transliterated,
        SentenceStage::AwaitingAudio { .. } => event is Synthesised,
        SentenceStage::Finished => false,
    }
}

/// The reading of a sentence in the notation asked for.
pub open spec fn chosen_reading(reading: SentenceReading, notation: MandarinReading) -> Seq<char> {
    match notation {
        MandarinReading::Zhuyin => reading.zhuyin@,
        MandarinReading::Pinyin => reading.pinyin@,
    }
}

impl SentenceJob {
    /// Starts the card of `sentence`. A sentence none of whose tokens is
    /// a word with an entry in the dictionary gets no card. Else, with a
    /// definition that is given and not empty, the sentence as it was
    /// written goes to the transliteration service; without one, the
    /// plain sentence goes to the translation service first.
    pub fn begin(
        sentence: MandarinSentence,
        definition: Option<String>,
        notation: MandarinReading,
    ) -> (started: (SentenceJob, SentenceAction))
        ensures
            started.0.sentence == sentence,
            started.0.notation == notation,
            !sentence.has_known_word() ==> started.0.stage is Finished && started.1 is Skip,
            sentence.has_known_word() ==> match definition {
                Some(given) if given@.len() > 0 => {
                    &&& started.0.stage matches SentenceStage::AwaitingReading { definition: found }
                    &&& found@ == given@
                    &&& started.1 matches SentenceAction::Transliterate(text)
                    &&& text@ == sentence.raw_sentence@
                },
                _ => {
                    &&& started.0.stage is AwaitingTranslation
                    &&& started.1 matches SentenceAction::Translate(text)
                    &&& text@ == plain_text(sentence.texts())
                },
            },
    {
        if !sentence.contains_known_word() {
            return (
                SentenceJob { sentence, notation, stage: SentenceStage::Finished },
                SentenceAction::Skip,
            );
        }
        let given = match definition {
            Some(given) => {
                if given.as_str().is_empty() {
                    None
                } else {
                    Some(given)
                }
            },
            None => None,
        };
        match given {
            Some(definition) => {
                let text = sentence.raw_sentence.clone();
                (
                    SentenceJob {
                        sentence,
                        notation,
                        stage: SentenceStage::AwaitingReading { definition },
                    },
                    SentenceAction::Transliterate(text),
                )
            },
            None => {
                let text = sentence.build_plain_sentence();
                (
                    SentenceJob { sentence, notation, stage: SentenceStage::AwaitingTranslation },
                    SentenceAction::Translate(text),
                )
            },
        }
    }

    /// Whether `event` is one that the job waits for.
    pub fn expects(&self, event: &SentenceEvent) -> (r: bool)
        ensures
            r == awaits(self.stage, *event),
    {
        match &self.stage {
            SentenceStage::AwaitingTranslation => match event {
                SentenceEvent::Translated(_) => true,
                _ => false,
            },
            SentenceStage::AwaitingReading { .. } => match event {
                SentenceEvent::Transliterated(_) => true,
                _ => false,
            },
            SentenceStage::AwaitingAudio { .. } => match event {
                SentenceEvent::Synthesised { .. } => true,
                _ => false,
            },
            SentenceStage::Finished => false,
        }
    }

    /// Takes the job one step on. A translation becomes the definition
    /// and the sentence as it was written goes to the transliteration
    /// service; the reading in the notation of the job gets its emphasis
    /// markup and the plain sentence goes to the speech service; with the
    /// recording the card is complete, showing the sentence with its
    /// emphasis markup.
    pub fn step(self, event: SentenceEvent) -> (next: (SentenceJob, SentenceAction))
        requires
            awaits(self.stage, event),
        ensures
            next.0.sentence == self.sentence,
            next.0.notation == self.notation,
            match (self.stage, event) {
                (_, SentenceEvent::Translated(translation)) => {
                    &&& next.0.stage matches SentenceStage::AwaitingReading { definition }
                    &&& definition@ == translation@
                    &&& next.1 matches SentenceAction::Transliterate(text)
                    &&& text@ == self.sentence.raw_sentence@
                },
                (
                    SentenceStage::AwaitingReading { definition: known },
                    SentenceEvent::Transliterated(found),
                ) => {
                    &&& next.0.stage matches SentenceStage::AwaitingAudio { definition, reading }
                    &&& definition@ == known@
                    &&& reading@ == emphasised_text(
                        single_characters(chosen_reading(found, self.notation)),
                    )
                    &&& next.1 matches SentenceAction::Synthesise(text)
                    &&& text@ == plain_text(self.sentence.texts())
                },
                (
                    SentenceStage::AwaitingAudio { definition, reading },
                    SentenceEvent::Synthesised { audio: recording, timestamp },
                ) => {
                    &&& next.0.stage is Finished
                    &&& next.1 matches SentenceAction::Emit { card, audio }
                    &&& audio == recording
                    &&& card.timestamp@ == timestamp@
                    &&& card.hanzi@ == emphasised_text(self.sentence.texts())
                    &&& card.definition@ == definition@
                    &&& card.audio@ == sound_reference(recording.file_name@)
                    &&& card.reading@ == reading@
                },
                _ => true,
            },
    {
        match event {
            SentenceEvent::Translated(translation) => {
                let text = self.sentence.raw_sentence.clone();
                (
                    SentenceJob {
                        sentence: self.sentence,
                        notation: self.notation,
                        stage: SentenceStage::AwaitingReading { definition: translation },
                    },
                    SentenceAction::Transliterate(text),
                )
            },
            SentenceEvent::Transliterated(found) => match self.stage {
                SentenceStage::AwaitingReading { definition } => {
                    let reading = match self.notation {
                        MandarinReading::Zhuyin => build_note_reading(found.zhuyin.as_str()),
                        MandarinReading::Pinyin => build_note_reading(found.pinyin.as_str()),
                    };
                    let text = self.sentence.build_plain_sentence();
                    (
                        SentenceJob {
                            sentence: self.sentence,
                            notation: self.notation,
                            stage: SentenceStage::AwaitingAudio { definition, reading },
                        },
                        SentenceAction::Synthesise(text),
                    )
                },
                _ => unreached(),
            },
            SentenceEvent::Synthesised { audio, timestamp } => match self.stage {
                SentenceStage::AwaitingAudio { definition, reading } => {
                    let card = SentenceCard {
                        timestamp,
                        hanzi: self.sentence.build_note_sentence(),
                        definition,
                        audio: audio.build_note_field(),
                        reading,
                    };
                    (
                        SentenceJob {
                            sentence: self.sentence,
                            notation: self.notation,
                            stage: SentenceStage::Finished,
                        },
                        SentenceAction::Emit { card, audio },
                    )
                },
                _ => unreached(),
            },
        }
    }
}

} // verus!
