//! The card of a word. What is decided here is what to do next, step by
//! step; translating, synthesising speech and asking for related words are
//! done by whoever drives the job.

use crate::audio::{sound_reference, AudioFile};
use crate::config::MandarinReading;
use crate::similar::{related_field, similar_words_field, SimilarWord};
use crate::token::{definition_of, is_known_word, reading_of, Token, TokenView};
use vstd::pervasive::unreached;
use vstd::prelude::*;

verus! {

/// The fields of a word's note.
#[derive(Debug)]
pub struct WordCard {
    pub timestamp: String,
    pub hanzi: String,
    pub definition: String,
    pub audio: String,
    pub reading: String,
    pub similar_words: String,
}

impl WordCard {
    /// The fields in the order in which a word's note holds them.
    pub fn fields(self) -> (fields: Vec<String>)
        ensures
            fields.deep_view() == seq![
                self.timestamp@,
                self.hanzi@,
                self.definition@,
                self.audio@,
                self.reading@,
                self.similar_words@,
            ],
    {
        let mut fields: Vec<String> = Vec::new();
        fields.push(self.timestamp);
        fields.push(self.hanzi);
        fields.push(self.definition);
        fields.push(self.audio);
        fields.push(self.reading);
        fields.push(self.similar_words);
        assert(fields.deep_view() =~= seq![
            self.timestamp@,
            self.hanzi@,
            self.definition@,
            self.audio@,
            self.reading@,
            self.similar_words@,
        ]);
        fields
    }
}

/// How far the card of a word has come.
#[derive(Debug)]
pub enum WordStage {
    /// The word is with the translation service.
    AwaitingTranslation,
    /// The definition is known; the word is with the speech service.
    AwaitingAudio { definition: String },
    /// The recording is there; the assistant is asked for related words.
    AwaitingSimilarWords { definition: String, audio: AudioFile },
    /// The card was handed out, or there is none.
    Finished,
}

/// A card of a word under way.
#[derive(Debug)]
pub struct WordJob {
    pub token: Token,
    pub notation: MandarinReading,
    pub stage: WordStage,
}

/// What came back from outside.
#[derive(Debug)]
pub enum WordEvent {
    /// The translation of the word.
    Translated(String),
    /// The recording of the word.
    Synthesised(AudioFile),
    /// The related words, and the time at which they arrived.
    Suggested { words: Vec<SimilarWord>, timestamp: String },
}

/// Why a word that the dictionary knows gets no card.
#[derive(Debug, Clone, Copy, PartialEq, Eq, Structural)]
pub enum WordFailure {
    /// The dictionary knows nothing in one of the related words.
    UnknownRelatedWord,
    /// The entries of the word give no reading.
    NoReading,
}

/// What is to be done next.
#[derive(Debug)]
pub enum WordAction {
    /// The dictionary does not know the word: there is no card.
    Skip,
    /// Have this text translated.
    Translate(String),
    /// Have this text spoken.
    Synthesise(String),
    /// Ask for words related to this one.
    Suggest(String),
    /// The card is complete; the recording goes with it.
    Emit { card: WordCard, audio: AudioFile },
    /// The card cannot be made.
    Fail(WordFailure),
}

/// The definition that is known without asking: the one given with the
/// word where it is not empty, else the one that the dictionary gives.
pub open spec fn known_definition(token: TokenView, given: Option<Seq<char>>) -> Option<Seq<char>> {
    match given {
        Some(definition) if definition.len() > 0 => Some(definition),
        _ => match token.word_entry {
            Some(entries) => definition_of(entries),
            None => None,
        },
    }
}

/// Whether `event` is one that a job at `stage` waits for.
pub open spec fn awaits(stage: WordStage, event: WordEvent) -> bool {
    match stage {
        WordStage::AwaitingTranslation => event is Translated,
        WordStage::AwaitingAudio { .. } => event is Synthesised,
        WordStage::AwaitingSimilarWords { .. } => event is Suggested,
        WordStage::Finished => false,
    }
}

impl WordJob {
    /// Whether the job is in order: a job that waits for something is the
    /// job of a word that the dictionary knows.
    pub open spec fn well_formed(&self) -> bool {
        !(self.stage is Finished) ==> is_known_word(self.token@)
    }

    /// Starts the card of the word `token`. A token that is no word with
    /// an entry in the dictionary gets no card. Else the definition is the
    /// one given with the word where it is not empty, else the
    /// dictionary's; with a definition the word goes to the speech
    /// service, without one to the translation service.
    pub fn begin(token: Token, definition: Option<String>, notation: MandarinReading) -> (started: (
        WordJob,
        WordAction,
    ))
        ensures
            started.0.token@ == token@,
            started.0.notation == notation,
            started.0.well_formed(),
            !is_known_word(token@) ==> started.0.stage is Finished && started.1 is Skip,
            is_known_word(token@) ==> match known_definition(token@, definition.deep_view()) {
                Some(known) => {
                    &&& started.0.stage matches WordStage::AwaitingAudio { definition: found }
                    &&& found@ == known
                    &&& started.1 matches WordAction::Synthesise(text)
                    &&& text@ == token.text@
                },
                None => {
                    &&& started.0.stage is AwaitingTranslation
                    &&& started.1 matches WordAction::Translate(text)
                    &&& text@ == token.text@
                },
            },
    {
        if !token.has_entries() {
            return (WordJob { token, notation, stage: WordStage::Finished }, WordAction::Skip);
        }
        let known = match definition {
            Some(given) => {
                if given.as_str().is_empty() {
                    token.build_definition()
                } else {
                    Some(given)
                }
            },
            None => token.build_definition(),
        };
        let text = token.text.clone();
        match known {
            Some(definition) => (
                WordJob { token, notation, stage: WordStage::AwaitingAudio { definition } },
                WordAction::Synthesise(text),
            ),
            None => (
                WordJob { token, notation, stage: WordStage::AwaitingTranslation },
                WordAction::Translate(text),
            ),
        }
    }

    /// Whether the job is in order and `event` is one that it waits for:
    /// whether the job may take its next step with `event`.
    pub fn expects(&self, event: &WordEvent) -> (r: bool)
        ensures
            r == (self.well_formed() && awaits(self.stage, *event)),
    {
        let awaited = match &self.stage {
            WordStage::AwaitingTranslation => match event {
                WordEvent::Translated(_) => true,
                _ => false,
            },
            WordStage::AwaitingAudio { .. } => match event {
                WordEvent::Synthesised(_) => true,
                _ => false,
            },
            WordStage::AwaitingSimilarWords { .. } => match event {
                WordEvent::Suggested { .. } => true,
                _ => false,
            },
            WordStage::Finished => false,
        };
        awaited && self.token.has_entries()
    }

    /// Takes the job one step on. A translation becomes the definition
    /// and the word goes to the speech service; with the recording the
    /// assistant is asked for related words; with the related words the
    /// card is complete. Its reading is the word's reading in zhuyin, and
    /// its related words are written in the notation of the job. No card
    /// is made where the dictionary knows nothing in a related word, or
    /// where the word's entries give no reading.
    pub fn step(self, event: WordEvent) -> (next: (WordJob, WordAction))
        requires
            self.well_formed(),
            awaits(self.stage, event),
        ensures
            next.0.token@ == self.token@,
            next.0.notation == self.notation,
            next.0.well_formed(),
            match (self.stage, event) {
                (_, WordEvent::Translated(translation)) => {
                    &&& next.0.stage matches WordStage::AwaitingAudio { definition }
                    &&& definition@ == translation@
                    &&& next.1 matches WordAction::Synthesise(text)
                    &&& text@ == self.token.text@
                },
                (WordStage::AwaitingAudio { definition: known }, WordEvent::Synthesised(recording)) => {
                    &&& next.0.stage matches WordStage::AwaitingSimilarWords { definition, audio }
                    &&& definition@ == known@
                    &&& audio == recording
                    &&& next.1 matches WordAction::Suggest(word)
                    &&& word@ == self.token.text@
                },
                (
                    WordStage::AwaitingSimilarWords { definition, audio },
                    WordEvent::Suggested { words, timestamp },
                ) => {
                    &&& next.0.stage is Finished
                    &&& match related_field(words.deep_view(), self.notation) {
                        None => next.1 == WordAction::Fail(WordFailure::UnknownRelatedWord),
                        Some(related) => match reading_of(self.token@.word_entry->0) {
                            None => next.1 == WordAction::Fail(WordFailure::NoReading),
                            Some(reading) => {
                                &&& next.1 matches WordAction::Emit { card, audio: recording }
                                &&& recording == audio
                                &&& card.timestamp@ == timestamp@
                                &&& card.hanzi@ == self.token.text@
                                &&& card.definition@ == definition@
                                &&& card.audio@ == sound_reference(audio.file_name@)
                                &&& card.reading@ == reading
                                &&& card.similar_words@ == related
                            },
                        },
                    }
                },
                _ => true,
            },
    {
        match event {
            WordEvent::Translated(translation) => {
                let text = self.token.text.clone();
                (
                    WordJob {
                        token: self.token,
                        notation: self.notation,
                        stage: WordStage::AwaitingAudio { definition: translation },
                    },
                    WordAction::Synthesise(text),
                )
            },
            WordEvent::Synthesised(recording) => match self.stage {
                WordStage::AwaitingAudio { definition } => {
                    let word = self.token.text.clone();
                    (
                        WordJob {
                            token: self.token,
                            notation: self.notation,
                            stage: WordStage::AwaitingSimilarWords { definition, audio: recording },
                        },
                        WordAction::Suggest(word),
                    )
                },
                _ => unreached(),
            },
            WordEvent::Suggested { words, timestamp } => match self.stage {
                WordStage::AwaitingSimilarWords { definition, audio } => {
                    let action = match similar_words_field(&words, &self.notation) {
                        None => WordAction::Fail(WordFailure::UnknownRelatedWord),
                        Some(similar_words) => match self.token.build_reading_allow_multiple() {
                            None => WordAction::Fail(WordFailure::NoReading),
                            Some(reading) => WordAction::Emit {
                                card: WordCard {
                                    timestamp,
                                    hanzi: self.token.text.clone(),
                                    definition,
                                    audio: audio.build_note_field(),
                                    reading,
                                    similar_words,
                                },
                                audio,
                            },
                        },
                    };
                    (
                        WordJob {
                            token: self.token,
                            notation: self.notation,
                            stage: WordStage::Finished,
                        },
                        action,
                    )
                },
                _ => unreached(),
            },
        }
    }
}

} // verus!
