//! What a user configures: the identifiers of the deck, the script the
//! cards are written in and the notation of their readings.

use vstd::prelude::*;

verus! {

/// The voice that speech is synthesised with where the configuration names
/// none.
pub fn default_speech_api_voice_name() -> (name: String)
    ensures
        name@ == "zh-TW-YunJheNeural"@,
{
    "zh-TW-YunJheNeural".to_owned()
}

/// The script that the cards are written in.
#[derive(Debug, Clone, Copy, PartialEq, Eq, Structural)]
pub enum MandarinScript {
    Traditional,
    Simplified,
}

impl Default for MandarinScript {
    fn default() -> (script: MandarinScript)
        ensures
            script == MandarinScript::Traditional,
    {
        MandarinScript::Traditional
    }
}

impl MandarinScript {
    /// The language tag of the script.
    pub open spec fn language(self) -> Seq<char> {
        match self {
            MandarinScript::Traditional => "zh-Hant"@,
            MandarinScript::Simplified => "zh-Hans"@,
        }
    }

    /// The script's own tag, without the language.
    pub open spec fn script_tag(self) -> Seq<char> {
        match self {
            MandarinScript::Traditional => "Hant"@,
            MandarinScript::Simplified => "Hans"@,
        }
    }

    /// The script's name in English.
    pub open spec fn name(self) -> Seq<char> {
        match self {
            MandarinScript::Traditional => "Traditional Chinese"@,
            MandarinScript::Simplified => "Simplified Chinese"@,
        }
    }

    /// The language tag under which a service knows texts in this script.
    pub fn build_language(&self) -> (tag: String)
        ensures
            tag@ == self.language(),
    {
        match self {
            MandarinScript::Traditional => "zh-Hant".to_owned(),
            MandarinScript::Simplified => "zh-Hans".to_owned(),
        }
    }

    /// The tag of the script that a transliteration starts from.
    pub fn build_from_script(&self) -> (tag: String)
        ensures
            tag@ == self.script_tag(),
    {
        match self {
            MandarinScript::Traditional => "Hant".to_owned(),
            MandarinScript::Simplified => "Hans".to_owned(),
        }
    }

    /// The script's name as it is written out for a reader.
    pub fn display_name(&self) -> (name: String)
        ensures
            name@ == self.name(),
    {
        match self {
            MandarinScript::Traditional => "Traditional Chinese".to_owned(),
            MandarinScript::Simplified => "Simplified Chinese".to_owned(),
        }
    }
}

/// The notation that readings are given in.
#[derive(Debug, Clone, Copy, PartialEq, Eq, Structural)]
pub enum MandarinReading {
    Zhuyin,
    Pinyin,
}

impl Default for MandarinReading {
    fn default() -> (reading: MandarinReading)
        ensures
            reading == MandarinReading::Zhuyin,
    {
        MandarinReading::Zhuyin
    }
}

/// The identifiers under which the deck and its kinds of note are known.
#[derive(Debug, Clone, Copy, PartialEq, Eq, Structural)]
pub struct ModelConfig {
    pub word_model_id: i64,
    pub sentence_model_id: i64,
    pub deck_id: i64,
}

} // verus!
