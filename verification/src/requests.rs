//! What is sent to the services: addresses, the text that speech is asked
//! for with, and the question put to the assistant.

use crate::config::MandarinScript;
use vstd::prelude::*;

verus! {

/// Where texts are translated into English.
pub const TRANSLATION_URL: &'static str =
    "https://api.cognitive.microsofttranslator.com/translate?api-version=3.0&to=en";

/// Where the assistant is asked.
pub const ASSISTANT_URL: &'static str = "https://api.openai.com/v1/chat/completions";

/// The assistant that is asked.
pub const ASSISTANT_MODEL: &'static str = "gpt-3.5-turbo";

/// What the assistant is told that it is.
pub const ASSISTANT_ROLE: &'static str =
    "You are a Taiwanese Mandarin Study Assistant generating study material";

/// The format in which speech is asked for.
pub const SPEECH_FORMAT: &'static str = "audio-48khz-192kbitrate-mono-mp3";

/// The address of the speech service of `region`.
pub open spec fn speech_address(region: Seq<char>) -> Seq<char> {
    "https://"@ + region + ".tts.speech.microsoft.com/cognitiveservices/v1"@
}

/// The address at which the speech service of `region` synthesises.
pub fn speech_url(region: &str) -> (url: String)
    ensures
        url@ == speech_address(region@),
{
    let mut url = "https://".to_owned();
    url.append(region);
    url.append(".tts.speech.microsoft.com/cognitiveservices/v1");
    url
}

/// The document that asks for `text` to be spoken by `voice` in `locale`.
pub open spec fn speech_document(locale: Seq<char>, voice: Seq<char>, text: Seq<char>) -> Seq<
    char,
> {
    "\n            <speak version='1.0' xml:lang='"@ + locale
        + "'>\n                <voice xml:lang='"@ + locale + "' name='"@ + voice
        + "'>\n                    "@ + text
        + "\n                </voice>\n            </speak>"@
}

/// The document that asks the speech service for `text`, spoken by the
/// voice named, in the locale given.
pub fn speech_body(locale: &str, voice_name: &str, text: &str) -> (body: String)
    ensures
        body@ == speech_document(locale@, voice_name@, text@),
{
    let mut body = "\n            <speak version='1.0' xml:lang='".to_owned();
    body.append(locale);
    body.append("'>\n                <voice xml:lang='");
    body.append(locale);
    body.append("' name='");
    body.append(voice_name);
    body.append("'>\n                    ");
    body.append(text);
    body.append("\n                </voice>\n            </speak>");
    body
}

/// The address at which a text in `script` is transliterated into Latin
/// letters.
pub open spec fn transliteration_address(script: MandarinScript) -> Seq<char> {
    "https://api.cognitive.microsofttranslator.com/transliterate?api-version=3.0&language="@
        + script.language() + "&fromScript="@ + script.script_tag() + "&toScript=Latn"@
}

/// The address at which a text in `script` is transliterated into Latin
/// letters.
pub fn transliteration_url(script: &MandarinScript) -> (url: String)
    ensures
        url@ == transliteration_address(*script),
{
    let mut url =
        "https://api.cognitive.microsofttranslator.com/transliterate?api-version=3.0&language=".to_owned();
    url.append(script.build_language().as_str());
    url.append("&fromScript=");
    url.append(script.build_from_script().as_str());
    url.append("&toScript=Latn");
    url
}

/// The question that asks for words related to `word`, written in
/// `script`.
pub open spec fn related_words_question(word: Seq<char>, script: MandarinScript) -> Seq<char> {
    "Generate 5 words closely related to "@ + word
        + " which are used commonly in Taiwanese Mandarin.\n                                            You should provide the words in "@
        + script.name() + " and the English Translation in CSV format with two columns."@
}

/// The question put to the assistant for words related to `word`: five
/// of them, in the script given, with their translations, in two columns.
pub fn similar_words_prompt(word: &str, script: &MandarinScript) -> (prompt: String)
    ensures
        prompt@ == related_words_question(word@, *script),
{
    let mut prompt = "Generate 5 words closely related to ".to_owned();
    prompt.append(word);
    prompt.append(
        " which are used commonly in Taiwanese Mandarin.\n                                            You should provide the words in ",
    );
    prompt.append(script.display_name().as_str());
    prompt.append(" and the English Translation in CSV format with two columns.");
    prompt
}

/// How a call to a service is tried again after it failed: the delay
/// before the second try, in seconds, doubling from try to try up to the
/// longest delay, and whether chance shortens each delay.
#[derive(Debug, Clone, Copy, PartialEq, Eq, Structural)]
pub struct RetrySettings {
    pub first_delay_seconds: u64,
    pub longest_delay_seconds: u64,
    pub jitter: bool,
}

/// How every call to a service is tried again: after one second at first,
/// after two minutes at most, with jitter.
pub fn retry_policy() -> (settings: RetrySettings)
    ensures
        settings == (RetrySettings {
            first_delay_seconds: 1,
            longest_delay_seconds: 120,
            jitter: true,
        }),
{
    RetrySettings { first_delay_seconds: 1, longest_delay_seconds: 120, jitter: true }
}

} // verus!
