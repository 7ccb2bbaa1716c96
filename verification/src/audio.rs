//! Audio files: where a synthesised recording lies and how a card refers
//! to it.

use crate::text::{chars_of, push_char};
use vstd::prelude::*;

verus! {

/// How many characters of a file name come from the text that is spoken.
pub const STEM_LENGTH: usize = 10;

/// How many random characters follow them.
pub const SUFFIX_LENGTH: usize = 5;

/// What fills the place of characters that a short text does not have.
pub const STEM_PADDING: char = '-';

/// The text as it may stand in one component of a URL.
pub uninterp spec fn url_component_encoding(text: Seq<char>) -> Seq<char>;

/// `url_escape::encode_component`: the text with every byte that may not
/// stand in a component of a URL written as a percent sign and two
/// hexadecimal digits. The result depends on the text alone.
#[verifier::external_body]
pub(crate) fn encode_component(text: &str) -> (encoded: String)
    ensures
        encoded@ == url_component_encoding(text@),
{
    url_escape::encode_component(text).into_owned()
}

/// Whether `c` is a letter of the English alphabet or a digit.
pub open spec fn is_alphanumeric(c: char) -> bool {
    ('a' <= c <= 'z') || ('A' <= c <= 'Z') || ('0' <= c <= '9')
}

/// Whether `s` is a suffix as file names carry it: of the length asked
/// for, and made of English letters and digits.
pub open spec fn is_suffix(s: Seq<char>, length: int) -> bool {
    s.len() == length && forall|i: int| 0 <= i < s.len() ==> is_alphanumeric(#[trigger] s[i])
}

/// `rand::distributions::Alphanumeric`, sampled `length` times from the
/// thread's generator with `DistString::sample_string`: as many characters
/// as asked for, each an English letter or a digit. Which ones they are is
/// chance.
#[verifier::external_body]
pub(crate) fn random_suffix(length: usize) -> (suffix: String)
    ensures
        is_suffix(suffix@, length as int),
{
    rand::distributions::DistString::sample_string(
        &rand::distributions::Alphanumeric,
        &mut rand::thread_rng(),
        length,
    )
}

/// The stem of a file name: the first ten characters of the encoded text,
/// filled up to ten with hyphens where the text is shorter.
pub open spec fn name_stem(encoded: Seq<char>) -> Seq<char> {
    if encoded.len() >= STEM_LENGTH {
        encoded.take(STEM_LENGTH as int)
    } else {
        encoded + Seq::new((STEM_LENGTH - encoded.len()) as nat, |i: int| STEM_PADDING)
    }
}

/// The file name of a recording: the stem, the suffix and the extension.
pub open spec fn audio_file_name(encoded: Seq<char>, suffix: Seq<char>) -> Seq<char> {
    name_stem(encoded) + suffix + ".mp3"@
}

/// The file name of a recording, given the encoded text that is spoken
/// and a suffix that sets the file apart from others of the same text.
pub fn build_file_name(encoded: &str, suffix: &str) -> (name: String)
    ensures
        name@ == audio_file_name(encoded@, suffix@),
{
    let chars = chars_of(encoded);
    let mut name = String::new();
    let mut i: usize = 0;
    while i < STEM_LENGTH
        invariant
            i <= STEM_LENGTH,
            chars@ == encoded@,
            name@ == name_stem(encoded@).take(i as int),
        decreases STEM_LENGTH - i,
    {
        if i < chars.len() {
            push_char(&mut name, chars[i]);
        } else {
            push_char(&mut name, STEM_PADDING);
        }
        i = i + 1;
    }
    assert(name_stem(encoded@).take(STEM_LENGTH as int) == name_stem(encoded@));
    name.append(suffix);
    name.append(".mp3");
    name
}

/// A file name for a new recording of `text`: the text encoded for a URL
/// gives the stem, and five random characters set the file apart from
/// others of the same text.
pub fn fresh_file_name(text: &str) -> (name: String)
    ensures
        exists|suffix: Seq<char>|
            is_suffix(suffix, SUFFIX_LENGTH as int) && name@ == audio_file_name(
                url_component_encoding(text@),
                suffix,
            ),
{
    let encoded = encode_component(text);
    let suffix = random_suffix(SUFFIX_LENGTH);
    build_file_name(encoded.as_str(), suffix.as_str())
}

/// A recording on disk: the directory it lies in and its name there.
#[derive(Debug)]
pub struct AudioFile {
    pub directory: String,
    pub file_name: String,
}

/// How a card refers to the recording named `file_name`.
pub open spec fn sound_reference(file_name: Seq<char>) -> Seq<char> {
    "[sound:"@ + file_name + "]"@
}

impl AudioFile {
    /// The content of a card's audio field: a reference to the recording
    /// by its file name, without the directory.
    pub fn build_note_field(&self) -> (field: String)
        ensures
            field@ == sound_reference(self.file_name@),
    {
        let mut field = "[sound:".to_owned();
        field.append(self.file_name.as_str());
        field.append("]");
        field
    }
}

} // verus!
