//! The dictionary: entries as plain values, and the three services that
//! the dictionary offers on a text (its segmentation into known words, the
//! entries of a word, and a guess at the language a text is written in).

use crate::text::{clone_strings, occurs_at};
use vstd::prelude::*;

verus! {

/// One entry of the dictionary, with what cards are built from.
#[derive(Debug)]
pub struct DictionaryEntry {
    /// The headword in traditional characters.
    pub traditional: String,
    /// The headword in simplified characters.
    pub simplified: String,
    /// The pronunciation in pinyin with tone marks, syllables apart.
    pub pinyin_marks: String,
    /// The pronunciation in pinyin with tone numbers, syllables apart.
    pub pinyin_numbers: String,
    /// The English glosses.
    pub english: Vec<String>,
}

/// A dictionary entry as a mathematical value.
pub struct EntryView {
    pub traditional: Seq<char>,
    pub simplified: Seq<char>,
    pub pinyin_marks: Seq<char>,
    pub pinyin_numbers: Seq<char>,
    pub english: Seq<Seq<char>>,
}

impl View for DictionaryEntry {
    type V = EntryView;

    open spec fn view(&self) -> EntryView {
        EntryView {
            traditional: self.traditional@,
            simplified: self.simplified@,
            pinyin_marks: self.pinyin_marks@,
            pinyin_numbers: self.pinyin_numbers@,
            english: self.english.deep_view(),
        }
    }
}

impl Clone for DictionaryEntry {
    fn clone(&self) -> (copy: DictionaryEntry)
        ensures
            copy@ == self@,
    {
        DictionaryEntry {
            traditional: self.traditional.clone(),
            simplified: self.simplified.clone(),
            pinyin_marks: self.pinyin_marks.clone(),
            pinyin_numbers: self.pinyin_numbers.clone(),
            english: clone_strings(&self.english),
        }
    }
}

impl DeepView for DictionaryEntry {
    type V = EntryView;

    open spec fn deep_view(&self) -> EntryView {
        self@
    }
}

/// What the dictionary takes a text to be written in.
#[derive(Debug, Clone, Copy, PartialEq, Eq, Structural)]
pub enum TextClass {
    /// Chinese characters.
    Chinese,
    /// English.
    English,
    /// Pinyin.
    Pinyin,
    /// The dictionary cannot tell.
    Uncertain,
}

impl TextClass {
    /// Whether the text is taken to be Mandarin in Chinese characters.
    pub fn is_mandarin(&self) -> (r: bool)
        ensures
            r == (*self == TextClass::Chinese),
    {
        match self {
            TextClass::Chinese => true,
            _ => false,
        }
    }
}

/// The words that the dictionary's segmentation finds in `text`, in order.
pub uninterp spec fn segmented_words(text: Seq<char>) -> Seq<Seq<char>>;

/// The entries that the dictionary holds for `text`, in its order.
pub uninterp spec fn dictionary_entries(text: Seq<char>) -> Seq<EntryView>;

/// Whether `words` stand in `text` at the indices `starts`, one after
/// another without overlap.
pub open spec fn placed_in_order(text: Seq<char>, words: Seq<Seq<char>>, starts: Seq<int>) -> bool {
    &&& starts.len() == words.len()
    &&& forall|k: int| 0 <= k < words.len() ==> occurs_at(text, #[trigger] words[k], starts[k])
    &&& forall|k: int|
        0 < k < words.len() ==> starts[k - 1] + words[k - 1].len() <= #[trigger] starts[k]
}

/// Whether `words` stand in `text` one after another without overlap.
pub open spec fn occur_in_order(text: Seq<char>, words: Seq<Seq<char>>) -> bool {
    exists|starts: Seq<int>| placed_in_order(text, words, starts)
}

/// `chinese_dictionary::tokenize`: the words of the dictionary that the
/// text is segmented into. The result depends on the text alone. The crate
/// cuts each word out of the text itself, going from left to right and
/// passing over what it does not know, so the words stand in the text one
/// after another without overlap.
#[verifier::external_body]
pub(crate) fn segment_words(text: &str) -> (words: Vec<String>)
    ensures
        words.deep_view() == segmented_words(text@),
        occur_in_order(text@, words.deep_view()),
{
    chinese_dictionary::tokenize(text).into_iter().map(|word| word.to_string()).collect()
}

/// `chinese_dictionary::query_by_chinese`: the entries that the dictionary
/// holds for a text in Chinese characters, each copied field by field. The
/// result depends on the text alone; it is empty where the dictionary knows
/// nothing in the text.
#[verifier::external_body]
pub(crate) fn lookup_entries(text: &str) -> (entries: Vec<DictionaryEntry>)
    ensures
        entries.deep_view() == dictionary_entries(text@),
{
    chinese_dictionary::query_by_chinese(text).into_iter().map(
        |entry| DictionaryEntry {
            traditional: entry.traditional.clone(),
            simplified: entry.simplified.clone(),
            pinyin_marks: entry.pinyin_marks.clone(),
            pinyin_numbers: entry.pinyin_numbers.clone(),
            english: entry.english.clone(),
        },
    ).collect()
}

/// `chinese_dictionary::classify`: the dictionary's guess at what a text is
/// written in. The guess compares sums of floating-point logarithms, so
/// nothing is claimed of its value.
#[verifier::external_body]
pub(crate) fn classify_text(text: &str) -> TextClass {
    match chinese_dictionary::classify(text) {
        chinese_dictionary::ClassificationResult::ZH => TextClass::Chinese,
        chinese_dictionary::ClassificationResult::EN => TextClass::English,
        chinese_dictionary::ClassificationResult::PY => TextClass::Pinyin,
        chinese_dictionary::ClassificationResult::UN => TextClass::Uncertain,
    }
}

} // verus!
