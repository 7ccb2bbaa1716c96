//! Tokens: the segments that a text is cut into, and what a card takes
//! from the dictionary entries of a token.

use crate::dictionary::{DictionaryEntry, EntryView};
use crate::phonetics::derived_zhuyin;
use crate::text::{clone_strings, join_strings, joined};
use vstd::prelude::*;

verus! {

/// One segment of a text. A word that the segmentation recognised carries
/// the entries that the dictionary has for it, which may be none; a single
/// character outside any such word carries no list at all.
#[derive(Debug)]
pub struct Token {
    pub text: String,
    pub word_entry: Option<Vec<DictionaryEntry>>,
}

/// A token as a mathematical value.
pub struct TokenView {
    pub text: Seq<char>,
    pub word_entry: Option<Seq<EntryView>>,
}

impl View for Token {
    type V = TokenView;

    open spec fn view(&self) -> TokenView {
        TokenView { text: self.text@, word_entry: self.word_entry.deep_view() }
    }
}

impl DeepView for Token {
    type V = TokenView;

    open spec fn deep_view(&self) -> TokenView {
        self@
    }
}

/// The English glosses of `entries`, entry by entry, in order.
pub open spec fn all_glosses(entries: Seq<EntryView>) -> Seq<Seq<char>>
    decreases entries.len(),
{
    if entries.len() == 0 {
        Seq::empty()
    } else {
        all_glosses(entries.drop_last()) + entries.last().english
    }
}

/// The definition that `entries` give: all their glosses with a comma and
/// a space between neighbours, or nothing where that text is empty.
pub open spec fn definition_of(entries: Seq<EntryView>) -> Option<Seq<char>> {
    let definition = joined(all_glosses(entries), ", "@);
    if definition.len() == 0 {
        None
    } else {
        Some(definition)
    }
}

/// The zhuyin readings of `entries`, in order.
pub open spec fn entry_readings(entries: Seq<EntryView>) -> Seq<Seq<char>> {
    Seq::new(entries.len(), |k: int| derived_zhuyin(entries[k].pinyin_numbers))
}

/// The reading that `entries` give: their zhuyin readings with a comma
/// between neighbours, or nothing where that text is empty.
pub open spec fn reading_of(entries: Seq<EntryView>) -> Option<Seq<char>> {
    let reading = joined(entry_readings(entries), ","@);
    if reading.len() == 0 {
        None
    } else {
        Some(reading)
    }
}

/// The reading of a word with a single entry is that entry's zhuyin
/// reading, where this is not empty.
pub proof fn lemma_single_entry_reading(entry: EntryView)
    ensures
        reading_of(seq![entry]) == if derived_zhuyin(entry.pinyin_numbers).len() == 0 {
            None
        } else {
            Some(derived_zhuyin(entry.pinyin_numbers))
        },
{
    assert(entry_readings(seq![entry]).len() == 1);
    assert(entry_readings(seq![entry])[0] == derived_zhuyin(entry.pinyin_numbers));
}

/// Whether a token is a word with at least one entry in the dictionary.
pub open spec fn is_known_word(token: TokenView) -> bool {
    token.word_entry matches Some(entries) && entries.len() > 0
}

impl Token {
    /// Whether the token is a word with at least one entry in the
    /// dictionary.
    pub fn has_entries(&self) -> (r: bool)
        ensures
            r == is_known_word(self@),
    {
        match &self.word_entry {
            Some(entries) => {
                assert(entries.deep_view().len() == entries.len());
                entries.len() > 0
            },
            None => false,
        }
    }

    /// The definition that the dictionary gives for the token: the glosses
    /// of all its entries, a comma and a space between neighbours. There
    /// is none where the token is no recognised word, and none where its
    /// entries give no text.
    pub fn build_definition(&self) -> (definition: Option<String>)
        ensures
            definition.deep_view() == match self@.word_entry {
                Some(entries) => definition_of(entries),
                None => None,
            },
    {
        match &self.word_entry {
            Some(entries) => {
                let mut glosses: Vec<String> = Vec::new();
                let mut k: usize = 0;
                while k < entries.len()
                    invariant
                        k <= entries.len(),
                        glosses.deep_view() == all_glosses(entries.deep_view().take(k as int)),
                    decreases entries.len() - k,
                {
                    let mut more = clone_strings(&entries[k].english);
                    let ghost before = glosses.deep_view();
                    glosses.append(&mut more);
                    proof {
                        let until = entries.deep_view().take(k + 1);
                        assert(until.drop_last() == entries.deep_view().take(k as int));
                        assert(until.last() == entries[k as int]@);
                        assert(glosses.deep_view() =~= before + entries[k as int]@.english);
                    }
                    k = k + 1;
                }
                assert(entries.deep_view().take(entries.len() as int) == entries.deep_view());
                let definition = join_strings(&glosses, ", ");
                if definition.as_str().is_empty() {
                    None
                } else {
                    Some(definition)
                }
            },
            None => None,
        }
    }

    /// The reading of a recognised word in zhuyin: the readings of all its
    /// entries, a comma between neighbours, or nothing where they give no
    /// text.
    pub fn build_reading_allow_multiple(&self) -> (reading: Option<String>)
        requires
            self.word_entry is Some,
        ensures
            reading.deep_view() == reading_of(self@.word_entry->0),
    {
        match &self.word_entry {
            Some(entries) => {
                let mut readings: Vec<String> = Vec::new();
                let mut k: usize = 0;
                while k < entries.len()
                    invariant
                        k <= entries.len(),
                        readings.deep_view() == entry_readings(entries.deep_view()).take(k as int),
                    decreases entries.len() - k,
                {
                    let ghost before = readings.deep_view();
                    readings.push(entries[k].derive_zhuyin());
                    assert(readings.deep_view() == before.push(
                        entry_readings(entries.deep_view())[k as int],
                    ));
                    k = k + 1;
                }
                assert(entry_readings(entries.deep_view()).take(entries.len() as int)
                    == entry_readings(entries.deep_view()));
                let reading = join_strings(&readings, ",");
                if reading.as_str().is_empty() {
                    None
                } else {
                    Some(reading)
                }
            },
            None => None,
        }
    }
}

} // verus!
