//! Related words: how the suggestions of an assistant are read from its
//! answer, and how each is written on a card.

use crate::config::MandarinReading;
use crate::dictionary::{
    classify_text, dictionary_entries, lookup_entries, DictionaryEntry, EntryView, TextClass,
};
use crate::phonetics::derived_zhuyin;
use crate::text::{join_strings, joined, split_at_char, split_on, trim, trimmed};
use crate::token::entry_readings;
use vstd::prelude::*;

verus! {

/// A word related to the word of a card, with its translation.
#[derive(Debug)]
pub struct SimilarWord {
    pub word: String,
    pub translation: String,
}

/// A related word as a mathematical value.
pub struct SimilarView {
    pub word: Seq<char>,
    pub translation: Seq<char>,
}

impl View for SimilarWord {
    type V = SimilarView;

    open spec fn view(&self) -> SimilarView {
        SimilarView { word: self.word@, translation: self.translation@ }
    }
}

impl DeepView for SimilarWord {
    type V = SimilarView;

    open spec fn deep_view(&self) -> SimilarView {
        self@
    }
}

/// The pinyin with tone marks of `entries`, in order.
pub open spec fn entry_pinyin(entries: Seq<EntryView>) -> Seq<Seq<char>> {
    Seq::new(entries.len(), |k: int| entries[k].pinyin_marks)
}

/// The reading of a related word, given the dictionary's entries for it.
/// Where the first entry has as many characters as the word, it is that
/// entry's reading; else the readings of all entries, with a comma between
/// neighbours in zhuyin and a space in pinyin.
pub open spec fn similar_reading(
    word: Seq<char>,
    entries: Seq<EntryView>,
    reading: MandarinReading,
) -> Seq<char> {
    if entries[0].traditional.len() == word.len() {
        match reading {
            MandarinReading::Zhuyin => derived_zhuyin(entries[0].pinyin_numbers),
            MandarinReading::Pinyin => entries[0].pinyin_marks,
        }
    } else {
        match reading {
            MandarinReading::Zhuyin => joined(entry_readings(entries), ","@),
            MandarinReading::Pinyin => joined(entry_pinyin(entries), " "@),
        }
    }
}

/// A related word as a card shows it: the word, its reading and its
/// translation, a comma and a space between neighbours.
pub open spec fn similar_line(
    similar: SimilarView,
    entries: Seq<EntryView>,
    reading: MandarinReading,
) -> Seq<char> {
    similar.word + ", "@ + similar_reading(similar.word, entries, reading) + ", "@
        + similar.translation
}

/// What a row of an answer gives: a related word where the row has at
/// least two columns and its first column was taken to be Mandarin, the
/// word and the translation being the first two columns without the
/// whitespace around them.
pub open spec fn row_word(row: Seq<Seq<char>>, class: TextClass) -> Option<SimilarView> {
    if row.len() >= 2 && class == TextClass::Chinese {
        Some(SimilarView { word: trimmed(row[0]), translation: trimmed(row[1]) })
    } else {
        None
    }
}

/// The rows of an answer: its lines, each cut at its commas.
pub open spec fn answer_rows(message: Seq<char>) -> Seq<Seq<Seq<char>>> {
    Seq::new(
        split_on(message, '\n').len(),
        |i: int| split_on(split_on(message, '\n')[i], ','),
    )
}

/// The related words that `rows` give, in order, where row `i` was
/// classified as `classes[i]`.
pub open spec fn kept_words(rows: Seq<Seq<Seq<char>>>, classes: Seq<TextClass>) -> Seq<SimilarView>
    decreases rows.len(),
{
    if rows.len() == 0 {
        Seq::empty()
    } else {
        let before = kept_words(rows.drop_last(), classes.drop_last());
        match row_word(rows.last(), classes.last()) {
            Some(word) => before.push(word),
            None => before,
        }
    }
}

/// What a row of an answer gives, given what its first column was taken
/// to be written in.
pub fn similar_word_of_row(row: &Vec<String>, class: TextClass) -> (word: Option<SimilarWord>)
    ensures
        word.deep_view() == row_word(row.deep_view(), class),
{
    if row.len() >= 2 && class.is_mandarin() {
        assert(row.deep_view()[0] == row[0]@ && row.deep_view()[1] == row[1]@);
        Some(SimilarWord { word: trim(row[0].as_str()), translation: trim(row[1].as_str()) })
    } else {
        None
    }
}

/// Reads the related words out of an assistant's answer. The answer is
/// taken line by line and each line cut at its commas; a line counts where
/// it has at least two columns and the dictionary takes its first column
/// to be Mandarin. What the dictionary takes a column to be is its own
/// guess: the result is what the rows give under some classification of
/// them.
pub fn parse_similar_words(message: &str) -> (words: Vec<SimilarWord>)
    ensures
        exists|classes: Seq<TextClass>|
            classes.len() == answer_rows(message@).len() && words.deep_view() == kept_words(
                answer_rows(message@),
                classes,
            ),
{
    let lines = split_at_char(message, '\n');
    let ghost rows = answer_rows(message@);
    let ghost mut classes: Seq<TextClass> = Seq::empty();
    let mut words: Vec<SimilarWord> = Vec::new();
    let mut i: usize = 0;
    while i < lines.len()
        invariant
            i <= lines.len(),
            lines.deep_view() == split_on(message@, '\n'),
            rows == answer_rows(message@),
            classes.len() == i,
            words.deep_view() == kept_words(rows.take(i as int), classes),
        decreases lines.len() - i,
    {
        let row = split_at_char(lines[i].as_str(), ',');
        assert(lines.deep_view()[i as int] == lines[i as int]@);
        assert(row.deep_view() == rows[i as int]);
        let class = if row.len() >= 2 {
            classify_text(row[0].as_str())
        } else {
            TextClass::Uncertain
        };
        proof {
            let before = classes;
            classes = classes.push(class);
            assert(rows.take(i + 1).drop_last() == rows.take(i as int));
            assert(classes.drop_last() == before);
            assert(rows.take(i + 1).last() == rows[i as int]);
        }
        match similar_word_of_row(&row, class) {
            Some(word) => {
                let ghost before = words.deep_view();
                words.push(word);
                assert(words.deep_view() == before.push(word@));
            },
            None => {},
        }
        i = i + 1;
    }
    assert(rows.take(lines.len() as int) == rows);
    words
}

impl SimilarWord {
    /// The related word as a card shows it, given the dictionary's
    /// entries for the word: the word, its reading in the notation asked
    /// for, and its translation.
    pub fn build_string_with(
        &self,
        entries: &Vec<DictionaryEntry>,
        reading: &MandarinReading,
    ) -> (line: String)
        requires
            entries.len() > 0,
        ensures
            line@ == similar_line(self@, entries.deep_view(), *reading),
    {
        assert(entries.deep_view()[0] == entries[0]@);
        let whole = entries[0].traditional.as_str().unicode_len() == self.word.as_str().unicode_len();
        let reading_text = match reading {
            MandarinReading::Zhuyin => {
                if whole {
                    entries[0].derive_zhuyin()
                } else {
                    let mut readings: Vec<String> = Vec::new();
                    let mut k: usize = 0;
                    while k < entries.len()
                        invariant
                            k <= entries.len(),
                            readings.deep_view() == entry_readings(entries.deep_view()).take(
                                k as int,
                            ),
                        decreases entries.len() - k,
                    {
                        let ghost before = readings.deep_view();
                        readings.push(entries[k].derive_zhuyin());
                        assert(readings.deep_view() == before.push(
                            entry_readings(entries.deep_view())[k as int],
                        ));
                        k = k + 1;
                    }
                    assert(entry_readings(entries.deep_view()).take(entries.len() as int)
                        == entry_readings(entries.deep_view()));
                    join_strings(&readings, ",")
                }
            },
            MandarinReading::Pinyin => {
                if whole {
                    entries[0].pinyin_marks.clone()
                } else {
                    let mut readings: Vec<String> = Vec::new();
                    let mut k: usize = 0;
                    while k < entries.len()
                        invariant
                            k <= entries.len(),
                            readings.deep_view() == entry_pinyin(entries.deep_view()).take(
                                k as int,
                            ),
                        decreases entries.len() - k,
                    {
                        let ghost before = readings.deep_view();
                        readings.push(entries[k].pinyin_marks.clone());
                        assert(readings.deep_view() == before.push(
                            entry_pinyin(entries.deep_view())[k as int],
                        ));
                        k = k + 1;
                    }
                    assert(entry_pinyin(entries.deep_view()).take(entries.len() as int)
                        == entry_pinyin(entries.deep_view()));
                    join_strings(&readings, " ")
                }
            },
        };
        let mut line = self.word.clone();
        line.append(", ");
        line.append(reading_text.as_str());
        line.append(", ");
        line.append(self.translation.as_str());
        line
    }

    /// The related word as a card shows it: the word, its reading in the
    /// notation asked for, taken from the dictionary, and its translation.
    /// There is none where the dictionary knows nothing in the word.
    pub fn build_string(&self, reading: &MandarinReading) -> (line: Option<String>)
        ensures
            line.deep_view() == if dictionary_entries(self.word@).len() == 0 {
                None
            } else {
                Some(similar_line(self@, dictionary_entries(self.word@), *reading))
            },
    {
        let entries = lookup_entries(self.word.as_str());
        assert(entries.deep_view().len() == entries.len());
        if entries.len() == 0 {
            None
        } else {
            Some(self.build_string_with(&entries, reading))
        }
    }
}

/// What stands between the related words on a card.
pub const LINE_BREAK: &'static str = "<br>";

/// Whether the dictionary knows something in each of `words`.
pub open spec fn all_in_dictionary(words: Seq<SimilarView>) -> bool {
    forall|k: int| 0 <= k < words.len() ==> dictionary_entries(#[trigger] words[k].word).len() > 0
}

/// The related words as a card shows them, in order, each with its
/// reading from the dictionary.
pub open spec fn related_lines(words: Seq<SimilarView>, reading: MandarinReading) -> Seq<
    Seq<char>,
> {
    Seq::new(
        words.len(),
        |k: int| similar_line(words[k], dictionary_entries(words[k].word), reading),
    )
}

/// The field of a card that holds the related words: their lines with a
/// line break between neighbours, or nothing where the dictionary knows
/// nothing in one of the words.
pub open spec fn related_field(words: Seq<SimilarView>, reading: MandarinReading) -> Option<
    Seq<char>,
> {
    if all_in_dictionary(words) {
        Some(joined(related_lines(words, reading), LINE_BREAK@))
    } else {
        None
    }
}

/// The field of a card that holds the related words: each word with its
/// reading and its translation, a line break between neighbours. There is
/// none where the dictionary knows nothing in one of the words.
pub fn similar_words_field(words: &Vec<SimilarWord>, reading: &MandarinReading) -> (field: Option<
    String,
>)
    ensures
        field.deep_view() == related_field(words.deep_view(), *reading),
{
    let mut lines: Vec<String> = Vec::new();
    let mut k: usize = 0;
    while k < words.len()
        invariant
            k <= words.len(),
            all_in_dictionary(words.deep_view().take(k as int)),
            lines.deep_view() == related_lines(words.deep_view(), *reading).take(k as int),
        decreases words.len() - k,
    {
        assert(words.deep_view()[k as int] == words[k as int]@);
        match words[k].build_string(reading) {
            None => {
                assert(dictionary_entries(words.deep_view()[k as int].word).len() == 0);
                return None;
            },
            Some(line) => {
                let ghost before = lines.deep_view();
                lines.push(line);
                assert(lines.deep_view() == before.push(
                    related_lines(words.deep_view(), *reading)[k as int],
                ));
                assert forall|j: int| 0 <= j < k + 1 implies dictionary_entries(
                    #[trigger] words.deep_view().take(k + 1)[j].word,
                ).len() > 0 by {
                    if j < k {
                        assert(words.deep_view().take(k as int)[j] == words.deep_view()[j]);
                    }
                }
            },
        }
        k = k + 1;
    }
    assert(words.deep_view().take(words.len() as int) == words.deep_view());
    assert(related_lines(words.deep_view(), *reading).take(words.len() as int) == related_lines(
        words.deep_view(),
        *reading,
    ));
    Some(join_strings(&lines, LINE_BREAK))
}

} // verus!
