//! Phonetic readings. A word's reading is derived from the dictionary's
//! pinyin with tone numbers, syllable by syllable; a sentence's reading
//! comes as pinyin with tone marks and is converted as a whole.

use crate::dictionary::DictionaryEntry;
use crate::text::{
    chars_of, concat, count_of, join_strings, joined, lemma_concat_push, lemma_joined_separators,
    split_whitespace, string_of, whitespace_fields,
};
use vstd::prelude::*;

verus! {

/// The zhuyin of one syllable of pinyin with a tone number, where the
/// syllable has one.
pub uninterp spec fn zhuyin_of_numbered(syllable: Seq<char>) -> Option<Seq<char>>;

/// The zhuyin of one syllable of pinyin with a tone mark, where the
/// syllable has one.
pub uninterp spec fn zhuyin_of_marked(syllable: Seq<char>) -> Option<Seq<char>>;

/// `pinyin_zhuyin::encode_zhuyin`: the zhuyin of a syllable written with a
/// tone number, or nothing where the text is no such syllable. The result
/// depends on the text alone.
#[verifier::external_body]
pub(crate) fn encode_zhuyin(syllable: &str) -> (zhuyin: Option<String>)
    ensures
        zhuyin.deep_view() == zhuyin_of_numbered(syllable@),
{
    pinyin_zhuyin::encode_zhuyin(syllable)
}

/// `pinyin_zhuyin::pinyin_to_zhuyin`: the zhuyin of a syllable written
/// with a tone mark, or nothing where the text is no such syllable. The
/// result depends on the text alone.
#[verifier::external_body]
pub(crate) fn pinyin_to_zhuyin(syllable: &str) -> (zhuyin: Option<String>)
    ensures
        zhuyin.deep_view() == zhuyin_of_marked(syllable@),
{
    pinyin_zhuyin::pinyin_to_zhuyin(syllable)
}

/// What stands for a syllable in a reading: its conversion where it has
/// one, else the syllable as it is.
pub open spec fn converted_or_unchanged(syllable: Seq<char>, converted: Option<Seq<char>>) -> Seq<
    char,
> {
    match converted {
        Some(zhuyin) => zhuyin,
        None => syllable,
    }
}

/// What stands for a syllable in a reading, given what the conversion made
/// of it: the conversion where there is one, else the syllable as it is.
pub fn syllable_reading(syllable: &str, converted: Option<String>) -> (reading: String)
    ensures
        reading@ == converted_or_unchanged(syllable@, converted.deep_view()),
{
    match converted {
        Some(zhuyin) => zhuyin,
        None => syllable.to_owned(),
    }
}

/// The zhuyin segments of a pronunciation in pinyin with tone numbers: one
/// for each syllable, in order.
pub open spec fn zhuyin_segments(pinyin_numbers: Seq<char>) -> Seq<Seq<char>> {
    let syllables = whitespace_fields(pinyin_numbers);
    Seq::new(
        syllables.len(),
        |k: int| converted_or_unchanged(syllables[k], zhuyin_of_numbered(syllables[k])),
    )
}

/// The zhuyin reading of a pronunciation in pinyin with tone numbers: its
/// segments with a comma between neighbours.
pub open spec fn derived_zhuyin(pinyin_numbers: Seq<char>) -> Seq<char> {
    joined(zhuyin_segments(pinyin_numbers), ","@)
}

impl DictionaryEntry {
    /// The entry's reading in zhuyin: each syllable of its pinyin with
    /// tone numbers converted, or kept as it is where it cannot be, with a
    /// comma between neighbours.
    pub fn derive_zhuyin(&self) -> (reading: String)
        ensures
            reading@ == derived_zhuyin(self.pinyin_numbers@),
    {
        let syllables = split_whitespace(self.pinyin_numbers.as_str());
        let mut segments: Vec<String> = Vec::new();
        let mut k: usize = 0;
        while k < syllables.len()
            invariant
                k <= syllables.len(),
                syllables.deep_view() == whitespace_fields(self.pinyin_numbers@),
                segments.deep_view() == zhuyin_segments(self.pinyin_numbers@).take(k as int),
            decreases syllables.len() - k,
        {
            let syllable = syllables[k].as_str();
            assert(syllable@ == syllables.deep_view()[k as int]);
            let segment = syllable_reading(syllable, encode_zhuyin(syllable));
            let ghost before = segments.deep_view();
            segments.push(segment);
            assert(segments.deep_view() == before.push(
                zhuyin_segments(self.pinyin_numbers@)[k as int],
            ));
            k = k + 1;
        }
        assert(zhuyin_segments(self.pinyin_numbers@).take(syllables.len() as int)
            == zhuyin_segments(self.pinyin_numbers@));
        join_strings(&segments, ",")
    }
}

/// The comma of half width.
pub const COMMA: char = ',';

/// The comma of full width.
pub const WIDE_COMMA: char = '\u{ff0c}';

/// `s` with a comma in place of every space.
pub open spec fn spaces_to_commas(s: Seq<char>) -> Seq<char> {
    Seq::new(
        s.len(),
        |i: int|
            if s[i] == ' ' {
                COMMA
            } else {
                s[i]
            },
    )
}

/// `s` with every wide comma that a comma follows, taken from left to
/// right, standing for the two.
pub open spec fn collapse_wide_commas(s: Seq<char>) -> Seq<char>
    decreases s.len(),
{
    if s.len() == 0 {
        Seq::empty()
    } else if s.len() >= 2 && s[0] == WIDE_COMMA && s[1] == COMMA {
        seq![WIDE_COMMA] + collapse_wide_commas(s.skip(2))
    } else {
        seq![s[0]] + collapse_wide_commas(s.skip(1))
    }
}

/// Pinyin as the syllable parser is to see it: commas for spaces, and no
/// comma behind a wide comma.
pub open spec fn normalised_separators(pinyin: Seq<char>) -> Seq<char> {
    collapse_wide_commas(spaces_to_commas(pinyin))
}

/// Prepares the pinyin of a sentence for the syllable parser: every space
/// becomes a comma, and then every wide comma with a comma behind it
/// becomes a wide comma alone.
pub fn normalise_separators(pinyin: &str) -> (out: String)
    ensures
        out@ == normalised_separators(pinyin@),
{
    let chars = chars_of(pinyin);
    let mut replaced: Vec<char> = Vec::new();
    let mut i: usize = 0;
    while i < chars.len()
        invariant
            i <= chars.len(),
            chars@ == pinyin@,
            replaced@ == spaces_to_commas(pinyin@).take(i as int),
        decreases chars.len() - i,
    {
        if chars[i] == ' ' {
            replaced.push(COMMA);
        } else {
            replaced.push(chars[i]);
        }
        i = i + 1;
    }
    assert(replaced@ == spaces_to_commas(pinyin@));
    let mut out: Vec<char> = Vec::new();
    let mut j: usize = 0;
    assert(replaced@.skip(0) == replaced@);
    while j < replaced.len()
        invariant
            j <= replaced.len(),
            out@ + collapse_wide_commas(replaced@.skip(j as int)) == collapse_wide_commas(
                replaced@,
            ),
        decreases replaced.len() - j,
    {
        let ghost rest = replaced@.skip(j as int);
        assert(rest[0] == replaced@[j as int]);
        if j + 1 < replaced.len() && replaced[j] == WIDE_COMMA && replaced[j + 1] == COMMA {
            assert(rest[1] == replaced@[j + 1]);
            assert(rest.skip(2) == replaced@.skip(j + 2));
            out.push(WIDE_COMMA);
            j = j + 2;
        } else {
            assert(rest.len() >= 2 ==> rest[1] == replaced@[j + 1]);
            assert(rest.skip(1) == replaced@.skip(j + 1));
            out.push(replaced[j]);
            j = j + 1;
        }
    }
    assert(collapse_wide_commas(replaced@.skip(replaced.len() as int)) == Seq::<char>::empty());
    assert(out@ + Seq::<char>::empty() == out@);
    string_of(&out)
}

/// The zhuyin of a sentence whose pinyin the syllable parser has cut into
/// `tokens`: each token converted, or kept as it is where it cannot be,
/// and all of them put together.
pub open spec fn assembled_zhuyin(tokens: Seq<Seq<char>>) -> Seq<char> {
    concat(
        Seq::new(
            tokens.len(),
            |k: int| converted_or_unchanged(tokens[k], zhuyin_of_marked(tokens[k])),
        ),
    )
}

/// Puts the zhuyin of a sentence together from the tokens that the
/// syllable parser has cut its pinyin into: a syllable is converted, and
/// whatever is no syllable stands as it is.
pub fn assemble_zhuyin(tokens: &Vec<String>) -> (zhuyin: String)
    ensures
        zhuyin@ == assembled_zhuyin(tokens.deep_view()),
{
    let ghost pieces = Seq::new(
        tokens.deep_view().len(),
        |k: int|
            converted_or_unchanged(tokens.deep_view()[k], zhuyin_of_marked(tokens.deep_view()[k])),
    );
    let mut zhuyin = String::new();
    let mut k: usize = 0;
    while k < tokens.len()
        invariant
            k <= tokens.len(),
            pieces == Seq::new(
                tokens.deep_view().len(),
                |k: int|
                    converted_or_unchanged(
                        tokens.deep_view()[k],
                        zhuyin_of_marked(tokens.deep_view()[k]),
                    ),
            ),
            zhuyin@ == concat(pieces.take(k as int)),
        decreases tokens.len() - k,
    {
        let token = tokens[k].as_str();
        assert(token@ == tokens.deep_view()[k as int]);
        let piece = syllable_reading(token, pinyin_to_zhuyin(token));
        proof {
            assert(pieces.take(k + 1) == pieces.take(k as int).push(pieces[k as int]));
            lemma_concat_push(pieces.take(k as int), pieces[k as int]);
        }
        zhuyin.append(piece.as_str());
        k = k + 1;
    }
    assert(pieces.take(tokens.len() as int) == pieces);
    zhuyin
}

/// A reading has one segment for each syllable. The pinyin of an entry
/// with N syllables gives N segments, in the order of the syllables; a
/// syllable that has a zhuyin is given by it and any other stands as it
/// is; and the reading is the segments with a comma between neighbours.
pub proof fn lemma_one_segment_per_syllable(pinyin_numbers: Seq<char>)
    ensures
        zhuyin_segments(pinyin_numbers).len() == whitespace_fields(pinyin_numbers).len(),
        forall|k: int|
            #![trigger zhuyin_segments(pinyin_numbers)[k]]
            0 <= k < whitespace_fields(pinyin_numbers).len() ==> zhuyin_segments(pinyin_numbers)[k]
                == match zhuyin_of_numbered(whitespace_fields(pinyin_numbers)[k]) {
                Some(zhuyin) => zhuyin,
                None => whitespace_fields(pinyin_numbers)[k],
            },
        derived_zhuyin(pinyin_numbers) == joined(zhuyin_segments(pinyin_numbers), seq![COMMA]),
{
    reveal_strlit(",");
    assert(","@ =~= seq![COMMA]);
}

/// Where no segment holds a comma, the reading of N syllables, N being
/// at least one, holds N - 1 commas: it falls into exactly N segments.
pub proof fn lemma_reading_separators(pinyin_numbers: Seq<char>)
    requires
        whitespace_fields(pinyin_numbers).len() > 0,
        forall|k: int|
            0 <= k < zhuyin_segments(pinyin_numbers).len() ==> !(#[trigger] zhuyin_segments(
                pinyin_numbers,
            )[k]).contains(COMMA),
    ensures
        count_of(derived_zhuyin(pinyin_numbers), COMMA) == whitespace_fields(pinyin_numbers).len()
            - 1,
{
    lemma_one_segment_per_syllable(pinyin_numbers);
    lemma_joined_separators(zhuyin_segments(pinyin_numbers), COMMA);
}

} // verus!
