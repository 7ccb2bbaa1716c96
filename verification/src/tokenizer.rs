//! Tokenisation: a text is cut into the words that the dictionary knows
//! and, between them, single characters that it does not.

use crate::dictionary::{
    dictionary_entries, lookup_entries, occur_in_order, placed_in_order, segment_words,
    segmented_words, DictionaryEntry, EntryView,
};
use crate::token::{Token, TokenView};
use crate::text::{
    chars_of, concat, find_from, first_occurrence, is_first_occurrence, lemma_concat_add, lemma_concat_push,
    lemma_first_occurrence_exists, occurs_at,
};
use vstd::prelude::*;

verus! {

/// A word that the segmentation recognised, with the dictionary's entries
/// for it.
#[derive(Debug)]
pub struct RecognisedWord {
    pub text: String,
    pub entries: Vec<DictionaryEntry>,
}

/// A recognised word as a mathematical value.
pub struct RecognisedView {
    pub text: Seq<char>,
    pub entries: Seq<EntryView>,
}

impl View for RecognisedWord {
    type V = RecognisedView;

    open spec fn view(&self) -> RecognisedView {
        RecognisedView { text: self.text@, entries: self.entries.deep_view() }
    }
}

impl DeepView for RecognisedWord {
    type V = RecognisedView;

    open spec fn deep_view(&self) -> RecognisedView {
        self@
    }
}

/// The texts of `words`, in order.
pub open spec fn word_texts(words: Seq<RecognisedView>) -> Seq<Seq<char>> {
    Seq::new(words.len(), |k: int| words[k].text)
}

/// The texts of `tokens`, in order.
pub open spec fn token_texts(tokens: Seq<TokenView>) -> Seq<Seq<char>> {
    Seq::new(tokens.len(), |k: int| tokens[k].text)
}

/// The token of a single character outside any recognised word.
pub open spec fn character_token(c: char) -> TokenView {
    TokenView { text: seq![c], word_entry: None }
}

/// The characters of `s`, each as a token outside any recognised word.
pub open spec fn character_tokens(s: Seq<char>) -> Seq<TokenView> {
    Seq::new(s.len(), |i: int| character_token(s[i]))
}

/// The token of a recognised word.
pub open spec fn word_token(word: RecognisedView) -> TokenView {
    TokenView { text: word.text, word_entry: Some(word.entries) }
}

/// Whether each of `words`, in turn, stands in `raw` somewhere from the
/// cursor on, the cursor starting at `cursor` and moving past each word at
/// its first occurrence.
pub open spec fn locatable(raw: Seq<char>, words: Seq<RecognisedView>, cursor: int) -> bool
    decreases words.len(),
{
    if words.len() == 0 {
        true
    } else {
        match first_occurrence(raw, words[0].text, cursor) {
            Some(at) => locatable(raw, words.drop_first(), at + words[0].text.len()),
            None => false,
        }
    }
}

/// The tokens of `raw` from `cursor` on: for each of `words`, in turn, the
/// characters between the cursor and the word's first occurrence from the
/// cursor on, one token each, then the word as one token; after the last
/// word, the characters that are left.
pub open spec fn tokens_from(raw: Seq<char>, words: Seq<RecognisedView>, cursor: int) -> Seq<
    TokenView,
>
    decreases words.len(),
{
    if words.len() == 0 {
        character_tokens(raw.subrange(cursor, raw.len() as int))
    } else {
        match first_occurrence(raw, words[0].text, cursor) {
            Some(at) => character_tokens(raw.subrange(cursor, at)) + seq![word_token(words[0])]
                + tokens_from(raw, words.drop_first(), at + words[0].text.len()),
            None => Seq::empty(),
        }
    }
}

/// The tokens of the whole of `raw`, given the words recognised in it.
pub open spec fn tokenisation(raw: Seq<char>, words: Seq<RecognisedView>) -> Seq<TokenView> {
    tokens_from(raw, words, 0)
}

/// The words that the dictionary recognises in `raw`, each with the
/// dictionary's entries for it.
pub open spec fn recognised_words(raw: Seq<char>) -> Seq<RecognisedView> {
    Seq::new(
        segmented_words(raw).len(),
        |k: int|
            RecognisedView {
                text: segmented_words(raw)[k],
                entries: dictionary_entries(segmented_words(raw)[k]),
            },
    )
}

/// The texts of character tokens make up the characters.
pub proof fn lemma_character_tokens_lossless(s: Seq<char>)
    ensures
        concat(token_texts(character_tokens(s))) == s,
    decreases s.len(),
{
    let texts = token_texts(character_tokens(s));
    if s.len() == 0 {
        assert(concat(texts) =~= s);
    } else {
        lemma_character_tokens_lossless(s.drop_last());
        assert(texts.drop_last() =~= token_texts(character_tokens(s.drop_last())));
        assert(texts.last() == seq![s.last()]);
        assert(s.drop_last() + seq![s.last()] =~= s);
    }
}

/// Tokenisation is a lossless partition: where the words can be located,
/// the texts of the tokens from the cursor on, put together, are the text
/// from the cursor on.
pub proof fn lemma_tokens_from_lossless(raw: Seq<char>, words: Seq<RecognisedView>, cursor: int)
    requires
        0 <= cursor <= raw.len(),
        locatable(raw, words, cursor),
    ensures
        concat(token_texts(tokens_from(raw, words, cursor))) == raw.subrange(
            cursor,
            raw.len() as int,
        ),
    decreases words.len(),
{
    if words.len() == 0 {
        lemma_character_tokens_lossless(raw.subrange(cursor, raw.len() as int));
    } else {
        let word = words[0].text;
        let at = first_occurrence(raw, word, cursor)->0;
        assert(is_first_occurrence(raw, word, cursor, at));
        let next = at + word.len();
        lemma_tokens_from_lossless(raw, words.drop_first(), next);
        let before = character_tokens(raw.subrange(cursor, at));
        let rest = tokens_from(raw, words.drop_first(), next);
        lemma_character_tokens_lossless(raw.subrange(cursor, at));
        assert(token_texts(before + seq![word_token(words[0])] + rest) =~= token_texts(before)
            + seq![word] + token_texts(rest));
        lemma_concat_add(token_texts(before) + seq![word], token_texts(rest));
        lemma_concat_add(token_texts(before), seq![word]);
        assert(concat(seq![word]) =~= word) by {
            lemma_concat_push(Seq::empty(), word);
            assert(seq![word] =~= Seq::<Seq<char>>::empty().push(word));
        }
        assert(raw.subrange(cursor, at) + word + raw.subrange(next, raw.len() as int)
            =~= raw.subrange(cursor, raw.len() as int));
    }
}

/// Tokenisation is a lossless partition: where the words can be located,
/// the texts of the tokens, put together, are the text.
pub proof fn lemma_tokenisation_lossless(raw: Seq<char>, words: Seq<RecognisedView>)
    requires
        locatable(raw, words, 0),
    ensures
        concat(token_texts(tokenisation(raw, words))) == raw,
{
    lemma_tokens_from_lossless(raw, words, 0);
    assert(raw.subrange(0, raw.len() as int) =~= raw);
}

/// Whether `token` is a single character outside any recognised word, or
/// one of `words`.
pub open spec fn is_character_or_word(token: TokenView, words: Seq<RecognisedView>) -> bool {
    ||| token.word_entry is None && token.text.len() == 1
    ||| exists|k: int| 0 <= k < words.len() && token == word_token(#[trigger] words[k])
}

/// Every token is a single character outside any recognised word, or one
/// of the recognised words.
pub proof fn lemma_tokens_are_characters_or_words(
    raw: Seq<char>,
    words: Seq<RecognisedView>,
    cursor: int,
)
    requires
        0 <= cursor <= raw.len(),
        locatable(raw, words, cursor),
    ensures
        forall|i: int|
            0 <= i < tokens_from(raw, words, cursor).len() ==> is_character_or_word(
                #[trigger] tokens_from(raw, words, cursor)[i],
                words,
            ),
    decreases words.len(),
{
    let tokens = tokens_from(raw, words, cursor);
    if words.len() > 0 {
        let word = words[0].text;
        let at = first_occurrence(raw, word, cursor)->0;
        assert(is_first_occurrence(raw, word, cursor, at));
        let rest = words.drop_first();
        let before = character_tokens(raw.subrange(cursor, at));
        let after = tokens_from(raw, rest, at + word.len());
        lemma_tokens_are_characters_or_words(raw, rest, at + word.len());
        assert forall|i: int| 0 <= i < tokens.len() implies is_character_or_word(
            #[trigger] tokens[i],
            words,
        ) by {
            if i < before.len() {
                assert(tokens[i] == before[i]);
            } else if i == before.len() {
                assert(tokens[i] == word_token(words[0]));
            } else {
                let j = i - before.len() - 1;
                assert(tokens[i] == after[j]);
                assert(is_character_or_word(after[j], rest));
                if !(after[j].word_entry is None && after[j].text.len() == 1) {
                    let k = choose|k: int|
                        0 <= k < rest.len() && after[j] == word_token(#[trigger] rest[k]);
                    assert(rest[k] == words[k + 1]);
                }
            }
        }
    }
}

/// Words that stand in the text one after another, the first of them at
/// or after the cursor, can be located from the cursor on.
pub proof fn lemma_placed_words_locatable(
    raw: Seq<char>,
    words: Seq<RecognisedView>,
    starts: Seq<int>,
    cursor: int,
)
    requires
        placed_in_order(raw, word_texts(words), starts),
        0 <= cursor,
        words.len() > 0 ==> cursor <= starts[0],
    ensures
        locatable(raw, words, cursor),
    decreases words.len(),
{
    if words.len() > 0 {
        let texts = word_texts(words);
        assert(occurs_at(raw, texts[0], starts[0]));
        lemma_first_occurrence_exists(raw, words[0].text, cursor, starts[0]);
        let at = first_occurrence(raw, words[0].text, cursor)->0;
        let rest = words.drop_first();
        let rest_starts = starts.drop_first();
        assert(word_texts(rest) =~= texts.drop_first());
        assert(placed_in_order(raw, word_texts(rest), rest_starts)) by {
            assert forall|k: int| 0 <= k < rest.len() implies occurs_at(
                raw,
                #[trigger] word_texts(rest)[k],
                rest_starts[k],
            ) by {
                assert(occurs_at(raw, texts[k + 1], starts[k + 1]));
            }
            assert forall|k: int| 0 < k < rest.len() implies rest_starts[k - 1] + word_texts(
                rest,
            )[k - 1].len() <= #[trigger] rest_starts[k] by {
                assert(starts[k + 1 - 1] + texts[k + 1 - 1].len() <= starts[k + 1]);
            }
        }
        if rest.len() > 0 {
            assert(starts[0] + texts[0].len() <= starts[1]);
        }
        lemma_placed_words_locatable(raw, rest, rest_starts, at + words[0].text.len());
    }
}

/// The words that the dictionary recognises in a text can be located in
/// it.
pub proof fn lemma_recognised_words_locatable(raw: Seq<char>)
    requires
        occur_in_order(raw, segmented_words(raw)),
    ensures
        locatable(raw, recognised_words(raw), 0),
{
    let starts = choose|starts: Seq<int>| placed_in_order(raw, segmented_words(raw), starts);
    assert(word_texts(recognised_words(raw)) =~= segmented_words(raw));
    if recognised_words(raw).len() > 0 {
        assert(occurs_at(raw, segmented_words(raw)[0], starts[0]));
    }
    lemma_placed_words_locatable(raw, recognised_words(raw), starts, 0);
}

/// Appends to `out` one token for each of the characters of `chars` from
/// index `from` up to index `to`.
fn push_character_tokens(out: &mut Vec<Token>, chars: &Vec<char>, from: usize, to: usize)
    requires
        from <= to <= chars.len(),
    ensures
        final(out).deep_view() == old(out).deep_view() + character_tokens(
            chars@.subrange(from as int, to as int),
        ),
{
    let ghost start = out.deep_view();
    let ghost span = chars@.subrange(from as int, to as int);
    let mut i = from;
    while i < to
        invariant
            from <= i <= to <= chars.len(),
            span == chars@.subrange(from as int, to as int),
            out.deep_view() == start + character_tokens(span.take(i - from)),
        decreases to - i,
    {
        let mut text = String::new();
        crate::text::push_char(&mut text, chars[i]);
        assert(text@ == seq![chars@[i as int]]);
        let ghost before = out.deep_view();
        out.push(Token { text, word_entry: None });
        assert(out.deep_view() == before.push(character_token(chars@[i as int])));
        assert(character_tokens(span.take(i + 1 - from)) == character_tokens(
            span.take(i - from),
        ).push(character_token(chars@[i as int])));
        i = i + 1;
    }
    assert(span.take(to - from) == span);
}

/// Cuts `raw` into tokens, given the words recognised in it, in the order
/// in which they occur: each word becomes one token at its first
/// occurrence after the word before it, and every character outside these
/// words becomes a token of its own. Returns `None` where one of the words
/// does not occur in what is left of the text.
pub fn tokenise_recognised(raw: &str, words: Vec<RecognisedWord>) -> (r: Option<Vec<Token>>)
    ensures
        r is Some <==> locatable(raw@, words.deep_view(), 0),
        r matches Some(tokens) ==> tokens.deep_view() == tokenisation(raw@, words.deep_view())
            && concat(token_texts(tokens.deep_view())) == raw@,
{
    let chars = chars_of(raw);
    let ghost all = words.deep_view();
    let mut out: Vec<Token> = Vec::new();
    let mut cursor: usize = 0;
    assert(all.skip(0) == all);
    for word in it: words
        invariant
            it.seq() == words@,
            all == words.deep_view(),
            chars@ == raw@,
            cursor <= chars.len(),
            locatable(raw@, all, 0) == locatable(raw@, all.skip(it.index() as int), cursor as int),
            out.deep_view() + tokens_from(raw@, all.skip(it.index() as int), cursor as int)
                == tokens_from(raw@, all, 0),
    {
        let ghost k = it.index() as int;
        let ghost rest = all.skip(k);
        proof {
            assert(rest[0] == all[k]);
            assert(all[k] == word@);
            assert(rest.drop_first() == all.skip(k + 1));
        }
        let word_chars = chars_of(word.text.as_str());
        match find_from(&chars, &word_chars, cursor) {
            None => {
                return None;
            },
            Some(at) => {
                assert(is_first_occurrence(raw@, word.text@, cursor as int, at as int));
                push_character_tokens(&mut out, &chars, cursor, at);
                let ghost before = out.deep_view();
                let ghost token = word_token(word@);
                out.push(Token { text: word.text, word_entry: Some(word.entries) });
                assert(out.deep_view() == before.push(token));
                assert(before.push(token) == before + seq![token]);
                cursor = at + word_chars.len();
            },
        }
    }
    push_character_tokens(&mut out, &chars, cursor, chars.len());
    proof {
        assert(all.skip(all.len() as int).len() == 0);
        lemma_tokenisation_lossless(raw@, all);
    }
    Some(out)
}

/// Cuts `raw` into tokens: the words that the dictionary recognises in it,
/// each with the dictionary's entries for it, and between them the
/// characters that belong to no such word, one token each. The texts of
/// the tokens, put together, are `raw`.
pub fn tokenise_sentence(raw: &str) -> (tokens: Vec<Token>)
    ensures
        tokens.deep_view() == tokenisation(raw@, recognised_words(raw@)),
        concat(token_texts(tokens.deep_view())) == raw@,
{
    let words = segment_words(raw);
    let mut recognised: Vec<RecognisedWord> = Vec::new();
    let mut k: usize = 0;
    while k < words.len()
        invariant
            k <= words.len(),
            words.deep_view() == segmented_words(raw@),
            recognised.deep_view() == recognised_words(raw@).take(k as int),
        decreases words.len() - k,
    {
        let entries = lookup_entries(words[k].as_str());
        let ghost before = recognised.deep_view();
        let word = RecognisedWord { text: words[k].clone(), entries };
        assert(words.deep_view()[k as int] == words[k as int]@);
        assert(word@ == recognised_words(raw@)[k as int]);
        recognised.push(word);
        assert(recognised.deep_view() == before.push(recognised_words(raw@)[k as int]));
        k = k + 1;
    }
    proof {
        assert(recognised_words(raw@).take(words.len() as int) == recognised_words(raw@));
        lemma_recognised_words_locatable(raw@);
    }
    tokenise_recognised(raw, recognised).unwrap()
}

} // verus!
