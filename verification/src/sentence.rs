//! Sentences: a text with its tokens, and the two forms in which a card
//! and the services around it see the text.

use crate::emphasis::{
    delimiter_text, emphasised_text, lemma_plain_has_no_delimiter, plain_text, render,
    render_plain, EMPHASIS_DELIMITER,
};
use crate::text::concat;
use crate::token::{is_known_word, Token};
use crate::tokenizer::{
    is_character_or_word, lemma_tokens_are_characters_or_words, locatable, recognised_words,
    token_texts, tokenisation, tokenise_sentence, word_token, RecognisedView,
};
use vstd::prelude::*;

verus! {

/// A text together with the tokens it was cut into.
#[derive(Debug)]
pub struct MandarinSentence {
    pub raw_sentence: String,
    pub tokens: Vec<Token>,
}

impl MandarinSentence {
    /// The texts of the sentence's tokens, in order.
    pub open spec fn texts(&self) -> Seq<Seq<char>> {
        token_texts(self.tokens.deep_view())
    }

    /// Whether the tokens partition the text: put together, their texts
    /// are the text.
    pub open spec fn well_formed(&self) -> bool {
        concat(self.texts()) == self.raw_sentence@
    }

    /// Whether some token is a word with at least one entry in the
    /// dictionary.
    pub open spec fn has_known_word(&self) -> bool {
        exists|k: int| 0 <= k < self.tokens.len() && is_known_word(#[trigger] self.tokens[k]@)
    }

    /// The sentence of `raw`, cut into tokens with the dictionary.
    pub fn new(raw: &str) -> (sentence: MandarinSentence)
        ensures
            sentence.raw_sentence@ == raw@,
            sentence.tokens.deep_view() == tokenisation(raw@, recognised_words(raw@)),
            sentence.well_formed(),
    {
        MandarinSentence { raw_sentence: raw.to_owned(), tokens: tokenise_sentence(raw) }
    }

    /// The texts of the tokens, in order.
    pub fn token_strings(&self) -> (texts: Vec<String>)
        ensures
            texts.deep_view() == self.texts(),
    {
        let mut texts: Vec<String> = Vec::new();
        let mut k: usize = 0;
        while k < self.tokens.len()
            invariant
                k <= self.tokens.len(),
                texts.deep_view() == self.texts().take(k as int),
            decreases self.tokens.len() - k,
        {
            let ghost before = texts.deep_view();
            texts.push(self.tokens[k].text.clone());
            assert(texts.deep_view() == before.push(self.texts()[k as int]));
            k = k + 1;
        }
        assert(self.texts().take(self.tokens.len() as int) == self.texts());
        texts
    }

    /// Whether some token is a word with at least one entry in the
    /// dictionary.
    pub fn contains_known_word(&self) -> (r: bool)
        ensures
            r == self.has_known_word(),
    {
        let mut k: usize = 0;
        while k < self.tokens.len()
            invariant
                k <= self.tokens.len(),
                forall|j: int| 0 <= j < k ==> !is_known_word(#[trigger] self.tokens[j]@),
            decreases self.tokens.len() - k,
        {
            if self.tokens[k].has_entries() {
                return true;
            }
            k = k + 1;
        }
        false
    }

    /// The sentence as other services are to see it: the tokens in order,
    /// without the emphasis delimiters.
    pub fn build_plain_sentence(&self) -> (plain: String)
        ensures
            plain@ == plain_text(self.texts()),
    {
        let texts = self.token_strings();
        render_plain(&texts)
    }

    /// The sentence as a card shows it: the tokens in order, each
    /// emphasis delimiter replaced, in turn, by the opening and the
    /// closing markup.
    pub fn build_note_sentence(&self) -> (note: String)
        ensures
            note@ == emphasised_text(self.texts()),
    {
        let texts = self.token_strings();
        render(&texts)
    }
}

/// The plain form of a tokenised text is free of the emphasis delimiter,
/// where none of the recognised words holds it.
pub proof fn lemma_plain_sentence_has_no_delimiter(raw: Seq<char>, words: Seq<RecognisedView>)
    requires
        locatable(raw, words, 0),
        forall|k: int|
            0 <= k < words.len() ==> !(#[trigger] words[k]).text.contains(EMPHASIS_DELIMITER),
    ensures
        !plain_text(token_texts(tokenisation(raw, words))).contains(EMPHASIS_DELIMITER),
{
    let tokens = tokenisation(raw, words);
    let items = token_texts(tokens);
    lemma_tokens_are_characters_or_words(raw, words, 0);
    assert forall|i: int| 0 <= i < items.len() implies #[trigger] items[i] == delimiter_text()
        || !items[i].contains(EMPHASIS_DELIMITER) by {
        assert(is_character_or_word(tokens[i], words));
        if tokens[i].word_entry is None && tokens[i].text.len() == 1 {
            if items[i].contains(EMPHASIS_DELIMITER) {
                assert(items[i] =~= delimiter_text());
            }
        } else {
            let k = choose|k: int| 0 <= k < words.len() && tokens[i] == word_token(#[trigger] words[k]);
            assert(!words[k].text.contains(EMPHASIS_DELIMITER));
        }
    }
    lemma_plain_has_no_delimiter(items);
}

} // verus!
