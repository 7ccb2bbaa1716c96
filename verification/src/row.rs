//! Rows of input: whether a text gets the card of a word, the card of a
//! sentence, or none.

use crate::sentence::MandarinSentence;
use crate::token::{Token, TokenView};
use crate::tokenizer::{recognised_words, tokenisation, tokenise_sentence};
use vstd::prelude::*;

verus! {

/// What a row of input is taken for.
#[derive(Debug)]
pub enum RowPlan {
    /// The text has no token: there is nothing to make a card of.
    Skip,
    /// The text is one token: it gets the card of a word.
    Word(Token),
    /// The text is two tokens or more: it gets the card of a sentence.
    Sentence(MandarinSentence),
}

/// Whether `plan` is what a text with the tokens given is taken for: by
/// the number of its tokens, nothing for none, a word for one, a sentence
/// for more.
pub open spec fn plans(plan: RowPlan, text: Seq<char>, tokens: Seq<TokenView>) -> bool {
    if tokens.len() == 0 {
        plan is Skip
    } else if tokens.len() == 1 {
        plan matches RowPlan::Word(token) && token@ == tokens[0]
    } else {
        plan matches RowPlan::Sentence(sentence) && sentence.raw_sentence@ == text
            && sentence.tokens.deep_view() == tokens
    }
}

/// What the text `hanzi` is taken for, given the tokens it was cut into.
pub fn plan_tokens(hanzi: &str, tokens: Vec<Token>) -> (plan: RowPlan)
    ensures
        plans(plan, hanzi@, tokens.deep_view()),
{
    let mut tokens = tokens;
    let ghost all = tokens.deep_view();
    if tokens.len() == 0 {
        RowPlan::Skip
    } else if tokens.len() == 1 {
        match tokens.pop() {
            Some(token) => {
                assert(token@ == all[0]);
                RowPlan::Word(token)
            },
            None => RowPlan::Skip,
        }
    } else {
        RowPlan::Sentence(MandarinSentence { raw_sentence: hanzi.to_owned(), tokens })
    }
}

/// What the text `hanzi` is taken for: it is cut into tokens with the
/// dictionary, and the number of tokens decides.
pub fn plan_row(hanzi: &str) -> (plan: RowPlan)
    ensures
        plans(plan, hanzi@, tokenisation(hanzi@, recognised_words(hanzi@))),
        plan matches RowPlan::Sentence(sentence) ==> sentence.well_formed(),
{
    plan_tokens(hanzi, tokenise_sentence(hanzi))
}

} // verus!
