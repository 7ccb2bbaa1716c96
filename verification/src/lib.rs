//! Turns Mandarin words and sentences into the fields of language-learning
//! flashcards: tokenisation against a dictionary, phonetic readings in pinyin
//! or zhuyin, and emphasis markup.

pub mod audio;
pub mod config;
pub mod deck;
pub mod dictionary;
pub mod emphasis;
pub mod phonetics;
pub mod requests;
pub mod row;
pub mod sentence;
pub mod sentence_card;
pub mod similar;
pub mod text;
pub mod token;
pub mod tokenizer;
pub mod transliteration;
pub mod word_card;
