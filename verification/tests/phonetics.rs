use gen_mandarin_anki::dictionary::DictionaryEntry;
use gen_mandarin_anki::phonetics::{assemble_zhuyin, normalise_separators, syllable_reading};
use gen_mandarin_anki::token::Token;
use gen_mandarin_anki::tokenizer::tokenise_sentence;

fn entry_with_numbers(numbers: &str) -> DictionaryEntry {
    DictionaryEntry {
        traditional: String::new(),
        simplified: String::new(),
        pinyin_marks: String::new(),
        pinyin_numbers: numbers.to_string(),
        english: Vec::new(),
    }
}

fn entry_with_glosses(glosses: &[&str]) -> DictionaryEntry {
    DictionaryEntry {
        traditional: String::new(),
        simplified: String::new(),
        pinyin_marks: String::new(),
        pinyin_numbers: String::new(),
        english: glosses.iter().map(|gloss| gloss.to_string()).collect(),
    }
}

#[test]
fn test_derive_zhuyin() {
    let word = tokenise_sentence("刮目");
    println!("Parsed Word: {:#?}", word);
    let first = &word[0].word_entry.as_ref().unwrap()[0];
    println!("Generated Sentence: {:#?}", first.derive_zhuyin());
    assert_eq!(first.pinyin_numbers, "gua1");
    assert_eq!(first.derive_zhuyin(), "ㄍㄨㄚ");
}

#[test]
fn a_syllable_without_zhuyin_stands_as_it_is() {
    assert_eq!(syllable_reading("Wan4", None), "Wan4");
    assert_eq!(syllable_reading("wan4", Some("ㄨㄢˋ".to_string())), "ㄨㄢˋ");
    assert_eq!(syllable_reading("", None), "");
}

#[test]
fn every_syllable_gives_one_segment() {
    assert_eq!(entry_with_numbers("ni3 hao3").derive_zhuyin(), "ㄋㄧˇ,ㄏㄠˇ");
    assert_eq!(entry_with_numbers("ji1 jin1 hui4").derive_zhuyin(), "ㄐㄧ,ㄐㄧㄣ,ㄏㄨㄟˋ");
    assert_eq!(entry_with_numbers("  ni3 \t hao3\n").derive_zhuyin(), "ㄋㄧˇ,ㄏㄠˇ");
    assert_eq!(entry_with_numbers("Wan4").derive_zhuyin(), "Wan4");
    assert_eq!(entry_with_numbers("ni3 Wan4 hao3").derive_zhuyin(), "ㄋㄧˇ,Wan4,ㄏㄠˇ");
    assert_eq!(entry_with_numbers("xie4 xie5").derive_zhuyin(), "ㄒㄧㄝˋ,ㄒㄧㄝ˙");
    assert_eq!(entry_with_numbers("").derive_zhuyin(), "");
    assert_eq!(entry_with_numbers("   ").derive_zhuyin(), "");
    for numbers in ["ma1", "ni3 hao3", "kan4 qi3 lai5", "yi1 er4 san1 si4 wu3", "A B C D E F"] {
        let syllables = numbers.split_whitespace().count();
        let reading = entry_with_numbers(numbers).derive_zhuyin();
        assert_eq!(reading.split(',').count(), syllables);
    }
}

#[test]
fn zhuyin_of_a_syllable_is_the_converter_s_own() {
    for syllable in ["ma3", "lv4", "zhi1", "r5", "e5", "Wan4", "xx", "ma", "ni3hao3"] {
        let expected = pinyin_zhuyin::encode_zhuyin(syllable).unwrap_or(syllable.to_string());
        assert_eq!(entry_with_numbers(syllable).derive_zhuyin(), expected);
    }
    for syllable in ["mǎ", "nǚ", "ér", "ê", "hello", "，", ","] {
        let expected = pinyin_zhuyin::pinyin_to_zhuyin(syllable).unwrap_or(syllable.to_string());
        assert_eq!(assemble_zhuyin(&vec![syllable.to_string()]), expected);
    }
}

#[test]
fn reading_of_a_word_joins_the_readings_of_its_entries() {
    let token = Token {
        text: "万".to_string(),
        word_entry: Some(vec![
            entry_with_numbers("mo4"),
            entry_with_numbers("Wan4"),
            entry_with_numbers("wan4"),
        ]),
    };
    assert_eq!(token.build_reading_allow_multiple(), Some("ㄇㄛˋ,Wan4,ㄨㄢˋ".to_string()));
    let single = Token { text: "你好".to_string(), word_entry: Some(vec![entry_with_numbers("ni3 hao3")]) };
    assert_eq!(single.build_reading_allow_multiple(), Some("ㄋㄧˇ,ㄏㄠˇ".to_string()));
    let silent = Token { text: "x".to_string(), word_entry: Some(vec![entry_with_numbers("")]) };
    assert_eq!(silent.build_reading_allow_multiple(), None);
    let unknown = Token { text: "x".to_string(), word_entry: Some(Vec::new()) };
    assert_eq!(unknown.build_reading_allow_multiple(), None);
    let two_silent = Token {
        text: "x".to_string(),
        word_entry: Some(vec![entry_with_numbers(""), entry_with_numbers("")]),
    };
    assert_eq!(two_silent.build_reading_allow_multiple(), Some(",".to_string()));
}

#[test]
fn definition_of_a_word_joins_all_glosses() {
    let token = Token {
        text: "万".to_string(),
        word_entry: Some(vec![
            entry_with_glosses(&["surname Wan"]),
            entry_with_glosses(&[]),
            entry_with_glosses(&["ten thousand", "a great number"]),
        ]),
    };
    assert_eq!(
        token.build_definition(),
        Some("surname Wan, ten thousand, a great number".to_string())
    );
    assert!(token.has_entries());
    let character = Token { text: "!".to_string(), word_entry: None };
    assert_eq!(character.build_definition(), None);
    assert!(!character.has_entries());
    let unknown = Token { text: "x".to_string(), word_entry: Some(Vec::new()) };
    assert_eq!(unknown.build_definition(), None);
    assert!(!unknown.has_entries());
    let glossless = Token { text: "x".to_string(), word_entry: Some(vec![entry_with_glosses(&[])]) };
    assert_eq!(glossless.build_definition(), None);
    assert!(glossless.has_entries());
    let empty_gloss = Token { text: "x".to_string(), word_entry: Some(vec![entry_with_glosses(&[""])]) };
    assert_eq!(empty_gloss.build_definition(), None);
    let empty_glosses =
        Token { text: "x".to_string(), word_entry: Some(vec![entry_with_glosses(&["", ""])]) };
    assert_eq!(empty_glosses.build_definition(), Some(", ".to_string()));
}

#[test]
fn dictionary_words_have_definition_and_reading() {
    let tokens = tokenise_sentence("基金會");
    assert_eq!(tokens.len(), 1);
    assert_eq!(
        tokens[0].build_definition(),
        Some("foundation (institution supported by an endowment)".to_string())
    );
    assert_eq!(tokens[0].build_reading_allow_multiple(), Some("ㄐㄧ,ㄐㄧㄣ,ㄏㄨㄟˋ".to_string()));
}

#[test]
fn separators_are_normalised_for_the_parser() {
    assert_eq!(normalise_separators("nǐ hǎo"), "nǐ,hǎo");
    assert_eq!(normalise_separators("nǐ hǎo， shì jiè"), "nǐ,hǎo，shì,jiè");
    assert_eq!(normalise_separators("，,，,"), "，，");
    assert_eq!(normalise_separators("， ，"), "，，");
    assert_eq!(normalise_separators("，，,"), "，，");
    assert_eq!(normalise_separators("a,，b"), "a,，b");
    assert_eq!(normalise_separators("  "), ",,");
    assert_eq!(normalise_separators(""), "");
    assert_eq!(normalise_separators("，"), "，");
    for text in ["dōu shì yīn wèi， cái huì", "，, ，", "a  b", "*chǒng* tā，"] {
        assert_eq!(normalise_separators(text), text.replace(" ", ",").replace("，,", "，"));
    }
}

#[test]
fn zhuyin_of_a_sentence_is_put_together_token_by_token() {
    let tokens: Vec<String> =
        ["nǐ", "hǎo", "，", "xyz", "*", "ma"].iter().map(|token| token.to_string()).collect();
    assert_eq!(assemble_zhuyin(&tokens), "ㄋㄧˇㄏㄠˇ，xyz*ㄇㄚ˙");
    assert_eq!(assemble_zhuyin(&Vec::new()), "");
}
