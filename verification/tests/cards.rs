use gen_mandarin_anki::audio::{fresh_file_name, AudioFile};
use gen_mandarin_anki::config::MandarinReading;
use gen_mandarin_anki::dictionary::DictionaryEntry;
use gen_mandarin_anki::row::{plan_row, plan_tokens, RowPlan};
use gen_mandarin_anki::sentence::MandarinSentence;
use gen_mandarin_anki::sentence_card::{SentenceAction, SentenceEvent, SentenceJob, SentenceStage};
use gen_mandarin_anki::similar::SimilarWord;
use gen_mandarin_anki::token::Token;
use gen_mandarin_anki::transliteration::SentenceReading;
use gen_mandarin_anki::word_card::{WordAction, WordEvent, WordFailure, WordJob, WordStage};

fn recording(name: &str) -> AudioFile {
    AudioFile { directory: "/tmp/audio".to_string(), file_name: name.to_string() }
}

fn word_of(text: &str) -> Token {
    match plan_row(text) {
        RowPlan::Word(token) => token,
        other => panic!("{:?} is no word: {:?}", text, other),
    }
}

fn sentence_of(text: &str) -> MandarinSentence {
    match plan_row(text) {
        RowPlan::Sentence(sentence) => sentence,
        other => panic!("{:?} is no sentence: {:?}", text, other),
    }
}

fn plain_token(text: &str, word_entry: Option<Vec<DictionaryEntry>>) -> Token {
    Token { text: text.to_string(), word_entry }
}

fn glossed_entry(numbers: &str, glosses: &[&str]) -> DictionaryEntry {
    DictionaryEntry {
        traditional: String::new(),
        simplified: String::new(),
        pinyin_marks: String::new(),
        pinyin_numbers: numbers.to_string(),
        english: glosses.iter().map(|gloss| gloss.to_string()).collect(),
    }
}

#[test]
fn rows_are_told_apart_by_the_number_of_their_tokens() {
    assert!(matches!(plan_row(""), RowPlan::Skip));
    match plan_row("基金會") {
        RowPlan::Word(token) => {
            assert_eq!(token.text, "基金會");
            assert!(token.has_entries());
        }
        other => panic!("unexpected plan {:?}", other),
    }
    match plan_row("a") {
        RowPlan::Word(token) => {
            assert_eq!(token.text, "a");
            assert!(token.word_entry.is_none());
        }
        other => panic!("unexpected plan {:?}", other),
    }
    match plan_row("我朋友是個街友*基金會*的員工") {
        RowPlan::Sentence(sentence) => {
            assert_eq!(sentence.raw_sentence, "我朋友是個街友*基金會*的員工");
            assert!(sentence.tokens.len() >= 2);
            let texts: Vec<String> = sentence.tokens.iter().map(|token| token.text.clone()).collect();
            assert_eq!(texts.concat(), sentence.raw_sentence);
        }
        other => panic!("unexpected plan {:?}", other),
    }
    assert!(matches!(plan_row("ab"), RowPlan::Sentence(_)));
}

#[test]
fn plan_follows_the_tokens_given() {
    assert!(matches!(plan_tokens("whatever", Vec::new()), RowPlan::Skip));
    match plan_tokens("x", vec![plain_token("x", None)]) {
        RowPlan::Word(token) => assert_eq!(token.text, "x"),
        other => panic!("unexpected plan {:?}", other),
    }
    match plan_tokens("xy", vec![plain_token("x", None), plain_token("y", Some(Vec::new()))]) {
        RowPlan::Sentence(sentence) => {
            assert_eq!(sentence.raw_sentence, "xy");
            assert_eq!(sentence.tokens.len(), 2);
            assert_eq!(sentence.tokens[0].text, "x");
            assert_eq!(sentence.tokens[1].text, "y");
        }
        other => panic!("unexpected plan {:?}", other),
    }
}

#[test]
fn a_word_of_the_dictionary_gets_its_card() {
    let (job, action) = WordJob::begin(word_of("你好"), Some(String::new()), MandarinReading::Zhuyin);
    match &job.stage {
        WordStage::AwaitingAudio { definition } => assert_eq!(definition, "hello; hi"),
        other => panic!("unexpected stage {:?}", other),
    }
    match action {
        WordAction::Synthesise(text) => assert_eq!(text, "你好"),
        other => panic!("unexpected action {:?}", other),
    }
    let audio = recording(&fresh_file_name("你好"));
    let file_name = audio.file_name.clone();
    assert!(job.expects(&WordEvent::Synthesised(recording("x"))));
    assert!(!job.expects(&WordEvent::Translated(String::new())));
    let (job, action) = job.step(WordEvent::Synthesised(audio));
    assert!(matches!(job.stage, WordStage::AwaitingSimilarWords { .. }));
    match action {
        WordAction::Suggest(word) => assert_eq!(word, "你好"),
        other => panic!("unexpected action {:?}", other),
    }
    let words = vec![
        SimilarWord { word: "再見".to_string(), translation: "goodbye".to_string() },
        SimilarWord { word: "謝謝".to_string(), translation: "thanks".to_string() },
    ];
    let (job, action) =
        job.step(WordEvent::Suggested { words, timestamp: "1700000000000000000".to_string() });
    assert!(matches!(job.stage, WordStage::Finished));
    match action {
        WordAction::Emit { card, audio } => {
            assert_eq!(audio.file_name, file_name);
            assert_eq!(audio.directory, "/tmp/audio");
            assert_eq!(card.timestamp, "1700000000000000000");
            assert_eq!(card.hanzi, "你好");
            assert_eq!(card.definition, "hello; hi");
            assert!(!card.definition.is_empty());
            assert_eq!(card.audio, format!("[sound:{}]", file_name));
            assert!(card.audio.starts_with("[sound:%E4%BD%A0%"));
            assert!(card.audio.ends_with(".mp3]"));
            assert_eq!(card.reading, "ㄋㄧˇ,ㄏㄠˇ");
            assert_eq!(
                card.similar_words,
                "再見, ㄗㄞˋ,ㄐㄧㄢˋ, goodbye<br>謝謝, ㄒㄧㄝˋ,ㄒㄧㄝ˙, thanks"
            );
            let fields = card.fields();
            assert_eq!(fields.len(), 6);
            assert_eq!(fields[0], "1700000000000000000");
            assert_eq!(fields[1], "你好");
            assert_eq!(fields[2], "hello; hi");
            assert_eq!(fields[3], format!("[sound:{}]", file_name));
            assert_eq!(fields[4], "ㄋㄧˇ,ㄏㄠˇ");
            assert_eq!(fields[5], "再見, ㄗㄞˋ,ㄐㄧㄢˋ, goodbye<br>謝謝, ㄒㄧㄝˋ,ㄒㄧㄝ˙, thanks");
        }
        other => panic!("unexpected action {:?}", other),
    }
}

#[test]
fn a_definition_given_with_the_word_comes_first() {
    let (job, action) =
        WordJob::begin(word_of("基金會"), Some("a charity".to_string()), MandarinReading::Pinyin);
    match &job.stage {
        WordStage::AwaitingAudio { definition } => assert_eq!(definition, "a charity"),
        other => panic!("unexpected stage {:?}", other),
    }
    assert!(matches!(action, WordAction::Synthesise(_)));
    let (job, _) = WordJob::begin(word_of("基金會"), None, MandarinReading::Pinyin);
    match &job.stage {
        WordStage::AwaitingAudio { definition } => {
            assert_eq!(definition, "foundation (institution supported by an endowment)")
        }
        other => panic!("unexpected stage {:?}", other),
    }
}

#[test]
fn a_word_without_glosses_is_translated_first() {
    let token = plain_token("好", Some(vec![glossed_entry("hao3", &[])]));
    let (job, action) = WordJob::begin(token, None, MandarinReading::Pinyin);
    assert!(matches!(job.stage, WordStage::AwaitingTranslation));
    match action {
        WordAction::Translate(text) => assert_eq!(text, "好"),
        other => panic!("unexpected action {:?}", other),
    }
    assert!(job.expects(&WordEvent::Translated("good".to_string())));
    assert!(!job.expects(&WordEvent::Synthesised(recording("x"))));
    let (job, action) = job.step(WordEvent::Translated("good".to_string()));
    match &job.stage {
        WordStage::AwaitingAudio { definition } => assert_eq!(definition, "good"),
        other => panic!("unexpected stage {:?}", other),
    }
    match action {
        WordAction::Synthesise(text) => assert_eq!(text, "好"),
        other => panic!("unexpected action {:?}", other),
    }
    let (job, _) = job.step(WordEvent::Synthesised(recording("hao.mp3")));
    assert!(job.expects(&WordEvent::Suggested { words: Vec::new(), timestamp: String::new() }));
    let (job, action) = job.step(WordEvent::Suggested { words: Vec::new(), timestamp: "7".to_string() });
    assert!(!job.expects(&WordEvent::Suggested { words: Vec::new(), timestamp: String::new() }));
    match action {
        WordAction::Emit { card, audio } => {
            assert_eq!(audio.file_name, "hao.mp3");
            assert_eq!(
                card.fields(),
                vec!["7", "好", "good", "[sound:hao.mp3]", "ㄏㄠˇ", ""]
            );
        }
        other => panic!("unexpected action {:?}", other),
    }
}

#[test]
fn what_the_dictionary_does_not_know_gets_no_card() {
    for token in [plain_token("a", None), plain_token("好", Some(Vec::new()))] {
        let (job, action) = WordJob::begin(token, Some("given".to_string()), MandarinReading::Zhuyin);
        assert!(matches!(job.stage, WordStage::Finished));
        assert!(matches!(action, WordAction::Skip));
        assert!(!job.expects(&WordEvent::Translated(String::new())));
    }
    let (job, action) = WordJob::begin(word_of("!"), None, MandarinReading::Zhuyin);
    assert!(matches!(job.stage, WordStage::Finished));
    assert!(matches!(action, WordAction::Skip));
    let (job, action) = SentenceJob::begin(sentence_of("abc def!"), None, MandarinReading::Zhuyin);
    assert!(matches!(job.stage, SentenceStage::Finished));
    assert!(matches!(action, SentenceAction::Skip));
    assert!(!job.expects(&SentenceEvent::Translated(String::new())));
}

#[test]
fn a_related_word_outside_the_dictionary_fails_the_card() {
    let (job, _) = WordJob::begin(word_of("你好"), None, MandarinReading::Zhuyin);
    let (job, _) = job.step(WordEvent::Synthesised(recording("a.mp3")));
    let words = vec![SimilarWord { word: "zzz".to_string(), translation: "nothing".to_string() }];
    let (job, action) = job.step(WordEvent::Suggested { words, timestamp: "1".to_string() });
    assert!(matches!(job.stage, WordStage::Finished));
    assert!(matches!(action, WordAction::Fail(WordFailure::UnknownRelatedWord)));
}

#[test]
fn a_word_without_reading_fails_the_card() {
    let token = plain_token("好", Some(vec![glossed_entry("", &["good"])]));
    let (job, _) = WordJob::begin(token, None, MandarinReading::Zhuyin);
    let (job, _) = job.step(WordEvent::Synthesised(recording("a.mp3")));
    let (_, action) = job.step(WordEvent::Suggested { words: Vec::new(), timestamp: "1".to_string() });
    assert!(matches!(action, WordAction::Fail(WordFailure::NoReading)));
}

#[test]
fn a_sentence_gets_its_card() {
    let raw = "你今天看起來很*時尚*";
    let (job, action) = SentenceJob::begin(sentence_of(raw), None, MandarinReading::Zhuyin);
    assert!(matches!(job.stage, SentenceStage::AwaitingTranslation));
    match action {
        SentenceAction::Translate(text) => assert_eq!(text, "你今天看起來很時尚"),
        other => panic!("unexpected action {:?}", other),
    }
    assert!(job.expects(&SentenceEvent::Translated(String::new())));
    let (job, action) = job.step(SentenceEvent::Translated("You look fashionable today".to_string()));
    match action {
        SentenceAction::Transliterate(text) => assert_eq!(text, raw),
        other => panic!("unexpected action {:?}", other),
    }
    let reading = SentenceReading {
        pinyin: "nǐ jīn tiān kàn qǐ lái hěn *shí shàng*".to_string(),
        zhuyin: "ㄋㄧˇㄐㄧㄣㄊㄧㄢ*ㄕˊㄕㄤˋ*".to_string(),
    };
    assert!(!job.expects(&SentenceEvent::Translated(String::new())));
    let (job, action) = job.step(SentenceEvent::Transliterated(reading));
    match &job.stage {
        SentenceStage::AwaitingAudio { definition, reading } => {
            assert_eq!(definition, "You look fashionable today");
            assert_eq!(reading, "ㄋㄧˇㄐㄧㄣㄊㄧㄢ<span class=starred>ㄕˊㄕㄤˋ</span>");
        }
        other => panic!("unexpected stage {:?}", other),
    }
    match action {
        SentenceAction::Synthesise(text) => assert_eq!(text, "你今天看起來很時尚"),
        other => panic!("unexpected action {:?}", other),
    }
    let (job, action) = job.step(SentenceEvent::Synthesised {
        audio: recording("s.mp3"),
        timestamp: "42".to_string(),
    });
    assert!(matches!(job.stage, SentenceStage::Finished));
    match action {
        SentenceAction::Emit { card, audio } => {
            assert_eq!(audio.file_name, "s.mp3");
            assert_eq!(
                card.fields(),
                vec![
                    "42",
                    "你今天看起來很<span class=starred>時尚</span>",
                    "You look fashionable today",
                    "[sound:s.mp3]",
                    "ㄋㄧˇㄐㄧㄣㄊㄧㄢ<span class=starred>ㄕˊㄕㄤˋ</span>",
                ]
            );
        }
        other => panic!("unexpected action {:?}", other),
    }
}

#[test]
fn a_sentence_with_a_definition_is_not_translated() {
    let raw = "我朋友是個街友*基金會*的員工";
    let (job, action) = SentenceJob::begin(
        sentence_of(raw),
        Some("My friend works at a homelessness charity".to_string()),
        MandarinReading::Pinyin,
    );
    match &job.stage {
        SentenceStage::AwaitingReading { definition } => {
            assert_eq!(definition, "My friend works at a homelessness charity")
        }
        other => panic!("unexpected stage {:?}", other),
    }
    match action {
        SentenceAction::Transliterate(text) => assert_eq!(text, raw),
        other => panic!("unexpected action {:?}", other),
    }
    let reading = SentenceReading { pinyin: "a *b* c".to_string(), zhuyin: "unused".to_string() };
    let (job, _) = job.step(SentenceEvent::Transliterated(reading));
    match &job.stage {
        SentenceStage::AwaitingAudio { reading, .. } => {
            assert_eq!(reading, "a <span class=starred>b</span> c")
        }
        other => panic!("unexpected stage {:?}", other),
    }
    let (job, action) = SentenceJob::begin(sentence_of(raw), Some(String::new()), MandarinReading::Pinyin);
    assert!(matches!(job.stage, SentenceStage::AwaitingTranslation));
    assert!(matches!(action, SentenceAction::Translate(_)));
}
