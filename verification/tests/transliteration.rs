use gen_mandarin_anki::transliteration::{
    ReadingAction, ReadingEvent, ReadingJob, ReadingStage,
};

fn parsed(tokens: &[&str]) -> ReadingEvent {
    ReadingEvent::Parsed(tokens.iter().map(|token| token.to_string()).collect())
}

#[test]
fn pinyin_goes_to_the_parser_with_normalised_separators() {
    let (job, action) = ReadingJob::begin("nǐ hǎo， shì jiè".to_string());
    assert_eq!(job.stage, ReadingStage::FirstParse);
    assert_eq!(job.pinyin, "nǐ hǎo， shì jiè");
    match action {
        ReadingAction::Parse(text) => assert_eq!(text, "nǐ,hǎo，shì,jiè"),
        other => panic!("unexpected action {:?}", other),
    }
}

#[test]
fn a_parse_that_succeeds_never_asks_the_operator() {
    let (job, _) = ReadingJob::begin("nǐ hǎo".to_string());
    assert!(job.expects(&parsed(&["nǐ", ",", "hǎo"])));
    let (job, action) = job.step(parsed(&["nǐ", ",", "hǎo"]));
    assert_eq!(job.stage, ReadingStage::Finished);
    match action {
        ReadingAction::Finish(reading) => {
            assert_eq!(reading.pinyin, "nǐ hǎo");
            assert_eq!(reading.zhuyin, "ㄋㄧˇ,ㄏㄠˇ");
        }
        other => panic!("unexpected action {:?}", other),
    }
}

#[test]
fn unconvertible_tokens_pass_through_without_correction() {
    let (job, _) = ReadingJob::begin("hello wán".to_string());
    let (job, action) = job.step(parsed(&["hello", ",", "wán", "*", "!"]));
    assert_eq!(job.stage, ReadingStage::Finished);
    match action {
        ReadingAction::Finish(reading) => {
            assert_eq!(reading.pinyin, "hello wán");
            assert_eq!(reading.zhuyin, "hello,ㄨㄢˊ*!");
        }
        other => panic!("unexpected action {:?}", other),
    }
}

#[test]
fn a_first_failure_asks_the_operator_once() {
    let (job, _) = ReadingJob::begin("lu hǎo".to_string());
    assert!(job.expects(&ReadingEvent::ParseFailed));
    assert!(!job.expects(&ReadingEvent::Corrected("x".to_string())));
    let (job, action) = job.step(ReadingEvent::ParseFailed);
    assert_eq!(job.stage, ReadingStage::AwaitingCorrection);
    match action {
        ReadingAction::AskOperator(candidate) => assert_eq!(candidate, "lu hǎo"),
        other => panic!("unexpected action {:?}", other),
    }
    assert!(!job.expects(&ReadingEvent::ParseFailed));
    assert!(!job.expects(&parsed(&[])));
    assert!(job.expects(&ReadingEvent::Corrected("lù hǎo".to_string())));
    let (job, action) = job.step(ReadingEvent::Corrected("lù hǎo， a".to_string()));
    assert_eq!(job.stage, ReadingStage::SecondParse);
    assert_eq!(job.pinyin, "lu hǎo");
    match action {
        ReadingAction::Parse(text) => assert_eq!(text, "lù,hǎo，a"),
        other => panic!("unexpected action {:?}", other),
    }
    let (job, action) = job.step(parsed(&["lù", ",", "hǎo"]));
    assert_eq!(job.stage, ReadingStage::Finished);
    match action {
        ReadingAction::Finish(reading) => {
            assert_eq!(reading.pinyin, "lu hǎo");
            assert_eq!(reading.zhuyin, "ㄌㄨˋ,ㄏㄠˇ");
        }
        other => panic!("unexpected action {:?}", other),
    }
    assert!(!job.expects(&ReadingEvent::ParseFailed));
    assert!(!job.expects(&parsed(&[])));
    assert!(!job.expects(&ReadingEvent::Corrected(String::new())));
}

#[test]
fn a_second_failure_gives_up() {
    let (job, _) = ReadingJob::begin("x".to_string());
    let (job, _) = job.step(ReadingEvent::ParseFailed);
    let (job, _) = job.step(ReadingEvent::Corrected("y".to_string()));
    let (job, action) = job.step(ReadingEvent::ParseFailed);
    assert_eq!(job.stage, ReadingStage::Finished);
    assert!(matches!(action, ReadingAction::GiveUp));
}

#[test]
fn the_parser_s_tokens_give_the_zhuyin_of_a_sentence() {
    let (job, action) = ReadingJob::begin("nǐ hǎo， shìjiè".to_string());
    let text = match action {
        ReadingAction::Parse(text) => text,
        other => panic!("unexpected action {:?}", other),
    };
    let tokens: Vec<String> = pinyin_parser::PinyinParser::new()
        .preserve_punctuations(true)
        .preserve_miscellaneous(true)
        .parse(&text)
        .collect();
    let (_, action) = job.step(ReadingEvent::Parsed(tokens));
    match action {
        ReadingAction::Finish(reading) => {
            assert_eq!(reading.pinyin, "nǐ hǎo， shìjiè");
            assert_eq!(reading.zhuyin, "ㄋㄧˇ,ㄏㄠˇ，ㄕˋㄐㄧㄝˋ");
        }
        other => panic!("unexpected action {:?}", other),
    }
}
