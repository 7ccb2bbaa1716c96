use gen_mandarin_anki::config::{
    default_speech_api_voice_name, MandarinReading, MandarinScript, ModelConfig,
};
use gen_mandarin_anki::deck::init_deck;
use gen_mandarin_anki::requests::{
    retry_policy, similar_words_prompt, speech_body, speech_url, transliteration_url,
    ASSISTANT_MODEL, ASSISTANT_ROLE, ASSISTANT_URL, SPEECH_FORMAT, TRANSLATION_URL,
};

#[test]
fn voice_defaults_to_the_taiwanese_one() {
    assert_eq!(default_speech_api_voice_name(), "zh-TW-YunJheNeural");
}

#[test]
fn script_and_reading_have_their_defaults() {
    assert_eq!(MandarinScript::default(), MandarinScript::Traditional);
    assert_eq!(MandarinReading::default(), MandarinReading::Zhuyin);
}

#[test]
fn scripts_have_their_tags_and_names() {
    assert_eq!(MandarinScript::Traditional.build_language(), "zh-Hant");
    assert_eq!(MandarinScript::Simplified.build_language(), "zh-Hans");
    assert_eq!(MandarinScript::Traditional.build_from_script(), "Hant");
    assert_eq!(MandarinScript::Simplified.build_from_script(), "Hans");
    assert_eq!(MandarinScript::Traditional.display_name(), "Traditional Chinese");
    assert_eq!(MandarinScript::Simplified.display_name(), "Simplified Chinese");
}

#[test]
fn deck_has_two_kinds_of_note_with_two_templates_each() {
    let config = ModelConfig { word_model_id: 11, sentence_model_id: 22, deck_id: 33 };
    let (deck, word, sentence) = init_deck(&config);
    assert_eq!(deck.id, 33);
    assert_eq!(deck.name, "Generated Mandarin Flashcards");
    assert_eq!(
        deck.description,
        "A Deck comprised of all the flashcards I have ever generated using my Script"
    );
    assert_eq!(word.id, 11);
    assert_eq!(word.name, "Mandarin Word");
    assert_eq!(
        word.fields,
        vec!["timestamp", "Hanzi", "Definition", "Audio", "Reading", "Similar Words"]
    );
    assert_eq!(sentence.id, 22);
    assert_eq!(sentence.name, "Mandarin Sentence");
    assert_eq!(sentence.fields, vec!["timestamp", "Hanzi", "Meaning", "Audio", "Reading"]);
    for model in [&word, &sentence] {
        assert_eq!(model.templates.len(), 2);
        assert_eq!(model.templates[0].name, "Listening");
        assert_eq!(model.templates[0].question, "Listen.{{Audio}}");
        assert_eq!(model.templates[1].name, "Reading");
        assert_eq!(model.templates[1].question, "{{Hanzi}}");
    }
    assert_eq!(
        word.templates[0].answer,
        r#"
                    {{FrontSide}}
                    <hr id=answer>
                    {{Hanzi}}<br>{{Reading}}<br>{{Definition}}
                    <hr id=answer>
                    {{Similar Words}}
                "#
    );
    assert_eq!(
        word.templates[1].answer,
        r#"
                    {{FrontSide}}
                    <hr id=answer>
                    {{Reading}}<br>{{Definition}}<br>{{Audio}}
                    <hr id=answer>
                    {{Similar Words}}
                "#
    );
    assert_eq!(
        sentence.templates[0].answer,
        r#"
                        {{FrontSide}}
                        <hr id=answer>
                        {{Hanzi}}<br>{{Reading}}<br>{{Meaning}}
                    "#
    );
    assert_eq!(
        sentence.templates[1].answer,
        r#"
                        {{FrontSide}}
                        <hr id=answer>
                        {{Reading}}<br>{{Meaning}}<br>{{Audio}}
                    "#
    );
    assert_eq!(
        word.css,
        "
            .card {
                font-family: arial;
                font-size: 20px;
                text-align: center;
                color: black;
                background-color: white;
            }
        "
    );
    assert_eq!(
        sentence.css,
        "
                .card {
                    font-family: arial;
                    font-size: 20px;
                    text-align: center;
                    color: black;
                    background-color: white;
                }
    
                .starred {
                    color: red;
                }
            "
    );
}

#[test]
fn services_are_addressed_by_region_and_script() {
    assert_eq!(
        speech_url("uksouth"),
        "https://uksouth.tts.speech.microsoft.com/cognitiveservices/v1"
    );
    assert_eq!(
        transliteration_url(&MandarinScript::Traditional),
        "https://api.cognitive.microsofttranslator.com/transliterate?api-version=3.0&language=zh-Hant&fromScript=Hant&toScript=Latn"
    );
    assert_eq!(
        transliteration_url(&MandarinScript::Simplified),
        "https://api.cognitive.microsofttranslator.com/transliterate?api-version=3.0&language=zh-Hans&fromScript=Hans&toScript=Latn"
    );
    assert_eq!(
        TRANSLATION_URL,
        "https://api.cognitive.microsofttranslator.com/translate?api-version=3.0&to=en"
    );
    assert_eq!(ASSISTANT_URL, "https://api.openai.com/v1/chat/completions");
    assert_eq!(ASSISTANT_MODEL, "gpt-3.5-turbo");
    assert_eq!(
        ASSISTANT_ROLE,
        "You are a Taiwanese Mandarin Study Assistant generating study material"
    );
    assert_eq!(SPEECH_FORMAT, "audio-48khz-192kbitrate-mono-mp3");
}

#[test]
fn speech_is_asked_for_in_a_document() {
    assert_eq!(
        speech_body("zh-TW", "zh-TW-YunJheNeural", "你好"),
        format!("
            <speak version='1.0' xml:lang='{0}'>
                <voice xml:lang='{0}' name='{1}'>
                    {2}
                </voice>
            </speak>", "zh-TW", "zh-TW-YunJheNeural", "你好")
    );
}

#[test]
fn assistant_is_asked_for_five_related_words() {
    assert_eq!(
        similar_words_prompt("你好", &MandarinScript::Traditional),
        format!("Generate 5 words closely related to {} which are used commonly in Taiwanese Mandarin.
                                            You should provide the words in {} and the English Translation in CSV format with two columns.",
                                        "你好", "Traditional Chinese")
    );
    assert!(similar_words_prompt("好", &MandarinScript::Simplified).contains("in Simplified Chinese and"));
}

#[test]
fn calls_are_tried_again_with_growing_delays() {
    let settings = retry_policy();
    assert_eq!(settings.first_delay_seconds, 1);
    assert_eq!(settings.longest_delay_seconds, 120);
    assert!(settings.jitter);
}
