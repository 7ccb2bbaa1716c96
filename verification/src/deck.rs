//! The deck and its two kinds of note: which fields a note of each kind
//! has, and the two templates that make cards of it.

use crate::config::ModelConfig;
use vstd::prelude::*;

verus! {

/// The name of the deck.
pub const DECK_NAME: &'static str = "Generated Mandarin Flashcards";

/// What the deck says of itself.
pub const DECK_DESCRIPTION: &'static str =
    "A Deck comprised of all the flashcards I have ever generated using my Script";

/// The name of the kind of note that holds a word.
pub const WORD_MODEL_NAME: &'static str = "Mandarin Word";

/// The name of the kind of note that holds a sentence.
pub const SENTENCE_MODEL_NAME: &'static str = "Mandarin Sentence";

/// The name of the template that asks by sound.
pub const LISTENING_NAME: &'static str = "Listening";

/// The front of a card that asks by sound.
pub const LISTENING_QUESTION: &'static str = "Listen.{{Audio}}";

/// The name of the template that asks by script.
pub const READING_NAME: &'static str = "Reading";

/// The front of a card that asks by script.
pub const READING_QUESTION: &'static str = "{{Hanzi}}";

/// The back of a word's card that asks by sound.
pub const WORD_LISTENING_ANSWER: &'static str =
    "\n                    {{FrontSide}}\n                    <hr id=answer>\n                    {{Hanzi}}<br>{{Reading}}<br>{{Definition}}\n                    <hr id=answer>\n                    {{Similar Words}}\n                ";

/// The back of a word's card that asks by script.
pub const WORD_READING_ANSWER: &'static str =
    "\n                    {{FrontSide}}\n                    <hr id=answer>\n                    {{Reading}}<br>{{Definition}}<br>{{Audio}}\n                    <hr id=answer>\n                    {{Similar Words}}\n                ";

/// The style of a word's cards.
pub const WORD_STYLE: &'static str =
    "\n            .card {\n                font-family: arial;\n                font-size: 20px;\n                text-align: center;\n                color: black;\n                background-color: white;\n            }\n        ";

/// The back of a sentence's card that asks by sound.
pub const SENTENCE_LISTENING_ANSWER: &'static str =
    "\n                        {{FrontSide}}\n                        <hr id=answer>\n                        {{Hanzi}}<br>{{Reading}}<br>{{Meaning}}\n                    ";

/// The back of a sentence's card that asks by script.
pub const SENTENCE_READING_ANSWER: &'static str =
    "\n                        {{FrontSide}}\n                        <hr id=answer>\n                        {{Reading}}<br>{{Meaning}}<br>{{Audio}}\n                    ";

/// The style of a sentence's cards, with the colour of emphasised spans.
pub const SENTENCE_STYLE: &'static str =
    "\n                .card {\n                    font-family: arial;\n                    font-size: 20px;\n                    text-align: center;\n                    color: black;\n                    background-color: white;\n                }\n    \n                .starred {\n                    color: red;\n                }\n            ";

/// A deck: its identifier, its name and what it says of itself.
#[derive(Debug)]
pub struct DeckLayout {
    pub id: i64,
    pub name: String,
    pub description: String,
}

/// A template: its name and the two sides of the card that it makes.
#[derive(Debug)]
pub struct TemplateLayout {
    pub name: String,
    pub question: String,
    pub answer: String,
}

/// A kind of note: its identifier and name, the names of its fields in
/// order, its templates and its style.
#[derive(Debug)]
pub struct ModelLayout {
    pub id: i64,
    pub name: String,
    pub fields: Vec<String>,
    pub templates: Vec<TemplateLayout>,
    pub css: String,
}

/// The fields of a word's note, in order.
pub open spec fn word_field_names() -> Seq<Seq<char>> {
    seq!["timestamp"@, "Hanzi"@, "Definition"@, "Audio"@, "Reading"@, "Similar Words"@]
}

/// The fields of a sentence's note, in order.
pub open spec fn sentence_field_names() -> Seq<Seq<char>> {
    seq!["timestamp"@, "Hanzi"@, "Meaning"@, "Audio"@, "Reading"@]
}

/// Whether `template` has the name and the two sides given.
pub open spec fn is_template(
    template: TemplateLayout,
    name: Seq<char>,
    question: Seq<char>,
    answer: Seq<char>,
) -> bool {
    template.name@ == name && template.question@ == question && template.answer@ == answer
}

/// The two templates of a kind of note: the one that asks by sound, then
/// the one that asks by script.
fn two_templates(listening_answer: &str, reading_answer: &str) -> (templates: Vec<TemplateLayout>)
    ensures
        templates.len() == 2,
        is_template(templates[0], LISTENING_NAME@, LISTENING_QUESTION@, listening_answer@),
        is_template(templates[1], READING_NAME@, READING_QUESTION@, reading_answer@),
{
    let mut templates: Vec<TemplateLayout> = Vec::new();
    templates.push(
        TemplateLayout {
            name: LISTENING_NAME.to_owned(),
            question: LISTENING_QUESTION.to_owned(),
            answer: listening_answer.to_owned(),
        },
    );
    templates.push(
        TemplateLayout {
            name: READING_NAME.to_owned(),
            question: READING_QUESTION.to_owned(),
            answer: reading_answer.to_owned(),
        },
    );
    templates
}

/// The deck and its two kinds of note, under the identifiers configured:
/// first the deck, then the kind that holds a word, then the kind that
/// holds a sentence.
pub fn init_deck(model_config: &ModelConfig) -> (layout: (DeckLayout, ModelLayout, ModelLayout))
    ensures
        layout.0.id == model_config.deck_id,
        layout.0.name@ == DECK_NAME@,
        layout.0.description@ == DECK_DESCRIPTION@,
        layout.1.id == model_config.word_model_id,
        layout.1.name@ == WORD_MODEL_NAME@,
        layout.1.fields.deep_view() == word_field_names(),
        layout.1.templates.len() == 2,
        is_template(
            layout.1.templates[0],
            LISTENING_NAME@,
            LISTENING_QUESTION@,
            WORD_LISTENING_ANSWER@,
        ),
        is_template(layout.1.templates[1], READING_NAME@, READING_QUESTION@, WORD_READING_ANSWER@),
        layout.1.css@ == WORD_STYLE@,
        layout.2.id == model_config.sentence_model_id,
        layout.2.name@ == SENTENCE_MODEL_NAME@,
        layout.2.fields.deep_view() == sentence_field_names(),
        layout.2.templates.len() == 2,
        is_template(
            layout.2.templates[0],
            LISTENING_NAME@,
            LISTENING_QUESTION@,
            SENTENCE_LISTENING_ANSWER@,
        ),
        is_template(
            layout.2.templates[1],
            READING_NAME@,
            READING_QUESTION@,
            SENTENCE_READING_ANSWER@,
        ),
        layout.2.css@ == SENTENCE_STYLE@,
{
    let deck = DeckLayout {
        id: model_config.deck_id,
        name: DECK_NAME.to_owned(),
        description: DECK_DESCRIPTION.to_owned(),
    };
    let mut word_fields: Vec<String> = Vec::new();
    word_fields.push("timestamp".to_owned());
    word_fields.push("Hanzi".to_owned());
    word_fields.push("Definition".to_owned());
    word_fields.push("Audio".to_owned());
    word_fields.push("Reading".to_owned());
    word_fields.push("Similar Words".to_owned());
    assert(word_fields.deep_view() =~= word_field_names());
    let word_model = ModelLayout {
        id: model_config.word_model_id,
        name: WORD_MODEL_NAME.to_owned(),
        fields: word_fields,
        templates: two_templates(WORD_LISTENING_ANSWER, WORD_READING_ANSWER),
        css: WORD_STYLE.to_owned(),
    };
    let mut sentence_fields: Vec<String> = Vec::new();
    sentence_fields.push("timestamp".to_owned());
    sentence_fields.push("Hanzi".to_owned());
    sentence_fields.push("Meaning".to_owned());
    sentence_fields.push("Audio".to_owned());
    sentence_fields.push("Reading".to_owned());
    assert(sentence_fields.deep_view() =~= sentence_field_names());
    let sentence_model = ModelLayout {
        id: model_config.sentence_model_id,
        name: SENTENCE_MODEL_NAME.to_owned(),
        fields: sentence_fields,
        templates: two_templates(SENTENCE_LISTENING_ANSWER, SENTENCE_READING_ANSWER),
        css: SENTENCE_STYLE.to_owned(),
    };
    (deck, word_model, sentence_model)
}

} // verus!
