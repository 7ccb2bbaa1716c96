//! Emphasis markup. A writer brackets a span of text with a delimiter
//! character; on a card the first delimiter of each pair becomes an opening
//! tag and the second a closing tag, and text handed to other services
//! carries no delimiter at all.

use crate::text::{concat, chars_of, lemma_concat_push, push_char};
use vstd::prelude::*;

verus! {

/// The character that brackets an emphasised span.
pub const EMPHASIS_DELIMITER: char = '*';

/// What replaces a delimiter that opens a span.
pub const OPENING_MARKUP: &'static str = "<span class=starred>";

/// What replaces a delimiter that closes a span.
pub const CLOSING_MARKUP: &'static str = "</span>";

/// The text of an item that is a delimiter: the delimiter character alone.
pub open spec fn delimiter_text() -> Seq<char> {
    seq![EMPHASIS_DELIMITER]
}

/// How many of the first `n` items are delimiters.
pub open spec fn delimiters_before(items: Seq<Seq<char>>, n: int) -> nat
    decreases n,
{
    if n <= 0 {
        0
    } else {
        delimiters_before(items, n - 1) + if items[n - 1] == delimiter_text() {
            1nat
        } else {
            0nat
        }
    }
}

/// Whether item `i` is a delimiter that opens a span: an even number of
/// delimiters stand before it.
pub open spec fn opens_at(items: Seq<Seq<char>>, i: int) -> bool {
    items[i] == delimiter_text() && delimiters_before(items, i) % 2 == 0
}

/// Whether item `i` is a delimiter that closes a span: an odd number of
/// delimiters stand before it.
pub open spec fn closes_at(items: Seq<Seq<char>>, i: int) -> bool {
    items[i] == delimiter_text() && delimiters_before(items, i) % 2 == 1
}

/// What item `i` contributes to the marked-up text.
pub open spec fn emphasised_piece(items: Seq<Seq<char>>, i: int) -> Seq<char> {
    if opens_at(items, i) {
        OPENING_MARKUP@
    } else if closes_at(items, i) {
        CLOSING_MARKUP@
    } else {
        items[i]
    }
}

/// The contributions of all items to the marked-up text, in order.
pub open spec fn emphasised_pieces(items: Seq<Seq<char>>) -> Seq<Seq<char>> {
    Seq::new(items.len(), |i: int| emphasised_piece(items, i))
}

/// The marked-up text of `items`.
pub open spec fn emphasised_text(items: Seq<Seq<char>>) -> Seq<char> {
    concat(emphasised_pieces(items))
}

/// Whether a span is still open after all of `items`.
pub open spec fn left_open(items: Seq<Seq<char>>) -> bool {
    delimiters_before(items, items.len() as int) % 2 == 1
}

/// What item `i` contributes to the plain text: nothing for a delimiter.
pub open spec fn plain_piece(items: Seq<Seq<char>>, i: int) -> Seq<char> {
    if items[i] == delimiter_text() {
        Seq::empty()
    } else {
        items[i]
    }
}

/// The contributions of all items to the plain text, in order.
pub open spec fn plain_pieces(items: Seq<Seq<char>>) -> Seq<Seq<char>> {
    Seq::new(items.len(), |i: int| plain_piece(items, i))
}

/// The plain text of `items`.
pub open spec fn plain_text(items: Seq<Seq<char>>) -> Seq<char> {
    concat(plain_pieces(items))
}

/// Each character of `s` as an item of its own.
pub open spec fn single_characters(s: Seq<char>) -> Seq<Seq<char>> {
    Seq::new(s.len(), |i: int| seq![s[i]])
}

/// The one bit of state that rendering carries from item to item: whether a
/// span is open.
pub struct Emphasis {
    pub emphasised: bool,
}

impl Emphasis {
    /// The state before any item: no span is open.
    pub fn new() -> (state: Emphasis)
        ensures
            !state.emphasised,
    {
        Emphasis { emphasised: false }
    }

    /// Passes a delimiter: returns the markup that stands for it and flips
    /// the state.
    pub fn toggle(&mut self) -> (markup: &'static str)
        ensures
            final(self).emphasised == !old(self).emphasised,
            markup@ == if old(self).emphasised {
                CLOSING_MARKUP@
            } else {
                OPENING_MARKUP@
            },
    {
        let markup = if self.emphasised {
            CLOSING_MARKUP
        } else {
            OPENING_MARKUP
        };
        self.emphasised = !self.emphasised;
        markup
    }
}

/// Whether `text` is a delimiter item.
pub fn is_delimiter_text(text: &str) -> (r: bool)
    ensures
        r == (text@ == delimiter_text()),
{
    if text.unicode_len() == 1 {
        let c = text.get_char(0);
        assert(c == EMPHASIS_DELIMITER ==> text@ =~= delimiter_text());
        c == EMPHASIS_DELIMITER
    } else {
        false
    }
}

/// The marked-up text of a stream of items: every delimiter item is
/// replaced, in turn, by the opening and the closing markup, and every
/// other item stands as it is.
pub fn render(items: &Vec<String>) -> (out: String)
    ensures
        out@ == emphasised_text(items.deep_view()),
{
    let ghost all = items.deep_view();
    let mut state = Emphasis::new();
    let mut out = String::new();
    let mut i: usize = 0;
    while i < items.len()
        invariant
            i <= items.len(),
            all == items.deep_view(),
            state.emphasised == (delimiters_before(all, i as int) % 2 == 1),
            out@ == concat(emphasised_pieces(all).take(i as int)),
        decreases items.len() - i,
    {
        proof {
            let pieces = emphasised_pieces(all);
            assert(pieces.take(i + 1) == pieces.take(i as int).push(emphasised_piece(all, i as int)));
            lemma_concat_push(pieces.take(i as int), emphasised_piece(all, i as int));
            assert(all[i as int] == items[i as int]@);
        }
        if is_delimiter_text(items[i].as_str()) {
            let markup = state.toggle();
            out.append(markup);
        } else {
            out.append(items[i].as_str());
        }
        i = i + 1;
    }
    assert(emphasised_pieces(all).take(items.len() as int) == emphasised_pieces(all));
    out
}

/// The plain text of a stream of items: the items in order, without the
/// delimiter items.
pub fn render_plain(items: &Vec<String>) -> (out: String)
    ensures
        out@ == plain_text(items.deep_view()),
{
    let ghost all = items.deep_view();
    let mut out = String::new();
    let mut i: usize = 0;
    while i < items.len()
        invariant
            i <= items.len(),
            all == items.deep_view(),
            out@ == concat(plain_pieces(all).take(i as int)),
        decreases items.len() - i,
    {
        proof {
            let pieces = plain_pieces(all);
            assert(pieces.take(i + 1) == pieces.take(i as int).push(plain_piece(all, i as int)));
            lemma_concat_push(pieces.take(i as int), plain_piece(all, i as int));
            assert(all[i as int] == items[i as int]@);
        }
        if !is_delimiter_text(items[i].as_str()) {
            out.append(items[i].as_str());
        }
        i = i + 1;
    }
    assert(plain_pieces(all).take(items.len() as int) == plain_pieces(all));
    out
}

/// The marked-up text of a phonetic reading, taken character by character:
/// every delimiter character is replaced, in turn, by the opening and the
/// closing markup.
pub fn build_note_reading(reading: &str) -> (out: String)
    ensures
        out@ == emphasised_text(single_characters(reading@)),
{
    let chars = chars_of(reading);
    let ghost all = single_characters(reading@);
    let mut state = Emphasis::new();
    let mut out = String::new();
    let mut i: usize = 0;
    while i < chars.len()
        invariant
            i <= chars.len(),
            chars@ == reading@,
            all == single_characters(reading@),
            state.emphasised == (delimiters_before(all, i as int) % 2 == 1),
            out@ == concat(emphasised_pieces(all).take(i as int)),
        decreases chars.len() - i,
    {
        let c = chars[i];
        proof {
            let pieces = emphasised_pieces(all);
            assert(pieces.take(i + 1) == pieces.take(i as int).push(emphasised_piece(all, i as int)));
            lemma_concat_push(pieces.take(i as int), emphasised_piece(all, i as int));
            assert(all[i as int] == seq![c]);
            assert((all[i as int] == delimiter_text()) == (c == EMPHASIS_DELIMITER)) by {
                if c != EMPHASIS_DELIMITER {
                    assert(seq![c][0] != delimiter_text()[0]);
                }
            }
        }
        if c == EMPHASIS_DELIMITER {
            let markup = state.toggle();
            out.append(markup);
        } else {
            push_char(&mut out, c);
            assert(out@ == concat(emphasised_pieces(all).take(i as int)) + seq![c]);
        }
        i = i + 1;
    }
    assert(emphasised_pieces(all).take(chars.len() as int) == emphasised_pieces(all));
    out
}

/// How many of the first `n` items are rendered as opening markup.
pub open spec fn opened_before(items: Seq<Seq<char>>, n: int) -> nat
    decreases n,
{
    if n <= 0 {
        0
    } else {
        opened_before(items, n - 1) + if opens_at(items, n - 1) {
            1nat
        } else {
            0nat
        }
    }
}

/// How many of the first `n` items are rendered as closing markup.
pub open spec fn closed_before(items: Seq<Seq<char>>, n: int) -> nat
    decreases n,
{
    if n <= 0 {
        0
    } else {
        closed_before(items, n - 1) + if closes_at(items, n - 1) {
            1nat
        } else {
            0nat
        }
    }
}

/// Markup is balanced at every point of a stream. Among the first `n`
/// items every delimiter is rendered as an opening or as a closing tag;
/// no tag closes what was not opened; and the opening tags outnumber the
/// closing ones by one exactly when the number of delimiters is odd.
pub proof fn lemma_markup_balance(items: Seq<Seq<char>>, n: int)
    requires
        0 <= n <= items.len(),
    ensures
        opened_before(items, n) + closed_before(items, n) == delimiters_before(items, n),
        opened_before(items, n) == closed_before(items, n) + delimiters_before(items, n) % 2,
    decreases n,
{
    if n > 0 {
        lemma_markup_balance(items, n - 1);
    }
}

/// With an even number of delimiter items the marked-up text has as many
/// opening as closing tags and no span is left open; with an odd number
/// there is one opening tag more, and the last span stays open.
pub proof fn lemma_render_balanced(items: Seq<Seq<char>>)
    ensures
        delimiters_before(items, items.len() as int) % 2 == 0 ==> !left_open(items)
            && opened_before(items, items.len() as int) == closed_before(
            items,
            items.len() as int,
        ),
        delimiters_before(items, items.len() as int) % 2 == 1 ==> left_open(items)
            && opened_before(items, items.len() as int) == closed_before(
            items,
            items.len() as int,
        ) + 1,
{
    lemma_markup_balance(items, items.len() as int);
}

/// Every character of a concatenation stands in one of its parts.
pub proof fn lemma_concat_contains(parts: Seq<Seq<char>>, c: char)
    requires
        concat(parts).contains(c),
    ensures
        exists|i: int| 0 <= i < parts.len() && (#[trigger] parts[i]).contains(c),
    decreases parts.len(),
{
    if parts.len() > 0 {
        let k = choose|k: int| 0 <= k < concat(parts).len() && concat(parts)[k] == c;
        let head = concat(parts.drop_last());
        if k < head.len() {
            assert(head[k] == c);
            lemma_concat_contains(parts.drop_last(), c);
            let i = choose|i: int|
                0 <= i < parts.drop_last().len() && (#[trigger] parts.drop_last()[i]).contains(c);
            assert(parts[i] == parts.drop_last()[i]);
        } else {
            assert(parts.last()[k - head.len()] == c);
            assert(parts[parts.len() - 1].contains(c));
        }
    }
}

/// The plain text adds nothing: each of its characters stands in an item
/// that is no delimiter.
pub proof fn lemma_plain_adds_nothing(items: Seq<Seq<char>>, c: char)
    requires
        plain_text(items).contains(c),
    ensures
        exists|i: int|
            0 <= i < items.len() && #[trigger] items[i] != delimiter_text() && items[i].contains(c),
{
    lemma_concat_contains(plain_pieces(items), c);
    let i = choose|i: int|
        0 <= i < plain_pieces(items).len() && (#[trigger] plain_pieces(items)[i]).contains(c);
    assert(plain_pieces(items)[i] == plain_piece(items, i));
    assert(items[i] != delimiter_text()) by {
        if items[i] == delimiter_text() {
            let k = choose|k: int|
                0 <= k < plain_piece(items, i).len() && plain_piece(items, i)[k] == c;
        }
    }
}

/// Where every item is either a delimiter or free of the delimiter
/// character, the plain text is free of it.
pub proof fn lemma_plain_has_no_delimiter(items: Seq<Seq<char>>)
    requires
        forall|i: int|
            0 <= i < items.len() ==> #[trigger] items[i] == delimiter_text() || !items[i].contains(
                EMPHASIS_DELIMITER,
            ),
    ensures
        !plain_text(items).contains(EMPHASIS_DELIMITER),
{
    if plain_text(items).contains(EMPHASIS_DELIMITER) {
        lemma_plain_adds_nothing(items, EMPHASIS_DELIMITER);
    }
}

/// The plain text of a stream of single characters is free of the
/// delimiter character.
pub proof fn lemma_plain_characters_have_no_delimiter(s: Seq<char>)
    ensures
        !plain_text(single_characters(s)).contains(EMPHASIS_DELIMITER),
{
    let items = single_characters(s);
    assert forall|i: int| 0 <= i < items.len() implies #[trigger] items[i] == delimiter_text()
        || !items[i].contains(EMPHASIS_DELIMITER) by {
        if items[i].contains(EMPHASIS_DELIMITER) {
            assert(items[i] =~= delimiter_text());
        }
    }
    lemma_plain_has_no_delimiter(items);
}

/// The marked-up text of a phonetic reading is free of the delimiter
/// character: every delimiter has become markup.
pub proof fn lemma_note_reading_has_no_delimiter(s: Seq<char>)
    ensures
        !emphasised_text(single_characters(s)).contains(EMPHASIS_DELIMITER),
{
    let items = single_characters(s);
    if emphasised_text(items).contains(EMPHASIS_DELIMITER) {
        lemma_concat_contains(emphasised_pieces(items), EMPHASIS_DELIMITER);
        let i = choose|i: int|
            0 <= i < emphasised_pieces(items).len() && (#[trigger] emphasised_pieces(
                items,
            )[i]).contains(EMPHASIS_DELIMITER);
        let piece = emphasised_piece(items, i);
        assert(emphasised_pieces(items)[i] == piece);
        let k = choose|k: int| 0 <= k < piece.len() && piece[k] == EMPHASIS_DELIMITER;
        reveal_strlit("<span class=starred>");
        reveal_strlit("</span>");
        if items[i] == delimiter_text() {
            assert(opens_at(items, i) || closes_at(items, i));
        } else {
            assert(items[i] =~= delimiter_text());
        }
    }
}

} // verus!
