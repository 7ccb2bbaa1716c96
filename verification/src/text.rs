//! Sequences of characters: conversion between strings and character
//! vectors, concatenation and joining, splitting on whitespace or at a
//! character, trimming, searching and counting.

use vstd::prelude::*;

verus! {

/// The concatenation of `parts`, in order.
pub open spec fn concat(parts: Seq<Seq<char>>) -> Seq<char>
    decreases parts.len(),
{
    if parts.len() == 0 {
        Seq::empty()
    } else {
        concat(parts.drop_last()) + parts.last()
    }
}

/// `parts` in order, with `separator` between each two neighbours.
pub open spec fn joined(parts: Seq<Seq<char>>, separator: Seq<char>) -> Seq<char>
    decreases parts.len(),
{
    if parts.len() == 0 {
        Seq::empty()
    } else if parts.len() == 1 {
        parts[0]
    } else {
        joined(parts.drop_last(), separator) + separator + parts.last()
    }
}

/// Concatenation distributes over appending one more part.
pub proof fn lemma_concat_push(parts: Seq<Seq<char>>, part: Seq<char>)
    ensures
        concat(parts.push(part)) == concat(parts) + part,
{
    assert(parts.push(part).drop_last() == parts);
}

/// Concatenation distributes over the concatenation of two lists of parts.
pub proof fn lemma_concat_add(left: Seq<Seq<char>>, right: Seq<Seq<char>>)
    ensures
        concat(left + right) == concat(left) + concat(right),
    decreases right.len(),
{
    if right.len() == 0 {
        assert(left + right == left);
    } else {
        lemma_concat_add(left, right.drop_last());
        assert((left + right).drop_last() == left + right.drop_last());
        assert((left + right).last() == right.last());
    }
}

/// `String::push` of std: the string grows by exactly the character given.
#[verifier::external_body]
pub(crate) fn push_char(s: &mut String, c: char)
    ensures
        final(s)@ == old(s)@.push(c),
{
    s.push(c)
}

/// The characters of `s`, in order.
pub fn chars_of(s: &str) -> (chars: Vec<char>)
    ensures
        chars@ == s@,
{
    let mut chars: Vec<char> = Vec::new();
    for c in it: s.chars()
        invariant
            it.seq() == s@,
            chars@ == it.seq().take(it.index() as int),
    {
        chars.push(c);
    }
    chars
}

/// The string made of `chars`, in order.
pub fn string_of(chars: &Vec<char>) -> (s: String)
    ensures
        s@ == chars@,
{
    let mut s = String::new();
    let mut i: usize = 0;
    while i < chars.len()
        invariant
            i <= chars.len(),
            s@ == chars@.take(i as int),
        decreases chars.len() - i,
    {
        push_char(&mut s, chars[i]);
        i = i + 1;
    }
    s
}

/// A copy of `strings`.
pub fn clone_strings(strings: &Vec<String>) -> (copy: Vec<String>)
    ensures
        copy.deep_view() == strings.deep_view(),
{
    let mut copy: Vec<String> = Vec::new();
    let mut i: usize = 0;
    while i < strings.len()
        invariant
            i <= strings.len(),
            copy.deep_view() == strings.deep_view().take(i as int),
        decreases strings.len() - i,
    {
        let ghost before = copy.deep_view();
        copy.push(strings[i].clone());
        assert(copy.deep_view() == before.push(strings[i as int]@));
        i = i + 1;
    }
    assert(strings.deep_view().take(strings.len() as int) == strings.deep_view());
    copy
}

/// Joins `parts` with `separator` between neighbours.
pub fn join_strings(parts: &Vec<String>, separator: &str) -> (out: String)
    ensures
        out@ == joined(parts.deep_view(), separator@),
{
    let mut out = String::new();
    let mut i: usize = 0;
    while i < parts.len()
        invariant
            i <= parts.len(),
            out@ == joined(parts.deep_view().take(i as int), separator@),
        decreases parts.len() - i,
    {
        proof {
            let before = parts.deep_view().take(i as int);
            let after = parts.deep_view().take(i + 1);
            assert(after.drop_last() == before);
            assert(after.last() == parts[i as int]@);
            if i > 0 {
                assert(after.len() > 1);
            } else {
                assert(after.len() == 1);
                assert(before.len() == 0);
            }
        }
        if i > 0 {
            out.append(separator);
        }
        out.append(parts[i].as_str());
        i = i + 1;
    }
    assert(parts.deep_view().take(parts.len() as int) == parts.deep_view());
    out
}

/// Whether `c` has the Unicode property White_Space.
pub open spec fn is_whitespace(c: char) -> bool {
    ||| '\u{9}' <= c <= '\u{d}'
    ||| c == ' '
    ||| c == '\u{85}'
    ||| c == '\u{a0}'
    ||| c == '\u{1680}'
    ||| '\u{2000}' <= c <= '\u{200a}'
    ||| c == '\u{2028}'
    ||| c == '\u{2029}'
    ||| c == '\u{202f}'
    ||| c == '\u{205f}'
    ||| c == '\u{3000}'
}

/// Whether `c` has the Unicode property White_Space.
pub fn char_is_whitespace(c: char) -> (r: bool)
    ensures
        r == is_whitespace(c),
{
    ('\u{9}' <= c && c <= '\u{d}') || c == ' ' || c == '\u{85}' || c == '\u{a0}' || c
        == '\u{1680}' || ('\u{2000}' <= c && c <= '\u{200a}') || c == '\u{2028}' || c
        == '\u{2029}' || c == '\u{202f}' || c == '\u{205f}' || c == '\u{3000}'
}

/// The maximal runs of characters of `s` that hold no whitespace, in order.
///
/// Read character by character: whitespace leaves the fields so far as they
/// are; any other character extends the last field when the character before
/// it was no whitespace either, and starts a new field otherwise.
pub open spec fn whitespace_fields(s: Seq<char>) -> Seq<Seq<char>>
    decreases s.len(),
{
    if s.len() == 0 {
        Seq::empty()
    } else {
        let before = whitespace_fields(s.drop_last());
        if is_whitespace(s.last()) {
            before
        } else if s.len() >= 2 && !is_whitespace(s[s.len() - 2]) {
            before.drop_last().push(before.last().push(s.last()))
        } else {
            before.push(seq![s.last()])
        }
    }
}

/// Whether no character of `s` is whitespace.
pub open spec fn whitespace_free(s: Seq<char>) -> bool {
    forall|i: int| 0 <= i < s.len() ==> !is_whitespace(#[trigger] s[i])
}

/// Every field is non-empty and free of whitespace, and a text that ends in
/// a character other than whitespace has at least one field.
pub proof fn lemma_fields_are_words(s: Seq<char>)
    ensures
        forall|k: int|
            0 <= k < whitespace_fields(s).len() ==> (#[trigger] whitespace_fields(s)[k]).len() > 0
                && whitespace_free(whitespace_fields(s)[k]),
        s.len() > 0 && !is_whitespace(s.last()) ==> whitespace_fields(s).len() > 0,
    decreases s.len(),
{
    if s.len() > 0 {
        lemma_fields_are_words(s.drop_last());
        let before = whitespace_fields(s.drop_last());
        if !is_whitespace(s.last()) && s.len() >= 2 && !is_whitespace(s[s.len() - 2]) {
            assert(s.drop_last().last() == s[s.len() - 2]);
            let grown = before.last().push(s.last());
            assert(whitespace_free(grown)) by {
                assert(whitespace_free(before[before.len() - 1]));
                assert forall|i: int| 0 <= i < grown.len() implies !is_whitespace(
                    #[trigger] grown[i],
                ) by {
                    if i < before.last().len() {
                        assert(grown[i] == before.last()[i]);
                    }
                }
            }
        }
    }
}

/// A text without whitespace that is not empty is one field.
pub proof fn lemma_fields_of_word(s: Seq<char>)
    requires
        s.len() > 0,
        whitespace_free(s),
    ensures
        whitespace_fields(s) == seq![s],
    decreases s.len(),
{
    assert(!is_whitespace(s[s.len() - 1]));
    if s.len() == 1 {
        assert(whitespace_fields(s.drop_last()) =~= Seq::<Seq<char>>::empty());
        assert(seq![s.last()] =~= s);
        assert(Seq::<Seq<char>>::empty().push(s) =~= seq![s]);
    } else {
        assert(!is_whitespace(s[s.len() - 2]));
        assert forall|i: int| 0 <= i < s.drop_last().len() implies !is_whitespace(
            #[trigger] s.drop_last()[i],
        ) by {
            assert(!is_whitespace(s[i]));
        }
        lemma_fields_of_word(s.drop_last());
        let before = seq![s.drop_last()];
        assert(before.last().push(s.last()) =~= s);
        assert(before.drop_last().push(s) =~= seq![s]);
    }
}

/// Whitespace parts the fields: the fields of two texts with a character
/// of whitespace between them are the fields of the first and then those
/// of the second.
pub proof fn lemma_fields_around_whitespace(left: Seq<char>, space: char, right: Seq<char>)
    requires
        is_whitespace(space),
    ensures
        whitespace_fields(left + seq![space] + right) == whitespace_fields(left)
            + whitespace_fields(right),
    decreases right.len(),
{
    let whole = left + seq![space] + right;
    if right.len() == 0 {
        assert(whole.drop_last() =~= left);
        assert(whitespace_fields(left) + whitespace_fields(right) =~= whitespace_fields(left));
    } else {
        let shorter = right.drop_last();
        lemma_fields_around_whitespace(left, space, shorter);
        assert(whole.drop_last() =~= left + seq![space] + shorter);
        assert(whole.last() == right.last());
        let before = whitespace_fields(left) + whitespace_fields(shorter);
        if !is_whitespace(right.last()) {
            if right.len() >= 2 && !is_whitespace(right[right.len() - 2]) {
                assert(whole[whole.len() - 2] == right[right.len() - 2]);
                assert(shorter.last() == right[right.len() - 2]);
                lemma_fields_are_words(shorter);
                let inner = whitespace_fields(shorter);
                assert(before.drop_last() =~= whitespace_fields(left) + inner.drop_last());
                assert(before.last() == inner.last());
                assert(before.drop_last().push(before.last().push(right.last()))
                    =~= whitespace_fields(left) + inner.drop_last().push(
                    inner.last().push(right.last()),
                ));
            } else {
                if right.len() >= 2 {
                    assert(whole[whole.len() - 2] == right[right.len() - 2]);
                } else {
                    assert(whole[whole.len() - 2] == space);
                }
                assert(before.push(seq![right.last()]) =~= whitespace_fields(left)
                    + whitespace_fields(shorter).push(seq![right.last()]));
            }
        }
    }
}

/// The fields of `s`, each as a string of its own.
pub fn split_whitespace(s: &str) -> (fields: Vec<String>)
    ensures
        fields.deep_view() == whitespace_fields(s@),
{
    let chars = chars_of(s);
    let mut fields: Vec<String> = Vec::new();
    let mut current = String::new();
    let mut i: usize = 0;
    while i < chars.len()
        invariant
            i <= chars.len(),
            chars@ == s@,
            current@.len() > 0 ==> i > 0 && !is_whitespace(chars@[i - 1]) && whitespace_fields(
                chars@.take(i as int),
            ) == fields.deep_view().push(current@),
            current@.len() == 0 ==> (i > 0 ==> is_whitespace(chars@[i - 1])) && whitespace_fields(
                chars@.take(i as int),
            ) == fields.deep_view(),
        decreases chars.len() - i,
    {
        let c = chars[i];
        proof {
            let now = chars@.take(i + 1);
            assert(now.drop_last() == chars@.take(i as int));
            assert(now.last() == c);
            if i > 0 {
                assert(now[now.len() - 2] == chars@[i - 1]);
            }
        }
        if char_is_whitespace(c) {
            if current.as_str().unicode_len() > 0 {
                let ghost before = fields.deep_view();
                fields.push(current);
                assert(fields.deep_view() == before.push(current@));
                current = String::new();
            }
        } else {
            let ghost grown = fields.deep_view().push(current@);
            proof {
                if current@.len() > 0 {
                    assert(grown.drop_last() == fields.deep_view());
                    assert(grown.last() == current@);
                }
            }
            push_char(&mut current, c);
            proof {
                if grown.last().len() == 0 {
                    assert(current@ == seq![c]);
                }
            }
        }
        i = i + 1;
    }
    assert(chars@.take(chars.len() as int) == chars@);
    if current.as_str().unicode_len() > 0 {
        let ghost before = fields.deep_view();
        fields.push(current);
        assert(fields.deep_view() == before.push(current@));
    }
    fields
}

/// Whether `word` stands in `text` at index `at`.
pub open spec fn occurs_at(text: Seq<char>, word: Seq<char>, at: int) -> bool {
    &&& 0 <= at
    &&& at + word.len() <= text.len()
    &&& text.subrange(at, at + word.len()) == word
}

/// Whether `at` is the least index from `from` on at which `word` stands in
/// `text`.
pub open spec fn is_first_occurrence(text: Seq<char>, word: Seq<char>, from: int, at: int) -> bool {
    &&& from <= at
    &&& occurs_at(text, word, at)
    &&& forall|earlier: int| from <= earlier < at ==> !occurs_at(text, word, earlier)
}

/// The least index from `from` on at which `word` stands in `text`, if it
/// stands there at all.
pub open spec fn first_occurrence(text: Seq<char>, word: Seq<char>, from: int) -> Option<int> {
    if exists|at: int| is_first_occurrence(text, word, from, at) {
        Some(choose|at: int| is_first_occurrence(text, word, from, at))
    } else {
        None
    }
}

/// A first occurrence is the first occurrence.
pub proof fn lemma_first_occurrence_found(text: Seq<char>, word: Seq<char>, from: int, at: int)
    requires
        is_first_occurrence(text, word, from, at),
    ensures
        first_occurrence(text, word, from) == Some(at),
{
    let chosen = choose|at: int| is_first_occurrence(text, word, from, at);
    assert(is_first_occurrence(text, word, from, chosen));
    if chosen < at {
        assert(!occurs_at(text, word, chosen));
    } else if at < chosen {
        assert(!occurs_at(text, word, at));
    }
}

/// Where a word stands somewhere from `from` on, it has a first occurrence
/// there, and that is no later.
pub proof fn lemma_first_occurrence_exists(text: Seq<char>, word: Seq<char>, from: int, at: int)
    requires
        0 <= from <= at,
        occurs_at(text, word, at),
    ensures
        first_occurrence(text, word, from) matches Some(first) && from <= first <= at
            && is_first_occurrence(text, word, from, first),
    decreases at - from,
{
    if occurs_at(text, word, from) {
        assert(is_first_occurrence(text, word, from, from));
        lemma_first_occurrence_found(text, word, from, from);
    } else {
        lemma_first_occurrence_exists(text, word, from + 1, at);
        let first = first_occurrence(text, word, from + 1)->0;
        assert(is_first_occurrence(text, word, from, first));
        lemma_first_occurrence_found(text, word, from, first);
    }
}

/// Whether `word` stands in `text` at index `at`.
fn matches_at(text: &Vec<char>, word: &Vec<char>, at: usize) -> (r: bool)
    requires
        at + word.len() <= text.len(),
    ensures
        r == occurs_at(text@, word@, at as int),
{
    let mut k: usize = 0;
    while k < word.len()
        invariant
            k <= word.len(),
            at + word.len() <= text.len(),
            forall|j: int| 0 <= j < k ==> text@[at + j] == word@[j],
        decreases word.len() - k,
    {
        if text[at + k] != word[k] {
            assert(text@.subrange(at as int, at + word.len())[k as int] != word@[k as int]);
            return false;
        }
        k = k + 1;
    }
    assert(text@.subrange(at as int, at + word.len()) =~= word@);
    true
}

/// The least index from `from` on at which `word` stands in `text`.
pub fn find_from(text: &Vec<char>, word: &Vec<char>, from: usize) -> (r: Option<usize>)
    ensures
        r matches Some(at) ==> first_occurrence(text@, word@, from as int) == Some(at as int),
        r is None ==> first_occurrence(text@, word@, from as int) is None,
{
    if word.len() > text.len() || from > text.len() - word.len() {
        assert forall|at: int| !is_first_occurrence(text@, word@, from as int, at) by {}
        return None;
    }
    let last = text.len() - word.len();
    let mut at = from;
    loop
        invariant
            from <= at <= last,
            last == text.len() - word.len(),
            forall|earlier: int| from <= earlier < at ==> !occurs_at(text@, word@, earlier),
        decreases last - at,
    {
        if matches_at(text, word, at) {
            proof {
                lemma_first_occurrence_found(text@, word@, from as int, at as int);
            }
            return Some(at);
        }
        if at == last {
            assert forall|found: int| !is_first_occurrence(text@, word@, from as int, found) by {}
            return None;
        }
        at = at + 1;
    }
}

/// The pieces that `separator` cuts `s` into, in order: one more than
/// there are separators, and empty where two separators are neighbours or
/// one stands at an end.
///
/// Read character by character: a separator starts a new, empty piece, and
/// any other character extends the last piece.
pub open spec fn split_on(s: Seq<char>, separator: char) -> Seq<Seq<char>>
    decreases s.len(),
{
    if s.len() == 0 {
        seq![Seq::empty()]
    } else {
        let before = split_on(s.drop_last(), separator);
        if s.last() == separator {
            before.push(Seq::empty())
        } else {
            before.drop_last().push(before.last().push(s.last()))
        }
    }
}

/// A text is cut into at least one piece, no piece holds the separator,
/// and the pieces with the separator between neighbours are the text.
pub proof fn lemma_split_on_partitions(s: Seq<char>, separator: char)
    ensures
        split_on(s, separator).len() >= 1,
        forall|k: int|
            0 <= k < split_on(s, separator).len() ==> !(#[trigger] split_on(s, separator)[k]).contains(
                separator,
            ),
        joined(split_on(s, separator), seq![separator]) == s,
    decreases s.len(),
{
    let pieces = split_on(s, separator);
    if s.len() == 0 {
        assert(joined(pieces, seq![separator]) =~= s);
    } else {
        lemma_split_on_partitions(s.drop_last(), separator);
        let before = split_on(s.drop_last(), separator);
        let rejoined = joined(before, seq![separator]);
        if s.last() == separator {
            assert(pieces.drop_last() == before);
            assert(joined(pieces, seq![separator]) =~= rejoined + seq![separator]
                + Seq::<char>::empty());
            assert(s =~= s.drop_last() + seq![separator]);
        } else {
            let grown = before.last().push(s.last());
            assert(!grown.contains(separator)) by {
                assert(!before[before.len() - 1].contains(separator));
                if grown.contains(separator) {
                    let i = choose|i: int| 0 <= i < grown.len() && grown[i] == separator;
                    assert(before.last()[i] == separator);
                }
            }
            assert forall|k: int| 0 <= k < pieces.len() implies !(#[trigger] pieces[k]).contains(
                separator,
            ) by {
                if k < pieces.len() - 1 {
                    assert(pieces[k] == before[k]);
                }
            }
            if before.len() == 1 {
                assert(rejoined == before.last());
                assert(joined(pieces, seq![separator]) == grown);
            } else {
                assert(pieces.drop_last() == before.drop_last());
                assert(joined(pieces, seq![separator]) == joined(
                    before.drop_last(),
                    seq![separator],
                ) + seq![separator] + grown);
                assert(rejoined == joined(before.drop_last(), seq![separator]) + seq![separator]
                    + before.last());
                assert(joined(pieces, seq![separator]) =~= rejoined.push(s.last()));
            }
            assert(s =~= s.drop_last().push(s.last()));
        }
    }
}

/// The pieces that `separator` cuts `s` into, each as a string of its own.
pub fn split_at_char(s: &str, separator: char) -> (pieces: Vec<String>)
    ensures
        pieces.deep_view() == split_on(s@, separator),
{
    let chars = chars_of(s);
    let mut pieces: Vec<String> = Vec::new();
    let mut current = String::new();
    let mut i: usize = 0;
    while i < chars.len()
        invariant
            i <= chars.len(),
            chars@ == s@,
            split_on(chars@.take(i as int), separator) == pieces.deep_view().push(current@),
        decreases chars.len() - i,
    {
        let c = chars[i];
        proof {
            let now = chars@.take(i + 1);
            assert(now.drop_last() == chars@.take(i as int));
            assert(now.last() == c);
            assert(pieces.deep_view().push(current@).drop_last() == pieces.deep_view());
        }
        if c == separator {
            let ghost before = pieces.deep_view();
            pieces.push(current);
            assert(pieces.deep_view() == before.push(current@));
            current = String::new();
        } else {
            push_char(&mut current, c);
        }
        i = i + 1;
    }
    assert(chars@.take(chars.len() as int) == chars@);
    let ghost before = pieces.deep_view();
    pieces.push(current);
    assert(pieces.deep_view() == before.push(current@));
    pieces
}

/// `s` without the whitespace at its start.
pub open spec fn trim_start(s: Seq<char>) -> Seq<char>
    decreases s.len(),
{
    if s.len() > 0 && is_whitespace(s[0]) {
        trim_start(s.skip(1))
    } else {
        s
    }
}

/// `s` without the whitespace at its end.
pub open spec fn trim_end(s: Seq<char>) -> Seq<char>
    decreases s.len(),
{
    if s.len() > 0 && is_whitespace(s.last()) {
        trim_end(s.drop_last())
    } else {
        s
    }
}

/// `s` without the whitespace at its start and at its end.
pub open spec fn trimmed(s: Seq<char>) -> Seq<char> {
    trim_end(trim_start(s))
}

/// `s` without the whitespace at its start and at its end.
pub fn trim(s: &str) -> (out: String)
    ensures
        out@ == trimmed(s@),
{
    let chars = chars_of(s);
    let mut from: usize = 0;
    assert(chars@.skip(0) == chars@);
    while from < chars.len() && char_is_whitespace(chars[from])
        invariant
            from <= chars.len(),
            trim_start(chars@) == trim_start(chars@.skip(from as int)),
        decreases chars.len() - from,
    {
        assert(chars@.skip(from as int)[0] == chars@[from as int]);
        assert(chars@.skip(from as int).skip(1) == chars@.skip(from + 1));
        from = from + 1;
    }
    assert(trim_start(chars@) == chars@.skip(from as int)) by {
        if from < chars.len() {
            assert(chars@.skip(from as int)[0] == chars@[from as int]);
        }
    }
    let ghost rest = chars@.skip(from as int);
    let mut to: usize = chars.len();
    assert(rest.take(to - from) == rest);
    while to > from && char_is_whitespace(chars[to - 1])
        invariant
            from <= to <= chars.len(),
            rest == chars@.skip(from as int),
            trim_end(rest) == trim_end(rest.take(to - from)),
        decreases to,
    {
        assert(rest.take(to - from).last() == chars@[to - 1]);
        assert(rest.take(to - from).drop_last() == rest.take(to - 1 - from));
        to = to - 1;
    }
    assert(trim_end(rest) == rest.take(to - from)) by {
        if to > from {
            assert(rest.take(to - from).last() == chars@[to - 1]);
        }
    }
    let mut out = String::new();
    let mut i = from;
    while i < to
        invariant
            from <= i <= to <= chars.len(),
            rest == chars@.skip(from as int),
            out@ == rest.take(to - from).take(i - from),
        decreases to - i,
    {
        push_char(&mut out, chars[i]);
        i = i + 1;
    }
    assert(rest.take(to - from).take(to - from) == rest.take(to - from));
    out
}

/// How often `c` stands in `s`.
pub open spec fn count_of(s: Seq<char>, c: char) -> nat
    decreases s.len(),
{
    if s.len() == 0 {
        0
    } else {
        count_of(s.drop_last(), c) + if s.last() == c {
            1nat
        } else {
            0nat
        }
    }
}

/// A character stands in a concatenation as often as in its two parts
/// together.
pub proof fn lemma_count_add(left: Seq<char>, right: Seq<char>, c: char)
    ensures
        count_of(left + right, c) == count_of(left, c) + count_of(right, c),
    decreases right.len(),
{
    if right.len() == 0 {
        assert(left + right == left);
    } else {
        lemma_count_add(left, right.drop_last(), c);
        assert((left + right).drop_last() == left + right.drop_last());
        assert((left + right).last() == right.last());
    }
}

/// A character that does not stand in a text stands in it zero times.
pub proof fn lemma_count_absent(s: Seq<char>, c: char)
    requires
        !s.contains(c),
    ensures
        count_of(s, c) == 0,
    decreases s.len(),
{
    if s.len() > 0 {
        assert(s[s.len() - 1] != c);
        assert forall|i: int| 0 <= i < s.drop_last().len() implies s.drop_last()[i] != c by {
            assert(s[i] != c);
        }
        lemma_count_absent(s.drop_last(), c);
    }
}

/// Parts that do not hold a character, joined with that character, hold
/// it once between each two neighbours: one time less than there are
/// parts.
pub proof fn lemma_joined_separators(parts: Seq<Seq<char>>, c: char)
    requires
        parts.len() > 0,
        forall|k: int| 0 <= k < parts.len() ==> !(#[trigger] parts[k]).contains(c),
    ensures
        count_of(joined(parts, seq![c]), c) == parts.len() - 1,
    decreases parts.len(),
{
    assert(!parts[parts.len() - 1].contains(c));
    lemma_count_absent(parts.last(), c);
    if parts.len() > 1 {
        let before = parts.drop_last();
        assert forall|k: int| 0 <= k < before.len() implies !(#[trigger] before[k]).contains(c) by {
            assert(before[k] == parts[k]);
        }
        lemma_joined_separators(before, c);
        lemma_count_add(joined(before, seq![c]) + seq![c], parts.last(), c);
        lemma_count_add(joined(before, seq![c]), seq![c], c);
        assert(count_of(seq![c], c) == 1) by {
            assert(seq![c].drop_last() =~= Seq::<char>::empty());
            assert(count_of(Seq::<char>::empty(), c) == 0);
        }
    }
}

} // verus!
