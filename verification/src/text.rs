//! Text as a sequence of characters: conversion, search and trimming.

use vstd::prelude::*;

verus! {

/// Whether `c` is white space: a character with the Unicode property
/// `White_Space`.
pub open spec fn is_whitespace(c: char) -> bool {
    let n = c as u32;
    ||| 0x09 <= n <= 0x0D
    ||| n == 0x20
    ||| n == 0x85
    ||| n == 0xA0
    ||| n == 0x1680
    ||| 0x2000 <= n <= 0x200A
    ||| n == 0x2028
    ||| n == 0x2029
    ||| n == 0x202F
    ||| n == 0x205F
    ||| n == 0x3000
}

/// `text` without the white space that it begins with.
pub open spec fn trimmed_start(text: Seq<char>) -> Seq<char>
    decreases text.len(),
{
    if text.len() > 0 && is_whitespace(text[0]) {
        trimmed_start(text.drop_first())
    } else {
        text
    }
}

/// `text` without the white space that it ends with.
pub open spec fn trimmed_end(text: Seq<char>) -> Seq<char>
    decreases text.len(),
{
    if text.len() > 0 && is_whitespace(text.last()) {
        trimmed_end(text.drop_last())
    } else {
        text
    }
}

/// `text` without the white space around it.
pub open spec fn trimmed(text: Seq<char>) -> Seq<char> {
    trimmed_end(trimmed_start(text))
}

/// Trimming the start drops white space from the start and nothing else:
/// what is left is a tail of `text` that does not begin with white space,
/// and all that was dropped is white space.
pub proof fn lemma_trimmed_start(text: Seq<char>)
    ensures
        trimmed_start(text).len() <= text.len(),
        trimmed_start(text) == text.skip(text.len() - trimmed_start(text).len()),
        forall|i: int|
            0 <= i < text.len() - trimmed_start(text).len() ==> is_whitespace(#[trigger] text[i]),
        trimmed_start(text).len() > 0 ==> !is_whitespace(trimmed_start(text).first()),
    decreases text.len(),
{
    if text.len() > 0 && is_whitespace(text[0]) {
        let rest = text.drop_first();
        lemma_trimmed_start(rest);
        let kept = trimmed_start(rest);
        assert(rest.skip(rest.len() - kept.len()) =~= text.skip(text.len() - kept.len()));
        assert forall|i: int| 0 <= i < text.len() - kept.len() implies is_whitespace(
            #[trigger] text[i],
        ) by {
            if i > 0 {
                assert(text[i] == rest[i - 1]);
            }
        }
    } else {
        assert(text.skip(0) =~= text);
    }
}

/// Trimming the end drops white space from the end and nothing else: what
/// is left is a head of `text` that does not end in white space, and all
/// that was dropped is white space.
pub proof fn lemma_trimmed_end(text: Seq<char>)
    ensures
        trimmed_end(text).len() <= text.len(),
        trimmed_end(text) == text.take(trimmed_end(text).len() as int),
        forall|i: int|
            trimmed_end(text).len() <= i < text.len() ==> is_whitespace(#[trigger] text[i]),
        trimmed_end(text).len() > 0 ==> !is_whitespace(trimmed_end(text).last()),
    decreases text.len(),
{
    if text.len() > 0 && is_whitespace(text.last()) {
        let rest = text.drop_last();
        lemma_trimmed_end(rest);
        let kept = trimmed_end(rest);
        assert(rest.take(kept.len() as int) =~= text.take(kept.len() as int));
        assert forall|i: int| kept.len() <= i < text.len() implies is_whitespace(
            #[trigger] text[i],
        ) by {
            if i < rest.len() {
                assert(text[i] == rest[i]);
            }
        }
    } else {
        assert(text.take(text.len() as int) =~= text);
    }
}

/// Trimming leaves a stretch of `text` that neither begins nor ends with
/// white space, and all that lies before and after it in `text` is white
/// space.
pub proof fn lemma_trimmed(text: Seq<char>)
    ensures
        exists|from: int, to: int|
            {
                &&& 0 <= from <= to <= text.len()
                &&& #[trigger] text.subrange(from, to) == trimmed(text)
                &&& forall|i: int| 0 <= i < from ==> is_whitespace(#[trigger] text[i])
                &&& forall|i: int| to <= i < text.len() ==> is_whitespace(#[trigger] text[i])
            },
        trimmed(text).len() > 0 ==> !is_whitespace(trimmed(text).first()) && !is_whitespace(
            trimmed(text).last(),
        ),
{
    let tail = trimmed_start(text);
    let kept = trimmed(text);
    lemma_trimmed_start(text);
    lemma_trimmed_end(tail);
    let from = text.len() - tail.len();
    let to = from + kept.len();
    assert(text.subrange(from, to) =~= kept);
    assert forall|i: int| to <= i < text.len() implies is_whitespace(#[trigger] text[i]) by {
        assert(text[i] == tail[i - from]);
    }
    if kept.len() > 0 {
        assert(kept.first() == tail.first());
    }
}

/// The texts of a list of strings.
pub open spec fn text_views(texts: Seq<String>) -> Seq<Seq<char>> {
    texts.map_values(|text: String| text@)
}

/// Whether `needle` stands in `text` at the index `at`.
pub open spec fn occurs_at(text: Seq<char>, needle: Seq<char>, at: int) -> bool {
    0 <= at && at + needle.len() <= text.len() && text.subrange(at, at + needle.len()) == needle
}

/// The first index at or after `from` at which `needle` stands in `text`.
pub open spec fn first_occurrence_from(text: Seq<char>, needle: Seq<char>, from: int) -> Option<
    int,
>
    decreases text.len() - from + 1,
{
    if from < 0 || from + needle.len() > text.len() {
        None
    } else if occurs_at(text, needle, from) {
        Some(from)
    } else {
        first_occurrence_from(text, needle, from + 1)
    }
}

/// The first index at which `needle` stands in `text`.
pub open spec fn first_occurrence(text: Seq<char>, needle: Seq<char>) -> Option<int> {
    first_occurrence_from(text, needle, 0)
}

/// The first occurrence is an occurrence, and none stands before it. Where
/// there is no first occurrence, there is none at all.
pub proof fn lemma_first_occurrence(text: Seq<char>, needle: Seq<char>, from: int)
    requires
        0 <= from,
    ensures
        match first_occurrence_from(text, needle, from) {
            Some(at) => from <= at && occurs_at(text, needle, at) && forall|k: int|
                from <= k < at ==> !occurs_at(text, needle, k),
            None => forall|k: int| from <= k ==> !occurs_at(text, needle, k),
        },
    decreases text.len() - from + 1,
{
    if from + needle.len() <= text.len() && !occurs_at(text, needle, from) {
        lemma_first_occurrence(text, needle, from + 1);
    }
}

/// `String::push`: appends one character to a string.
#[verifier::external_body]
fn push_char(text: &mut String, c: char)
    ensures
        final(text)@ == old(text)@.push(c),
{
    text.push(c)
}

/// The characters of `text`.
pub fn to_chars(text: &str) -> (chars: Vec<char>)
    ensures
        chars@ == text@,
{
    let mut chars: Vec<char> = Vec::new();
    for c in it: text.chars()
        invariant
            chars@ == text@.take(it.index() as int),
            it.seq() == text@,
    {
        chars.push(c);
    }
    chars
}

/// The string of the characters `chars`.
pub fn to_text(chars: &Vec<char>) -> (text: String)
    ensures
        text@ == chars@,
{
    let mut text = String::new();
    let mut i: usize = 0;
    while i < chars.len()
        invariant
            i <= chars.len(),
            text@ == chars@.take(i as int),
        decreases chars.len() - i,
    {
        push_char(&mut text, chars[i]);
        assert(chars@.take(i as int).push(chars@[i as int]) =~= chars@.take(i as int + 1));
        i = i + 1;
    }
    assert(chars@.take(chars.len() as int) =~= chars@);
    text
}

/// The characters of `chars` from the index `from` up to, not including,
/// `to`.
pub fn slice(chars: &Vec<char>, from: usize, to: usize) -> (part: Vec<char>)
    requires
        from <= to <= chars.len(),
    ensures
        part@ == chars@.subrange(from as int, to as int),
{
    let mut part: Vec<char> = Vec::with_capacity(to - from);
    let mut i: usize = from;
    while i < to
        invariant
            from <= i <= to <= chars.len(),
            part@ == chars@.subrange(from as int, i as int),
        decreases to - i,
    {
        part.push(chars[i]);
        assert(chars@.subrange(from as int, i as int).push(chars@[i as int]) =~= chars@.subrange(
            from as int,
            i as int + 1,
        ));
        i = i + 1;
    }
    part
}

/// Whether `c` is white space.
pub fn whitespace(c: char) -> (yes: bool)
    ensures
        yes == is_whitespace(c),
{
    let n: u32 = c as u32;
    (0x09 <= n && n <= 0x0D) || n == 0x20 || n == 0x85 || n == 0xA0 || n == 0x1680 || (0x2000 <= n
        && n <= 0x200A) || n == 0x2028 || n == 0x2029 || n == 0x202F || n == 0x205F || n == 0x3000
}

/// Whether `needle` stands in `text` at the index `at`.
pub fn matches_at(text: &Vec<char>, needle: &Vec<char>, at: usize) -> (yes: bool)
    ensures
        yes == occurs_at(text@, needle@, at as int),
{
    let n: usize = needle.len();
    if at > text.len() || n > text.len() - at {
        return false;
    }
    let mut k: usize = 0;
    while k < n
        invariant
            at + n <= text.len(),
            n == needle.len(),
            k <= n,
            forall|j: int| 0 <= j < k ==> text@[at + j] == needle@[j],
        decreases n - k,
    {
        if text[at + k] != needle[k] {
            assert(text@.subrange(at as int, at + n)[k as int] != needle@[k as int]);
            return false;
        }
        k = k + 1;
    }
    assert(text@.subrange(at as int, at + n) =~= needle@);
    true
}

/// The first index at which `needle` stands in `text`, if it stands there
/// at all.
pub fn find_first(text: &Vec<char>, needle: &Vec<char>) -> (found: Option<usize>)
    ensures
        match found {
            Some(at) => first_occurrence(text@, needle@) == Some(at as int) && occurs_at(
                text@,
                needle@,
                at as int,
            ),
            None => first_occurrence(text@, needle@) is None,
        },
{
    let n: usize = needle.len();
    if n > text.len() {
        return None;
    }
    let last: usize = text.len() - n;
    let mut at: usize = 0;
    loop
        invariant
            n == needle.len(),
            n <= text.len(),
            last == text.len() - n,
            at <= last,
            first_occurrence(text@, needle@) == first_occurrence_from(text@, needle@, at as int),
        decreases last - at,
    {
        if matches_at(text, needle, at) {
            return Some(at);
        }
        if at == last {
            assert(first_occurrence_from(text@, needle@, at as int + 1) is None);
            return None;
        }
        at = at + 1;
    }
}

/// `chars` without the white space around it.
pub fn trim(chars: &Vec<char>) -> (kept: Vec<char>)
    ensures
        kept@ == trimmed(chars@),
{
    let n: usize = chars.len();
    let mut from: usize = 0;
    assert(chars@.subrange(0, n as int) =~= chars@);
    while from < n && whitespace(chars[from])
        invariant
            n == chars.len(),
            from <= n,
            trimmed_start(chars@) == trimmed_start(chars@.subrange(from as int, n as int)),
        decreases n - from,
    {
        assert(chars@.subrange(from as int, n as int).drop_first() =~= chars@.subrange(
            from as int + 1,
            n as int,
        ));
        from = from + 1;
    }
    let ghost front = chars@.subrange(from as int, n as int);
    assert(trimmed_start(chars@) == front);
    let mut to: usize = n;
    while to > from && whitespace(chars[to - 1])
        invariant
            n == chars.len(),
            from <= to <= n,
            front == chars@.subrange(from as int, n as int),
            trimmed_end(front) == trimmed_end(chars@.subrange(from as int, to as int)),
        decreases to - from,
    {
        assert(chars@.subrange(from as int, to as int).drop_last() =~= chars@.subrange(
            from as int,
            to as int - 1,
        ));
        to = to - 1;
    }
    slice(chars, from, to)
}

} // verus!
