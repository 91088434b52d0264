//! The timestamp markers in decoded text.
//!
//! A marker is a numeral of seconds between `<|` and `|>`. The numeral has
//! one or two digits, a point and two more digits: `<|2.50|>`, `<|12.00|>`.
//! Markers are read from left to right, and no two of them overlap.
//!
//! The digits of a marker may be decimal digits of any script. Only a
//! numeral that is written with the digits `0` to `9` stands for a time; a
//! marker with another numeral is a marker all the same, and reading its
//! time fails.

use vstd::prelude::*;
use crate::error::TranscribeError;
use crate::text::slice;

verus! {

/// Whether `c` is one of the digits `0` to `9`.
pub open spec fn is_digit(c: char) -> bool {
    '0' <= c <= '9'
}

/// The number that the digit `c` stands for.
pub open spec fn digit_value(c: char) -> nat {
    (c as u32 - '0' as u32) as nat
}

/// Whether `c` is a decimal digit of any script: a character of the Unicode
/// category `Decimal_Number`.
#[verifier::opaque]
pub open spec fn is_decimal_digit(c: char) -> bool {
    let n = c as u32;
    ||| 0x0030 <= n <= 0x0039
    ||| 0x0660 <= n <= 0x0669
    ||| 0x06F0 <= n <= 0x06F9
    ||| 0x07C0 <= n <= 0x07C9
    ||| 0x0966 <= n <= 0x096F
    ||| 0x09E6 <= n <= 0x09EF
    ||| 0x0A66 <= n <= 0x0A6F
    ||| 0x0AE6 <= n <= 0x0AEF
    ||| 0x0B66 <= n <= 0x0B6F
    ||| 0x0BE6 <= n <= 0x0BEF
    ||| 0x0C66 <= n <= 0x0C6F
    ||| 0x0CE6 <= n <= 0x0CEF
    ||| 0x0D66 <= n <= 0x0D6F
    ||| 0x0DE6 <= n <= 0x0DEF
    ||| 0x0E50 <= n <= 0x0E59
    ||| 0x0ED0 <= n <= 0x0ED9
    ||| 0x0F20 <= n <= 0x0F29
    ||| 0x1040 <= n <= 0x1049
    ||| 0x1090 <= n <= 0x1099
    ||| 0x17E0 <= n <= 0x17E9
    ||| 0x1810 <= n <= 0x1819
    ||| 0x1946 <= n <= 0x194F
    ||| 0x19D0 <= n <= 0x19D9
    ||| 0x1A80 <= n <= 0x1A89
    ||| 0x1A90 <= n <= 0x1A99
    ||| 0x1B50 <= n <= 0x1B59
    ||| 0x1BB0 <= n <= 0x1BB9
    ||| 0x1C40 <= n <= 0x1C49
    ||| 0x1C50 <= n <= 0x1C59
    ||| 0xA620 <= n <= 0xA629
    ||| 0xA8D0 <= n <= 0xA8D9
    ||| 0xA900 <= n <= 0xA909
    ||| 0xA9D0 <= n <= 0xA9D9
    ||| 0xA9F0 <= n <= 0xA9F9
    ||| 0xAA50 <= n <= 0xAA59
    ||| 0xABF0 <= n <= 0xABF9
    ||| 0xFF10 <= n <= 0xFF19
    ||| 0x104A0 <= n <= 0x104A9
    ||| 0x10D30 <= n <= 0x10D39
    ||| 0x10D40 <= n <= 0x10D49
    ||| 0x11066 <= n <= 0x1106F
    ||| 0x110F0 <= n <= 0x110F9
    ||| 0x11136 <= n <= 0x1113F
    ||| 0x111D0 <= n <= 0x111D9
    ||| 0x112F0 <= n <= 0x112F9
    ||| 0x11450 <= n <= 0x11459
    ||| 0x114D0 <= n <= 0x114D9
    ||| 0x11650 <= n <= 0x11659
    ||| 0x116C0 <= n <= 0x116C9
    ||| 0x116D0 <= n <= 0x116E3
    ||| 0x11730 <= n <= 0x11739
    ||| 0x118E0 <= n <= 0x118E9
    ||| 0x11950 <= n <= 0x11959
    ||| 0x11BF0 <= n <= 0x11BF9
    ||| 0x11C50 <= n <= 0x11C59
    ||| 0x11D50 <= n <= 0x11D59
    ||| 0x11DA0 <= n <= 0x11DA9
    ||| 0x11F50 <= n <= 0x11F59
    ||| 0x16130 <= n <= 0x16139
    ||| 0x16A60 <= n <= 0x16A69
    ||| 0x16AC0 <= n <= 0x16AC9
    ||| 0x16B50 <= n <= 0x16B59
    ||| 0x16D70 <= n <= 0x16D79
    ||| 0x1CCF0 <= n <= 0x1CCF9
    ||| 0x1D7CE <= n <= 0x1D7FF
    ||| 0x1E140 <= n <= 0x1E149
    ||| 0x1E2F0 <= n <= 0x1E2F9
    ||| 0x1E4F0 <= n <= 0x1E4F9
    ||| 0x1E5F1 <= n <= 0x1E5FA
    ||| 0x1E950 <= n <= 0x1E959
    ||| 0x1FBF0 <= n <= 0x1FBF9
}

/// Whether `numeral` has the form of a marker's numeral: one or two decimal
/// digits, a point, and two decimal digits.
pub open spec fn is_marker_numeral(numeral: Seq<char>) -> bool {
    ||| {
        &&& numeral.len() == 4
        &&& is_decimal_digit(numeral[0])
        &&& numeral[1] == '.'
        &&& is_decimal_digit(numeral[2])
        &&& is_decimal_digit(numeral[3])
    }
    ||| {
        &&& numeral.len() == 5
        &&& is_decimal_digit(numeral[0])
        &&& is_decimal_digit(numeral[1])
        &&& numeral[2] == '.'
        &&& is_decimal_digit(numeral[3])
        &&& is_decimal_digit(numeral[4])
    }
}

/// Whether `numeral` stands for a time: it has the form of a marker's
/// numeral and is written with the digits `0` to `9`.
pub open spec fn is_numeral(numeral: Seq<char>) -> bool {
    ||| {
        &&& numeral.len() == 4
        &&& is_digit(numeral[0])
        &&& numeral[1] == '.'
        &&& is_digit(numeral[2])
        &&& is_digit(numeral[3])
    }
    ||| {
        &&& numeral.len() == 5
        &&& is_digit(numeral[0])
        &&& is_digit(numeral[1])
        &&& numeral[2] == '.'
        &&& is_digit(numeral[3])
        &&& is_digit(numeral[4])
    }
}

/// The time that a numeral stands for, in hundredths of a second.
pub open spec fn numeral_value(numeral: Seq<char>) -> nat {
    if numeral.len() == 4 {
        digit_value(numeral[0]) * 100 + digit_value(numeral[2]) * 10 + digit_value(numeral[3])
    } else {
        digit_value(numeral[0]) * 1000 + digit_value(numeral[1]) * 100 + digit_value(numeral[3])
            * 10 + digit_value(numeral[4])
    }
}

/// Whether the `len` characters of `text` that begin at `at` are a marker.
pub open spec fn is_marker(text: Seq<char>, at: int, len: int) -> bool {
    &&& 0 <= at
    &&& at + len <= text.len()
    &&& text[at] == '<'
    &&& text[at + 1] == '|'
    &&& is_marker_numeral(text.subrange(at + 2, at + len - 2))
    &&& text[at + len - 2] == '|'
    &&& text[at + len - 1] == '>'
}

/// The length of the marker that begins at `at` in `text`: 8 or 9, or 0
/// where none begins there.
pub open spec fn marker_len(text: Seq<char>, at: int) -> nat {
    if is_marker(text, at, 9) {
        9
    } else if is_marker(text, at, 8) {
        8
    } else {
        0
    }
}

/// The numeral of the marker that begins at `at` in `text`.
pub open spec fn numeral_at(text: Seq<char>, at: int) -> Seq<char> {
    text.subrange(at + 2, at + marker_len(text, at) - 2)
}

/// The indices at or after `from` at which the markers of `text` begin, in
/// rising order.
pub open spec fn markers_from(text: Seq<char>, from: int) -> Seq<int>
    decreases text.len() - from,
{
    if from < 0 || from >= text.len() {
        Seq::empty()
    } else if marker_len(text, from) > 0 {
        seq![from] + markers_from(text, from + marker_len(text, from))
    } else {
        markers_from(text, from + 1)
    }
}

/// The indices at which the markers of `text` begin, in rising order.
pub open spec fn markers(text: Seq<char>) -> Seq<int> {
    markers_from(text, 0)
}

/// `text` from `from` on, with its markers left out.
pub open spec fn without_markers_from(text: Seq<char>, from: int) -> Seq<char>
    decreases text.len() - from,
{
    if from < 0 || from >= text.len() {
        Seq::empty()
    } else if marker_len(text, from) > 0 {
        without_markers_from(text, from + marker_len(text, from))
    } else {
        seq![text[from]] + without_markers_from(text, from + 1)
    }
}

/// `text` with its markers left out.
pub open spec fn without_markers(text: Seq<char>) -> Seq<char> {
    without_markers_from(text, 0)
}

/// Each index that `markers_from` holds is one at which a marker begins, and
/// the indices rise by at least the length of a marker.
pub proof fn lemma_markers_from(text: Seq<char>, from: int)
    requires
        0 <= from,
    ensures
        forall|k: int|
            0 <= k < markers_from(text, from).len() ==> from <= #[trigger] markers_from(
                text,
                from,
            )[k] && marker_len(text, markers_from(text, from)[k]) > 0,
        forall|k: int|
            0 < k < markers_from(text, from).len() ==> markers_from(text, from)[k - 1] + marker_len(
                text,
                markers_from(text, from)[k - 1],
            ) <= #[trigger] markers_from(text, from)[k],
    decreases text.len() - from,
{
    let found = markers_from(text, from);
    if from < text.len() {
        if marker_len(text, from) > 0 {
            let next = from + marker_len(text, from);
            let rest = markers_from(text, next);
            lemma_markers_from(text, next);
            assert(found =~= seq![from] + rest);
            assert forall|k: int| 0 <= k < found.len() implies from <= #[trigger] found[k]
                && marker_len(text, found[k]) > 0 by {
                if k > 0 {
                    assert(found[k] == rest[k - 1]);
                }
            }
            assert forall|k: int| 0 < k < found.len() implies found[k - 1] + marker_len(
                text,
                found[k - 1],
            ) <= #[trigger] found[k] by {
                assert(found[k] == rest[k - 1]);
                if k > 1 {
                    assert(found[k - 1] == rest[k - 2]);
                } else {
                    assert(found[0] == from);
                    assert(next <= rest[0]);
                }
            }
        } else {
            let rest = markers_from(text, from + 1);
            lemma_markers_from(text, from + 1);
            assert(found == rest);
            assert forall|k: int| 0 <= k < found.len() implies from <= #[trigger] found[k]
                && marker_len(text, found[k]) > 0 by {
                assert(from + 1 <= rest[k]);
            }
            assert forall|k: int| 0 < k < found.len() implies found[k - 1] + marker_len(
                text,
                found[k - 1],
            ) <= #[trigger] found[k] by {
                assert(rest[k - 1] + marker_len(text, rest[k - 1]) <= rest[k]);
            }
        }
    } else {
        assert(found.len() == 0);
    }
}

/// No marker begins inside another: from its second character on, a marker
/// holds no `<`.
pub proof fn lemma_markers_do_not_overlap(text: Seq<char>, at: int, inner: int)
    requires
        marker_len(text, at) > 0,
        at < inner < at + marker_len(text, at),
    ensures
        marker_len(text, inner) == 0,
{
    let len = marker_len(text, at) as int;
    let numeral = text.subrange(at + 2, at + len - 2);
    if at + 2 <= inner < at + len - 2 {
        assert(text[inner] == numeral[inner - at - 2]);
        lemma_decimal_digit(text[inner]);
    }
    assert(text[inner] != '<');
}

/// Reading from left to right misses no marker: every index at or after
/// `from` at which a marker begins is among `markers_from(text, from)`.
pub proof fn lemma_markers_complete(text: Seq<char>, from: int, at: int)
    requires
        0 <= from <= at,
        marker_len(text, at) > 0,
    ensures
        markers_from(text, from).contains(at),
    decreases text.len() - from,
{
    let found = markers_from(text, from);
    let len = marker_len(text, from) as int;
    if from == at {
        assert(found =~= seq![from] + markers_from(text, from + len));
        assert(found[0] == at);
    } else if len > 0 {
        if at < from + len {
            lemma_markers_do_not_overlap(text, from, at);
        }
        lemma_markers_complete(text, from + len, at);
        let rest = markers_from(text, from + len);
        let k = choose|k: int| 0 <= k < rest.len() && rest[k] == at;
        assert(found =~= seq![from] + rest);
        assert(found[k + 1] == at);
    } else {
        lemma_markers_complete(text, from + 1, at);
    }
}

/// The digits `0` to `9` are decimal digits, and none of the characters
/// `<`, `|`, `>` and `.` is one.
pub proof fn lemma_decimal_digit(c: char)
    ensures
        is_digit(c) ==> is_decimal_digit(c),
        is_decimal_digit(c) ==> c != '<' && c != '|' && c != '>' && c != '.',
{
    reveal(is_decimal_digit);
}

/// A numeral that stands for a time has the form of a marker's numeral, and
/// stands for less than a hundred seconds.
pub proof fn lemma_numeral(numeral: Seq<char>)
    requires
        is_numeral(numeral),
    ensures
        is_marker_numeral(numeral),
        numeral_value(numeral) <= 9999,
{
    lemma_decimal_digit(numeral[0]);
    lemma_decimal_digit(numeral[1]);
    lemma_decimal_digit(numeral[2]);
    lemma_decimal_digit(numeral[3]);
    if numeral.len() == 5 {
        lemma_decimal_digit(numeral[4]);
    }
}

/// The numeral of a marker has the form of a marker's numeral.
pub proof fn lemma_marker_numeral(text: Seq<char>, at: int)
    requires
        marker_len(text, at) > 0,
    ensures
        is_marker_numeral(numeral_at(text, at)),
{
}

/// Whether `c` is a decimal digit of any script.
pub fn decimal_digit(c: char) -> (yes: bool)
    ensures
        yes == is_decimal_digit(c),
{
    proof {
        reveal(is_decimal_digit);
    }
    let n: u32 = c as u32;
    (0x0030 <= n && n <= 0x0039)
        || (0x0660 <= n && n <= 0x0669)
        || (0x06F0 <= n && n <= 0x06F9)
        || (0x07C0 <= n && n <= 0x07C9)
        || (0x0966 <= n && n <= 0x096F)
        || (0x09E6 <= n && n <= 0x09EF)
        || (0x0A66 <= n && n <= 0x0A6F)
        || (0x0AE6 <= n && n <= 0x0AEF)
        || (0x0B66 <= n && n <= 0x0B6F)
        || (0x0BE6 <= n && n <= 0x0BEF)
        || (0x0C66 <= n && n <= 0x0C6F)
        || (0x0CE6 <= n && n <= 0x0CEF)
        || (0x0D66 <= n && n <= 0x0D6F)
        || (0x0DE6 <= n && n <= 0x0DEF)
        || (0x0E50 <= n && n <= 0x0E59)
        || (0x0ED0 <= n && n <= 0x0ED9)
        || (0x0F20 <= n && n <= 0x0F29)
        || (0x1040 <= n && n <= 0x1049)
        || (0x1090 <= n && n <= 0x1099)
        || (0x17E0 <= n && n <= 0x17E9)
        || (0x1810 <= n && n <= 0x1819)
        || (0x1946 <= n && n <= 0x194F)
        || (0x19D0 <= n && n <= 0x19D9)
        || (0x1A80 <= n && n <= 0x1A89)
        || (0x1A90 <= n && n <= 0x1A99)
        || (0x1B50 <= n && n <= 0x1B59)
        || (0x1BB0 <= n && n <= 0x1BB9)
        || (0x1C40 <= n && n <= 0x1C49)
        || (0x1C50 <= n && n <= 0x1C59)
        || (0xA620 <= n && n <= 0xA629)
        || (0xA8D0 <= n && n <= 0xA8D9)
        || (0xA900 <= n && n <= 0xA909)
        || (0xA9D0 <= n && n <= 0xA9D9)
        || (0xA9F0 <= n && n <= 0xA9F9)
        || (0xAA50 <= n && n <= 0xAA59)
        || (0xABF0 <= n && n <= 0xABF9)
        || (0xFF10 <= n && n <= 0xFF19)
        || (0x104A0 <= n && n <= 0x104A9)
        || (0x10D30 <= n && n <= 0x10D39)
        || (0x10D40 <= n && n <= 0x10D49)
        || (0x11066 <= n && n <= 0x1106F)
        || (0x110F0 <= n && n <= 0x110F9)
        || (0x11136 <= n && n <= 0x1113F)
        || (0x111D0 <= n && n <= 0x111D9)
        || (0x112F0 <= n && n <= 0x112F9)
        || (0x11450 <= n && n <= 0x11459)
        || (0x114D0 <= n && n <= 0x114D9)
        || (0x11650 <= n && n <= 0x11659)
        || (0x116C0 <= n && n <= 0x116C9)
        || (0x116D0 <= n && n <= 0x116E3)
        || (0x11730 <= n && n <= 0x11739)
        || (0x118E0 <= n && n <= 0x118E9)
        || (0x11950 <= n && n <= 0x11959)
        || (0x11BF0 <= n && n <= 0x11BF9)
        || (0x11C50 <= n && n <= 0x11C59)
        || (0x11D50 <= n && n <= 0x11D59)
        || (0x11DA0 <= n && n <= 0x11DA9)
        || (0x11F50 <= n && n <= 0x11F59)
        || (0x16130 <= n && n <= 0x16139)
        || (0x16A60 <= n && n <= 0x16A69)
        || (0x16AC0 <= n && n <= 0x16AC9)
        || (0x16B50 <= n && n <= 0x16B59)
        || (0x16D70 <= n && n <= 0x16D79)
        || (0x1CCF0 <= n && n <= 0x1CCF9)
        || (0x1D7CE <= n && n <= 0x1D7FF)
        || (0x1E140 <= n && n <= 0x1E149)
        || (0x1E2F0 <= n && n <= 0x1E2F9)
        || (0x1E4F0 <= n && n <= 0x1E4F9)
        || (0x1E5F1 <= n && n <= 0x1E5FA)
        || (0x1E950 <= n && n <= 0x1E959)
        || (0x1FBF0 <= n && n <= 0x1FBF9)
}

/// Whether `numeral` has the form of a marker's numeral.
pub fn marker_numeral(numeral: &Vec<char>) -> (yes: bool)
    ensures
        yes == is_marker_numeral(numeral@),
{
    let n: usize = numeral.len();
    if n == 4 {
        decimal_digit(numeral[0]) && numeral[1] == '.' && decimal_digit(numeral[2])
            && decimal_digit(numeral[3])
    } else if n == 5 {
        decimal_digit(numeral[0]) && decimal_digit(numeral[1]) && numeral[2] == '.'
            && decimal_digit(numeral[3]) && decimal_digit(numeral[4])
    } else {
        false
    }
}

/// The number that the digit `c` stands for, if `c` is a digit.
pub fn digit(c: char) -> (value: Option<u32>)
    ensures
        match value {
            Some(v) => is_digit(c) && v == digit_value(c),
            None => !is_digit(c),
        },
{
    let n: u32 = c as u32;
    if 48 <= n && n <= 57 {
        Some(n - 48)
    } else {
        None
    }
}

/// Reads a numeral as a time in hundredths of a second. Fails with
/// `TimestampParse` exactly when `numeral` does not stand for a time.
pub fn parse_timestamp(numeral: &Vec<char>) -> (time: Result<u32, TranscribeError>)
    ensures
        match time {
            Ok(t) => is_numeral(numeral@) && t == numeral_value(numeral@) && t <= 9999,
            Err(e) => !is_numeral(numeral@) && e == TranscribeError::TimestampParse,
        },
{
    let n: usize = numeral.len();
    if n != 4 && n != 5 {
        return Err(TranscribeError::TimestampParse);
    }
    let whole: usize = n - 3;
    if numeral[whole] != '.' {
        return Err(TranscribeError::TimestampParse);
    }
    let mut seconds: u32 = 0;
    let mut i: usize = 0;
    while i < whole
        invariant
            n == numeral.len(),
            whole == n - 3,
            1 <= whole <= 2,
            i <= whole,
            forall|j: int| 0 <= j < i ==> is_digit(numeral@[j]),
            i == 0 ==> seconds == 0,
            i == 1 ==> seconds == digit_value(numeral@[0]),
            i == 2 ==> seconds == digit_value(numeral@[0]) * 10 + digit_value(numeral@[1]),
        decreases whole - i,
    {
        match digit(numeral[i]) {
            Some(d) => {
                seconds = seconds * 10 + d;
            },
            None => {
                return Err(TranscribeError::TimestampParse);
            },
        }
        i = i + 1;
    }
    match (digit(numeral[whole + 1]), digit(numeral[whole + 2])) {
        (Some(tenths), Some(hundredths)) => Ok(seconds * 100 + tenths * 10 + hundredths),
        _ => Err(TranscribeError::TimestampParse),
    }
}

/// The length of the marker that begins at `at`: 8 or 9, or 0 where none
/// begins there.
pub fn marker_len_at(text: &Vec<char>, at: usize) -> (len: usize)
    ensures
        len == marker_len(text@, at as int),
        len == 0 || len == 8 || len == 9,
        at + len <= text.len() || len == 0,
{
    let n: usize = text.len();
    if at >= n || n - at < 8 {
        return 0;
    }
    if text[at] != '<' || text[at + 1] != '|' {
        return 0;
    }
    if n - at >= 9 && text[at + 7] == '|' && text[at + 8] == '>' {
        let numeral = slice(text, at + 2, at + 7);
        if marker_numeral(&numeral) {
            return 9;
        }
    }
    if text[at + 6] == '|' && text[at + 7] == '>' {
        let numeral = slice(text, at + 2, at + 6);
        if marker_numeral(&numeral) {
            return 8;
        }
    }
    0
}

/// The indices at which the markers of `text` begin, in rising order.
pub fn find_markers(text: &Vec<char>) -> (found: Vec<usize>)
    ensures
        found@.len() == markers(text@).len(),
        forall|k: int|
            0 <= k < found@.len() ==> #[trigger] found@[k] == markers(text@)[k] && marker_len(
                text@,
                found@[k] as int,
            ) > 0,
{
    let n: usize = text.len();
    let mut found: Vec<usize> = Vec::new();
    let ghost mut seen: Seq<int> = Seq::empty();
    let mut at: usize = 0;
    while at < n
        invariant
            n == text.len(),
            at <= n,
            seen.len() == found@.len(),
            forall|k: int| 0 <= k < found@.len() ==> #[trigger] found@[k] == seen[k],
            markers(text@) == seen + markers_from(text@, at as int),
        decreases n - at,
    {
        let len: usize = marker_len_at(text, at);
        if len > 0 {
            found.push(at);
            proof {
                let rest = markers_from(text@, at + len);
                assert(markers_from(text@, at as int) =~= seq![at as int] + rest);
                assert(seen + (seq![at as int] + rest) =~= seen.push(at as int) + rest);
                seen = seen.push(at as int);
            }
            at = at + len;
        } else {
            at = at + 1;
        }
    }
    proof {
        assert(seen + markers_from(text@, at as int) =~= seen);
        lemma_markers_from(text@, 0);
    }
    found
}

/// `text` with its markers left out.
pub fn strip_markers(text: &Vec<char>) -> (kept: Vec<char>)
    ensures
        kept@ == without_markers(text@),
{
    let n: usize = text.len();
    let mut kept: Vec<char> = Vec::new();
    let mut at: usize = 0;
    while at < n
        invariant
            n == text.len(),
            at <= n,
            without_markers(text@) == kept@ + without_markers_from(text@, at as int),
        decreases n - at,
    {
        let len: usize = marker_len_at(text, at);
        if len > 0 {
            at = at + len;
        } else {
            proof {
                let rest = without_markers_from(text@, at + 1);
                assert(without_markers_from(text@, at as int) =~= seq![text@[at as int]] + rest);
                assert(kept@ + (seq![text@[at as int]] + rest) =~= kept@.push(text@[at as int])
                    + rest);
            }
            kept.push(text[at]);
            at = at + 1;
        }
    }
    assert(kept@ + without_markers_from(text@, at as int) =~= kept@);
    kept
}

} // verus!
