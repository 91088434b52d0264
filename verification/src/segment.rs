//! The segments of one window.
//!
//! A window is decoded to a text in which timestamp markers stand between
//! the words. Each marker and the one that follows it bound a segment: the
//! first marker with the second, the second with the third, and so on. The
//! times of a window count from an offset that the caller gives. Times are
//! kept in hundredths of a second.

use vstd::prelude::*;
use crate::error::TranscribeError;
use crate::markup::{
    find_markers, is_numeral, marker_len, marker_len_at, markers, numeral_at, numeral_value,
    parse_timestamp, strip_markers, without_markers,
};
use crate::text::{
    find_first, first_occurrence, is_whitespace, lemma_first_occurrence, lemma_trimmed,
    occurs_at, slice, to_text, trim, trimmed,
};

verus! {

/// A segment in specifications.
pub struct SegmentModel {
    /// When the segment begins, in hundredths of a second.
    pub start_time: nat,
    /// When the segment ends, in hundredths of a second.
    pub end_time: nat,
    /// What was said.
    pub text: Seq<char>,
}

/// A stretch of speech: what was said, and when.
#[derive(Debug)]
pub struct Segment {
    start_time: u128,
    end_time: u128,
    text: String,
}

impl View for Segment {
    type V = SegmentModel;

    closed spec fn view(&self) -> SegmentModel {
        SegmentModel {
            start_time: self.start_time as nat,
            end_time: self.end_time as nat,
            text: self.text@,
        }
    }
}

impl Segment {
    /// When the segment begins, in hundredths of a second from the start of
    /// the recording.
    pub fn start_time(&self) -> (time: u128)
        ensures
            time == self@.start_time,
    {
        self.start_time
    }

    /// When the segment ends, in hundredths of a second from the start of
    /// the recording.
    pub fn end_time(&self) -> (time: u128)
        ensures
            time == self@.end_time,
    {
        self.end_time
    }

    /// What was said.
    pub fn text(&self) -> (text: &String)
        ensures
            text@ == self@.text,
    {
        &self.text
    }
}

/// The segments of a list in specifications.
pub open spec fn models(segments: Seq<Segment>) -> Seq<SegmentModel> {
    segments.map_values(|segment: Segment| segment@)
}

/// The segment between two markers of `window`, given by their numerals.
///
/// Each numeral is looked for from the start of the window. The text runs
/// from two characters before the first numeral to two characters after the
/// second; markers in it and white space around it are dropped. Where
/// nothing is left there is no segment. Where a numeral is not found, or
/// those bounds do not lie in the window in that order, the result is
/// `SegmentExtraction`. Where text is left but one of the numerals does not
/// have the form of a numeral, the result is `TimestampParse`.
pub open spec fn segment_between(
    window: Seq<char>,
    start: Seq<char>,
    end: Seq<char>,
    offset: nat,
) -> Result<Option<SegmentModel>, TranscribeError> {
    match (first_occurrence(window, start), first_occurrence(window, end)) {
        (Some(a), Some(b)) => {
            let to = b + end.len() + 2;
            if 2 <= a && a - 2 <= to && to <= window.len() {
                let text = trimmed(without_markers(window.subrange(a - 2, to)));
                if text.len() == 0 {
                    Ok(None)
                } else if !is_numeral(start) || !is_numeral(end) {
                    Err(TranscribeError::TimestampParse)
                } else {
                    Ok(
                        Some(
                            SegmentModel {
                                start_time: numeral_value(start) + offset,
                                end_time: numeral_value(end) + offset,
                                text,
                            },
                        ),
                    )
                }
            } else {
                Err(TranscribeError::SegmentExtraction)
            }
        },
        _ => Err(TranscribeError::SegmentExtraction),
    }
}

/// The segments of the first `pairs` pairs of markers of `window`: the
/// first marker with the second, the second with the third, and so on. The
/// first failure ends the work.
pub open spec fn pair_segments(window: Seq<char>, pairs: nat, offset: nat) -> Result<
    Seq<SegmentModel>,
    TranscribeError,
>
    decreases pairs,
{
    if pairs == 0 {
        Ok(Seq::empty())
    } else {
        match pair_segments(window, (pairs - 1) as nat, offset) {
            Err(e) => Err(e),
            Ok(before) => {
                let marks = markers(window);
                match segment_between(
                    window,
                    numeral_at(window, marks[pairs - 1]),
                    numeral_at(window, marks[pairs as int]),
                    offset,
                ) {
                    Err(e) => Err(e),
                    Ok(None) => Ok(before),
                    Ok(Some(segment)) => Ok(before.push(segment)),
                }
            },
        }
    }
}

/// The number of pairs that the markers of `window` form.
pub open spec fn pair_count(window: Seq<char>) -> nat {
    if markers(window).len() == 0 {
        0
    } else {
        (markers(window).len() - 1) as nat
    }
}

/// The segments of one window, whose times count from `offset`.
pub open spec fn window_segments(window: Seq<char>, offset: nat) -> Result<
    Seq<SegmentModel>,
    TranscribeError,
> {
    pair_segments(window, pair_count(window), offset)
}

/// A failure among the first pairs of a window is the failure of the window.
pub proof fn lemma_pair_failure_stays(window: Seq<char>, pairs: nat, more: nat, offset: nat)
    requires
        pairs <= more,
        pair_segments(window, pairs, offset) is Err,
    ensures
        pair_segments(window, more, offset) == pair_segments(window, pairs, offset),
    decreases more,
{
    if pairs < more {
        lemma_pair_failure_stays(window, pairs, (more - 1) as nat, offset);
    }
}

/// The numeral of a marker is found in its window, no later than in the
/// marker itself, and two characters follow it there.
pub proof fn lemma_numeral_is_found(window: Seq<char>, at: int)
    requires
        marker_len(window, at) > 0,
    ensures
        first_occurrence(window, numeral_at(window, at)) matches Some(found) && 0 <= found <= at
            + 2 && found + numeral_at(window, at).len() + 2 <= window.len(),
{
    let numeral = numeral_at(window, at);
    assert(occurs_at(window, numeral, at + 2));
    lemma_first_occurrence(window, numeral, 0);
}

/// The segment between two markers cannot be cut out exactly when the first
/// numeral is found less than two characters into the window, or more than
/// two characters after the end of the second numeral where that is found.
/// Where it can be cut out and text is left, reading the times fails exactly
/// when a numeral is not written with the digits `0` to `9`.
pub proof fn lemma_pair_failure(window: Seq<char>, from: int, to: int, offset: nat)
    requires
        marker_len(window, from) > 0,
        marker_len(window, to) > 0,
    ensures
        ({
            let start = numeral_at(window, from);
            let end = numeral_at(window, to);
            let a = first_occurrence(window, start)->Some_0;
            let b = first_occurrence(window, end)->Some_0;
            let made = segment_between(window, start, end, offset);
            &&& made == Err::<Option<SegmentModel>, TranscribeError>(
                TranscribeError::SegmentExtraction,
            ) <==> a < 2 || a - 2 > b + end.len() + 2
            &&& made is Err ==> made == Err::<Option<SegmentModel>, TranscribeError>(
                TranscribeError::SegmentExtraction,
            ) || made == Err::<Option<SegmentModel>, TranscribeError>(
                TranscribeError::TimestampParse,
            )
            &&& made == Err::<Option<SegmentModel>, TranscribeError>(
                TranscribeError::TimestampParse,
            ) ==> !is_numeral(start) || !is_numeral(end)
        }),
{
    lemma_numeral_is_found(window, from);
    lemma_numeral_is_found(window, to);
}

/// Every segment says something: its text is not empty, and neither begins
/// nor ends with white space.
pub open spec fn have_text(segments: Seq<SegmentModel>) -> bool {
    forall|i: int|
        0 <= i < segments.len() ==> {
            &&& (#[trigger] segments[i]).text.len() > 0
            &&& !is_whitespace(segments[i].text.first())
            &&& !is_whitespace(segments[i].text.last())
        }
}

/// Every segment of a window says something.
pub proof fn lemma_pairs_have_text(window: Seq<char>, pairs: nat, offset: nat)
    requires
        pair_segments(window, pairs, offset) is Ok,
    ensures
        have_text(pair_segments(window, pairs, offset)->Ok_0),
    decreases pairs,
{
    if pairs > 0 {
        lemma_pairs_have_text(window, (pairs - 1) as nat, offset);
        let before = pair_segments(window, (pairs - 1) as nat, offset)->Ok_0;
        let now = pair_segments(window, pairs, offset)->Ok_0;
        let marks = markers(window);
        let start = numeral_at(window, marks[pairs - 1]);
        let end = numeral_at(window, marks[pairs as int]);
        match segment_between(window, start, end, offset) {
            Ok(Some(segment)) => {
                let a = first_occurrence(window, start)->Some_0;
                let b = first_occurrence(window, end)->Some_0;
                lemma_trimmed(without_markers(window.subrange(a - 2, b + end.len() + 2)));
                assert(now == before.push(segment));
                assert forall|i: int| 0 <= i < now.len() implies {
                    &&& (#[trigger] now[i]).text.len() > 0
                    &&& !is_whitespace(now[i].text.first())
                    &&& !is_whitespace(now[i].text.last())
                } by {
                    if i < before.len() {
                        assert(now[i] == before[i]);
                    }
                }
            },
            _ => {
                assert(now == before);
            },
        }
    }
}

/// Whether the times of the markers of `window` do not decrease from one
/// marker to the next.
pub open spec fn markers_ascend(window: Seq<char>) -> bool {
    forall|k: int|
        0 < k < markers(window).len() ==> numeral_value(
            numeral_at(window, markers(window)[k - 1]),
        ) <= numeral_value(numeral_at(window, #[trigger] markers(window)[k]))
}

/// Whether each segment begins no later than it ends and no later than the
/// segment that follows it begins.
pub open spec fn in_order(segments: Seq<SegmentModel>) -> bool {
    &&& forall|i: int|
        0 <= i < segments.len() ==> (#[trigger] segments[i]).start_time <= segments[i].end_time
    &&& forall|i: int|
        0 < i < segments.len() ==> segments[i - 1].start_time <= (
        #[trigger] segments[i]).start_time
}

/// The time of the marker `k` of `window`, in hundredths of a second.
pub open spec fn marker_time(window: Seq<char>, k: int) -> nat {
    numeral_value(numeral_at(window, markers(window)[k]))
}

/// Whether every marker of `window` is written with the digits `0` to `9`,
/// and so stands for a time.
pub open spec fn markers_are_plain(window: Seq<char>) -> bool {
    forall|k: int|
        0 <= k < markers(window).len() ==> is_numeral(
            numeral_at(window, #[trigger] markers(window)[k]),
        )
}

/// Where every marker of a window stands for a time, every failure among
/// its pairs is `SegmentExtraction`.
pub proof fn lemma_pairs_only_extraction_fails(window: Seq<char>, pairs: nat, offset: nat)
    requires
        pairs <= pair_count(window),
        markers_are_plain(window),
    ensures
        pair_segments(window, pairs, offset) matches Err(e) ==> e
            == TranscribeError::SegmentExtraction,
    decreases pairs,
{
    if pairs > 0 {
        lemma_pairs_only_extraction_fails(window, (pairs - 1) as nat, offset);
        let marks = markers(window);
        let _ = marks[pairs - 1];
        let _ = marks[pairs as int];
    }
}

/// The pairs of a window fail with `SegmentExtraction` or `TimestampParse`
/// only.
pub proof fn lemma_pair_failures(window: Seq<char>, pairs: nat, offset: nat)
    ensures
        pair_segments(window, pairs, offset) matches Err(e) ==> e
            == TranscribeError::SegmentExtraction || e == TranscribeError::TimestampParse,
    decreases pairs,
{
    if pairs > 0 {
        lemma_pair_failures(window, (pairs - 1) as nat, offset);
    }
}

/// Where the markers of a window do not decrease, its segments are in
/// order, none begins before the window's offset, and none begins after the
/// last marker that was paired.
pub proof fn lemma_pairs_in_order(window: Seq<char>, pairs: nat, offset: nat)
    requires
        markers_ascend(window),
        pairs <= pair_count(window),
        pair_segments(window, pairs, offset) is Ok,
    ensures
        in_order(pair_segments(window, pairs, offset)->Ok_0),
        forall|i: int|
            0 <= i < pair_segments(window, pairs, offset)->Ok_0.len() ==> offset <= (
            #[trigger] pair_segments(window, pairs, offset)->Ok_0[i]).start_time,
        pairs > 0 ==> forall|i: int|
            0 <= i < pair_segments(window, pairs, offset)->Ok_0.len() ==> (
            #[trigger] pair_segments(window, pairs, offset)->Ok_0[i]).start_time <= offset
                + marker_time(window, pairs - 1),
    decreases pairs,
{
    if pairs > 0 {
        let before = pair_segments(window, (pairs - 1) as nat, offset)->Ok_0;
        let now = pair_segments(window, pairs, offset)->Ok_0;
        lemma_pairs_in_order(window, (pairs - 1) as nat, offset);
        let marks = markers(window);
        assert(marker_time(window, pairs - 1) <= marker_time(window, pairs as int)) by {
            assert(0 < pairs < marks.len());
            let _ = marks[pairs as int];
        }
        if pairs > 1 {
            assert(marker_time(window, pairs - 2) <= marker_time(window, pairs - 1)) by {
                let _ = marks[pairs - 1];
            }
        }
        let made = segment_between(
            window,
            numeral_at(window, marks[pairs - 1]),
            numeral_at(window, marks[pairs as int]),
            offset,
        );
        match made {
            Ok(Some(segment)) => {
                assert(now == before.push(segment));
                assert(segment.start_time == offset + marker_time(window, pairs - 1));
                assert(segment.end_time == offset + marker_time(window, pairs as int));
                assert forall|i: int| 0 < i < now.len() implies now[i - 1].start_time <= (
                #[trigger] now[i]).start_time by {
                    if i < before.len() {
                        assert(now[i] == before[i]);
                        assert(now[i - 1] == before[i - 1]);
                    } else {
                        assert(now[i - 1] == before[i - 1]);
                    }
                }
            },
            _ => {
                assert(now == before);
            },
        }
    }
}

/// The segment between two markers of `window`, given by their numerals,
/// with times that count from `offset`.
pub fn segment_of_pair(window: &Vec<char>, start: &Vec<char>, end: &Vec<char>, offset: u128) -> (made:
    Result<Option<Segment>, TranscribeError>)
    requires
        offset + 9999 <= u128::MAX,
    ensures
        match segment_between(window@, start@, end@, offset as nat) {
            Ok(Some(segment)) => made matches Ok(Some(s)) && s@ == segment,
            Ok(None) => made matches Ok(None),
            Err(e) => made matches Err(failure) && failure == e,
        },
{
    let a: usize = match find_first(window, start) {
        Some(a) => a,
        None => {
            return Err(TranscribeError::SegmentExtraction);
        },
    };
    let b: usize = match find_first(window, end) {
        Some(b) => b,
        None => {
            return Err(TranscribeError::SegmentExtraction);
        },
    };
    let n: usize = window.len();
    let after: usize = b + end.len();
    if a < 2 || n - after < 2 || a - 2 > after + 2 {
        return Err(TranscribeError::SegmentExtraction);
    }
    let part = slice(window, a - 2, after + 2);
    let stripped = strip_markers(&part);
    let kept = trim(&stripped);
    if kept.len() == 0 {
        return Ok(None);
    }
    let start_time: u32 = match parse_timestamp(start) {
        Ok(time) => time,
        Err(e) => {
            return Err(e);
        },
    };
    let end_time: u32 = match parse_timestamp(end) {
        Ok(time) => time,
        Err(e) => {
            return Err(e);
        },
    };
    Ok(
        Some(
            Segment {
                start_time: start_time as u128 + offset,
                end_time: end_time as u128 + offset,
                text: to_text(&kept),
            },
        ),
    )
}

/// The segments of one window, with times that count from `offset`.
pub fn segments_of_window(window: &Vec<char>, offset: u128) -> (made: Result<
    Vec<Segment>,
    TranscribeError,
>)
    requires
        offset + 9999 <= u128::MAX,
    ensures
        match window_segments(window@, offset as nat) {
            Ok(segments) => made matches Ok(found) && models(found@) == segments,
            Err(e) => made matches Err(failure) && failure == e,
        },
        made matches Ok(found) ==> forall|k: int|
            0 <= k < found@.len() ==> (#[trigger] found@[k])@.end_time <= offset + 9999,
{
    let marks = find_markers(window);
    let mut found: Vec<Segment> = Vec::new();
    assert(models(found@) =~= Seq::<SegmentModel>::empty());
    if marks.len() < 2 {
        return Ok(found);
    }
    let pairs: usize = marks.len() - 1;
    let mut j: usize = 0;
    while j < pairs
        invariant
            offset + 9999 <= u128::MAX,
            pairs == marks@.len() - 1,
            pairs == pair_count(window@),
            marks@.len() == markers(window@).len(),
            forall|k: int|
                0 <= k < marks@.len() ==> #[trigger] marks@[k] == markers(window@)[k] && marker_len(
                    window@,
                    marks@[k] as int,
                ) > 0,
            j <= pairs,
            pair_segments(window@, j as nat, offset as nat) == Ok::<
                Seq<SegmentModel>,
                TranscribeError,
            >(models(found@)),
            forall|k: int|
                0 <= k < found@.len() ==> (#[trigger] found@[k])@.end_time <= offset + 9999,
        decreases pairs - j,
    {
        let from: usize = marks[j];
        let to: usize = marks[j + 1];
        let from_len: usize = marker_len_at(window, from);
        let to_len: usize = marker_len_at(window, to);
        let start = slice(window, from + 2, from + from_len - 2);
        let end = slice(window, to + 2, to + to_len - 2);
        assert(start@ == numeral_at(window@, markers(window@)[j as int]));
        assert(end@ == numeral_at(window@, markers(window@)[j + 1]));
        match segment_of_pair(window, &start, &end, offset) {
            Err(e) => {
                proof {
                    assert(pair_segments(window@, (j + 1) as nat, offset as nat) == Err::<
                        Seq<SegmentModel>,
                        TranscribeError,
                    >(e));
                    lemma_pair_failure_stays(
                        window@,
                        (j + 1) as nat,
                        pairs as nat,
                        offset as nat,
                    );
                }
                return Err(e);
            },
            Ok(None) => {},
            Ok(Some(segment)) => {
                proof {
                    assert(models(found@.push(segment)) =~= models(found@).push(segment@));
                }
                found.push(segment);
            },
        }
        j = j + 1;
    }
    Ok(found)
}

} // verus!
