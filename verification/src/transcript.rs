//! The transcript of a recording: the segments of all its windows, and
//! their text.
//!
//! The times of a window count from the window's start, so an offset is
//! carried from window to window: the end of the last segment made so far.

use vstd::prelude::*;
use crate::error::TranscribeError;
use crate::segment::{
    have_text, in_order, lemma_pair_failures, lemma_pairs_have_text, lemma_pairs_in_order,
    lemma_pairs_only_extraction_fails, markers_are_plain, markers_ascend, models, pair_count,
    segments_of_window, window_segments, Segment, SegmentModel,
};
use crate::text::{is_whitespace, text_views, to_chars};

verus! {

/// The texts of a list of segments.
pub open spec fn segment_texts(segments: Seq<SegmentModel>) -> Seq<Seq<char>> {
    segments.map_values(|segment: SegmentModel| segment.text)
}

/// The texts, with one space between each two of them.
pub open spec fn joined(texts: Seq<Seq<char>>) -> Seq<char>
    decreases texts.len(),
{
    if texts.len() == 0 {
        Seq::empty()
    } else if texts.len() == 1 {
        texts[0]
    } else {
        joined(texts.drop_last()) + seq![' '] + texts.last()
    }
}

/// The segments of the first `count` windows, and the offset for the window
/// that follows them. A window that yields no segment leaves the offset as
/// it was.
pub open spec fn parsed(windows: Seq<Seq<char>>, count: nat) -> Result<
    (Seq<SegmentModel>, nat),
    TranscribeError,
>
    decreases count,
{
    if count == 0 {
        Ok((Seq::empty(), 0))
    } else {
        match parsed(windows, (count - 1) as nat) {
            Err(e) => Err(e),
            Ok((before, offset)) => match window_segments(windows[count - 1], offset) {
                Err(e) => Err(e),
                Ok(more) => Ok(
                    (
                        before + more,
                        if more.len() > 0 {
                            more.last().end_time
                        } else {
                            offset
                        },
                    ),
                ),
            },
        }
    }
}

/// A failure among the first windows is the failure of them all.
pub proof fn lemma_window_failure_stays(windows: Seq<Seq<char>>, count: nat, more: nat)
    requires
        count <= more,
        parsed(windows, count) is Err,
    ensures
        parsed(windows, more) == parsed(windows, count),
    decreases more,
{
    if count < more {
        lemma_window_failure_stays(windows, count, (more - 1) as nat);
    }
}

/// Every segment of a transcript says something.
pub proof fn lemma_segments_have_text(windows: Seq<Seq<char>>, count: nat)
    requires
        parsed(windows, count) is Ok,
    ensures
        have_text(parsed(windows, count)->Ok_0.0),
    decreases count,
{
    if count > 0 {
        lemma_segments_have_text(windows, (count - 1) as nat);
        let (before, offset) = parsed(windows, (count - 1) as nat)->Ok_0;
        let window = windows[count - 1];
        let more = window_segments(window, offset)->Ok_0;
        let now = parsed(windows, count)->Ok_0.0;
        lemma_pairs_have_text(window, pair_count(window), offset);
        assert(now == before + more);
        assert forall|i: int| 0 <= i < now.len() implies {
            &&& (#[trigger] now[i]).text.len() > 0
            &&& !is_whitespace(now[i].text.first())
            &&& !is_whitespace(now[i].text.last())
        } by {
            if i < before.len() {
                assert(now[i] == before[i]);
            } else {
                assert(now[i] == more[i - before.len()]);
            }
        }
    }
}

/// Where every marker of every window stands for a time, a transcript is
/// refused with `SegmentExtraction` only.
pub proof fn lemma_only_extraction_fails(windows: Seq<Seq<char>>, count: nat)
    requires
        count <= windows.len(),
        forall|w: int| 0 <= w < count ==> markers_are_plain(#[trigger] windows[w]),
    ensures
        parsed(windows, count) matches Err(e) ==> e == TranscribeError::SegmentExtraction,
    decreases count,
{
    if count > 0 {
        lemma_only_extraction_fails(windows, (count - 1) as nat);
        match parsed(windows, (count - 1) as nat) {
            Ok((before, offset)) => {
                lemma_pairs_only_extraction_fails(
                    windows[count - 1],
                    pair_count(windows[count - 1]),
                    offset,
                );
            },
            Err(e) => {},
        }
    }
}

/// A transcript is refused with `SegmentExtraction` or `TimestampParse`
/// only.
pub proof fn lemma_failures(windows: Seq<Seq<char>>, count: nat)
    ensures
        parsed(windows, count) matches Err(e) ==> e == TranscribeError::SegmentExtraction || e
            == TranscribeError::TimestampParse,
    decreases count,
{
    if count > 0 {
        lemma_failures(windows, (count - 1) as nat);
        match parsed(windows, (count - 1) as nat) {
            Ok((before, offset)) => {
                lemma_pair_failures(windows[count - 1], pair_count(windows[count - 1]), offset);
            },
            Err(e) => {},
        }
    }
}

/// Where the markers of no window decrease, the segments of a transcript
/// are in order: each begins no later than it ends, and no later than the
/// next begins. The offset is the end of the last segment.
pub proof fn lemma_segments_in_order(windows: Seq<Seq<char>>, count: nat)
    requires
        count <= windows.len(),
        forall|w: int| 0 <= w < count ==> markers_ascend(#[trigger] windows[w]),
        parsed(windows, count) is Ok,
    ensures
        in_order(parsed(windows, count)->Ok_0.0),
        parsed(windows, count)->Ok_0.0.len() > 0 ==> parsed(windows, count)->Ok_0.0.last().end_time
            == parsed(windows, count)->Ok_0.1,
    decreases count,
{
    if count > 0 {
        lemma_segments_in_order(windows, (count - 1) as nat);
        let (before, offset) = parsed(windows, (count - 1) as nat)->Ok_0;
        let window = windows[count - 1];
        let more = window_segments(window, offset)->Ok_0;
        let now = parsed(windows, count)->Ok_0.0;
        assert(now == before + more);
        lemma_pairs_in_order(window, pair_count(window), offset);
        assert forall|i: int| 0 <= i < now.len() implies (#[trigger] now[i]).start_time
            <= now[i].end_time by {
            if i < before.len() {
                assert(now[i] == before[i]);
            } else {
                assert(now[i] == more[i - before.len()]);
            }
        }
        assert forall|i: int| 0 < i < now.len() implies now[i - 1].start_time <= (
        #[trigger] now[i]).start_time by {
            if i < before.len() {
                assert(now[i] == before[i]);
                assert(now[i - 1] == before[i - 1]);
            } else if i == before.len() {
                assert(now[i] == more[0]);
                assert(now[i - 1] == before.last());
                assert(before.last().start_time <= before.last().end_time);
            } else {
                assert(now[i] == more[i - before.len()]);
                assert(now[i - 1] == more[i - 1 - before.len()]);
            }
        }
        if more.len() > 0 {
            assert(now.last() == more.last());
        } else {
            assert(now =~= before);
        }
    }
}

/// A transcript in specifications.
pub struct TranscriptModel {
    /// The decoded text of each window.
    pub raw_segments: Seq<Seq<char>>,
    /// The segments of all windows, in their order.
    pub segments: Seq<SegmentModel>,
    /// The texts of the segments, joined.
    pub text: Seq<char>,
    /// The offset that the last window left.
    pub offset: nat,
}

impl TranscriptModel {
    /// Whether this is the transcript of its raw segments: its segments are
    /// those cut out of them, and its text is made of the segments' texts.
    pub open spec fn wf(&self) -> bool {
        &&& parsed(self.raw_segments, self.raw_segments.len()) matches Ok((found, offset))
        &&& self.segments == found
        &&& self.offset == offset
        &&& self.text == joined(segment_texts(self.segments))
    }
}

/// The text of a transcript is the texts of its segments in their order,
/// with one space between each two of them.
pub proof fn lemma_text_round_trip(transcript: TranscriptModel)
    requires
        transcript.wf(),
    ensures
        transcript.text == joined(segment_texts(transcript.segments)),
{
}

/// The transcript of a recording.
#[derive(Debug)]
pub struct Transcript {
    raw_segments: Vec<String>,
    segments: Vec<Segment>,
    text: String,
    offset: u128,
}

impl View for Transcript {
    type V = TranscriptModel;

    closed spec fn view(&self) -> TranscriptModel {
        TranscriptModel {
            raw_segments: text_views(self.raw_segments@),
            segments: models(self.segments@),
            text: self.text@,
            offset: self.offset as nat,
        }
    }
}

impl Transcript {
    /// Cuts the decoded text of a recording's windows into segments, and
    /// gives with them the offset that the last window left.
    pub fn parse_segments(raw_segments: &Vec<String>) -> (made: Result<
        (Vec<Segment>, u128),
        TranscribeError,
    >)
        ensures
            match parsed(text_views(raw_segments@), raw_segments@.len()) {
                Ok((segments, offset)) => made matches Ok(found) && models(found.0@) == segments
                    && found.1 == offset,
                Err(e) => made matches Err(failure) && failure == e,
            },
    {
        let ghost windows = text_views(raw_segments@);
        let n: usize = raw_segments.len();
        let mut found: Vec<Segment> = Vec::new();
        let mut current_offset: u128 = 0;
        assert(models(found@) =~= Seq::<SegmentModel>::empty());
        let mut w: usize = 0;
        while w < n
            invariant
                n == raw_segments@.len(),
                windows == text_views(raw_segments@),
                w <= n,
                current_offset <= 9999 * w,
                parsed(windows, w as nat) == Ok::<(Seq<SegmentModel>, nat), TranscribeError>(
                    (models(found@), current_offset as nat),
                ),
            decreases n - w,
        {
            let window = to_chars(raw_segments[w].as_str());
            assert(window@ == windows[w as int]);
            assert(9999 * w + 9999 <= u128::MAX) by (nonlinear_arith)
                requires
                    w <= usize::MAX,
            ;
            match segments_of_window(&window, current_offset) {
                Err(e) => {
                    proof {
                        assert(parsed(windows, (w + 1) as nat) == Err::<
                            (Seq<SegmentModel>, nat),
                            TranscribeError,
                        >(e));
                        lemma_window_failure_stays(windows, (w + 1) as nat, n as nat);
                    }
                    return Err(e);
                },
                Ok(mut more) => {
                    let ghost before = found@;
                    let ghost added = more@;
                    if more.len() > 0 {
                        current_offset = more[more.len() - 1].end_time();
                    }
                    found.append(&mut more);
                    proof {
                        assert(found@ == before + added);
                        assert(models(before + added) =~= models(before) + models(added));
                        if added.len() > 0 {
                            assert(models(added).last() == added.last()@);
                        }
                    }
                },
            }
            w = w + 1;
        }
        Ok((found, current_offset))
    }

    /// Makes the transcript of the windows' decoded texts `segments`, given
    /// in the order of the windows. Fails with the first failure of cutting
    /// a segment: `SegmentExtraction` where its text cannot be cut out of its
    /// window, `TimestampParse` where a marker that bounds it stands for no
    /// time.
    pub fn new(segments: Vec<String>) -> (made: Result<Transcript, TranscribeError>)
        ensures
            match parsed(text_views(segments@), segments@.len()) {
                Ok((found, offset)) => made matches Ok(transcript) && transcript@ == (
                    TranscriptModel {
                        raw_segments: text_views(segments@),
                        segments: found,
                        text: joined(segment_texts(found)),
                        offset,
                    }),
                Err(e) => made matches Err(failure) && failure == e,
            },
            made matches Ok(transcript) ==> transcript@.wf(),
            made matches Err(failure) ==> failure == TranscribeError::SegmentExtraction || failure
                == TranscribeError::TimestampParse,
    {
        proof {
            lemma_failures(text_views(segments@), segments@.len());
            assert(text_views(segments@).len() == segments@.len());
        }
        let (found, offset) = match Self::parse_segments(&segments) {
            Ok(found) => found,
            Err(e) => {
                return Err(e);
            },
        };
        let ghost texts = segment_texts(models(found@));
        let mut text = String::new();
        let mut i: usize = 0;
        assert(texts.take(0) =~= Seq::<Seq<char>>::empty());
        while i < found.len()
            invariant
                i <= found.len(),
                texts == segment_texts(models(found@)),
                text@ == joined(texts.take(i as int)),
            decreases found.len() - i,
        {
            proof {
                reveal_strlit(" ");
                assert(" "@ =~= seq![' ']);
                let now = texts.take(i as int + 1);
                assert(now.drop_last() =~= texts.take(i as int));
                assert(now.last() == found@[i as int]@.text);
            }
            if i > 0 {
                text.append(" ");
            }
            text.append(found[i].text().as_str());
            i = i + 1;
        }
        assert(texts.take(found.len() as int) =~= texts);
        Ok(Transcript { raw_segments: segments, segments: found, text, offset })
    }

    /// The decoded text of each window, as it was given.
    pub fn raw_segments(&self) -> (raw: &Vec<String>)
        ensures
            text_views(raw@) == self@.raw_segments,
    {
        &self.raw_segments
    }

    /// The segments, in the order in which they were made.
    pub fn segments(&self) -> (segments: &Vec<Segment>)
        ensures
            models(segments@) == self@.segments,
    {
        &self.segments
    }

    /// The running offset as the last window left it: the end of the last
    /// segment, in hundredths of a second, or 0 where there is no segment.
    pub fn offset(&self) -> (offset: u128)
        ensures
            offset == self@.offset,
    {
        self.offset
    }

    /// The whole text: the texts of the segments with one space between each
    /// two of them.
    pub fn text(&self) -> (text: &String)
        ensures
            text@ == self@.text,
    {
        &self.text
    }
}

} // verus!
