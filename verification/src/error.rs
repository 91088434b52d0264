//! The ways in which a transcription can fail.

use vstd::prelude::*;

verus! {

/// Why the transcription of a file was abandoned. No failure is retried and
/// none leaves a partial result behind.
#[derive(Clone, Copy, Debug, PartialEq, Eq, Structural)]
pub enum TranscribeError {
    /// A forward pass of the model failed, or did not yield one score per
    /// vocabulary entry.
    ModelInference,
    /// A special token that decoding needs is missing from the vocabulary, or
    /// its id lies outside the model's vocabulary.
    VocabularyLookup,
    /// A window was decoded to fewer than three tokens.
    MalformedWindowResult,
    /// A numeral does not stand for a time: it is not one or two of the
    /// digits `0` to `9`, a point, and two more of them.
    TimestampParse,
    /// The text between two timestamp numerals could not be cut out of the
    /// window they were found in.
    SegmentExtraction,
    /// The vocabulary cannot be relied on to turn tokens into text, or
    /// could not turn a window's tokens into text.
    TextRendering,
}

impl TranscribeError {
    /// A one-line description of the failure.
    pub fn message(&self) -> (text: String)
        ensures
            text@ == self.describe(),
    {
        match self {
            TranscribeError::ModelInference => "model inference failed".to_owned(),
            TranscribeError::VocabularyLookup => "could not get token".to_owned(),
            TranscribeError::MalformedWindowResult => "window decoded to fewer than three tokens".to_owned(),
            TranscribeError::TimestampParse => "could not parse timestamp".to_owned(),
            TranscribeError::SegmentExtraction => "could not get index".to_owned(),
            TranscribeError::TextRendering => "could not render tokens".to_owned(),
        }
    }

    /// The text that `message` returns.
    pub open spec fn describe(&self) -> Seq<char> {
        match self {
            TranscribeError::ModelInference => "model inference failed"@,
            TranscribeError::VocabularyLookup => "could not get token"@,
            TranscribeError::MalformedWindowResult => "window decoded to fewer than three tokens"@,
            TranscribeError::TimestampParse => "could not parse timestamp"@,
            TranscribeError::SegmentExtraction => "could not get index"@,
            TranscribeError::TextRendering => "could not render tokens"@,
        }
    }
}

} // verus!
