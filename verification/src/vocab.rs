//! The special tokens of the vocabulary and how they are looked up.

use vstd::prelude::*;
use tokenizers::decoders::DecoderWrapper;
use tokenizers::Tokenizer;
use crate::error::TranscribeError;

verus! {

/// The text of the token that starts a transcript.
pub const SOT_TOKEN: &'static str = "<|startoftranscript|>";

/// The text of the token of the language spoken: English.
pub const LANGUAGE_TOKEN: &'static str = "<|en|>";

/// The text of the token of the task: transcription.
pub const TRANSCRIBE_TOKEN: &'static str = "<|transcribe|>";

/// The text of the token that ends a transcript.
pub const EOT_TOKEN: &'static str = "<|endoftext|>";

/// The text of the token that says that a window holds no speech.
pub const NO_SPEECH_TOKEN: &'static str = "<|nospeech|>";

/// The text of the token that switches timestamps off.
pub const NO_TIMESTAMPS_TOKEN: &'static str = "<|notimestamps|>";

/// The text of the first timestamp token.
pub const FIRST_TIMESTAMP_TOKEN: &'static str = "<|0.00|>";

/// `tokenizers::Tokenizer`: a vocabulary with all that turns text into
/// token ids and back. Nothing of its inside is seen here.
#[verifier::external_type_specification]
#[verifier::external_body]
pub struct ExTokenizer(Tokenizer);

/// The part of a tokenizer that puts the texts of tokens together to one
/// text: its decoder, by kind.
#[derive(Clone, Copy, Debug, PartialEq, Eq, Structural)]
pub enum DecoderKind {
    /// None: the texts of the tokens are joined by single spaces.
    Absent,
    /// Word ends are marked by a suffix.
    Bpe,
    /// The texts of the tokens are read as bytes and joined.
    ByteLevel,
    /// Word pieces are marked by a prefix.
    WordPiece,
    /// Spaces are written as a mark of their own.
    Metaspace,
    /// Repeated tokens are merged and padding is dropped.
    Ctc,
    /// Several decoders, one after the other.
    Sequence,
    /// A pattern is replaced in every token.
    Replace,
    /// All tokens are fused into one.
    Fuse,
    /// A character is stripped from the ends of every token.
    Strip,
    /// Tokens that name a byte are read as that byte.
    ByteFallback,
}

impl DecoderKind {
    /// Whether a decoder of this kind is relied on to make a text of every
    /// list of tokens. The others are not: among them are decoders that stop
    /// the program on an empty list, or on a token shorter than what they
    /// strip.
    pub open spec fn is_total(&self) -> bool {
        *self == DecoderKind::Absent || *self == DecoderKind::ByteLevel
    }

    /// Whether a decoder of this kind is relied on to make a text of every
    /// list of tokens.
    pub fn total(&self) -> (yes: bool)
        ensures
            yes == self.is_total(),
    {
        match self {
            DecoderKind::Absent => true,
            DecoderKind::ByteLevel => true,
            _ => false,
        }
    }
}

/// The kind of a tokenizer's decoder.
pub uninterp spec fn decoder_kind(tokenizer: Tokenizer) -> DecoderKind;

/// The entries of a tokenizer's vocabulary, added tokens included: each
/// token's text with its id.
pub uninterp spec fn vocabulary(tokenizer: Tokenizer) -> Map<Seq<char>, u32>;

/// The text that a tokenizer makes of a sequence of token ids, special tokens
/// included, or `None` where it fails to make one.
pub uninterp spec fn rendered_text(tokenizer: Tokenizer, ids: Seq<u32>) -> Option<Seq<char>>;

/// `Tokenizer::token_to_id`: the id under which the vocabulary holds `name`,
/// if it holds it. The tokenizer looks among its added tokens first and then
/// in its model's vocabulary; `vocabulary` stands for the two together.
#[verifier::external_body]
fn token_to_id(tokenizer: &Tokenizer, name: &str) -> (id: Option<u32>)
    ensures
        id == lookup(vocabulary(*tokenizer), name@),
{
    tokenizer.token_to_id(name)
}

/// `Tokenizer::get_decoder`: which decoder the tokenizer has, if it has
/// one. Each variant of the outside enumeration is told apart by its name.
#[verifier::external_body]
pub(crate) fn decoder_of(tokenizer: &Tokenizer) -> (kind: DecoderKind)
    ensures
        kind == decoder_kind(*tokenizer),
{
    match tokenizer.get_decoder() {
        None => DecoderKind::Absent,
        Some(DecoderWrapper::BPE(_)) => DecoderKind::Bpe,
        Some(DecoderWrapper::ByteLevel(_)) => DecoderKind::ByteLevel,
        Some(DecoderWrapper::WordPiece(_)) => DecoderKind::WordPiece,
        Some(DecoderWrapper::Metaspace(_)) => DecoderKind::Metaspace,
        Some(DecoderWrapper::CTC(_)) => DecoderKind::Ctc,
        Some(DecoderWrapper::Sequence(_)) => DecoderKind::Sequence,
        Some(DecoderWrapper::Replace(_)) => DecoderKind::Replace,
        Some(DecoderWrapper::Fuse(_)) => DecoderKind::Fuse,
        Some(DecoderWrapper::Strip(_)) => DecoderKind::Strip,
        Some(DecoderWrapper::ByteFallback(_)) => DecoderKind::ByteFallback,
    }
}

/// `Tokenizer::decode` with special tokens kept: the text of the ids, which
/// depends on the tokenizer and the ids alone. An error of the tokenizer's
/// decoder comes back as `None`. The call is made only on a tokenizer
/// without a decoder or with a byte-level one: the token texts are looked
/// up in maps and then joined, or read as bytes and joined, and neither
/// stops the program on any list of ids. Decoders of other kinds do on
/// some.
#[verifier::external_body]
pub(crate) fn render(tokenizer: &Tokenizer, ids: &Vec<u32>) -> (text: Option<String>)
    requires
        decoder_kind(*tokenizer).is_total(),
    ensures
        match text {
            Some(t) => rendered_text(*tokenizer, ids@) == Some(t@),
            None => rendered_text(*tokenizer, ids@) is None,
        },
{
    tokenizer.decode(ids.as_slice(), false).ok()
}

/// What a vocabulary holds under a name.
pub open spec fn lookup(vocab: Map<Seq<char>, u32>, name: Seq<char>) -> Option<u32> {
    if vocab.contains_key(name) {
        Some(vocab[name])
    } else {
        None
    }
}

/// The ids of the tokens that steer decoding, resolved once from the
/// vocabulary.
#[derive(Clone, Copy, Debug, PartialEq, Eq, Structural)]
pub struct SpecialTokens {
    /// Start of transcript.
    pub sot: u32,
    /// The language spoken.
    pub language: u32,
    /// The task: transcription.
    pub transcribe: u32,
    /// End of transcript.
    pub eot: u32,
    /// No speech in the window.
    pub no_speech: u32,
    /// Timestamps switched off.
    pub no_timestamps: u32,
    /// The first id of the timestamp range, which stands for 0.00 s. Each
    /// following id stands for 0.02 s more.
    pub timestamp_begin: u32,
}

impl SpecialTokens {
    /// Whether `token` lies in the timestamp range.
    pub open spec fn is_timestamp(&self, token: u32) -> bool {
        token >= self.timestamp_begin
    }

    /// Whether `token` is one of the control tokens.
    pub open spec fn is_reserved(&self, token: u32) -> bool {
        ||| token == self.sot
        ||| token == self.language
        ||| token == self.transcribe
        ||| token == self.eot
        ||| token == self.no_speech
        ||| token == self.no_timestamps
    }

    /// Whether `token` is ordinary: neither a timestamp nor a control token.
    pub open spec fn is_ordinary(&self, token: u32) -> bool {
        !self.is_timestamp(token) && !self.is_reserved(token)
    }

    /// The special tokens, where each of them was found.
    pub open spec fn all_found(
        sot: Option<u32>,
        language: Option<u32>,
        transcribe: Option<u32>,
        eot: Option<u32>,
        no_speech: Option<u32>,
        no_timestamps: Option<u32>,
        timestamp_begin: Option<u32>,
    ) -> Option<SpecialTokens> {
        match (sot, language, transcribe, eot, no_speech, no_timestamps, timestamp_begin) {
            (Some(sot), Some(language), Some(transcribe), Some(eot), Some(no_speech), Some(
                no_timestamps,
            ), Some(timestamp_begin)) => Some(
                SpecialTokens {
                    sot,
                    language,
                    transcribe,
                    eot,
                    no_speech,
                    no_timestamps,
                    timestamp_begin,
                },
            ),
            _ => None,
        }
    }

    /// The ids that `vocab` gives the special tokens, if it holds them all.
    pub open spec fn resolved(vocab: Map<Seq<char>, u32>) -> Option<SpecialTokens> {
        Self::all_found(
            lookup(vocab, SOT_TOKEN@),
            lookup(vocab, LANGUAGE_TOKEN@),
            lookup(vocab, TRANSCRIBE_TOKEN@),
            lookup(vocab, EOT_TOKEN@),
            lookup(vocab, NO_SPEECH_TOKEN@),
            lookup(vocab, NO_TIMESTAMPS_TOKEN@),
            lookup(vocab, FIRST_TIMESTAMP_TOKEN@),
        )
    }

    /// Gathers the special tokens from what was found for each of them. Fails
    /// with `VocabularyLookup` exactly when one of them was not found.
    pub fn from_lookups(
        sot: Option<u32>,
        language: Option<u32>,
        transcribe: Option<u32>,
        eot: Option<u32>,
        no_speech: Option<u32>,
        no_timestamps: Option<u32>,
        timestamp_begin: Option<u32>,
    ) -> (found: Result<SpecialTokens, TranscribeError>)
        ensures
            match Self::all_found(
                sot,
                language,
                transcribe,
                eot,
                no_speech,
                no_timestamps,
                timestamp_begin,
            ) {
                Some(tokens) => found == Ok::<SpecialTokens, TranscribeError>(tokens),
                None => found == Err::<SpecialTokens, TranscribeError>(
                    TranscribeError::VocabularyLookup,
                ),
            },
    {
        match (sot, language, transcribe, eot, no_speech, no_timestamps, timestamp_begin) {
            (
                Some(sot),
                Some(language),
                Some(transcribe),
                Some(eot),
                Some(no_speech),
                Some(no_timestamps),
                Some(timestamp_begin),
            ) => Ok(
                SpecialTokens {
                    sot,
                    language,
                    transcribe,
                    eot,
                    no_speech,
                    no_timestamps,
                    timestamp_begin,
                },
            ),
            _ => Err(TranscribeError::VocabularyLookup),
        }
    }

    /// Looks the special tokens up in the tokenizer's vocabulary. Fails with
    /// `VocabularyLookup` exactly when one of them is missing.
    pub fn resolve(tokenizer: &Tokenizer) -> (found: Result<SpecialTokens, TranscribeError>)
        ensures
            match Self::resolved(vocabulary(*tokenizer)) {
                Some(tokens) => found == Ok::<SpecialTokens, TranscribeError>(tokens),
                None => found == Err::<SpecialTokens, TranscribeError>(
                    TranscribeError::VocabularyLookup,
                ),
            },
    {
        let sot = token_to_id(tokenizer, SOT_TOKEN);
        let language = token_to_id(tokenizer, LANGUAGE_TOKEN);
        let transcribe = token_to_id(tokenizer, TRANSCRIBE_TOKEN);
        let eot = token_to_id(tokenizer, EOT_TOKEN);
        let no_speech = token_to_id(tokenizer, NO_SPEECH_TOKEN);
        let no_timestamps = token_to_id(tokenizer, NO_TIMESTAMPS_TOKEN);
        let timestamp_begin = token_to_id(tokenizer, FIRST_TIMESTAMP_TOKEN);
        Self::from_lookups(
            sot,
            language,
            transcribe,
            eot,
            no_speech,
            no_timestamps,
            timestamp_begin,
        )
    }

    /// Whether `token` lies in the timestamp range.
    pub fn timestamp(&self, token: u32) -> (yes: bool)
        ensures
            yes == self.is_timestamp(token),
    {
        token >= self.timestamp_begin
    }

    /// Whether `token` is neither a timestamp nor a control token.
    pub fn ordinary(&self, token: u32) -> (yes: bool)
        ensures
            yes == self.is_ordinary(token),
    {
        token < self.timestamp_begin && token != self.sot && token != self.language
            && token != self.transcribe && token != self.eot && token != self.no_speech
            && token != self.no_timestamps
    }
}

} // verus!
