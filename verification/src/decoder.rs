//! The decoder of one recording.
//!
//! A `Decoder` makes the decisions of a transcription and leaves the work on
//! audio and on the neural network to its caller. It is driven by two
//! functions. `decode` generates the tokens of one window: it is told what
//! the model answered and says what to ask next. `run` walks the recording
//! window by window: it is told what a window was decoded to and says which
//! window comes next.

use vstd::prelude::*;
use tokenizers::Tokenizer;
use crate::error::TranscribeError;
use crate::generation::{
    decode_step, lemma_decode_keeps_consistent, next_request, seed, DecodeAction, DecodeEvent,
    DecodeRequest, Decoding, Phase,
};
use crate::mask::{
    blocks, build_mask_tensors, masks_fit, single_mask, smaller_timestamps_mask, suppression,
    StaticMasks, SuppressionMask,
};
use crate::model::ModelDims;
use crate::schedule::{
    next_window, run_step, window_size, window_step, Schedule, WindowAction, WindowEvent,
};
use crate::select::select_token;
use crate::text::text_views;
use crate::vocab::{decoder_kind, decoder_of, render, vocabulary, SpecialTokens};

verus! {

/// The text of a string that may be there.
pub open spec fn text_of(text: Option<String>) -> Option<Seq<char>> {
    match text {
        Some(t) => Some(t@),
        None => None,
    }
}

/// The decoder of one recording.
pub struct Decoder {
    tokenizer: Tokenizer,
    tokens: SpecialTokens,
    masks: StaticMasks,
    dims: ModelDims,
    phase: Phase,
    sequence: Vec<u32>,
    steps: usize,
    running: bool,
    seek: usize,
    content_frames: usize,
    texts: Vec<String>,
}

/// A `Decoder` in specifications.
pub struct DecoderState {
    /// The vocabulary.
    pub tokenizer: Tokenizer,
    /// The ids of the special tokens.
    pub tokens: SpecialTokens,
    /// The dimensions of the model.
    pub dims: ModelDims,
    /// The generation of the current window's tokens.
    pub decoding: Decoding,
    /// The walk over the recording.
    pub schedule: Schedule,
}

impl DecoderState {
    /// The state of a decoder that has begun nothing yet.
    pub open spec fn fresh(
        tokenizer: Tokenizer,
        tokens: SpecialTokens,
        dims: ModelDims,
    ) -> DecoderState {
        DecoderState {
            tokenizer,
            tokens,
            dims,
            decoding: Decoding { phase: Phase::Init, sequence: Seq::empty(), steps: 0 },
            schedule: Schedule {
                running: false,
                seek: 0,
                content_frames: 0,
                texts: Seq::empty(),
            },
        }
    }
}

impl View for Decoder {
    type V = DecoderState;

    closed spec fn view(&self) -> DecoderState {
        DecoderState {
            tokenizer: self.tokenizer,
            tokens: self.tokens,
            dims: self.dims,
            decoding: Decoding {
                phase: self.phase,
                sequence: self.sequence@,
                steps: self.steps as nat,
            },
            schedule: Schedule {
                running: self.running,
                seek: self.seek as nat,
                content_frames: self.content_frames as nat,
                texts: text_views(self.texts@),
            },
        }
    }
}

impl Decoder {
    /// What holds of every decoder: its vocabulary makes a text of every
    /// list of tokens, its static biases are those of its vocabulary, and
    /// its generation and its walk are consistent.
    pub closed spec fn wf(&self) -> bool {
        &&& decoder_kind(self.tokenizer).is_total()
        &&& masks_fit(self.dims.vocab_size as nat, self.tokens)
        &&& self.masks.built_for(self.dims.vocab_size as nat, self.tokens)
        &&& self@.decoding.consistent(self.tokens, self.dims)
        &&& self@.schedule.consistent()
    }

    /// What holds of every decoder is what holds of its vocabulary, of its
    /// generation and of its walk; and the frames of a recording are counted
    /// in numbers that a frame cursor can hold.
    pub proof fn lemma_wf(&self)
        requires
            self.wf(),
        ensures
            decoder_kind(self@.tokenizer).is_total(),
            masks_fit(self@.dims.vocab_size as nat, self@.tokens),
            self@.decoding.consistent(self@.tokens, self@.dims),
            self@.schedule.consistent(),
            self@.schedule.seek <= usize::MAX,
            self@.schedule.content_frames <= usize::MAX,
    {
    }

    /// Makes a decoder for a model of the dimensions `dims` whose vocabulary
    /// is that of `tokenizer`. Fails with `VocabularyLookup` exactly when the
    /// vocabulary lacks a special token, or gives one that the static biases
    /// are built from an id outside the model's vocabulary. Fails with
    /// `TextRendering` exactly when all that is in order and the tokenizer
    /// has a decoder that is not a byte-level one.
    pub fn new(tokenizer: Tokenizer, dims: ModelDims) -> (made: Result<Decoder, TranscribeError>)
        ensures
            match SpecialTokens::resolved(vocabulary(tokenizer)) {
                Some(tokens) if masks_fit(dims.vocab_size as nat, tokens) => {
                    if decoder_kind(tokenizer).is_total() {
                        &&& made matches Ok(decoder)
                        &&& decoder.wf()
                        &&& decoder@ == DecoderState::fresh(tokenizer, tokens, dims)
                    } else {
                        made matches Err(e) && e == TranscribeError::TextRendering
                    }
                },
                _ => made matches Err(e) && e == TranscribeError::VocabularyLookup,
            },
    {
        match SpecialTokens::resolve(&tokenizer) {
            Ok(tokens) => Self::with_tokens(tokenizer, tokens, dims),
            Err(e) => Err(e),
        }
    }

    /// Makes a decoder for a model of the dimensions `dims` with the special
    /// tokens `tokens`, which renders text by `tokenizer`. Fails with
    /// `VocabularyLookup` exactly when a special token that the static biases
    /// are built from has an id outside the model's vocabulary. Fails with
    /// `TextRendering` exactly when the ids are in order and the tokenizer
    /// has a decoder that is not a byte-level one.
    pub fn with_tokens(tokenizer: Tokenizer, tokens: SpecialTokens, dims: ModelDims) -> (made:
        Result<Decoder, TranscribeError>)
        ensures
            if !masks_fit(dims.vocab_size as nat, tokens) {
                made matches Err(e) && e == TranscribeError::VocabularyLookup
            } else if !decoder_kind(tokenizer).is_total() {
                made matches Err(e) && e == TranscribeError::TextRendering
            } else {
                &&& made matches Ok(decoder)
                &&& decoder.wf()
                &&& decoder@ == DecoderState::fresh(tokenizer, tokens, dims)
            },
    {
        let masks = match build_mask_tensors(dims.vocab_size, &tokens) {
            Ok(masks) => masks,
            Err(e) => {
                return Err(e);
            },
        };
        if !decoder_of(&tokenizer).total() {
            return Err(TranscribeError::TextRendering);
        }
        let texts: Vec<String> = Vec::new();
        assert(text_views(texts@) =~= Seq::<Seq<char>>::empty());
        Ok(
            Decoder {
                tokenizer,
                tokens,
                masks,
                dims,
                phase: Phase::Init,
                sequence: Vec::new(),
                steps: 0,
                running: false,
                seek: 0,
                content_frames: 0,
                texts,
            },
        )
    }

    /// The ids of the special tokens.
    pub fn special_tokens(&self) -> (tokens: SpecialTokens)
        ensures
            tokens == self@.tokens,
    {
        self.tokens
    }

    /// The dimensions that the decoder was made for.
    pub fn dims(&self) -> (dims: ModelDims)
        ensures
            dims == self@.dims,
    {
        self.dims
    }

    /// Where the generation of the current window stands.
    pub fn phase(&self) -> (phase: Phase)
        ensures
            phase == self@.decoding.phase,
    {
        self.phase
    }

    /// The tokens of the current window so far.
    pub fn tokens(&self) -> (sequence: &Vec<u32>)
        ensures
            sequence@ == self@.decoding.sequence,
    {
        &self.sequence
    }

    /// The bias that forbids the timestamp tokens below `timestamp`, so that
    /// the timestamps of a window do not decrease.
    pub fn suppress_smaller_timestamps(&self, timestamp: u32) -> (mask: SuppressionMask)
        ensures
            mask@ == smaller_timestamps_mask(
                self@.dims.vocab_size as nat,
                self@.tokens,
                timestamp,
            ),
    {
        let mask = SuppressionMask::range(
            self.dims.vocab_size,
            self.tokens.timestamp_begin as usize,
            timestamp as usize,
        );
        assert(mask@ =~= smaller_timestamps_mask(
            self.dims.vocab_size as nat,
            self.tokens,
            timestamp,
        ));
        mask
    }

    /// The bias for the step that follows the history `tokens`.
    pub fn build_suppress_tokens(&self, tokens: &Vec<u32>) -> (mask: SuppressionMask)
        requires
            self.wf(),
        ensures
            mask@ == suppression(self@.dims.vocab_size as nat, self@.tokens, tokens@),
            mask@.len() == self@.dims.vocab_size,
            blocks(mask@, self@.tokens.no_timestamps as int),
            tokens@.len() >= 2 && self@.tokens.is_timestamp(tokens@[tokens@.len() - 1])
                && self@.tokens.is_timestamp(tokens@[tokens@.len() - 2]) ==> forall|token: u32|
                self@.tokens.is_timestamp(token) && token < mask@.len() ==> blocks(
                    mask@,
                    token as int,
                ),
            tokens@.len() >= 2 && self@.tokens.is_timestamp(tokens@[tokens@.len() - 1])
                && self@.tokens.is_ordinary(tokens@[tokens@.len() - 2]) ==> forall|token: u32|
                self@.tokens.is_timestamp(token) && token < tokens@[tokens@.len() - 1] && token
                    < mask@.len() ==> blocks(mask@, token as int),
    {
        let zeroes = SuppressionMask::range(self.dims.vocab_size, 0, 0);
        let mut bias = zeroes.plus(&self.masks.no_timestamps);
        assert(bias@ =~= single_mask(self.dims.vocab_size as nat, self.tokens.no_timestamps));
        let n: usize = tokens.len();
        if n >= 2 {
            let last: u32 = tokens[n - 1];
            let before: u32 = tokens[n - 2];
            if self.tokens.timestamp(last) {
                if self.tokens.timestamp(before) {
                    bias = bias.plus(&self.masks.timestamps);
                } else if self.tokens.ordinary(before) {
                    bias = bias.plus(&self.masks.non_timestamps);
                    let smaller = self.suppress_smaller_timestamps(last);
                    bias = bias.plus(&smaller);
                }
            }
        }
        bias
    }

    /// The action for the state as it is.
    fn request(&self) -> (action: DecodeAction)
        requires
            self.wf(),
        ensures
            action@ == next_request(self@.tokens, self@.dims, self@.decoding),
    {
        match self.phase {
            Phase::Generating => DecodeAction::Infer {
                bias: self.build_suppress_tokens(&self.sequence),
                reset_cache: self.steps == 0,
            },
            _ => DecodeAction::Finish,
        }
    }

    /// Takes `event` and says what to do next: one transition of the
    /// generation of a window's tokens.
    ///
    /// A window is generated by telling `Begin` and then, as long as the
    /// answer is `Infer`, running the model on `tokens()` and telling what it
    /// gave. At `Finish` the window's sequence is in `tokens()`.
    pub fn decode(&mut self, event: &DecodeEvent) -> (action: DecodeAction)
        requires
            old(self).wf(),
        ensures
            final(self).wf(),
            final(self)@ == (DecoderState {
                decoding: decode_step(
                    old(self)@.tokens,
                    old(self)@.dims,
                    old(self)@.decoding,
                    *event,
                ).0,
                ..old(self)@
            }),
            action@ == decode_step(
                old(self)@.tokens,
                old(self)@.dims,
                old(self)@.decoding,
                *event,
            ).1,
            final(self)@.decoding.consistent(final(self)@.tokens, final(self)@.dims),
            action@ matches DecodeRequest::Infer { bias, .. } ==> bias.len()
                == final(self)@.dims.vocab_size && blocks(
                bias,
                final(self)@.tokens.no_timestamps as int,
            ),
    {
        match event {
            DecodeEvent::Begin => {
                let mut sequence: Vec<u32> = Vec::new();
                sequence.push(self.tokens.sot);
                sequence.push(self.tokens.language);
                sequence.push(self.tokens.transcribe);
                assert(sequence@ =~= seed(self.tokens));
                self.sequence = sequence;
                self.steps = 0;
                self.phase = if self.dims.max_target_positions / 2 > 0 {
                    Phase::Generating
                } else {
                    Phase::Terminal
                };
                proof {
                    lemma_decode_keeps_consistent(
                        self.tokens,
                        self.dims,
                        old(self)@.decoding,
                        *event,
                    );
                }
                self.request()
            },
            DecodeEvent::Failure => {
                self.phase = Phase::Terminal;
                DecodeAction::Abort(TranscribeError::ModelInference)
            },
            DecodeEvent::Logits { scores, timestamps_dominate } => {
                if self.phase != Phase::Generating {
                    return DecodeAction::Finish;
                }
                if scores.len() != self.dims.vocab_size {
                    self.phase = Phase::Terminal;
                    return DecodeAction::Abort(TranscribeError::ModelInference);
                }
                let mut bias = self.build_suppress_tokens(&self.sequence);
                if *timestamps_dominate {
                    bias = bias.plus(&self.masks.non_timestamps);
                }
                let token: u32 = match select_token(scores, &bias) {
                    Some(token) => token,
                    None => {
                        self.phase = Phase::Terminal;
                        return DecodeAction::Abort(TranscribeError::ModelInference);
                    },
                };
                self.sequence.push(token);
                self.steps = self.steps + 1;
                if token == self.tokens.eot || self.sequence.len() > self.dims.max_target_positions
                    || self.steps >= self.dims.max_target_positions / 2 {
                    self.phase = Phase::Terminal;
                }
                proof {
                    lemma_decode_keeps_consistent(
                        self.tokens,
                        self.dims,
                        old(self)@.decoding,
                        *event,
                    );
                }
                self.request()
            },
        }
    }

    /// The text of each window decoded so far, in the order of the windows.
    pub fn texts(&self) -> (texts: &Vec<String>)
        ensures
            text_views(texts@) == self@.schedule.texts,
    {
        &self.texts
    }

    /// The number of feature frames of the recording that is walked.
    pub fn content_frames(&self) -> (frames: usize)
        ensures
            frames == self@.schedule.content_frames,
    {
        self.content_frames
    }

    /// Whether a window was asked for and is waited for.
    pub fn running(&self) -> (yes: bool)
        ensures
            yes == self@.schedule.running,
    {
        self.running
    }

    /// The frame at which the next window begins.
    pub fn seek(&self) -> (seek: usize)
        ensures
            seek == self@.schedule.seek,
    {
        self.seek
    }

    /// The window to ask for in the state as it is.
    fn window(&self) -> (action: WindowAction)
        requires
            self.wf(),
        ensures
            action == next_window(self@.dims, self@.schedule),
    {
        if self.running {
            let rest: usize = self.content_frames - self.seek;
            let size: usize = if rest < self.dims.window_frame_limit {
                rest
            } else {
                self.dims.window_frame_limit
            };
            WindowAction::Decode { seek: self.seek, size }
        } else {
            WindowAction::Finish
        }
    }

    /// Takes `event` and says what to do next: one transition of the walk
    /// over a recording. The text of a decoded window is made by the
    /// decoder's vocabulary.
    ///
    /// A recording is walked by telling `Begin` and then, as long as the
    /// answer is `Decode`, generating the tokens of that window and telling
    /// them. At `Finish` the text of each window is in `texts()`.
    ///
    /// The model's encoder must yield at least one position: the frames of a
    /// full window are divided among them.
    pub fn run(&mut self, event: &WindowEvent) -> (action: WindowAction)
        requires
            old(self).wf(),
            old(self)@.dims.max_source_positions > 0,
        ensures
            final(self).wf(),
            final(self)@ == (DecoderState {
                schedule: run_step(
                    old(self)@.tokenizer,
                    old(self)@.tokens,
                    old(self)@.dims,
                    old(self)@.schedule,
                    *event,
                ).0,
                ..old(self)@
            }),
            action == run_step(
                old(self)@.tokenizer,
                old(self)@.tokens,
                old(self)@.dims,
                old(self)@.schedule,
                *event,
            ).1,
            final(self)@.schedule.consistent(),
            action matches WindowAction::Decode { seek, size } ==> {
                &&& seek == final(self)@.schedule.seek
                &&& size == window_size(final(self)@.dims, final(self)@.schedule)
                &&& seek + size <= final(self)@.schedule.content_frames
                &&& size <= final(self)@.dims.window_frame_limit
            },
    {
        let rendered = match event {
            WindowEvent::Decoded { tokens } => {
                if self.running && tokens.len() >= 3 {
                    render(&self.tokenizer, tokens)
                } else {
                    None
                }
            },
            _ => None,
        };
        self.walk(event, rendered)
    }

    /// Takes `event` and says what to do next: one transition of the walk
    /// over a recording, where `rendered` is the text that was made of a
    /// decoded window, if one was made. The model's encoder must yield at
    /// least one position.
    pub fn walk(&mut self, event: &WindowEvent, rendered: Option<String>) -> (action: WindowAction)
        requires
            old(self).wf(),
            old(self)@.dims.max_source_positions > 0,
        ensures
            final(self).wf(),
            final(self)@ == (DecoderState {
                schedule: window_step(
                    old(self)@.tokens,
                    old(self)@.dims,
                    old(self)@.schedule,
                    *event,
                    text_of(rendered),
                ).0,
                ..old(self)@
            }),
            action == window_step(
                old(self)@.tokens,
                old(self)@.dims,
                old(self)@.schedule,
                *event,
                text_of(rendered),
            ).1,
            final(self)@.schedule.consistent(),
            action matches WindowAction::Decode { seek, size } ==> {
                &&& seek == final(self)@.schedule.seek
                &&& size == window_size(final(self)@.dims, final(self)@.schedule)
                &&& seek + size <= final(self)@.schedule.content_frames
                &&& size <= final(self)@.dims.window_frame_limit
            },
    {
        match event {
            WindowEvent::Begin { content_frames } => {
                self.running = *content_frames > 0;
                self.seek = 0;
                self.content_frames = *content_frames;
                self.texts = Vec::new();
                assert(text_views(self.texts@) =~= Seq::<Seq<char>>::empty());
                self.window()
            },
            WindowEvent::Failed(e) => {
                self.running = false;
                WindowAction::Abort(*e)
            },
            WindowEvent::Decoded { tokens } => {
                if !self.running {
                    return WindowAction::Finish;
                }
                let n: usize = tokens.len();
                if n < 3 {
                    self.running = false;
                    return WindowAction::Abort(TranscribeError::MalformedWindowResult);
                }
                let text = match rendered {
                    Some(text) => text,
                    None => {
                        self.running = false;
                        return WindowAction::Abort(TranscribeError::TextRendering);
                    },
                };
                let boundary: u32 = tokens[n - 2];
                let floor: u32 = self.tokens.timestamp_begin;
                let advance: Option<usize> = if boundary > floor {
                    let stride: usize = self.dims.window_frame_limit / self.dims.max_source_positions;
                    ((boundary - floor) as usize).checked_mul(stride)
                } else {
                    let rest: usize = self.content_frames - self.seek;
                    Some(
                        if rest < self.dims.window_frame_limit {
                            rest
                        } else {
                            self.dims.window_frame_limit
                        },
                    )
                };
                let seek: usize = match advance {
                    Some(advance) => match self.seek.checked_add(advance) {
                        Some(seek) => seek,
                        None => usize::MAX,
                    },
                    None => usize::MAX,
                };
                proof {
                    assert(text_views(self.texts@.push(text)) =~= text_views(self.texts@).push(
                        text@,
                    ));
                }
                self.seek = seek;
                self.running = seek < self.content_frames;
                self.texts.push(text);
                self.window()
            },
        }
    }
}

} // verus!
