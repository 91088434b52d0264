//! The generation of one window's tokens.
//!
//! Generation is a state machine. A window begins with three seed tokens.
//! Then, step by step, the model scores the vocabulary, a bias that enforces
//! the timestamp grammar is added, and the token with the greatest score is
//! appended, until the end of transcript is chosen or a limit is reached.
//! The model is run by the caller: a transition takes what the model
//! answered and says what to ask next.

use vstd::prelude::*;
use crate::error::TranscribeError;
use crate::mask::{
    blocks, non_timestamps_mask, sum_mask, suppression, SuppressionMask,
};
use crate::model::ModelDims;
use crate::select::{argmax, biased, lemma_argmax_is_first_max, lemma_choice_is_allowed, BLOCKED};
use crate::vocab::SpecialTokens;

verus! {

/// Where the generation of a window's tokens stands.
#[derive(Clone, Copy, Debug, PartialEq, Eq, Structural)]
pub enum Phase {
    /// No window was begun yet.
    Init,
    /// The window's sequence is growing.
    Generating,
    /// The window's sequence is complete, or generation was given up.
    Terminal,
}

/// The state of the generation of one window's tokens.
pub struct Decoding {
    /// Where the generation stands.
    pub phase: Phase,
    /// The tokens of the window so far, the three seed tokens first.
    pub sequence: Seq<u32>,
    /// The number of tokens generated so far.
    pub steps: nat,
}

impl Decoding {
    /// What holds of the generation in every state that `decode` leaves.
    ///
    /// Either no window was begun and there is no sequence, or the sequence
    /// is the three seed tokens followed by one token for each step taken,
    /// and no more steps were taken than the limit allows. While the sequence
    /// is growing the limit is not reached, and once a token was generated
    /// the sequence is no longer than the model takes and does not end in the
    /// end of transcript.
    pub open spec fn consistent(&self, tokens: SpecialTokens, dims: ModelDims) -> bool {
        &&& self.sequence.len() == 0 && self.steps == 0 || {
            &&& self.sequence.len() == 3 + self.steps
            &&& self.sequence.subrange(0, 3) == seed(tokens)
            &&& self.steps <= dims.sample_len()
        }
        &&& self.phase == Phase::Init ==> self.sequence.len() == 0
        &&& self.phase == Phase::Generating ==> {
            &&& self.sequence.len() == 3 + self.steps
            &&& self.steps < dims.sample_len()
            &&& self.steps > 0 ==> self.sequence.len() <= dims.max_target_positions
            &&& self.steps > 0 ==> self.sequence.last() != tokens.eot
        }
    }
}

/// What `decode` is told.
#[derive(Debug)]
pub enum DecodeEvent {
    /// A window begins.
    Begin,
    /// The model answered the last request. `scores` holds one score per
    /// token id: `select::scores_of_bits` makes them of the sum of the
    /// model's output and the requested bias. The bias is laid over the
    /// scores once more when the token is chosen, which changes nothing
    /// then. `timestamps_dominate` says whether, in that sum, the
    /// probability of all timestamp tokens together exceeds that of the
    /// likeliest token below the timestamp range.
    Logits { scores: Vec<i64>, timestamps_dominate: bool },
    /// The model failed.
    Failure,
}

/// What `decode` asks for.
#[derive(Debug)]
pub enum DecodeAction {
    /// Run the model on the window's sequence, add `bias` to its output and
    /// hand the result back. `reset_cache` is set for the first request of a
    /// window.
    Infer { bias: SuppressionMask, reset_cache: bool },
    /// Nothing more: the window's sequence is complete.
    Finish,
    /// Give the file up.
    Abort(TranscribeError),
}

/// A `DecodeAction` in specifications.
pub enum DecodeRequest {
    /// Run the model and add `bias` to its output.
    Infer { bias: Seq<bool>, reset_cache: bool },
    /// Nothing more: the window's sequence is complete.
    Finish,
    /// Give the file up.
    Abort(TranscribeError),
}

impl View for DecodeAction {
    type V = DecodeRequest;

    open spec fn view(&self) -> DecodeRequest {
        match self {
            DecodeAction::Infer { bias, reset_cache } => DecodeRequest::Infer {
                bias: bias@,
                reset_cache: *reset_cache,
            },
            DecodeAction::Finish => DecodeRequest::Finish,
            DecodeAction::Abort(e) => DecodeRequest::Abort(*e),
        }
    }
}

/// The tokens that every window's sequence begins with.
pub open spec fn seed(tokens: SpecialTokens) -> Seq<u32> {
    seq![tokens.sot, tokens.language, tokens.transcribe]
}

/// What is asked for in the state `now`.
pub open spec fn next_request(tokens: SpecialTokens, dims: ModelDims, now: Decoding) -> DecodeRequest {
    if now.phase == Phase::Generating {
        DecodeRequest::Infer {
            bias: suppression(dims.vocab_size as nat, tokens, now.sequence),
            reset_cache: now.steps == 0,
        }
    } else {
        DecodeRequest::Finish
    }
}

/// The token that is chosen after `history` from the model's `scores`.
pub open spec fn chosen_token(
    tokens: SpecialTokens,
    dims: ModelDims,
    history: Seq<u32>,
    scores: Seq<i64>,
    timestamps_dominate: bool,
) -> u32 {
    let bias = suppression(dims.vocab_size as nat, tokens, history);
    let full = if timestamps_dominate {
        sum_mask(bias, non_timestamps_mask(dims.vocab_size as nat, tokens))
    } else {
        bias
    };
    argmax(biased(scores, full)) as u32
}

/// Whether scores can be the model's output: one per token id, and at least
/// one.
pub open spec fn scores_fit(dims: ModelDims, scores: Seq<i64>) -> bool {
    scores.len() == dims.vocab_size && 0 < scores.len() <= u32::MAX
}

/// The state after `event`, and what is asked for then.
///
/// When a window begins, its sequence is the three seed tokens. Scores are
/// taken only while the sequence is growing: the chosen token is appended,
/// and the sequence is complete once that token is the end of transcript,
/// the sequence is longer than the model takes, or the step limit is
/// reached. A failure of the model, and scores that do not fit the
/// vocabulary, end the generation with `ModelInference`.
pub open spec fn decode_step(
    tokens: SpecialTokens,
    dims: ModelDims,
    now: Decoding,
    event: DecodeEvent,
) -> (Decoding, DecodeRequest) {
    match event {
        DecodeEvent::Begin => {
            let begun = Decoding {
                phase: if dims.sample_len() > 0 {
                    Phase::Generating
                } else {
                    Phase::Terminal
                },
                sequence: seed(tokens),
                steps: 0,
            };
            (begun, next_request(tokens, dims, begun))
        },
        DecodeEvent::Failure => (
            Decoding { phase: Phase::Terminal, ..now },
            DecodeRequest::Abort(TranscribeError::ModelInference),
        ),
        DecodeEvent::Logits { scores, timestamps_dominate } => {
            if now.phase != Phase::Generating {
                (now, DecodeRequest::Finish)
            } else if !scores_fit(dims, scores@) {
                (
                    Decoding { phase: Phase::Terminal, ..now },
                    DecodeRequest::Abort(TranscribeError::ModelInference),
                )
            } else {
                let token = chosen_token(tokens, dims, now.sequence, scores@, timestamps_dominate);
                let sequence = now.sequence.push(token);
                let steps = now.steps + 1;
                let done = token == tokens.eot || sequence.len() > dims.max_target_positions
                    || steps >= dims.sample_len();
                let then = Decoding {
                    phase: if done {
                        Phase::Terminal
                    } else {
                        Phase::Generating
                    },
                    sequence,
                    steps,
                };
                (then, next_request(tokens, dims, then))
            }
        },
    }
}

/// No transition breaks what holds of the generation.
pub proof fn lemma_decode_keeps_consistent(
    tokens: SpecialTokens,
    dims: ModelDims,
    now: Decoding,
    event: DecodeEvent,
)
    requires
        now.consistent(tokens, dims),
    ensures
        decode_step(tokens, dims, now, event).0.consistent(tokens, dims),
{
    let then = decode_step(tokens, dims, now, event).0;
    match event {
        DecodeEvent::Begin => {
            assert(seed(tokens).subrange(0, 3) =~= seed(tokens));
        },
        DecodeEvent::Failure => {},
        DecodeEvent::Logits { scores, timestamps_dominate } => {
            if now.phase == Phase::Generating && scores_fit(dims, scores@) {
                assert(then.sequence.subrange(0, 3) =~= now.sequence.subrange(0, 3));
            }
        },
    }
}

/// Whatever the model answers, a sequence only grows: scores add one token
/// to it and change none.
pub proof fn lemma_sequence_grows(
    tokens: SpecialTokens,
    dims: ModelDims,
    now: Decoding,
    scores: Vec<i64>,
    timestamps_dominate: bool,
)
    ensures
        ({
            let then = decode_step(
                tokens,
                dims,
                now,
                DecodeEvent::Logits { scores, timestamps_dominate },
            ).0;
            then.sequence == now.sequence || then.sequence.drop_last() == now.sequence
        }),
{
    let then = decode_step(
        tokens,
        dims,
        now,
        DecodeEvent::Logits { scores, timestamps_dominate },
    ).0;
    if now.phase == Phase::Generating && scores_fit(dims, scores@) {
        assert(then.sequence.drop_last() =~= now.sequence);
    }
}

/// A window's sequence holds the three seed tokens and at most one token for
/// each step that the limit allows. Where the model takes three tokens or
/// more, that is at most one token more than the model takes.
pub proof fn lemma_sequence_length(tokens: SpecialTokens, dims: ModelDims, now: Decoding)
    requires
        now.consistent(tokens, dims),
    ensures
        now.sequence.len() <= 3 + dims.sample_len(),
        dims.max_target_positions >= 3 ==> now.sequence.len() <= dims.max_target_positions + 1,
{
}

/// Generation ends at the step limit and at the length cap, whatever token
/// is chosen, and with the end of transcript, whenever it is chosen.
pub proof fn lemma_generation_ends(
    tokens: SpecialTokens,
    dims: ModelDims,
    now: Decoding,
    scores: Vec<i64>,
    timestamps_dominate: bool,
)
    requires
        now.phase == Phase::Generating,
        scores_fit(dims, scores@),
    ensures
        ({
            let (then, request) = decode_step(
                tokens,
                dims,
                now,
                DecodeEvent::Logits { scores, timestamps_dominate },
            );
            let done = then.sequence.last() == tokens.eot || now.steps + 1 >= dims.sample_len()
                || now.sequence.len() + 1 > dims.max_target_positions;
            &&& done ==> then.phase == Phase::Terminal && request == DecodeRequest::Finish
            &&& !done ==> then.phase == Phase::Generating && request is Infer
        }),
{
}

/// Every request for the model forbids the token that switches timestamps
/// off.
pub proof fn lemma_requests_block_no_timestamps(
    tokens: SpecialTokens,
    dims: ModelDims,
    now: Decoding,
    event: DecodeEvent,
)
    requires
        tokens.no_timestamps < dims.vocab_size,
    ensures
        decode_step(tokens, dims, now, event).1 matches DecodeRequest::Infer { bias, .. }
            ==> blocks(bias, tokens.no_timestamps as int),
{
}

/// After two timestamps in a row the token that is chosen is no timestamp,
/// whatever the scores are, as long as a token below the timestamp range
/// exists.
pub proof fn lemma_no_third_timestamp(
    tokens: SpecialTokens,
    dims: ModelDims,
    history: Seq<u32>,
    scores: Seq<i64>,
    timestamps_dominate: bool,
)
    requires
        tokens.timestamp_begin > 0,
        tokens.no_timestamps < dims.vocab_size,
        scores_fit(dims, scores),
        history.len() >= 2,
        tokens.is_timestamp(history[history.len() - 1]),
        tokens.is_timestamp(history[history.len() - 2]),
    ensures
        !tokens.is_timestamp(chosen_token(tokens, dims, history, scores, timestamps_dominate)),
{
    let len = dims.vocab_size as nat;
    let bias = suppression(len, tokens, history);
    let full = if timestamps_dominate {
        sum_mask(bias, non_timestamps_mask(len, tokens))
    } else {
        bias
    };
    let all = biased(scores, full);
    let k = argmax(all);
    lemma_argmax_is_first_max(all);
    if k >= tokens.timestamp_begin {
        assert(blocks(bias, k));
        assert(blocks(full, k));
        assert(all[k] == BLOCKED);
        assert(all[0] < all[k]);
    }
}

/// After an ordinary token and one timestamp, the token that is chosen is
/// the end of transcript or a timestamp that is not below that one, as long
/// as some token that the bias allows scores above `BLOCKED`.
pub proof fn lemma_timestamps_do_not_decrease(
    tokens: SpecialTokens,
    dims: ModelDims,
    history: Seq<u32>,
    scores: Seq<i64>,
    timestamps_dominate: bool,
    allowed: int,
)
    requires
        scores_fit(dims, scores),
        history.len() >= 2,
        tokens.is_timestamp(history[history.len() - 1]),
        tokens.is_ordinary(history[history.len() - 2]),
        0 <= allowed < scores.len(),
        scores[allowed] > BLOCKED,
        !blocks(suppression(dims.vocab_size as nat, tokens, history), allowed),
    ensures
        ({
            let token = chosen_token(tokens, dims, history, scores, timestamps_dominate);
            token == tokens.eot || token >= history[history.len() - 1]
        }),
{
    let len = dims.vocab_size as nat;
    let bias = suppression(len, tokens, history);
    let full = if timestamps_dominate {
        sum_mask(bias, non_timestamps_mask(len, tokens))
    } else {
        bias
    };
    assert(!blocks(full, allowed));
    lemma_choice_is_allowed(scores, full, allowed);
    let k = argmax(biased(scores, full));
    lemma_argmax_is_first_max(biased(scores, full));
    if k != tokens.eot && k < history[history.len() - 1] {
        assert(blocks(bias, k));
        assert(blocks(full, k));
    }
}

} // verus!
