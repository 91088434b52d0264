//! The walk over a recording, window by window.
//!
//! A recording may hold more feature frames than the model takes at once. It
//! is decoded in windows: a cursor starts at frame 0, a window of at most
//! the frame limit is decoded at the cursor, and the cursor moves on, to the
//! last timestamp of the window where there is one, else past the window.
//! Decoding is done by the caller: a transition takes what a window was
//! decoded to and says which window comes next.

use vstd::prelude::*;
use tokenizers::Tokenizer;
use crate::error::TranscribeError;
use crate::model::ModelDims;
use crate::vocab::{rendered_text, SpecialTokens};

verus! {

/// What `run` is told.
#[derive(Debug)]
pub enum WindowEvent {
    /// A recording of `content_frames` feature frames begins.
    Begin { content_frames: usize },
    /// The window that was asked for was decoded to `tokens`.
    Decoded { tokens: Vec<u32> },
    /// The window that was asked for could not be decoded.
    Failed(TranscribeError),
}

/// What `run` asks for.
#[derive(Clone, Copy, Debug, PartialEq, Eq, Structural)]
pub enum WindowAction {
    /// Decode the `size` feature frames that begin at frame `seek`.
    Decode { seek: usize, size: usize },
    /// Nothing more: the recording is decoded.
    Finish,
    /// Give the file up.
    Abort(TranscribeError),
}

/// The state of the walk over one recording.
pub struct Schedule {
    /// Whether a window is being waited for.
    pub running: bool,
    /// The frame at which the next window begins.
    pub seek: nat,
    /// The number of frames of the recording.
    pub content_frames: nat,
    /// The text of each window decoded so far.
    pub texts: Seq<Seq<char>>,
}

/// `frames` as a frame cursor holds it: the greatest value that a cursor can
/// hold stands for every greater number.
pub open spec fn saturated(frames: nat) -> nat {
    if frames > usize::MAX {
        usize::MAX as nat
    } else {
        frames
    }
}

/// The number of frames of the window that begins at `at.seek`.
pub open spec fn window_size(dims: ModelDims, at: Schedule) -> nat {
    if at.content_frames - at.seek < dims.window_frame_limit {
        (at.content_frames - at.seek) as nat
    } else {
        dims.window_frame_limit as nat
    }
}

/// The number of frames by which the cursor moves past a window that was
/// decoded to `result`, which holds at least two tokens. Where the token
/// before the last is a timestamp above the first of the range, the cursor
/// moves to the time that it stands for; otherwise past the whole window.
pub open spec fn seek_advance(
    tokens: SpecialTokens,
    dims: ModelDims,
    at: Schedule,
    result: Seq<u32>,
) -> nat {
    let boundary = result[result.len() - 2];
    if boundary > tokens.timestamp_begin {
        ((boundary - tokens.timestamp_begin) * dims.input_stride()) as nat
    } else {
        window_size(dims, at)
    }
}

/// What is asked for in the state `at`.
pub open spec fn next_window(dims: ModelDims, at: Schedule) -> WindowAction {
    if at.running {
        WindowAction::Decode { seek: at.seek as usize, size: window_size(dims, at) as usize }
    } else {
        WindowAction::Finish
    }
}

/// The state after `event`, and what is asked for then, where `rendered`
/// is the text that the vocabulary makes of a decoded window, if it makes
/// one.
///
/// A recording begins at frame 0 with no text. Each decoded window moves
/// the cursor and leaves its text, until the cursor reaches the end of the
/// recording. A window of fewer than three tokens ends the walk with
/// `MalformedWindowResult`, one that the vocabulary cannot turn into text
/// with `TextRendering`, and one that could not be decoded with the error
/// that it failed with. A window that was not asked for is ignored.
pub open spec fn window_step(
    tokens: SpecialTokens,
    dims: ModelDims,
    at: Schedule,
    event: WindowEvent,
    rendered: Option<Seq<char>>,
) -> (Schedule, WindowAction) {
    match event {
        WindowEvent::Begin { content_frames } => {
            let begun = Schedule {
                running: content_frames > 0,
                seek: 0,
                content_frames: content_frames as nat,
                texts: Seq::empty(),
            };
            (begun, next_window(dims, begun))
        },
        WindowEvent::Failed(e) => (Schedule { running: false, ..at }, WindowAction::Abort(e)),
        WindowEvent::Decoded { tokens: result } => {
            if !at.running {
                (at, WindowAction::Finish)
            } else if result@.len() < 3 {
                (
                    Schedule { running: false, ..at },
                    WindowAction::Abort(TranscribeError::MalformedWindowResult),
                )
            } else {
                match rendered {
                    None => (
                        Schedule { running: false, ..at },
                        WindowAction::Abort(TranscribeError::TextRendering),
                    ),
                    Some(text) => {
                        let seek = saturated(
                            at.seek + seek_advance(tokens, dims, at, result@),
                        );
                        let then = Schedule {
                            running: seek < at.content_frames,
                            seek,
                            content_frames: at.content_frames,
                            texts: at.texts.push(text),
                        };
                        (then, next_window(dims, then))
                    },
                }
            }
        },
    }
}

/// The text that the vocabulary of `tokenizer` makes of the window that
/// `event` brings, if it brings one and the vocabulary makes a text of it.
pub open spec fn rendered_window(tokenizer: Tokenizer, event: WindowEvent) -> Option<Seq<char>> {
    match event {
        WindowEvent::Decoded { tokens } => rendered_text(tokenizer, tokens@),
        _ => None,
    }
}

/// The state after `event`, and what is asked for then, with the text of a
/// decoded window made by the vocabulary of `tokenizer`.
pub open spec fn run_step(
    tokenizer: Tokenizer,
    tokens: SpecialTokens,
    dims: ModelDims,
    at: Schedule,
    event: WindowEvent,
) -> (Schedule, WindowAction) {
    window_step(tokens, dims, at, event, rendered_window(tokenizer, event))
}

impl Schedule {
    /// What holds of the walk in every state that `run` leaves: while a
    /// window is waited for, the cursor lies within the recording.
    pub open spec fn consistent(&self) -> bool {
        self.running ==> self.seek < self.content_frames
    }
}

/// No transition breaks what holds of the walk, and the window that is
/// asked for lies within the recording and is no longer than a full window.
pub proof fn lemma_walk_keeps_consistent(
    tokens: SpecialTokens,
    dims: ModelDims,
    at: Schedule,
    event: WindowEvent,
    rendered: Option<Seq<char>>,
)
    requires
        at.consistent(),
    ensures
        window_step(tokens, dims, at, event, rendered).0.consistent(),
        window_step(tokens, dims, at, event, rendered).1 matches WindowAction::Decode {
            seek,
            size,
        } ==> {
            &&& seek == window_step(tokens, dims, at, event, rendered).0.seek
            &&& seek + size <= window_step(tokens, dims, at, event, rendered).0.content_frames
            &&& size <= dims.window_frame_limit
            &&& dims.window_frame_limit > 0 ==> size > 0
        },
{
}

/// A recording that is no longer than a full window is walked in one
/// window, where that window ends in no boundary timestamp: the cursor ends
/// at the end of the recording.
pub proof fn lemma_one_window(
    tokens: SpecialTokens,
    dims: ModelDims,
    at: Schedule,
    content_frames: usize,
    result: Vec<u32>,
    text: Seq<char>,
)
    requires
        0 < content_frames <= dims.window_frame_limit,
        result@.len() >= 3,
        result@[result@.len() - 2] <= tokens.timestamp_begin,
    ensures
        ({
            let (begun, first) = window_step(
                tokens,
                dims,
                at,
                WindowEvent::Begin { content_frames },
                None,
            );
            let (then, next) = window_step(
                tokens,
                dims,
                begun,
                WindowEvent::Decoded { tokens: result },
                Some(text),
            );
            &&& first == WindowAction::Decode { seek: 0, size: content_frames }
            &&& next == WindowAction::Finish
            &&& then.seek == content_frames
            &&& then.texts == seq![text]
        }),
{
    let (begun, first) = window_step(tokens, dims, at, WindowEvent::Begin { content_frames }, None);
    let (then, next) = window_step(
        tokens,
        dims,
        begun,
        WindowEvent::Decoded { tokens: result },
        Some(text),
    );
    assert(then.texts =~= seq![text]);
}

/// Every window that is taken moves the cursor forward, as long as a window
/// holds a frame and a timestamp step stands for one: the walk goes on
/// towards the end of the recording, or is given up.
pub proof fn lemma_seek_advances(
    tokens: SpecialTokens,
    dims: ModelDims,
    at: Schedule,
    result: Vec<u32>,
    rendered: Option<Seq<char>>,
)
    requires
        at.consistent(),
        at.content_frames <= usize::MAX,
        dims.window_frame_limit > 0,
        dims.input_stride() > 0,
        at.running,
    ensures
        ({
            let (then, action) = window_step(
                tokens,
                dims,
                at,
                WindowEvent::Decoded { tokens: result },
                rendered,
            );
            action is Abort || then.seek > at.seek
        }),
{
    if result@.len() >= 3 {
        let boundary = result@[result@.len() - 2];
        if boundary > tokens.timestamp_begin {
            assert((boundary - tokens.timestamp_begin) * dims.input_stride() > 0)
                by (nonlinear_arith)
                requires
                    boundary - tokens.timestamp_begin > 0,
                    dims.input_stride() > 0,
            ;
        }
    }
}

} // verus!
