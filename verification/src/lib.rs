//! Greedy, timestamp-aware decoding of speech recognition output.
//!
//! The crate holds the decisions of a Whisper-style transcriber and proves
//! them against their contracts. Running the neural network, reading audio
//! and writing files are left to the caller, who hands the library plain
//! values and acts on what it answers.
//!
//! - `mask` builds the bias over the vocabulary that enforces the timestamp
//!   grammar: text and timestamps alternate, timestamps come in pairs and do
//!   not decrease.
//! - `select` chooses the token with the greatest score, the lowest id among
//!   equals.
//! - `generation` is the state machine that generates one window's tokens.
//! - `schedule` is the state machine that walks a recording window by
//!   window.
//! - `decoder` holds both machines with the vocabulary and the model's
//!   dimensions.
//! - `markup` reads the timestamp markers in decoded text, `segment` cuts
//!   the segments of a window out of it, and `transcript` joins the windows
//!   of a recording.
//! - `vocab` looks the special tokens up and renders tokens as text, `text`
//!   has the character work, `model` and `error` the small types, and
//!   `signal_processing` what is left of audio loading.

pub mod decoder;
pub mod error;
pub mod generation;
pub mod markup;
pub mod mask;
pub mod model;
pub mod schedule;
pub mod segment;
pub mod select;
pub mod signal_processing;
pub mod text;
pub mod transcript;
pub mod vocab;
