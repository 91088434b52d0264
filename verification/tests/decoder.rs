use tokenizers::decoders::bpe::BPEDecoder;
use tokenizers::decoders::byte_fallback::ByteFallback;
use tokenizers::decoders::byte_level::ByteLevel;
use tokenizers::decoders::ctc::CTC;
use tokenizers::decoders::fuse::Fuse;
use tokenizers::decoders::metaspace::Metaspace;
use tokenizers::decoders::sequence::Sequence;
use tokenizers::decoders::strip::Strip;
use tokenizers::decoders::wordpiece::WordPiece;
use tokenizers::decoders::DecoderWrapper;
use tokenizers::models::wordlevel::WordLevel;
use tokenizers::normalizers::replace::Replace;
use tokenizers::{AddedToken, Tokenizer};
use whisper_decoder::decoder::Decoder;
use whisper_decoder::error::TranscribeError;
use whisper_decoder::generation::{DecodeAction, DecodeEvent, Phase};
use whisper_decoder::mask::SuppressionMask;
use whisper_decoder::model::ModelDims;
use whisper_decoder::schedule::{WindowAction, WindowEvent};
use whisper_decoder::select::BLOCKED;
use whisper_decoder::transcript::Transcript;
use whisper_decoder::vocab::SpecialTokens;

const WORDS: [&str; 3] = ["Hello", "world", "Goodbye"];
const EOT: u32 = 3;
const SOT: u32 = 4;
const EN: u32 = 5;
const TRANSCRIBE: u32 = 6;
const NO_SPEECH: u32 = 7;
const NO_TIMESTAMPS: u32 = 8;
const T0: u32 = 9;
const VOCAB: usize = 17;

fn tokenizer_of(names: &[&str]) -> Tokenizer {
    let mut tokenizer = Tokenizer::new(WordLevel::default());
    let tokens: Vec<AddedToken> = names.iter().map(|n| AddedToken::from(*n, true)).collect();
    tokenizer.add_special_tokens(tokens).unwrap();
    tokenizer
}

fn names() -> Vec<&'static str> {
    let mut names: Vec<&str> = WORDS.to_vec();
    names.extend([
        "<|endoftext|>",
        "<|startoftranscript|>",
        "<|en|>",
        "<|transcribe|>",
        "<|nospeech|>",
        "<|notimestamps|>",
        "<|0.00|>",
        "<|0.02|>",
        "<|0.04|>",
        "<|0.06|>",
        "<|0.08|>",
        "<|0.10|>",
        "<|0.12|>",
        "<|0.14|>",
    ]);
    names
}

fn dims(max_target_positions: usize) -> ModelDims {
    ModelDims {
        vocab_size: VOCAB,
        max_target_positions,
        max_source_positions: 1500,
        window_frame_limit: 3000,
    }
}

fn decoder(max_target_positions: usize) -> Decoder {
    Decoder::new(tokenizer_of(&names()), dims(max_target_positions)).unwrap()
}

fn blocked(mask: &SuppressionMask) -> Vec<u32> {
    (0..mask.len() as u32).filter(|t| mask.is_blocked(*t)).collect()
}

fn favour(token: u32) -> DecodeEvent {
    let mut scores = vec![0i64; VOCAB];
    scores[token as usize] = 100;
    DecodeEvent::Logits { scores, timestamps_dominate: false }
}

fn bias_of(action: &DecodeAction) -> Vec<u32> {
    match action {
        DecodeAction::Infer { bias, .. } => blocked(bias),
        other => panic!("no request for the model: {:?}", other),
    }
}

fn reset_of(action: &DecodeAction) -> bool {
    match action {
        DecodeAction::Infer { reset_cache, .. } => *reset_cache,
        other => panic!("no request for the model: {:?}", other),
    }
}

fn is_finish(action: &DecodeAction) -> bool {
    matches!(action, DecodeAction::Finish)
}

fn abort_of(action: &DecodeAction) -> Option<TranscribeError> {
    match action {
        DecodeAction::Abort(e) => Some(*e),
        _ => None,
    }
}

#[test]
fn special_tokens_are_resolved_by_name() {
    let tokens = SpecialTokens::resolve(&tokenizer_of(&names())).unwrap();
    assert_eq!(
        tokens,
        SpecialTokens {
            sot: SOT,
            language: EN,
            transcribe: TRANSCRIBE,
            eot: EOT,
            no_speech: NO_SPEECH,
            no_timestamps: NO_TIMESTAMPS,
            timestamp_begin: T0,
        }
    );
    assert_eq!(decoder(448).special_tokens(), tokens);
}

#[test]
fn special_tokens_follow_the_vocabulary() {
    let moved = [
        "<|0.00|>",
        "<|notimestamps|>",
        "<|nospeech|>",
        "<|transcribe|>",
        "<|en|>",
        "<|startoftranscript|>",
        "<|endoftext|>",
    ];
    let tokens = SpecialTokens::resolve(&tokenizer_of(&moved)).unwrap();
    assert_eq!(
        tokens,
        SpecialTokens {
            sot: 5,
            language: 4,
            transcribe: 3,
            eot: 6,
            no_speech: 2,
            no_timestamps: 1,
            timestamp_begin: 0,
        }
    );
}

#[test]
fn each_special_token_is_required() {
    let all = names();
    for missing in [
        "<|endoftext|>",
        "<|startoftranscript|>",
        "<|en|>",
        "<|transcribe|>",
        "<|nospeech|>",
        "<|notimestamps|>",
        "<|0.00|>",
    ] {
        let rest: Vec<&str> = all.iter().filter(|n| **n != missing).cloned().collect();
        assert_eq!(
            SpecialTokens::resolve(&tokenizer_of(&rest)).err(),
            Some(TranscribeError::VocabularyLookup),
            "without {}",
            missing
        );
        assert_eq!(
            Decoder::new(tokenizer_of(&rest), dims(448)).err(),
            Some(TranscribeError::VocabularyLookup)
        );
    }
}

#[test]
fn vocabulary_must_hold_the_special_ids() {
    let small = ModelDims { vocab_size: 8, ..dims(448) };
    assert_eq!(
        Decoder::new(tokenizer_of(&names()), small).err(),
        Some(TranscribeError::VocabularyLookup)
    );
    let edge = ModelDims { vocab_size: 9, ..dims(448) };
    assert!(Decoder::new(tokenizer_of(&names()), edge).is_ok());
}

#[test]
fn timestamp_and_ordinary_tokens_are_told_apart() {
    let tokens = decoder(448).special_tokens();
    assert!(tokens.timestamp(T0));
    assert!(tokens.timestamp(T0 + 7));
    assert!(!tokens.timestamp(T0 - 1));
    assert!(tokens.ordinary(0));
    assert!(tokens.ordinary(2));
    for reserved in [EOT, SOT, EN, TRANSCRIBE, NO_SPEECH, NO_TIMESTAMPS, T0, T0 + 1] {
        assert!(!tokens.ordinary(reserved), "token {}", reserved);
    }
}

#[test]
fn new_decoder_has_begun_nothing() {
    let decoder = decoder(448);
    assert_eq!(decoder.phase(), Phase::Init);
    assert!(decoder.tokens().is_empty());
    assert!(decoder.texts().is_empty());
    assert_eq!(decoder.seek(), 0);
    assert_eq!(decoder.dims(), dims(448));
}

#[test]
fn no_timestamps_token_is_always_blocked() {
    let decoder = decoder(448);
    let histories: [&[u32]; 7] = [
        &[],
        &[SOT],
        &[SOT, EN, TRANSCRIBE],
        &[TRANSCRIBE, T0],
        &[0, T0 + 2],
        &[T0 + 1, T0 + 2],
        &[T0 + 2, 1],
    ];
    for history in histories {
        let mask = decoder.build_suppress_tokens(&history.to_vec());
        assert_eq!(mask.len(), VOCAB);
        assert!(mask.is_blocked(NO_TIMESTAMPS), "after {:?}", history);
    }
}

#[test]
fn baseline_blocks_only_the_no_timestamps_token() {
    let decoder = decoder(448);
    let histories: [&[u32]; 6] =
        [&[], &[T0], &[SOT, EN, TRANSCRIBE], &[TRANSCRIBE, T0 + 3], &[T0, 1], &[0, 1]];
    for history in histories {
        assert_eq!(
            blocked(&decoder.build_suppress_tokens(&history.to_vec())),
            vec![NO_TIMESTAMPS],
            "after {:?}",
            history
        );
    }
}

#[test]
fn two_timestamps_block_every_timestamp() {
    let decoder = decoder(448);
    for history in [[T0, T0], [T0 + 2, T0 + 2], [T0 + 1, T0 + 7], [T0 + 7, T0]] {
        let mask = decoder.build_suppress_tokens(&vec![SOT, EN, TRANSCRIBE, 0, history[0], history[1]]);
        assert_eq!(blocked(&mask), vec![8, 9, 10, 11, 12, 13, 14, 15, 16], "after {:?}", history);
    }
}

#[test]
fn one_timestamp_after_a_word_blocks_words_and_smaller_timestamps() {
    let decoder = decoder(448);
    let mask = decoder.build_suppress_tokens(&vec![SOT, EN, TRANSCRIBE, T0, 1, T0 + 3]);
    assert_eq!(blocked(&mask), vec![0, 1, 2, 4, 5, 6, 7, 8, 9, 10, 11]);
    assert!(!mask.is_blocked(EOT));
    assert!(!mask.is_blocked(T0 + 3));
    let first = decoder.build_suppress_tokens(&vec![2, T0]);
    assert_eq!(blocked(&first), vec![0, 1, 2, 4, 5, 6, 7, 8]);
}

#[test]
fn timestamp_after_a_control_token_adds_nothing() {
    let decoder = decoder(448);
    for control in [EOT, SOT, EN, TRANSCRIBE, NO_SPEECH, NO_TIMESTAMPS] {
        let mask = decoder.build_suppress_tokens(&vec![control, T0 + 3]);
        assert_eq!(blocked(&mask), vec![NO_TIMESTAMPS], "after {}", control);
    }
}

#[test]
fn suppress_smaller_timestamps_blocks_below_only() {
    let decoder = decoder(448);
    assert_eq!(blocked(&decoder.suppress_smaller_timestamps(T0 + 3)), vec![9, 10, 11]);
    assert_eq!(blocked(&decoder.suppress_smaller_timestamps(T0)), Vec::<u32>::new());
    assert_eq!(blocked(&decoder.suppress_smaller_timestamps(2)), Vec::<u32>::new());
    assert_eq!(
        blocked(&decoder.suppress_smaller_timestamps(1000)),
        vec![9, 10, 11, 12, 13, 14, 15, 16]
    );
}

#[test]
fn window_begins_with_the_seed_and_a_cache_reset() {
    let mut decoder = decoder(448);
    let action = decoder.decode(&DecodeEvent::Begin);
    assert_eq!(decoder.phase(), Phase::Generating);
    assert_eq!(decoder.tokens(), &vec![SOT, EN, TRANSCRIBE]);
    assert!(reset_of(&action));
    assert_eq!(bias_of(&action), vec![NO_TIMESTAMPS]);
}

#[test]
fn cache_is_reset_on_the_first_request_only() {
    let mut decoder = decoder(448);
    assert!(reset_of(&decoder.decode(&DecodeEvent::Begin)));
    assert!(!reset_of(&decoder.decode(&favour(T0))));
    assert!(!reset_of(&decoder.decode(&favour(0))));
    assert!(reset_of(&decoder.decode(&DecodeEvent::Begin)));
}

#[test]
fn greedy_choice_is_appended() {
    let mut decoder = decoder(448);
    decoder.decode(&DecodeEvent::Begin);
    decoder.decode(&favour(T0));
    decoder.decode(&favour(0));
    decoder.decode(&favour(1));
    assert_eq!(decoder.tokens(), &vec![SOT, EN, TRANSCRIBE, T0, 0, 1]);
    assert_eq!(decoder.phase(), Phase::Generating);
}

#[test]
fn ties_go_to_the_lowest_id() {
    let mut decoder = decoder(448);
    decoder.decode(&DecodeEvent::Begin);
    let mut scores = vec![-5i64; VOCAB];
    scores[2] = 9;
    scores[11] = 9;
    scores[1] = 9;
    decoder.decode(&DecodeEvent::Logits { scores, timestamps_dominate: false });
    assert_eq!(decoder.tokens().last(), Some(&1));
}

#[test]
fn bias_overrides_the_scores() {
    let mut decoder = decoder(448);
    decoder.decode(&DecodeEvent::Begin);
    let mut scores = vec![0i64; VOCAB];
    scores[NO_TIMESTAMPS as usize] = 1000;
    scores[2] = 5;
    decoder.decode(&DecodeEvent::Logits { scores, timestamps_dominate: false });
    assert_eq!(decoder.tokens().last(), Some(&2));
}

#[test]
fn dominating_timestamps_force_a_timestamp() {
    let mut decoder = decoder(448);
    decoder.decode(&DecodeEvent::Begin);
    let mut scores = vec![0i64; VOCAB];
    scores[1] = 50;
    scores[(T0 + 2) as usize] = 20;
    scores[(T0 + 4) as usize] = 20;
    decoder.decode(&DecodeEvent::Logits { scores: scores.clone(), timestamps_dominate: true });
    assert_eq!(decoder.tokens().last(), Some(&(T0 + 2)));
    let mut other = self::decoder(448);
    other.decode(&DecodeEvent::Begin);
    other.decode(&DecodeEvent::Logits { scores, timestamps_dominate: false });
    assert_eq!(other.tokens().last(), Some(&1));
}

#[test]
fn dominating_timestamps_still_allow_the_end() {
    let mut decoder = decoder(448);
    decoder.decode(&DecodeEvent::Begin);
    let mut scores = vec![0i64; VOCAB];
    scores[EOT as usize] = 50;
    scores[(T0 + 2) as usize] = 20;
    let action = decoder.decode(&DecodeEvent::Logits { scores, timestamps_dominate: true });
    assert_eq!(decoder.tokens().last(), Some(&EOT));
    assert!(is_finish(&action));
}

#[test]
fn third_timestamp_in_a_row_is_never_chosen() {
    let mut decoder = decoder(448);
    decoder.decode(&DecodeEvent::Begin);
    decoder.decode(&favour(T0));
    decoder.decode(&favour(0));
    decoder.decode(&favour(T0 + 2));
    let action = decoder.decode(&favour(T0 + 2));
    assert_eq!(bias_of(&action), vec![8, 9, 10, 11, 12, 13, 14, 15, 16]);
    decoder.decode(&favour(T0 + 3));
    assert_eq!(decoder.tokens(), &vec![SOT, EN, TRANSCRIBE, T0, 0, T0 + 2, T0 + 2, 0]);
}

#[test]
fn timestamps_of_a_window_do_not_decrease() {
    let mut decoder = decoder(448);
    decoder.decode(&DecodeEvent::Begin);
    decoder.decode(&favour(T0));
    decoder.decode(&favour(0));
    let action = decoder.decode(&favour(T0 + 3));
    assert_eq!(bias_of(&action), vec![0, 1, 2, 4, 5, 6, 7, 8, 9, 10, 11]);
    let mut scores = vec![0i64; VOCAB];
    scores[(T0 + 1) as usize] = 90;
    scores[1] = 80;
    scores[(T0 + 5) as usize] = 10;
    decoder.decode(&DecodeEvent::Logits { scores, timestamps_dominate: false });
    assert_eq!(decoder.tokens().last(), Some(&(T0 + 5)));
}

#[test]
fn end_of_transcript_ends_the_window() {
    let mut decoder = decoder(448);
    decoder.decode(&DecodeEvent::Begin);
    decoder.decode(&favour(T0));
    let action = decoder.decode(&favour(EOT));
    assert!(is_finish(&action));
    assert_eq!(decoder.phase(), Phase::Terminal);
    assert_eq!(decoder.tokens(), &vec![SOT, EN, TRANSCRIBE, T0, EOT]);
}

#[test]
fn without_end_of_transcript_the_length_cap_ends_the_window() {
    let mut decoder = decoder(3);
    let mut action = decoder.decode(&DecodeEvent::Begin);
    let mut steps = 0;
    while !is_finish(&action) {
        assert!(abort_of(&action).is_none());
        action = decoder.decode(&favour(0));
        steps += 1;
    }
    assert_eq!(steps, 1);
    assert_eq!(decoder.tokens().len(), 4);
    assert!(decoder.tokens().len() > 3);
    assert!(!decoder.tokens().contains(&EOT));
    assert_eq!(decoder.phase(), Phase::Terminal);
}

#[test]
fn without_end_of_transcript_the_step_limit_ends_the_window() {
    for max_target_positions in [4usize, 5, 10, 448] {
        let mut decoder = decoder(max_target_positions);
        let mut action = decoder.decode(&DecodeEvent::Begin);
        let mut steps = 0;
        while !is_finish(&action) {
            assert!(abort_of(&action).is_none());
            action = decoder.decode(&favour(0));
            steps += 1;
        }
        assert_eq!(steps, max_target_positions / 2);
        assert_eq!(decoder.tokens().len(), 3 + max_target_positions / 2);
        assert!(!decoder.tokens().contains(&EOT));
    }
}

#[test]
fn window_of_a_model_that_takes_one_token_is_the_seed() {
    let mut decoder = decoder(1);
    let action = decoder.decode(&DecodeEvent::Begin);
    assert!(is_finish(&action));
    assert_eq!(decoder.tokens(), &vec![SOT, EN, TRANSCRIBE]);
    assert_eq!(decoder.phase(), Phase::Terminal);
}

#[test]
fn model_failure_is_fatal() {
    let mut decoder = decoder(448);
    decoder.decode(&DecodeEvent::Begin);
    decoder.decode(&favour(T0));
    let action = decoder.decode(&DecodeEvent::Failure);
    assert_eq!(abort_of(&action), Some(TranscribeError::ModelInference));
    assert_eq!(decoder.phase(), Phase::Terminal);
    assert!(is_finish(&decoder.decode(&favour(0))));
    assert_eq!(decoder.tokens(), &vec![SOT, EN, TRANSCRIBE, T0]);
}

#[test]
fn scores_of_the_wrong_length_are_a_model_failure() {
    for len in [0usize, VOCAB - 1, VOCAB + 1] {
        let mut decoder = decoder(448);
        decoder.decode(&DecodeEvent::Begin);
        let action =
            decoder.decode(&DecodeEvent::Logits { scores: vec![1; len], timestamps_dominate: false });
        assert_eq!(abort_of(&action), Some(TranscribeError::ModelInference));
        assert_eq!(decoder.tokens(), &vec![SOT, EN, TRANSCRIBE]);
        assert_eq!(decoder.phase(), Phase::Terminal);
    }
}

#[test]
fn scores_are_ignored_outside_a_window() {
    let mut decoder = decoder(448);
    assert!(is_finish(&decoder.decode(&favour(0))));
    assert_eq!(decoder.phase(), Phase::Init);
    assert!(decoder.tokens().is_empty());
}

#[test]
fn all_scores_at_minus_infinity_choose_token_zero() {
    let mut decoder = decoder(448);
    decoder.decode(&DecodeEvent::Begin);
    decoder.decode(&DecodeEvent::Logits { scores: vec![BLOCKED; VOCAB], timestamps_dominate: false });
    assert_eq!(decoder.tokens().last(), Some(&0));
}

#[test]
fn recording_of_one_full_window_takes_one_iteration() {
    let mut decoder = decoder(448);
    let first = decoder.run(&WindowEvent::Begin { content_frames: 3000 });
    assert_eq!(first, WindowAction::Decode { seek: 0, size: 3000 });
    let next = decoder.run(&WindowEvent::Decoded { tokens: vec![SOT, EN, TRANSCRIBE, 0, 1, EOT] });
    assert_eq!(next, WindowAction::Finish);
    assert_eq!(decoder.seek(), 3000);
    assert_eq!(decoder.texts().len(), 1);
}

#[test]
fn last_window_is_as_long_as_what_is_left() {
    let mut decoder = decoder(448);
    let words = vec![SOT, EN, TRANSCRIBE, 0, 1, EOT];
    assert_eq!(
        decoder.run(&WindowEvent::Begin { content_frames: 7000 }),
        WindowAction::Decode { seek: 0, size: 3000 }
    );
    assert_eq!(
        decoder.run(&WindowEvent::Decoded { tokens: words.clone() }),
        WindowAction::Decode { seek: 3000, size: 3000 }
    );
    assert_eq!(
        decoder.run(&WindowEvent::Decoded { tokens: words.clone() }),
        WindowAction::Decode { seek: 6000, size: 1000 }
    );
    assert_eq!(decoder.run(&WindowEvent::Decoded { tokens: words }), WindowAction::Finish);
    assert_eq!(decoder.seek(), 7000);
    assert_eq!(decoder.texts().len(), 3);
}

#[test]
fn boundary_timestamp_moves_the_cursor() {
    let mut decoder = decoder(448);
    decoder.run(&WindowEvent::Begin { content_frames: 7000 });
    let next = decoder.run(&WindowEvent::Decoded {
        tokens: vec![SOT, EN, TRANSCRIBE, T0, 0, T0 + 5, T0 + 5, EOT],
    });
    assert_eq!(next, WindowAction::Decode { seek: 10, size: 3000 });
    assert_eq!(decoder.seek(), 10);
}

#[test]
fn stride_is_the_ratio_of_frames_to_positions() {
    let wide = ModelDims { max_source_positions: 100, ..dims(448) };
    let mut decoder = Decoder::new(tokenizer_of(&names()), wide).unwrap();
    decoder.run(&WindowEvent::Begin { content_frames: 7000 });
    let next = decoder.run(&WindowEvent::Decoded { tokens: vec![SOT, 0, T0 + 7, EOT] });
    assert_eq!(next, WindowAction::Decode { seek: 210, size: 3000 });
}

#[test]
fn first_timestamp_of_the_range_is_no_boundary() {
    let mut decoder = decoder(448);
    decoder.run(&WindowEvent::Begin { content_frames: 7000 });
    let next = decoder.run(&WindowEvent::Decoded { tokens: vec![SOT, EN, TRANSCRIBE, T0, EOT] });
    assert_eq!(next, WindowAction::Decode { seek: 3000, size: 3000 });
}

#[test]
fn only_the_token_before_the_last_is_the_boundary() {
    let mut decoder = decoder(448);
    decoder.run(&WindowEvent::Begin { content_frames: 7000 });
    let next = decoder.run(&WindowEvent::Decoded { tokens: vec![T0 + 4, T0 + 4, 0, T0 + 6] });
    assert_eq!(next, WindowAction::Decode { seek: 3000, size: 3000 });
}

#[test]
fn window_of_fewer_than_three_tokens_is_malformed() {
    for tokens in [vec![], vec![SOT], vec![SOT, EOT]] {
        let mut decoder = decoder(448);
        decoder.run(&WindowEvent::Begin { content_frames: 3000 });
        assert_eq!(
            decoder.run(&WindowEvent::Decoded { tokens }),
            WindowAction::Abort(TranscribeError::MalformedWindowResult)
        );
        assert_eq!(decoder.seek(), 0);
        assert!(decoder.texts().is_empty());
        assert_eq!(
            decoder.run(&WindowEvent::Decoded { tokens: vec![SOT, EN, EOT] }),
            WindowAction::Finish
        );
    }
}

#[test]
fn three_tokens_are_enough() {
    let mut decoder = decoder(448);
    decoder.run(&WindowEvent::Begin { content_frames: 3000 });
    assert_eq!(
        decoder.run(&WindowEvent::Decoded { tokens: vec![SOT, EN, EOT] }),
        WindowAction::Finish
    );
}

#[test]
fn failed_window_is_fatal() {
    let mut decoder = decoder(448);
    decoder.run(&WindowEvent::Begin { content_frames: 7000 });
    assert_eq!(
        decoder.run(&WindowEvent::Failed(TranscribeError::ModelInference)),
        WindowAction::Abort(TranscribeError::ModelInference)
    );
    assert_eq!(
        decoder.run(&WindowEvent::Decoded { tokens: vec![SOT, EN, TRANSCRIBE, EOT] }),
        WindowAction::Finish
    );
    assert!(decoder.texts().is_empty());
}

#[test]
fn empty_recording_has_no_window() {
    let mut decoder = decoder(448);
    assert_eq!(decoder.run(&WindowEvent::Begin { content_frames: 0 }), WindowAction::Finish);
    assert_eq!(
        decoder.run(&WindowEvent::Decoded { tokens: vec![SOT, EN, TRANSCRIBE, EOT] }),
        WindowAction::Finish
    );
    assert!(decoder.texts().is_empty());
}

#[test]
fn cursor_adds_up_over_windows() {
    let mut decoder = decoder(448);
    decoder.run(&WindowEvent::Begin { content_frames: usize::MAX });
    let mut action = WindowAction::Finish;
    for _ in 0..3 {
        action = decoder.run(&WindowEvent::Decoded { tokens: vec![SOT, u32::MAX, EOT] });
    }
    let step = (u32::MAX - T0) as usize * 2;
    assert_eq!(action, WindowAction::Decode { seek: 3 * step, size: 3000 });
    assert_eq!(3 * step, 25769803716);
}

#[test]
fn cursor_stops_at_the_greatest_value() {
    let huge = ModelDims { window_frame_limit: usize::MAX, max_source_positions: 1, ..dims(448) };
    let mut far = Decoder::new(tokenizer_of(&names()), huge).unwrap();
    far.run(&WindowEvent::Begin { content_frames: 10 });
    assert_eq!(
        far.run(&WindowEvent::Decoded { tokens: vec![SOT, T0 + 2, EOT] }),
        WindowAction::Finish
    );
    assert_eq!(far.seek(), usize::MAX);
}

#[test]
fn window_text_is_rendered_by_the_vocabulary() {
    let mut decoder = decoder(448);
    decoder.run(&WindowEvent::Begin { content_frames: 6000 });
    decoder.run(&WindowEvent::Decoded { tokens: vec![SOT, EN, TRANSCRIBE, T0, 0, 1, T0 + 1, EOT] });
    decoder.run(&WindowEvent::Decoded { tokens: vec![SOT, EN, TRANSCRIBE, T0, 2, T0 + 3, EOT] });
    assert_eq!(
        decoder.texts(),
        &vec![
            "<|startoftranscript|> <|en|> <|transcribe|> <|0.00|> Hello world <|0.02|> <|endoftext|>"
                .to_string(),
            "<|startoftranscript|> <|en|> <|transcribe|> <|0.00|> Goodbye <|0.06|> <|endoftext|>"
                .to_string(),
        ]
    );
}

#[test]
fn new_recording_forgets_the_texts() {
    let mut decoder = decoder(448);
    decoder.run(&WindowEvent::Begin { content_frames: 3000 });
    decoder.run(&WindowEvent::Decoded { tokens: vec![SOT, EN, TRANSCRIBE, 0, EOT] });
    assert_eq!(decoder.texts().len(), 1);
    assert_eq!(
        decoder.run(&WindowEvent::Begin { content_frames: 100 }),
        WindowAction::Decode { seek: 0, size: 100 }
    );
    assert!(decoder.texts().is_empty());
    assert_eq!(decoder.seek(), 0);
}

#[test]
fn decoded_windows_become_a_transcript() {
    let mut decoder = decoder(448);
    let mut window = decoder.run(&WindowEvent::Begin { content_frames: 18 });
    let script: [&[u32]; 2] = [&[T0, 0, 1, T0 + 5, T0 + 5, EOT], &[T0 + 1, 2, T0 + 4, EOT]];
    let mut decoded = 0;
    while let WindowAction::Decode { .. } = window {
        let mut action = decoder.decode(&DecodeEvent::Begin);
        let mut step = 0;
        while !is_finish(&action) {
            assert!(abort_of(&action).is_none());
            action = decoder.decode(&favour(script[decoded][step]));
            step += 1;
        }
        let tokens = decoder.tokens().clone();
        window = decoder.run(&WindowEvent::Decoded { tokens });
        decoded += 1;
    }
    assert_eq!(window, WindowAction::Finish);
    assert_eq!(decoded, 2);
    assert_eq!(decoder.seek(), 18);
    let transcript = Transcript::new(decoder.texts().clone()).unwrap();
    let segments: Vec<(u128, u128, &str)> = transcript
        .segments()
        .iter()
        .map(|s| (s.start_time(), s.end_time(), s.text().as_str()))
        .collect();
    assert_eq!(segments, vec![(0, 10, "Hello world"), (12, 18, "Goodbye")]);
    assert_eq!(transcript.text(), "Hello world Goodbye");
}

#[test]
fn special_tokens_are_gathered_from_lookups() {
    assert_eq!(
        SpecialTokens::from_lookups(Some(1), Some(2), Some(3), Some(4), Some(5), Some(6), Some(7)),
        Ok(SpecialTokens {
            sot: 1,
            language: 2,
            transcribe: 3,
            eot: 4,
            no_speech: 5,
            no_timestamps: 6,
            timestamp_begin: 7,
        })
    );
}

#[test]
fn one_lookup_that_found_nothing_is_a_lookup_failure() {
    for missing in 0..7 {
        let ids: Vec<Option<u32>> =
            (0..7).map(|i| if i == missing { None } else { Some(i) }).collect();
        assert_eq!(
            SpecialTokens::from_lookups(ids[0], ids[1], ids[2], ids[3], ids[4], ids[5], ids[6]),
            Err(TranscribeError::VocabularyLookup)
        );
    }
    assert_eq!(
        SpecialTokens::from_lookups(None, None, None, None, None, None, None),
        Err(TranscribeError::VocabularyLookup)
    );
}

#[test]
fn decoder_can_be_made_of_given_special_tokens() {
    let tokens = SpecialTokens {
        sot: 50258,
        language: 50259,
        transcribe: 50360,
        eot: 50257,
        no_speech: 50363,
        no_timestamps: 50364,
        timestamp_begin: 50365,
    };
    let large = ModelDims {
        vocab_size: 51866,
        max_target_positions: 448,
        max_source_positions: 1500,
        window_frame_limit: 3000,
    };
    let mut decoder = Decoder::with_tokens(tokenizer_of(&[]), tokens, large).unwrap();
    assert_eq!(decoder.special_tokens(), tokens);
    let action = decoder.decode(&DecodeEvent::Begin);
    assert_eq!(decoder.tokens(), &vec![50258, 50259, 50360]);
    assert_eq!(bias_of(&action), vec![50364]);
    let mask = decoder.build_suppress_tokens(&vec![50360, 50365, 11, 50465]);
    assert_eq!(blocked(&mask).len(), 50365 - 1 + 100);
    assert!(!mask.is_blocked(50257));
    assert!(mask.is_blocked(50464));
    assert!(!mask.is_blocked(50465));
    let small = ModelDims { vocab_size: 50364, ..large };
    assert_eq!(
        Decoder::with_tokens(tokenizer_of(&[]), tokens, small).err(),
        Some(TranscribeError::VocabularyLookup)
    );
}

#[test]
fn walk_takes_the_text_that_it_is_given() {
    let mut decoder = decoder(448);
    decoder.walk(&WindowEvent::Begin { content_frames: 6000 }, None);
    let next = decoder.walk(
        &WindowEvent::Decoded { tokens: vec![SOT, EN, TRANSCRIBE, 0, EOT] },
        Some("<|0.00|> anything<|1.00|>".to_string()),
    );
    assert_eq!(next, WindowAction::Decode { seek: 3000, size: 3000 });
    assert_eq!(decoder.texts(), &vec!["<|0.00|> anything<|1.00|>".to_string()]);
}

#[test]
fn window_without_text_is_a_rendering_failure() {
    let mut decoder = decoder(448);
    decoder.walk(&WindowEvent::Begin { content_frames: 6000 }, None);
    let next =
        decoder.walk(&WindowEvent::Decoded { tokens: vec![SOT, EN, TRANSCRIBE, 0, EOT] }, None);
    assert_eq!(next, WindowAction::Abort(TranscribeError::TextRendering));
    assert_eq!(decoder.seek(), 0);
    assert!(decoder.texts().is_empty());
    assert_eq!(
        decoder.walk(
            &WindowEvent::Decoded { tokens: vec![SOT, EN, TRANSCRIBE, 0, EOT] },
            Some("late".to_string())
        ),
        WindowAction::Finish
    );
}

#[test]
fn malformed_window_comes_before_its_text() {
    let mut decoder = decoder(448);
    decoder.walk(&WindowEvent::Begin { content_frames: 6000 }, None);
    assert_eq!(
        decoder.walk(&WindowEvent::Decoded { tokens: vec![SOT, EOT] }, None),
        WindowAction::Abort(TranscribeError::MalformedWindowResult)
    );
}

fn with_decoder(decoder: DecoderWrapper) -> Tokenizer {
    let mut tokenizer = tokenizer_of(&names());
    tokenizer.with_decoder(Some(decoder));
    tokenizer
}

#[test]
fn tokenizer_with_another_decoder_is_refused() {
    let decoders: Vec<DecoderWrapper> = vec![
        BPEDecoder::default().into(),
        WordPiece::default().into(),
        Metaspace::default().into(),
        CTC::default().into(),
        Sequence::new(vec![]).into(),
        Sequence::new(vec![ByteLevel::default().into()]).into(),
        Replace::new("a", "b").unwrap().into(),
        Fuse::new().into(),
        Strip::new(' ', 1, 1).into(),
        ByteFallback::new().into(),
    ];
    for decoder in decoders {
        let shown = format!("{:?}", decoder);
        assert_eq!(
            Decoder::new(with_decoder(decoder.clone()), dims(448)).err(),
            Some(TranscribeError::TextRendering),
            "for {}",
            shown
        );
        let tokens = SpecialTokens::resolve(&tokenizer_of(&names())).unwrap();
        assert_eq!(
            Decoder::with_tokens(with_decoder(decoder), tokens, dims(448)).err(),
            Some(TranscribeError::TextRendering),
            "for {}",
            shown
        );
    }
}

#[test]
fn missing_token_is_reported_before_the_decoder() {
    let mut tokenizer = tokenizer_of(&["<|endoftext|>"]);
    tokenizer.with_decoder(Some(Strip::new(' ', 1, 1)));
    assert_eq!(
        Decoder::new(tokenizer, dims(448)).err(),
        Some(TranscribeError::VocabularyLookup)
    );
    let small = ModelDims { vocab_size: 8, ..dims(448) };
    assert_eq!(
        Decoder::new(with_decoder(Strip::new(' ', 1, 1).into()), small).err(),
        Some(TranscribeError::VocabularyLookup)
    );
}

#[test]
fn byte_level_tokenizer_renders_words_with_their_spaces() {
    let mut all: Vec<&str> = vec!["ĠHello", "Ġworld", "ĠGoodbye"];
    all.extend(names().into_iter().skip(3));
    let mut tokenizer = tokenizer_of(&all);
    tokenizer.with_decoder(Some(ByteLevel::default()));
    let mut decoder = Decoder::new(tokenizer, dims(448)).unwrap();
    decoder.run(&WindowEvent::Begin { content_frames: 3000 });
    let next = decoder.run(&WindowEvent::Decoded {
        tokens: vec![SOT, EN, TRANSCRIBE, T0, 0, 1, T0 + 5, T0 + 5, 2, T0 + 7, EOT],
    });
    assert_eq!(next, WindowAction::Decode { seek: 14, size: 2986 });
    assert_eq!(
        decoder.texts(),
        &vec![
            "<|startoftranscript|><|en|><|transcribe|><|0.00|> Hello world<|0.10|><|0.10|> Goodbye<|0.14|><|endoftext|>"
                .to_string()
        ]
    );
    let transcript = Transcript::new(decoder.texts().clone()).unwrap();
    let segments: Vec<(u128, u128, &str)> = transcript
        .segments()
        .iter()
        .map(|s| (s.start_time(), s.end_time(), s.text().as_str()))
        .collect();
    assert_eq!(segments, vec![(0, 10, "Hello world"), (10, 14, "Goodbye")]);
}

#[test]
fn window_that_is_not_taken_is_not_rendered() {
    let mut decoder = decoder(448);
    assert_eq!(
        decoder.run(&WindowEvent::Decoded { tokens: vec![] }),
        WindowAction::Finish
    );
    decoder.run(&WindowEvent::Begin { content_frames: 3000 });
    assert_eq!(
        decoder.run(&WindowEvent::Decoded { tokens: vec![] }),
        WindowAction::Abort(TranscribeError::MalformedWindowResult)
    );
    assert!(decoder.texts().is_empty());
}

#[test]
fn walk_can_be_followed_from_outside() {
    let mut decoder = decoder(448);
    assert!(!decoder.running());
    assert_eq!(decoder.content_frames(), 0);
    decoder.run(&WindowEvent::Begin { content_frames: 4000 });
    assert!(decoder.running());
    assert_eq!(decoder.content_frames(), 4000);
    decoder.run(&WindowEvent::Decoded { tokens: vec![SOT, EN, TRANSCRIBE, 0, EOT] });
    assert!(decoder.running());
    assert_eq!(decoder.seek(), 3000);
    decoder.run(&WindowEvent::Decoded { tokens: vec![SOT, EN, TRANSCRIBE, 0, EOT] });
    assert!(!decoder.running());
    assert_eq!(decoder.seek(), 4000);
    assert_eq!(decoder.content_frames(), 4000);
}

#[test]
fn decoder_is_made_whatever_the_dimensions() {
    let none = ModelDims { max_source_positions: 0, window_frame_limit: 0, ..dims(0) };
    let mut decoder = Decoder::new(tokenizer_of(&names()), none).unwrap();
    assert_eq!(decoder.dims(), none);
    assert!(matches!(decoder.decode(&DecodeEvent::Begin), DecodeAction::Finish));
    assert_eq!(decoder.tokens(), &vec![SOT, EN, TRANSCRIBE]);
}
