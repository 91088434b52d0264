use whisper_decoder::mask::{SuppressionMask, NEG_INFINITY_BITS};
use whisper_decoder::select::{score_of_bits, scores_of_bits, select_token, BLOCKED};

#[test]
fn select_picks_the_greatest_score() {
    let mask = SuppressionMask::range(4, 0, 0);
    assert_eq!(select_token(&vec![1, 7, 3, 5], &mask), Some(1));
}

#[test]
fn select_breaks_ties_by_lowest_id() {
    let mask = SuppressionMask::range(5, 0, 0);
    assert_eq!(select_token(&vec![2, 9, 9, 1, 9], &mask), Some(1));
}

#[test]
fn select_skips_blocked_tokens() {
    let mask = SuppressionMask::range(4, 1, 2);
    assert_eq!(select_token(&vec![1, 7, 3, 5], &mask), Some(3));
}

#[test]
fn select_with_everything_blocked_is_token_zero() {
    let mask = SuppressionMask::range(3, 0, 3);
    assert_eq!(select_token(&vec![4, 5, 6], &mask), Some(0));
}

#[test]
fn select_ties_blocked_with_minus_infinity() {
    let mask = SuppressionMask::range(3, 0, 1);
    assert_eq!(select_token(&vec![10, BLOCKED, BLOCKED], &mask), Some(0));
}

#[test]
fn select_of_no_scores_is_none() {
    let mask = SuppressionMask::range(0, 0, 0);
    assert_eq!(select_token(&Vec::new(), &mask), None);
}

fn samples() -> Vec<f32> {
    vec![
        f32::NEG_INFINITY,
        f32::MIN,
        -1.0e10,
        -2.5,
        -1.0,
        -f32::MIN_POSITIVE,
        -1.0e-45,
        -0.0,
        0.0,
        1.0e-45,
        f32::MIN_POSITIVE,
        0.5,
        1.0,
        2.5,
        3.0e38,
        f32::MAX,
        f32::INFINITY,
        f32::NAN,
    ]
}

#[test]
fn scores_order_numbers_as_the_total_order_does() {
    for a in samples() {
        for b in samples() {
            let expected = a.total_cmp(&b);
            let found = score_of_bits(a.to_bits()).cmp(&score_of_bits(b.to_bits()));
            assert_eq!(found, expected, "for {:?} and {:?}", a, b);
        }
    }
}

#[test]
fn minus_infinity_and_below_score_as_blocked() {
    assert_eq!(NEG_INFINITY_BITS, f32::NEG_INFINITY.to_bits());
    assert_eq!(score_of_bits(f32::NEG_INFINITY.to_bits()), BLOCKED);
    assert_eq!(score_of_bits(0xFFC0_0000), BLOCKED);
    assert_eq!(score_of_bits(u32::MAX), BLOCKED);
    assert_eq!(score_of_bits(f32::MIN.to_bits()), -2139095040);
    assert!(score_of_bits(f32::MIN.to_bits()) > BLOCKED);
}

#[test]
fn scores_of_given_numbers() {
    assert_eq!(score_of_bits(0.0f32.to_bits()), 0);
    assert_eq!(score_of_bits((-0.0f32).to_bits()), -1);
    assert_eq!(score_of_bits(1.0f32.to_bits()), 0x3F80_0000);
    assert_eq!(score_of_bits((-1.0f32).to_bits()), -0x3F80_0000 - 1);
    assert_eq!(score_of_bits(f32::INFINITY.to_bits()), 0x7F80_0000);
    let bits: Vec<u32> = [0.25f32, -3.0, f32::NEG_INFINITY].iter().map(|x| x.to_bits()).collect();
    assert_eq!(scores_of_bits(&bits), vec![0x3E80_0000, -0x4040_0000 - 1, BLOCKED]);
    assert_eq!(scores_of_bits(&Vec::new()), Vec::<i64>::new());
}

#[test]
fn greatest_logit_is_chosen_through_its_bits() {
    let logits = [-4.5f32, 0.25, 7.0, 7.0, -0.0, 6.99];
    let bits: Vec<u32> = logits.iter().map(|x| x.to_bits()).collect();
    let mask = SuppressionMask::range(6, 0, 0);
    assert_eq!(select_token(&scores_of_bits(&bits), &mask), Some(2));
    let without = SuppressionMask::range(6, 2, 4);
    assert_eq!(select_token(&scores_of_bits(&bits), &without), Some(5));
}

#[test]
fn bias_may_be_added_before_the_scores_are_made() {
    let logits = [-4.5f32, -0.0, 0.0, 7.0, 7.0];
    let mask = SuppressionMask::range(5, 3, 5);
    let raw: Vec<u32> = logits.iter().map(|x| x.to_bits()).collect();
    let summed: Vec<u32> = logits
        .iter()
        .zip(mask.to_bits())
        .map(|(logit, bias)| (logit + f32::from_bits(bias)).to_bits())
        .collect();
    assert_eq!(select_token(&scores_of_bits(&raw), &mask), Some(2));
    assert_eq!(select_token(&scores_of_bits(&summed), &mask), Some(1));
    assert_eq!(scores_of_bits(&summed), vec![score_of_bits((-4.5f32).to_bits()), 0, 0, BLOCKED, BLOCKED]);
}
