//! The greedy choice of the next token.
//!
//! A score is an integer that orders the tokens as the model's output does:
//! the greater score belongs to the more likely token. The least score,
//! `BLOCKED`, stands for minus infinity, which is what a forbidden token is
//! left with.
//!
//! A model's output is made of single-precision numbers. Such a number is
//! taken here by its 32 bits, sign first, and its score is its place in the
//! total order of these numbers.

use vstd::prelude::*;
use crate::mask::{blocks, SuppressionMask, NEG_INFINITY_BITS};

verus! {

/// The score of a forbidden token.
pub const BLOCKED: i64 = i64::MIN;

/// The place of the single-precision number with the bits `bits` in the
/// total order of such numbers. Numbers without the sign bit rise with their
/// bits from 0 on; numbers with the sign bit fall with their bits from -1 on.
pub open spec fn order_key(bits: u32) -> int {
    if bits < 0x8000_0000 {
        bits as int
    } else {
        -(bits - 0x8000_0000) - 1
    }
}

/// The score of the single-precision number with the bits `bits`: its place
/// in the total order, and `BLOCKED` for minus infinity and for what lies
/// below it.
pub open spec fn score_of(bits: u32) -> i64 {
    if order_key(bits) <= order_key(NEG_INFINITY_BITS) {
        BLOCKED
    } else {
        order_key(bits) as i64
    }
}

/// The scores of the numbers with the bits `bits`.
pub open spec fn scores_of(bits: Seq<u32>) -> Seq<i64> {
    bits.map_values(|b: u32| score_of(b))
}

/// Scores keep the order of the numbers above minus infinity, and nothing
/// scores below minus infinity.
pub proof fn lemma_score_keeps_order(a: u32, b: u32)
    ensures
        score_of(NEG_INFINITY_BITS) == BLOCKED,
        score_of(a) >= BLOCKED,
        order_key(a) <= order_key(b) ==> score_of(a) <= score_of(b),
        order_key(a) > order_key(NEG_INFINITY_BITS) ==> (order_key(a) < order_key(b) <==> score_of(a)
            < score_of(b)),
        order_key(a) == order_key(b) <==> a == b,
{
}

/// The scores after the bias `mask` was added: a forbidden token falls to
/// `BLOCKED`, any other keeps its score.
pub open spec fn biased(scores: Seq<i64>, mask: Seq<bool>) -> Seq<i64> {
    Seq::new(
        scores.len(),
        |i: int|
            if blocks(mask, i) {
                BLOCKED
            } else {
                scores[i]
            },
    )
}

/// Adding a bias a second time changes nothing: scores that were made of
/// numbers to which the bias was added already are not changed by it.
pub proof fn lemma_bias_twice(scores: Seq<i64>, mask: Seq<bool>)
    ensures
        biased(biased(scores, mask), mask) == biased(scores, mask),
{
    assert(biased(biased(scores, mask), mask) =~= biased(scores, mask));
}

/// The index of the greatest score, and the lowest such index where several
/// scores are greatest. It is 0 for an empty sequence.
pub open spec fn argmax(scores: Seq<i64>) -> int
    decreases scores.len(),
{
    if scores.len() <= 1 {
        0
    } else {
        let before = argmax(scores.drop_last());
        if scores.last() > scores[before] {
            scores.len() - 1
        } else {
            before
        }
    }
}

/// Whether `k` is the lowest index at which `scores` is greatest.
pub open spec fn is_first_max(scores: Seq<i64>, k: int) -> bool {
    &&& 0 <= k < scores.len()
    &&& forall|j: int| 0 <= j < scores.len() ==> scores[j] <= scores[k]
    &&& forall|j: int| 0 <= j < k ==> scores[j] < scores[k]
}

/// `argmax` picks the greatest score, and among equal scores the lowest
/// index.
pub proof fn lemma_argmax_is_first_max(scores: Seq<i64>)
    requires
        scores.len() > 0,
    ensures
        is_first_max(scores, argmax(scores)),
    decreases scores.len(),
{
    if scores.len() > 1 {
        let front = scores.drop_last();
        lemma_argmax_is_first_max(front);
        let before = argmax(front);
        assert(forall|j: int| 0 <= j < front.len() ==> front[j] == scores[j]);
        assert(scores[before] == front[before]);
    }
}

/// Only one index is the lowest at which the scores are greatest.
pub proof fn lemma_first_max_unique(scores: Seq<i64>, a: int, b: int)
    requires
        is_first_max(scores, a),
        is_first_max(scores, b),
    ensures
        a == b,
{
    if a < b {
        assert(scores[a] < scores[b]);
        assert(scores[b] <= scores[a]);
    } else if b < a {
        assert(scores[b] < scores[a]);
        assert(scores[a] <= scores[b]);
    }
}

/// The score of the single-precision number with the bits `bits`.
pub fn score_of_bits(bits: u32) -> (score: i64)
    ensures
        score == score_of(bits),
{
    if bits < 0x8000_0000 {
        bits as i64
    } else if bits >= NEG_INFINITY_BITS {
        BLOCKED
    } else {
        -((bits - 0x8000_0000) as i64) - 1
    }
}

/// The scores of the single-precision numbers with the bits `bits`.
pub fn scores_of_bits(bits: &Vec<u32>) -> (scores: Vec<i64>)
    ensures
        scores@ == scores_of(bits@),
{
    let n: usize = bits.len();
    let mut scores: Vec<i64> = Vec::with_capacity(n);
    let mut i: usize = 0;
    while i < n
        invariant
            n == bits.len(),
            i <= n,
            scores@ == scores_of(bits@.take(i as int)),
        decreases n - i,
    {
        scores.push(score_of_bits(bits[i]));
        assert(scores_of(bits@.take(i as int)).push(score_of(bits@[i as int])) =~= scores_of(
            bits@.take(i as int + 1),
        ));
        i = i + 1;
    }
    assert(bits@.take(n as int) =~= bits@);
    scores
}

/// Where the bias leaves some token a score above `BLOCKED`, the token that
/// is chosen is one that the bias allows.
pub proof fn lemma_choice_is_allowed(scores: Seq<i64>, mask: Seq<bool>, allowed: int)
    requires
        0 <= allowed < scores.len(),
        !blocks(mask, allowed),
        scores[allowed] > BLOCKED,
    ensures
        !blocks(mask, argmax(biased(scores, mask))),
{
    let all = biased(scores, mask);
    lemma_argmax_is_first_max(all);
    assert(all[allowed] <= all[argmax(all)]);
}

/// Where nothing scores above `BLOCKED` once the bias is added, the token
/// that is chosen is token 0.
pub proof fn lemma_choice_among_blocked(scores: Seq<i64>, mask: Seq<bool>)
    requires
        scores.len() > 0,
        forall|i: int| 0 <= i < scores.len() ==> biased(scores, mask)[i] == BLOCKED,
    ensures
        argmax(biased(scores, mask)) == 0,
{
    let all = biased(scores, mask);
    lemma_argmax_is_first_max(all);
    if argmax(all) > 0 {
        assert(all[0] < all[argmax(all)]);
    }
}

/// Chooses the token whose score is greatest once the bias `mask` is added,
/// and the lowest id among several such tokens. There is a token to choose
/// exactly when there are scores and their indices fit a token id.
pub fn select_token(scores: &Vec<i64>, mask: &SuppressionMask) -> (token: Option<u32>)
    ensures
        token == (if 0 < scores@.len() <= u32::MAX {
            Some(argmax(biased(scores@, mask@)) as u32)
        } else {
            None
        }),
        token matches Some(t) ==> is_first_max(biased(scores@, mask@), t as int),
{
    let n: usize = scores.len();
    if n == 0 || n > u32::MAX as usize {
        return None;
    }
    let ghost all = biased(scores@, mask@);
    let mut best: u32 = 0;
    let mut best_score: i64 = if mask.is_blocked(0) { BLOCKED } else { scores[0] };
    let mut i: usize = 1;
    assert(all.take(1).len() == 1);
    while i < n
        invariant
            n == scores@.len(),
            0 < n <= u32::MAX,
            all == biased(scores@, mask@),
            1 <= i <= n,
            best < i,
            best == argmax(all.take(i as int)),
            best_score == all[best as int],
        decreases n - i,
    {
        let score: i64 = if mask.is_blocked(i as u32) { BLOCKED } else { scores[i] };
        proof {
            let now = all.take(i as int + 1);
            assert(now.drop_last() =~= all.take(i as int));
            assert(now.last() == all[i as int]);
            assert(score == all[i as int]);
            assert(all.take(i as int)[best as int] == all[best as int]);
            assert(now[best as int] == all[best as int]);
        }
        if score > best_score {
            best = i as u32;
            best_score = score;
        }
        i = i + 1;
    }
    proof {
        assert(all.take(n as int) =~= all);
        lemma_argmax_is_first_max(all);
    }
    Some(best)
}

} // verus!
