//! The bias that is laid over the vocabulary before a token is chosen.
//!
//! A bias has one entry per token id. An entry is zero, which leaves the
//! token's score as it is, or minus infinity, which forbids the token; it is
//! kept here as a flag that says whether the token is blocked. Adding two
//! biases blocks what either of them blocks.

use vstd::prelude::*;
use crate::error::TranscribeError;
use crate::vocab::SpecialTokens;

verus! {

/// The bits of minus infinity as a single-precision number.
pub const NEG_INFINITY_BITS: u32 = 0xFF80_0000;

/// The bits of an entry of a bias as a single-precision number: those of
/// minus infinity for a forbidden token, those of zero for any other.
pub open spec fn entry_bits(blocked: bool) -> u32 {
    if blocked {
        NEG_INFINITY_BITS
    } else {
        0
    }
}

/// Whether `mask` forbids `token`. A token beyond the mask's end is not
/// forbidden by it.
pub open spec fn blocks(mask: Seq<bool>, token: int) -> bool {
    0 <= token < mask.len() && mask[token]
}

/// The bias of `len` entries that forbids the ids from `from` up to, not
/// including, `to`.
pub open spec fn range_mask(len: nat, from: int, to: int) -> Seq<bool> {
    Seq::new(len, |i: int| from <= i < to)
}

/// The bias that forbids every timestamp token.
pub open spec fn timestamps_mask(len: nat, tokens: SpecialTokens) -> Seq<bool> {
    Seq::new(len, |i: int| i >= tokens.timestamp_begin)
}

/// The bias that forbids every token below the timestamp range, except the
/// end of transcript.
pub open spec fn non_timestamps_mask(len: nat, tokens: SpecialTokens) -> Seq<bool> {
    Seq::new(len, |i: int| i < tokens.timestamp_begin && i != tokens.eot)
}

/// The bias that forbids the one token `token`.
pub open spec fn single_mask(len: nat, token: u32) -> Seq<bool> {
    Seq::new(len, |i: int| i == token)
}

/// The bias that forbids the timestamp tokens below `timestamp`.
pub open spec fn smaller_timestamps_mask(len: nat, tokens: SpecialTokens, timestamp: u32) -> Seq<
    bool,
> {
    Seq::new(len, |i: int| tokens.timestamp_begin <= i < timestamp)
}

/// The sum of two biases: as long as `a`, forbidding what `a` or `b` forbids.
pub open spec fn sum_mask(a: Seq<bool>, b: Seq<bool>) -> Seq<bool> {
    Seq::new(a.len(), |i: int| a[i] || blocks(b, i))
}

/// A bias over the vocabulary: for each token id, whether the token is
/// forbidden at the next step.
#[derive(Debug)]
pub struct SuppressionMask {
    blocked: Vec<bool>,
}

impl View for SuppressionMask {
    type V = Seq<bool>;

    closed spec fn view(&self) -> Seq<bool> {
        self.blocked@
    }
}

impl SuppressionMask {
    /// The bias of `len` entries that forbids the ids from `from` up to, not
    /// including, `to`. With `from >= to` it forbids nothing.
    pub fn range(len: usize, from: usize, to: usize) -> (mask: SuppressionMask)
        ensures
            mask@ == range_mask(len as nat, from as int, to as int),
    {
        let mut blocked: Vec<bool> = vec![false; len];
        let end: usize = if to < len { to } else { len };
        let mut i: usize = from;
        while i < end
            invariant
                blocked.len() == len,
                end <= len,
                end <= to,
                end == len || end == to,
                from <= i,
                forall|j: int| 0 <= j < len ==> blocked[j] == (from <= j < i && j < end),
            decreases end - i,
        {
            blocked.set(i, true);
            i = i + 1;
        }
        assert(blocked@ =~= range_mask(len as nat, from as int, to as int));
        SuppressionMask { blocked }
    }

    /// The number of entries, which is the size of the vocabulary.
    pub fn len(&self) -> (n: usize)
        ensures
            n == self@.len(),
    {
        self.blocked.len()
    }

    /// Whether the bias forbids `token`.
    pub fn is_blocked(&self, token: u32) -> (yes: bool)
        ensures
            yes == blocks(self@, token as int),
    {
        let i: usize = token as usize;
        i < self.blocked.len() && self.blocked[i]
    }

    /// The flags themselves, one per token id.
    pub fn flags(&self) -> (flags: &Vec<bool>)
        ensures
            flags@ == self@,
    {
        &self.blocked
    }

    /// The entries as single-precision numbers, each by its bits: zero where
    /// a token is allowed, minus infinity where it is forbidden.
    pub fn to_bits(&self) -> (bits: Vec<u32>)
        ensures
            bits@ == self@.map_values(|blocked: bool| entry_bits(blocked)),
    {
        let n: usize = self.blocked.len();
        let mut bits: Vec<u32> = Vec::with_capacity(n);
        let mut i: usize = 0;
        while i < n
            invariant
                n == self.blocked.len(),
                i <= n,
                bits@.len() == i,
                forall|j: int| 0 <= j < i ==> bits@[j] == entry_bits(self@[j]),
            decreases n - i,
        {
            bits.push(if self.blocked[i] { NEG_INFINITY_BITS } else { 0 });
            i = i + 1;
        }
        assert(bits@ =~= self@.map_values(|blocked: bool| entry_bits(blocked)));
        bits
    }

    /// Forbids `token`. A token beyond the end of the bias changes nothing.
    pub fn block(&mut self, token: u32)
        ensures
            final(self)@ == (if token < old(self)@.len() {
                old(self)@.update(token as int, true)
            } else {
                old(self)@
            }),
    {
        let i: usize = token as usize;
        if i < self.blocked.len() {
            self.blocked.set(i, true);
        }
    }

    /// Allows `token` again. A token beyond the end of the bias changes
    /// nothing.
    pub fn allow(&mut self, token: u32)
        ensures
            final(self)@ == (if token < old(self)@.len() {
                old(self)@.update(token as int, false)
            } else {
                old(self)@
            }),
    {
        let i: usize = token as usize;
        if i < self.blocked.len() {
            self.blocked.set(i, false);
        }
    }

    /// The sum of this bias and `other`.
    pub fn plus(&self, other: &SuppressionMask) -> (sum: SuppressionMask)
        ensures
            sum@ == sum_mask(self@, other@),
    {
        let n: usize = self.blocked.len();
        let mut blocked: Vec<bool> = Vec::with_capacity(n);
        let mut i: usize = 0;
        while i < n
            invariant
                n == self.blocked.len(),
                i <= n,
                blocked.len() == i,
                forall|j: int| 0 <= j < i ==> blocked[j] == (self@[j] || blocks(other@, j)),
            decreases n - i,
        {
            let b: bool = self.blocked[i] || (i < other.blocked.len() && other.blocked[i]);
            blocked.push(b);
            i = i + 1;
        }
        assert(blocked@ =~= sum_mask(self@, other@));
        SuppressionMask { blocked }
    }
}

/// The four biases that do not change from step to step.
#[derive(Debug)]
pub struct StaticMasks {
    /// Forbids every timestamp token.
    pub timestamps: SuppressionMask,
    /// Forbids every token that is no timestamp, except the end of transcript.
    pub non_timestamps: SuppressionMask,
    /// Forbids the token that switches timestamps off.
    pub no_timestamps: SuppressionMask,
    /// Forbids the end of transcript.
    pub eot: SuppressionMask,
}

impl StaticMasks {
    /// Whether these are the four biases for a vocabulary of `len` tokens
    /// with the special tokens `tokens`.
    pub open spec fn built_for(&self, len: nat, tokens: SpecialTokens) -> bool {
        &&& self.timestamps@ == timestamps_mask(len, tokens)
        &&& self.non_timestamps@ == non_timestamps_mask(len, tokens)
        &&& self.no_timestamps@ == single_mask(len, tokens.no_timestamps)
        &&& self.eot@ == single_mask(len, tokens.eot)
    }
}

/// Whether the ids that the static biases are built from lie in a vocabulary
/// of `len` tokens. The timestamp range may be empty.
pub open spec fn masks_fit(len: nat, tokens: SpecialTokens) -> bool {
    &&& tokens.no_timestamps < len
    &&& tokens.eot < len
    &&& tokens.timestamp_begin <= len
}

/// Builds the four static biases for a vocabulary of `length` tokens. Fails
/// with `VocabularyLookup` exactly when one of the ids they are built from
/// lies outside the vocabulary.
pub fn build_mask_tensors(length: usize, tokens: &SpecialTokens) -> (built: Result<
    StaticMasks,
    TranscribeError,
>)
    ensures
        match built {
            Ok(masks) => masks_fit(length as nat, *tokens) && masks.built_for(
                length as nat,
                *tokens,
            ),
            Err(e) => e == TranscribeError::VocabularyLookup && !masks_fit(length as nat, *tokens),
        },
{
    let floor: usize = tokens.timestamp_begin as usize;
    if tokens.no_timestamps as usize >= length || tokens.eot as usize >= length || floor > length {
        return Err(TranscribeError::VocabularyLookup);
    }
    let timestamps = SuppressionMask::range(length, floor, length);
    let mut non_timestamps = SuppressionMask::range(length, 0, floor);
    non_timestamps.allow(tokens.eot);
    let mut no_timestamps = SuppressionMask::range(length, 0, 0);
    no_timestamps.block(tokens.no_timestamps);
    let mut eot = SuppressionMask::range(length, 0, 0);
    eot.block(tokens.eot);
    assert(timestamps@ =~= timestamps_mask(length as nat, *tokens));
    assert(non_timestamps@ =~= non_timestamps_mask(length as nat, *tokens));
    assert(no_timestamps@ =~= single_mask(length as nat, tokens.no_timestamps));
    assert(eot@ =~= single_mask(length as nat, tokens.eot));
    Ok(StaticMasks { timestamps, non_timestamps, no_timestamps, eot })
}

/// The bias for the step that follows `history`, over a vocabulary of `len`
/// tokens.
///
/// The token that switches timestamps off is always forbidden. After two
/// timestamps in a row every timestamp is forbidden as well. After an
/// ordinary token and one timestamp, every token that is no timestamp is
/// forbidden but the end of transcript, and every timestamp below the one
/// just emitted. A history that is shorter than two tokens, or ends
/// otherwise, adds nothing.
pub open spec fn suppression(len: nat, tokens: SpecialTokens, history: Seq<u32>) -> Seq<bool> {
    let baseline = single_mask(len, tokens.no_timestamps);
    if history.len() < 2 {
        baseline
    } else {
        let last = history[history.len() - 1];
        let before = history[history.len() - 2];
        if tokens.is_timestamp(last) && tokens.is_timestamp(before) {
            sum_mask(baseline, timestamps_mask(len, tokens))
        } else if tokens.is_timestamp(last) && tokens.is_ordinary(before) {
            sum_mask(
                sum_mask(baseline, non_timestamps_mask(len, tokens)),
                smaller_timestamps_mask(len, tokens, last),
            )
        } else {
            baseline
        }
    }
}

/// The token that switches timestamps off is forbidden at every step.
pub proof fn lemma_no_timestamps_is_blocked(len: nat, tokens: SpecialTokens, history: Seq<u32>)
    requires
        tokens.no_timestamps < len,
    ensures
        blocks(suppression(len, tokens, history), tokens.no_timestamps as int),
{
}

/// After two timestamps in a row every timestamp token is forbidden, so no
/// third can follow.
pub proof fn lemma_third_timestamp_is_blocked(
    len: nat,
    tokens: SpecialTokens,
    history: Seq<u32>,
    token: u32,
)
    requires
        history.len() >= 2,
        tokens.is_timestamp(history[history.len() - 1]),
        tokens.is_timestamp(history[history.len() - 2]),
        tokens.is_timestamp(token),
        token < len,
    ensures
        blocks(suppression(len, tokens, history), token as int),
{
}

/// After an ordinary token and one timestamp, every timestamp token below
/// that timestamp is forbidden, so the timestamps of a window do not
/// decrease.
pub proof fn lemma_smaller_timestamp_is_blocked(
    len: nat,
    tokens: SpecialTokens,
    history: Seq<u32>,
    token: u32,
)
    requires
        history.len() >= 2,
        tokens.is_timestamp(history[history.len() - 1]),
        tokens.is_ordinary(history[history.len() - 2]),
        tokens.is_timestamp(token),
        token < history[history.len() - 1],
        token < len,
    ensures
        blocks(suppression(len, tokens, history), token as int),
{
}

/// After an ordinary token and one timestamp, every token that is no
/// timestamp is forbidden, but for the end of transcript: the span that the
/// timestamp opened is closed by another timestamp, or the transcript ends.
pub proof fn lemma_text_is_blocked_after_one_timestamp(
    len: nat,
    tokens: SpecialTokens,
    history: Seq<u32>,
    token: u32,
)
    requires
        history.len() >= 2,
        tokens.is_timestamp(history[history.len() - 1]),
        tokens.is_ordinary(history[history.len() - 2]),
        !tokens.is_timestamp(token),
        token != tokens.eot,
        token < len,
    ensures
        blocks(suppression(len, tokens, history), token as int),
{
}

/// What the bias forbids, it forbids for one of its three reasons: the
/// token switches timestamps off, or it is a timestamp after two timestamps,
/// or it follows an ordinary token and one timestamp and is neither the end
/// of transcript nor a timestamp at or above that one.
pub proof fn lemma_nothing_else_is_blocked(
    len: nat,
    tokens: SpecialTokens,
    history: Seq<u32>,
    token: u32,
)
    requires
        blocks(suppression(len, tokens, history), token as int),
        token != tokens.no_timestamps,
    ensures
        history.len() >= 2,
        tokens.is_timestamp(history[history.len() - 1]),
        tokens.is_timestamp(history[history.len() - 2]) ==> tokens.is_timestamp(token),
        !tokens.is_timestamp(history[history.len() - 2]) ==> {
            &&& tokens.is_ordinary(history[history.len() - 2])
            &&& token != tokens.eot || tokens.is_timestamp(token)
            &&& token < history[history.len() - 1]
        },
{
}

} // verus!
