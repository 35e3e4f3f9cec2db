//! Bit-range algebra over fixed-width register words.
//!
//! A bit-range request names its two endpoints, each of which may be
//! included, excluded or left unbounded.  `to_range` canonicalizes such a
//! request into a half-open interval `[start, end)`; the masked read and
//! write operations then isolate or replace exactly that span of bits
//! within a 64-bit word.

use vstd::prelude::*;

verus! {

/// One endpoint of a bit-range request: the named position is part of the
/// range, is just outside it, or the range extends to the word boundary.
#[derive(Clone, Copy, Debug)]
pub enum BitBound {
    Included(usize),
    Excluded(usize),
    Unbounded,
}

/// A canonical half-open interval of bit positions `[start, end)`.
#[derive(Clone, Copy, Debug, PartialEq, Eq, Structural)]
pub struct BitRange {
    pub start: usize,
    pub end: usize,
}

/// Canonical start position of a range request: an excluded bound names the
/// position just below the first bit of the span.
pub open spec fn spec_range_start(bound: BitBound) -> int {
    match bound {
        BitBound::Included(b) => b as int,
        BitBound::Excluded(b) => b + 1,
        BitBound::Unbounded => 0,
    }
}

/// Canonical (exclusive) end position of a range request: an included bound
/// names the last bit of the span, so the exclusive end is one above it.
pub open spec fn spec_range_end(bound: BitBound, bit_length: int) -> int {
    match bound {
        BitBound::Included(b) => b + 1,
        BitBound::Excluded(b) => b as int,
        BitBound::Unbounded => bit_length,
    }
}

/// A canonical interval addresses actual bits of the word exactly when it is
/// non-empty and lies inside the word width.
pub open spec fn spec_valid_range(start: int, end: int, bit_length: int) -> bool {
    0 <= start < end <= bit_length
}

/// The word whose bits below position `n` are all set.
pub open spec fn low_mask(n: u64) -> u64
    recommends
        n <= 64,
{
    if n == 0 {
        0u64
    } else {
        0xffff_ffff_ffff_ffffu64 >> ((64 - n) as u64)
    }
}

/// The word whose bits inside `[start, end)` are all set.
pub open spec fn span_mask(start: u64, end: u64) -> u64
    recommends
        start < end <= 64,
{
    low_mask(end) & !low_mask(start)
}

/// The span `[start, end)` of `w`, isolated and zero-extended.
pub open spec fn get_bits(w: u64, start: u64, end: u64) -> u64
    recommends
        start < end <= 64,
{
    (w & low_mask(end)) >> start
}

/// `w` with the span `[start, end)` replaced by `x`, truncated to the width
/// of the span; all bits outside the span keep their value.
pub open spec fn set_bits(w: u64, start: u64, end: u64, x: u64) -> u64
    recommends
        start < end <= 64,
{
    (w & !span_mask(start, end)) | ((x & low_mask((end - start) as u64)) << start)
}

/// Whether bit `i` of `w` is set.
pub open spec fn get_bit(w: u64, i: u64) -> bool
    recommends
        i < 64,
{
    w & (1u64 << i) != 0
}

/// `w` with bit `i` set or cleared.
pub open spec fn set_bit(w: u64, i: u64, b: bool) -> u64
    recommends
        i < 64,
{
    if b {
        w | (1u64 << i)
    } else {
        w & !(1u64 << i)
    }
}

/// Canonicalize a bit-range request over a word of `bit_length` bits into a
/// half-open interval.  The result is not yet checked against the word
/// width: validation is the caller's decision.
pub fn to_range(start: BitBound, end: BitBound, bit_length: usize) -> (r: BitRange)
    requires
        start matches BitBound::Excluded(b) ==> b < usize::MAX,
        end matches BitBound::Included(b) ==> b < usize::MAX,
    ensures
        r.start == spec_range_start(start),
        r.end == spec_range_end(end, bit_length as int),
{
    let s: usize = match start {
        BitBound::Included(b) => b,
        BitBound::Excluded(b) => b + 1,
        BitBound::Unbounded => 0,
    };
    let e: usize = match end {
        BitBound::Included(b) => b + 1,
        BitBound::Excluded(b) => b,
        BitBound::Unbounded => bit_length,
    };
    BitRange { start: s, end: e }
}

/// Canonicalize a bit-range request and check it against the word width:
/// returns the interval exactly when it is valid, and `None` on any
/// out-of-bounds or empty request.
pub fn checked_range(start: BitBound, end: BitBound, bit_length: usize) -> (r: Option<BitRange>)
    ensures
        match r {
            Some(rng) => {
                &&& spec_valid_range(
                    spec_range_start(start),
                    spec_range_end(end, bit_length as int),
                    bit_length as int,
                )
                &&& rng.start == spec_range_start(start)
                &&& rng.end == spec_range_end(end, bit_length as int)
            },
            None => !spec_valid_range(
                spec_range_start(start),
                spec_range_end(end, bit_length as int),
                bit_length as int,
            ),
        },
{
    if let BitBound::Excluded(b) = start {
        if b == usize::MAX {
            return None;
        }
    }
    if let BitBound::Included(b) = end {
        if b == usize::MAX {
            return None;
        }
    }
    let r = to_range(start, end, bit_length);
    if r.start >= r.end || r.end > bit_length {
        None
    } else {
        Some(r)
    }
}

/// The word whose bits below position `n` are all set.
pub fn mask_low(n: usize) -> (r: u64)
    requires
        n <= 64,
    ensures
        r == low_mask(n as u64),
{
    if n == 0 {
        0
    } else {
        0xffff_ffff_ffff_ffffu64 >> ((64 - n) as u64)
    }
}

/// Masked read: the span `[start, end)` of `w`, isolated and zero-extended.
pub fn bits_of_word(w: u64, start: usize, end: usize) -> (r: u64)
    requires
        start < end,
        end <= 64,
    ensures
        r == get_bits(w, start as u64, end as u64),
{
    (w & mask_low(end)) >> (start as u64)
}

/// Masked write: `w` with the span `[start, end)` replaced by `x`, truncated
/// to the width of the span.
pub fn word_with_bits(w: u64, start: usize, end: usize, x: u64) -> (r: u64)
    requires
        start < end,
        end <= 64,
    ensures
        r == set_bits(w, start as u64, end as u64, x),
{
    let field: u64 = x & mask_low(end - start);
    let cleared: u64 = w & !(mask_low(end) & !mask_low(start));
    cleared | (field << (start as u64))
}

/// Bit-range round trip: writing the span `[start, end)` of a word and then
/// reading the same span back yields the written value truncated to the
/// width of the span.
pub proof fn lemma_set_bits_then_get_bits(w: u64, start: u64, end: u64, x: u64)
    by (bit_vector)
    requires
        start < end <= 64,
    ensures
        get_bits(set_bits(w, start, end, x), start, end) == x & low_mask((end - start) as u64),
{
}

/// Writing the span `[start, end)` of a word leaves every bit outside the
/// span unchanged.
pub proof fn lemma_set_bits_preserves_outside(w: u64, start: u64, end: u64, x: u64, i: u64)
    by (bit_vector)
    requires
        start < end <= 64,
        i < 64,
        i < start || i >= end,
    ensures
        get_bit(set_bits(w, start, end, x), i) == get_bit(w, i),
{
}

/// Truncating to the low `n` bits of a word is reduction modulo `2^n`.
pub proof fn lemma_low_mask_is_mod(x: u64, n: u64)
    requires
        n < 64,
    ensures
        x & low_mask(n) == x % (1u64 << n),
{
    vstd::bits::lemma_u64_pow2_no_overflow(n as nat);
    vstd::bits::lemma_u64_shl_is_mul(1u64, n);
    vstd::bits::lemma_u64_low_bits_mask_is_mod(x, n as nat);
    assert(low_mask(n) == ((1u64 << n) - 1) as u64) by (bit_vector)
        requires
            n < 64,
    ;
    assert(vstd::bits::low_bits_mask(n as nat) as u64 == ((1u64 << n) - 1) as u64);
}

/// Single-bit round trip: writing one bit of a word and then reading the
/// same position back yields the written bit.
pub proof fn lemma_set_bit_then_get_bit(w: u64, n: u64, b: bool)
    by (bit_vector)
    requires
        n < 64,
    ensures
        get_bit(set_bit(w, n, b), n) == b,
{
}

/// Writing one bit of a word leaves every other bit unchanged.
pub proof fn lemma_set_bit_preserves_others(w: u64, n: u64, b: bool, m: u64)
    by (bit_vector)
    requires
        n < 64,
        m < 64,
        m != n,
    ensures
        get_bit(set_bit(w, n, b), m) == get_bit(w, m),
{
}

/// Reinterpreting an unsigned bit pattern as a signed word and back is the
/// identity.
pub proof fn lemma_word_cast_round_trip(w: u64)
    by (bit_vector)
    ensures
        (w as i64) as u64 == w,
{
}

} // verus!
