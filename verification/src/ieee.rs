//! Order and sign of IEEE-754 single-precision words.
//!
//! A word is the 32-bit pattern of a single-precision value: one sign bit,
//! eight exponent bits, twenty-three fraction bits. Comparisons of the
//! values are decided on the words alone; no arithmetic is done on them.

use vstd::prelude::*;

verus! {

/// Word of positive zero.
pub const ZERO: u32 = 0;

/// Word of positive one.
pub const ONE: u32 = 0x3F80_0000;

/// Word of one half.
pub const HALF: u32 = 0x3F00_0000;

/// Word of positive infinity: the largest magnitude that is not a NaN.
pub const INFINITY: u32 = 0x7F80_0000;

/// Word of minus sixty, the level reported for silence in decibels.
pub const MINUS_SIXTY: u32 = 0xC270_0000;

/// First word whose sign bit is set.
pub const SIGN: u32 = 0x8000_0000;

/// The word without its sign bit.
pub open spec fn magnitude(w: u32) -> int {
    if w >= SIGN {
        w - SIGN
    } else {
        w as int
    }
}

/// Whether the word encodes no number.
pub open spec fn is_nan(w: u32) -> bool {
    magnitude(w) > INFINITY
}

/// Position of the value on the number line, up to a monotone rescaling:
/// for words that are numbers, `key(a) < key(b)` exactly when the value of
/// `a` is below the value of `b`. Both zeros share the key 0.
pub open spec fn key(w: u32) -> int {
    if w >= SIGN {
        -magnitude(w)
    } else {
        w as int
    }
}

/// The comparison `a > b` of the values; false when either is a NaN.
pub open spec fn gt(a: u32, b: u32) -> bool {
    !is_nan(a) && !is_nan(b) && key(a) > key(b)
}

/// The comparison `a <= b` of the values; false when either is a NaN.
pub open spec fn le(a: u32, b: u32) -> bool {
    !is_nan(a) && !is_nan(b) && key(a) <= key(b)
}

/// The value is strictly above zero.
pub open spec fn is_positive(w: u32) -> bool {
    0 < w <= INFINITY
}

/// The value is zero or below.
pub open spec fn is_non_positive(w: u32) -> bool {
    w == 0 || SIGN <= w <= SIGN + INFINITY
}

/// `is_positive` and `is_non_positive` are the comparisons against zero.
pub proof fn lemma_sign_tests(w: u32)
    ensures
        is_positive(w) == gt(w, ZERO),
        is_non_positive(w) == le(w, ZERO),
        !(is_positive(w) && is_non_positive(w)),
        is_nan(w) <==> !is_positive(w) && !is_non_positive(w),
{
}

pub fn word_magnitude(w: u32) -> (m: u32)
    ensures
        m == magnitude(w),
        m < SIGN,
{
    if w >= SIGN {
        w - SIGN
    } else {
        w
    }
}

pub fn word_is_nan(w: u32) -> (r: bool)
    ensures
        r == is_nan(w),
{
    word_magnitude(w) > INFINITY
}

pub fn word_gt(a: u32, b: u32) -> (r: bool)
    ensures
        r == gt(a, b),
{
    if word_is_nan(a) || word_is_nan(b) {
        return false;
    }
    let ma: u32 = word_magnitude(a);
    let mb: u32 = word_magnitude(b);
    if a >= SIGN {
        // a is zero or below: it exceeds b only when b is further below.
        b >= SIGN && mb > ma
    } else if b >= SIGN {
        // a is zero or above, b zero or below: equal only when both are zero.
        ma > 0 || mb > 0
    } else {
        ma > mb
    }
}

pub fn word_is_positive(w: u32) -> (r: bool)
    ensures
        r == is_positive(w),
{
    0 < w && w <= INFINITY
}

pub fn word_is_non_positive(w: u32) -> (r: bool)
    ensures
        r == is_non_positive(w),
{
    w == 0 || (SIGN <= w && w - SIGN <= INFINITY)
}


/// The key of a word, for ordering words by their values.
pub fn word_key(w: u32) -> (k: i64)
    ensures
        k == key(w),
{
    if w >= SIGN {
        -((w - SIGN) as i64)
    } else {
        w as i64
    }
}

} // verus!
