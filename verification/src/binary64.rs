//! IEEE-754 binary64 values, read from their bit patterns.
//!
//! The topmost bit of a pattern is the sign, the remaining sixty-three bits
//! are the magnitude. Magnitudes grow with the absolute value they encode:
//! zero is `0`, infinity is [`INFINITY`], and every magnitude above
//! [`INFINITY`] encodes a NaN, which compares with nothing.
//!
//! A check takes the difference `actual - expected` and the tolerance as
//! two such patterns and decides `|difference| <= tolerance` or
//! `|difference| > tolerance` as binary64 arithmetic does.

use vstd::prelude::*;

verus! {

/// The pattern whose only set bit is the sign bit: negative zero.
pub const SIGN_BIT: u64 = 0x8000_0000_0000_0000;

/// The pattern of positive infinity, the largest magnitude that is a number.
pub const INFINITY: u64 = 0x7ff0_0000_0000_0000;

/// Whether the sign bit of the pattern is set.
pub open spec fn is_negative(bits: u64) -> bool {
    bits >= SIGN_BIT
}

/// The absolute value: the pattern with its sign bit cleared.
pub open spec fn abs(bits: u64) -> u64 {
    if is_negative(bits) {
        (bits - SIGN_BIT) as u64
    } else {
        bits
    }
}

/// The value of opposite sign: the pattern with its sign bit flipped.
pub open spec fn negated(bits: u64) -> u64 {
    if is_negative(bits) {
        (bits - SIGN_BIT) as u64
    } else {
        (bits + SIGN_BIT) as u64
    }
}

/// Whether the pattern encodes a NaN.
pub open spec fn is_nan(bits: u64) -> bool {
    abs(bits) > INFINITY
}

/// The place of a number on the number line, as an integer that grows with
/// the encoded value. Both zeros have rank 0. Meaningful for patterns that
/// are not NaN.
pub open spec fn rank(bits: u64) -> int {
    if is_negative(bits) {
        -(abs(bits) as int)
    } else {
        abs(bits) as int
    }
}

/// `a <= b` as binary64 compares: both are numbers and `a` is not the larger.
pub open spec fn le(a: u64, b: u64) -> bool {
    !is_nan(a) && !is_nan(b) && rank(a) <= rank(b)
}

/// `a > b` as binary64 compares: both are numbers and `a` is the larger.
pub open spec fn gt(a: u64, b: u64) -> bool {
    !is_nan(a) && !is_nan(b) && rank(a) > rank(b)
}

/// `|difference| <= tolerance`: the two values are as near as asked.
pub open spec fn within(difference: u64, tolerance: u64) -> bool {
    le(abs(difference), tolerance)
}

/// `|difference| > tolerance`: the two values are further apart than
/// allowed. A NaN on either side is neither within nor beyond.
pub open spec fn exceeds(difference: u64, tolerance: u64) -> bool {
    gt(abs(difference), tolerance)
}

/// Clears the sign bit.
pub fn absolute(bits: u64) -> (cleared: u64)
    ensures
        cleared == abs(bits),
{
    if bits >= SIGN_BIT {
        bits - SIGN_BIT
    } else {
        bits
    }
}

/// Whether `bits` encodes a NaN.
pub fn encodes_nan(bits: u64) -> (nan: bool)
    ensures
        nan == is_nan(bits),
{
    absolute(bits) > INFINITY
}

/// The rank of a pattern as a machine integer.
fn rank_of(bits: u64) -> (r: i64)
    ensures
        r == rank(bits),
{
    let magnitude: u64 = absolute(bits);
    if bits >= SIGN_BIT {
        -(magnitude as i64)
    } else {
        magnitude as i64
    }
}

/// Decides `a <= b`.
pub fn is_le(a: u64, b: u64) -> (holds: bool)
    ensures
        holds == le(a, b),
{
    !encodes_nan(a) && !encodes_nan(b) && rank_of(a) <= rank_of(b)
}

/// Decides `a > b`.
pub fn is_gt(a: u64, b: u64) -> (holds: bool)
    ensures
        holds == gt(a, b),
{
    !encodes_nan(a) && !encodes_nan(b) && rank_of(a) > rank_of(b)
}

/// Decides `|difference| <= tolerance`.
pub fn is_within(difference: u64, tolerance: u64) -> (near: bool)
    ensures
        near == within(difference, tolerance),
{
    is_le(absolute(difference), tolerance)
}

/// Decides `|difference| > tolerance`.
pub fn is_beyond(difference: u64, tolerance: u64) -> (far: bool)
    ensures
        far == exceeds(difference, tolerance),
{
    is_gt(absolute(difference), tolerance)
}

/// Two numbers are ordered one way or the other, never both; a NaN on
/// either side makes both comparisons false.
pub proof fn lemma_le_or_gt(a: u64, b: u64)
    ensures
        !(le(a, b) && gt(a, b)),
        (le(a, b) || gt(a, b)) <==> (!is_nan(a) && !is_nan(b)),
{
}

/// A difference is within a tolerance or beyond it, never both, unless one
/// of the two is a NaN: then it is neither.
pub proof fn lemma_within_or_exceeds(difference: u64, tolerance: u64)
    ensures
        !(within(difference, tolerance) && exceeds(difference, tolerance)),
        (within(difference, tolerance) || exceeds(difference, tolerance)) <==> (!is_nan(difference)
            && !is_nan(tolerance)),
{
}

/// The sign of a difference plays no part: `actual - expected` and
/// `expected - actual` are within the same tolerances.
pub proof fn lemma_sign_is_dropped(difference: u64, tolerance: u64)
    ensures
        within(negated(difference), tolerance) == within(difference, tolerance),
        exceeds(negated(difference), tolerance) == exceeds(difference, tolerance),
{
}

/// The tolerance is inclusive: a difference of exactly the tolerance, in
/// either direction, is within it. This is so for every tolerance that is
/// a number and not below zero.
pub proof fn lemma_boundary_is_within(tolerance: u64)
    requires
        le(0, tolerance),
    ensures
        within(tolerance, tolerance),
        within(negated(tolerance), tolerance),
        !exceeds(tolerance, tolerance),
        !exceeds(negated(tolerance), tolerance),
{
}

/// One step above the tolerance is beyond it: the next pattern after a
/// finite tolerance that is not negative encodes the next larger number,
/// and a difference of that size, in either direction, exceeds the
/// tolerance.
pub proof fn lemma_next_above_exceeds(tolerance: u64)
    requires
        tolerance < INFINITY,
    ensures
        gt((tolerance + 1) as u64, tolerance),
        exceeds((tolerance + 1) as u64, tolerance),
        exceeds(negated((tolerance + 1) as u64), tolerance),
        !within((tolerance + 1) as u64, tolerance),
        !within(negated((tolerance + 1) as u64), tolerance),
{
}

/// A wider tolerance admits whatever a narrower one admits.
pub proof fn lemma_wider_tolerance_admits_more(difference: u64, narrow: u64, wide: u64)
    requires
        within(difference, narrow),
        le(narrow, wide),
    ensures
        within(difference, wide),
{
}

} // verus!
