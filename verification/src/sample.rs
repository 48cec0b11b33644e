//! The four corner values of a cell and the topology case they fall under.

use crate::binary32::{
    at_or_below, gt, is_nan, lemma_not_above_is_at_or_below, strictly_above,
};
use crate::case_table::{holds_corner, CASE_TABLE};
use vstd::prelude::*;

verus! {

/// The values at the four corners of a cell, as bit patterns, in the order
/// bottom left, top left, top right, bottom right.
#[derive(Clone, Copy, Debug)]
pub struct IsoSample(pub [u32; 4]);

/// The weight of a corner in the case: `weight` if the corner's value is
/// strictly above the level, `0` otherwise.
pub open spec fn corner_bit(value: u32, iso_level: u32, weight: u8) -> u8 {
    if strictly_above(value, iso_level) {
        weight
    } else {
        0
    }
}

impl IsoSample {
    /// The case of the sample: the bitwise OR of the weights `1, 2, 4, 8` of
    /// the corners whose value is strictly above `iso_level`.
    pub open spec fn spec_case(self, iso_level: u32) -> u8 {
        corner_bit(self.0[0], iso_level, 1) | corner_bit(self.0[1], iso_level, 2) | corner_bit(
            self.0[2],
            iso_level,
            4,
        ) | corner_bit(self.0[3], iso_level, 8)
    }

    /// Classifies the sample against `iso_level`.
    pub fn to_case(self, iso_level: u32) -> (case: u8)
        ensures
            case == self.spec_case(iso_level),
    {
        let mut out: u8 = 0;
        if gt(self.0[0], iso_level) {
            out = out | 1;
        }
        if gt(self.0[1], iso_level) {
            out = out | 2;
        }
        if gt(self.0[2], iso_level) {
            out = out | 4;
        }
        if gt(self.0[3], iso_level) {
            out = out | 8;
        }
        proof {
            let a = corner_bit(self.0[0], iso_level, 1);
            let b = corner_bit(self.0[1], iso_level, 2);
            let c = corner_bit(self.0[2], iso_level, 4);
            let d = corner_bit(self.0[3], iso_level, 8);
            assert(0u8 | 1 == 1 && 0u8 | 0 == 0) by (bit_vector);
            assert(a | 0 == a && b | 0 == b && c | 0 == c && (a | b) | 0 == a | b && ((a | b) | c)
                | 0 == (a | b) | c) by (bit_vector);
            assert(0u8 | b == b && 0u8 | c == c && 0u8 | d == d && (0u8 | b) | c == b | c) by (bit_vector);
        }
        out
    }

    /// The triangles of the sample's case.
    pub fn to_tri_list(self, iso_level: u32) -> (triangles: [[i8; 3]; 4])
        ensures
            triangles == CASE_TABLE[self.spec_case(iso_level) as int],
    {
        let case: u8 = self.to_case(iso_level);
        proof {
            lemma_case_bits(self, iso_level);
        }
        CASE_TABLE[case as usize]
    }
}

/// The case is the sum of the weights of the corners above the level, so it
/// lies in `0..=15`, and each corner can be read back from its bit.
pub proof fn lemma_case_bits(sample: IsoSample, iso_level: u32)
    ensures
        sample.spec_case(iso_level) < 16,
        sample.spec_case(iso_level) == corner_bit(sample.0[0], iso_level, 1) + corner_bit(
            sample.0[1],
            iso_level,
            2,
        ) + corner_bit(sample.0[2], iso_level, 4) + corner_bit(sample.0[3], iso_level, 8),
        sample.spec_case(iso_level) & 1 == 1 <==> strictly_above(sample.0[0], iso_level),
        sample.spec_case(iso_level) & 2 == 2 <==> strictly_above(sample.0[1], iso_level),
        sample.spec_case(iso_level) & 4 == 4 <==> strictly_above(sample.0[2], iso_level),
        sample.spec_case(iso_level) & 8 == 8 <==> strictly_above(sample.0[3], iso_level),
{
    let a = corner_bit(sample.0[0], iso_level, 1);
    let b = corner_bit(sample.0[1], iso_level, 2);
    let c = corner_bit(sample.0[2], iso_level, 4);
    let d = corner_bit(sample.0[3], iso_level, 8);
    assert((a == 0 || a == 1) && (b == 0 || b == 2) && (c == 0 || c == 4) && (d == 0 || d == 8)
        ==> (a | b | c | d) == a + b + c + d && ((a | b | c | d) & 1 == 1 <==> a == 1) && ((a | b
        | c | d) & 2 == 2 <==> b == 2) && ((a | b | c | d) & 4 == 4 <==> c == 4) && ((a | b | c
        | d) & 8 == 8 <==> d == 8)) by (bit_vector);
}

/// A corner lies inside in the case of a sample exactly when its value is
/// strictly above the level.
pub proof fn lemma_case_holds_corner(sample: IsoSample, iso_level: u32, corner: int)
    requires
        0 <= corner < 4,
    ensures
        holds_corner(sample.spec_case(iso_level) as int, corner) <==> strictly_above(
            sample.0[corner],
            iso_level,
        ),
{
    lemma_case_bits(sample, iso_level);
}

/// The case is `0` exactly when no corner is strictly above the level, and
/// `15` exactly when all four are.
pub proof fn lemma_case_extremes(sample: IsoSample, iso_level: u32)
    ensures
        sample.spec_case(iso_level) == 0 <==> forall|i: int|
            0 <= i < 4 ==> !strictly_above(#[trigger] sample.0[i], iso_level),
        sample.spec_case(iso_level) == 15 <==> forall|i: int|
            0 <= i < 4 ==> strictly_above(#[trigger] sample.0[i], iso_level),
{
    lemma_case_bits(sample, iso_level);
    if forall|i: int| 0 <= i < 4 ==> !strictly_above(#[trigger] sample.0[i], iso_level) {
        assert(!strictly_above(sample.0[0], iso_level));
        assert(!strictly_above(sample.0[1], iso_level));
        assert(!strictly_above(sample.0[2], iso_level));
        assert(!strictly_above(sample.0[3], iso_level));
    }
    if forall|i: int| 0 <= i < 4 ==> strictly_above(#[trigger] sample.0[i], iso_level) {
        assert(strictly_above(sample.0[0], iso_level));
        assert(strictly_above(sample.0[1], iso_level));
        assert(strictly_above(sample.0[2], iso_level));
        assert(strictly_above(sample.0[3], iso_level));
    }
}

/// Where neither the level nor any corner value is a pattern that is not a
/// number, the case is `0` exactly when all four corners are at or below the
/// level.
pub proof fn lemma_case_zero_among_numbers(sample: IsoSample, iso_level: u32)
    requires
        !is_nan(iso_level),
        forall|i: int| 0 <= i < 4 ==> !is_nan(#[trigger] sample.0[i]),
    ensures
        sample.spec_case(iso_level) == 0 <==> forall|i: int|
            0 <= i < 4 ==> at_or_below(#[trigger] sample.0[i], iso_level),
{
    lemma_case_extremes(sample, iso_level);
    assert forall|i: int| 0 <= i < 4 implies (!strictly_above(#[trigger] sample.0[i], iso_level)
        <==> at_or_below(sample.0[i], iso_level)) by {
        lemma_not_above_is_at_or_below(sample.0[i], iso_level);
    }
}

} // verus!
