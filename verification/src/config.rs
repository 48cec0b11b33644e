//! The settings of a build: how large the grid is, at which level the
//! contour runs, and how far apart the grid points lie.

use crate::binary32::ONE;
use vstd::prelude::*;

verus! {

/// The size of a grid, in points: first its width, then its height.
#[derive(Clone, Copy, Debug, PartialEq, Eq)]
pub struct ChunkSize(pub u32, pub u32);

impl Default for ChunkSize {
    /// The smallest grid that has a cell: two points by two points.
    fn default() -> (r: Self)
        ensures
            r == ChunkSize(2, 2),
    {
        Self(2, 2)
    }
}

impl ChunkSize {
    /// The width, in points.
    pub fn x(&self) -> (r: u32)
        ensures
            r == self.0,
    {
        self.0
    }

    /// The height, in points.
    pub fn y(&self) -> (r: u32)
        ensures
            r == self.1,
    {
        self.1
    }

    /// The width and the height, in points.
    pub fn get(&self) -> (r: (u32, u32))
        ensures
            r == (self.0, self.1),
    {
        (self.0, self.1)
    }
}

/// The level that separates inside from outside, as the bit pattern of a
/// single-precision number.
#[derive(Clone, Copy, Debug, PartialEq, Eq)]
pub struct IsoLevel(pub u32);

impl Default for IsoLevel {
    /// The level `1.0`.
    fn default() -> (r: Self)
        ensures
            r == IsoLevel(ONE),
    {
        Self(ONE)
    }
}

/// The distance between neighbouring grid points, as the bit pattern of a
/// single-precision number.
#[derive(Clone, Copy, Debug, PartialEq, Eq)]
pub struct IsoDistance(pub u32);

impl Default for IsoDistance {
    /// The distance `1.0`.
    fn default() -> (r: Self)
        ensures
            r == IsoDistance(ONE),
    {
        Self(ONE)
    }
}

} // verus!
