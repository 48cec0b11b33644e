//! The grid of sample values.

use crate::binary32::ZERO;
use crate::sample::IsoSample;
use crate::triangulate::IsoSamples;
use vstd::arithmetic::div_mod::lemma_fundamental_div_mod_converse;
use vstd::prelude::*;

verus! {

/// Why a call on a field was turned down.
#[derive(Clone, Copy, Debug, PartialEq, Eq)]
pub enum FieldError {
    /// A coordinate lies outside the grid.
    OutOfBounds,
    /// The number of values given is not `width * height`.
    ValueCountMismatch,
}

/// A grid as a mathematical value: `width` points by `height` points, the
/// values row by row, bottom row first.
pub struct FieldView {
    pub width: nat,
    pub height: nat,
    pub values: Seq<u32>,
}

impl FieldView {
    /// There is one value per grid point.
    pub open spec fn wf(self) -> bool {
        self.values.len() == self.width * self.height
    }

    /// The value at the grid point `(x, y)`.
    pub open spec fn value_at(self, x: int, y: int) -> u32 {
        self.values[y * self.width + x]
    }

    /// The grid has the point `(x, y)`.
    pub open spec fn has_point(self, x: int, y: int) -> bool {
        0 <= x < self.width && 0 <= y < self.height
    }

    /// The grid has the cell whose bottom left point is `(x, y)`.
    pub open spec fn has_cell(self, x: int, y: int) -> bool {
        0 <= x && x + 1 < self.width && 0 <= y && y + 1 < self.height
    }

    /// The corner values of the cell whose bottom left point is `(x, y)`.
    pub open spec fn sample_at(self, x: int, y: int) -> IsoSample {
        IsoSample(
            [
                self.value_at(x, y),
                self.value_at(x, y + 1),
                self.value_at(x + 1, y + 1),
                self.value_at(x + 1, y),
            ],
        )
    }

    /// How many cells lie side by side in a row of cells; `0` for a grid
    /// that is less than two points wide or high.
    pub open spec fn cells_across(self) -> nat {
        if self.width >= 2 && self.height >= 2 {
            (self.width - 1) as nat
        } else {
            0
        }
    }

    /// How many rows of cells there are; `0` for a grid that is less than
    /// two points wide or high.
    pub open spec fn cells_up(self) -> nat {
        if self.width >= 2 && self.height >= 2 {
            (self.height - 1) as nat
        } else {
            0
        }
    }

    /// Every cell with its corner values and the coordinates of its bottom
    /// left point, row by row from the bottom, each row from the left.
    pub open spec fn cells(self) -> Seq<(IsoSample, usize, usize)> {
        Seq::new(
            self.cells_across() * self.cells_up(),
            |i: int|
                (
                    self.sample_at(i % self.cells_across() as int, i / self.cells_across() as int),
                    (i % self.cells_across() as int) as usize,
                    (i / self.cells_across() as int) as usize,
                ),
        )
    }
}

/// A rectangular grid of sample values, each held as the bit pattern of a
/// single-precision number.
pub struct IsoField {
    x_size: usize,
    y_size: usize,
    field: Vec<u32>,
}

impl View for IsoField {
    type V = FieldView;

    closed spec fn view(&self) -> FieldView {
        FieldView { width: self.x_size as nat, height: self.y_size as nat, values: self.field@ }
    }
}

impl Default for IsoField {
    /// The grid without any point.
    fn default() -> (r: Self)
        ensures
            r@ == (FieldView { width: 0, height: 0, values: Seq::empty() }),
    {
        Self { x_size: 0, y_size: 0, field: Vec::new() }
    }
}

impl IsoField {
    #[verifier::type_invariant]
    spec fn inv(&self) -> bool {
        self.field@.len() == self.x_size * self.y_size
    }

    /// A grid of `size.0` by `size.1` points, every value `0.0`.
    pub fn new(size: (usize, usize)) -> (r: Self)
        requires
            size.0 * size.1 <= usize::MAX,
        ensures
            r@.wf(),
            r@.width == size.0,
            r@.height == size.1,
            forall|i: int| 0 <= i < r@.values.len() ==> r@.values[i] == ZERO,
    {
        let (x, y): (usize, usize) = size;
        let field: Vec<u32> = vec![ZERO; x * y];
        Self { x_size: x, y_size: y, field }
    }

    /// A grid of `size.0` by `size.1` points with the given values, row by
    /// row. Turned down when the number of values is not `size.0 * size.1`.
    pub fn new_from(size: (usize, usize), vec: Vec<u32>) -> (r: Result<Self, FieldError>)
        ensures
            vec@.len() == size.0 * size.1 ==> r is Ok && r->Ok_0@ == (FieldView {
                width: size.0 as nat,
                height: size.1 as nat,
                values: vec@,
            }),
            vec@.len() != size.0 * size.1 ==> r == Err::<Self, FieldError>(
                FieldError::ValueCountMismatch,
            ),
    {
        let (x, y): (usize, usize) = size;
        assert(vec.len() == vec@.len());
        match x.checked_mul(y) {
            Some(count) => {
                if vec.len() == count {
                    Ok(Self { x_size: x, y_size: y, field: vec })
                } else {
                    Err(FieldError::ValueCountMismatch)
                }
            },
            None => Err(FieldError::ValueCountMismatch),
        }
    }

    /// The width and the height of the grid, in points.
    pub fn size(&self) -> (r: (usize, usize))
        ensures
            self@.wf(),
            r.0 == self@.width,
            r.1 == self@.height,
    {
        proof {
            use_type_invariant(self);
        }
        (self.x_size, self.y_size)
    }

    fn index(&self, x: usize, y: usize) -> (i: usize)
        requires
            self@.has_point(x as int, y as int),
        ensures
            i == y * self@.width + x,
            i < self@.values.len(),
    {
        proof {
            use_type_invariant(self);
            assert(0 <= y * self.x_size && y * self.x_size + x < self.x_size * self.y_size)
                by (nonlinear_arith)
                requires
                    x < self.x_size,
                    y < self.y_size,
            ;
            assert(self.field.len() == self.x_size * self.y_size);
        }
        y * self.x_size + x
    }

    /// The value at the grid point `(x, y)`.
    pub fn get(&self, x: usize, y: usize) -> (r: Result<u32, FieldError>)
        ensures
            self@.has_point(x as int, y as int) ==> r == Ok::<u32, FieldError>(
                self@.value_at(x as int, y as int),
            ),
            !self@.has_point(x as int, y as int) ==> r == Err::<u32, FieldError>(
                FieldError::OutOfBounds,
            ),
    {
        if x >= self.x_size || y >= self.y_size {
            return Err(FieldError::OutOfBounds);
        }
        let index: usize = self.index(x, y);
        Ok(self.field[index])
    }

    /// Puts `val` at the grid point `(x, y)` and leaves every other value as
    /// it is.
    pub fn set(&mut self, x: usize, y: usize, val: u32) -> (r: Result<(), FieldError>)
        ensures
            old(self)@.has_point(x as int, y as int) ==> r is Ok && final(self)@ == (FieldView {
                values: old(self)@.values.update(y * old(self)@.width + x, val),
                ..old(self)@
            }),
            !old(self)@.has_point(x as int, y as int) ==> r == Err::<(), FieldError>(
                FieldError::OutOfBounds,
            ) && final(self)@ == old(self)@,
    {
        if x >= self.x_size || y >= self.y_size {
            return Err(FieldError::OutOfBounds);
        }
        let index: usize = self.index(x, y);
        proof {
            use_type_invariant(&*self);
        }
        self.field[index] = val;
        Ok(())
    }

    /// The corner values of the cell whose bottom left point is `(x, y)`.
    pub fn sample(&self, x: usize, y: usize) -> (r: Result<IsoSample, FieldError>)
        ensures
            self@.has_cell(x as int, y as int) ==> r == Ok::<IsoSample, FieldError>(
                self@.sample_at(x as int, y as int),
            ),
            !self@.has_cell(x as int, y as int) ==> r == Err::<IsoSample, FieldError>(
                FieldError::OutOfBounds,
            ),
    {
        if x >= self.x_size || y >= self.y_size || self.x_size - x < 2 || self.y_size - y < 2 {
            return Err(FieldError::OutOfBounds);
        }
        let sample: [u32; 4] = [
            self.field[self.index(x, y)],  // bottom left
            self.field[self.index(x, y + 1)],  // top left
            self.field[self.index(x + 1, y + 1)],  // top right
            self.field[self.index(x + 1, y)],  // bottom right
        ];
        Ok(IsoSample(sample))
    }

    /// Every cell of the grid with its corner values: row by row from the
    /// bottom, each row from the left. A grid that is less than two points
    /// wide or high has no cell.
    pub fn sample_all(&self) -> (r: IsoSamples)
        ensures
            r@ == self@.cells(),
    {
        let mut samples: Vec<(IsoSample, usize, usize)> = Vec::new();
        if self.x_size < 2 || self.y_size < 2 {
            assert(samples@ == self@.cells());
            return IsoSamples::new(samples);
        }
        let across: usize = self.x_size - 1;
        let up: usize = self.y_size - 1;
        let mut y: usize = 0;
        while y < up
            invariant
                across == self@.cells_across(),
                up == self@.cells_up(),
                across >= 1,
                y <= up,
                samples@ == self@.cells().take(y * across),
            decreases up - y,
        {
            let mut x: usize = 0;
            while x < across
                invariant
                    across == self@.cells_across(),
                    up == self@.cells_up(),
                    across >= 1,
                    y < up,
                    x <= across,
                    samples@ == self@.cells().take(y * across + x),
                decreases across - x,
            {
                proof {
                    lemma_fundamental_div_mod_converse(
                        y * across + x,
                        across as int,
                        y as int,
                        x as int,
                    );
                    assert(y * across + x < across * up) by (nonlinear_arith)
                        requires
                            x < across,
                            y < up,
                    ;
                }
                if let Ok(sample) = self.sample(x, y) {
                    samples.push((sample, x, y));
                }
                proof {
                    let so_far = self@.cells().take(y * across + x + 1);
                    assert(so_far.drop_last() == self@.cells().take(y * across + x));
                    assert(samples@ == so_far);
                }
                x = x + 1;
            }
            proof {
                assert(y * across + across == (y + 1) * across) by (nonlinear_arith);
            }
            y = y + 1;
        }
        proof {
            assert(up * across == across * up) by (nonlinear_arith);
            assert(self@.cells().take(up * across) == self@.cells());
        }
        IsoSamples::new(samples)
    }
}

} // verus!
