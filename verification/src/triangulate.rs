//! From the cells of a grid to the corners of the triangles that cover what
//! lies inside the contour.

use crate::case_table::{
    boundary_offset, lemma_row_entries, lemma_table_entries, tri_index_to_vertex, triangle_count,
    used, CASE_TABLE, UNUSED,
};
use crate::sample::{lemma_case_bits, IsoSample};
use vstd::prelude::*;

verus! {

/// A corner of a triangle before it is scaled: the cell it belongs to, named
/// by the grid coordinates of the cell's bottom left point, and the patterns
/// of its fractional coordinates inside that cell.
#[derive(Clone, Copy, Debug, PartialEq, Eq)]
pub struct CellVertex {
    pub x: usize,
    pub y: usize,
    pub offset: (u32, u32),
}

/// What one slot of a triangle contributes for the cell `(x, y)`: nothing if
/// it is unused, else the corner at that boundary position.
pub open spec fn slot_vertices(index: i8, x: usize, y: usize) -> Seq<CellVertex> {
    if index == UNUSED {
        Seq::empty()
    } else {
        seq![CellVertex { x, y, offset: boundary_offset(index as int) }]
    }
}

/// The corners of one triangle of the table for the cell `(x, y)`, in the
/// order of the table.
pub open spec fn triangle_vertices(triangle: [i8; 3], x: usize, y: usize) -> Seq<CellVertex> {
    slot_vertices(triangle[0], x, y) + slot_vertices(triangle[1], x, y) + slot_vertices(
        triangle[2],
        x,
        y,
    )
}

/// The corners of all triangles of one cell, triangle by triangle in the
/// order of the table.
pub open spec fn cell_vertices(cell: (IsoSample, usize, usize), iso_level: u32) -> Seq<
    CellVertex,
> {
    let row = CASE_TABLE[cell.0.spec_case(iso_level) as int];
    triangle_vertices(row[0], cell.1, cell.2) + triangle_vertices(row[1], cell.1, cell.2)
        + triangle_vertices(row[2], cell.1, cell.2) + triangle_vertices(row[3], cell.1, cell.2)
}

/// The corners of all triangles of a run of cells, cell by cell.
pub open spec fn vertex_stream(cells: Seq<(IsoSample, usize, usize)>, iso_level: u32) -> Seq<
    CellVertex,
>
    decreases cells.len(),
{
    if cells.len() == 0 {
        Seq::empty()
    } else {
        vertex_stream(cells.drop_last(), iso_level) + cell_vertices(cells.last(), iso_level)
    }
}

/// How many triangles a run of cells gives rise to.
pub open spec fn triangles_in(cells: Seq<(IsoSample, usize, usize)>, iso_level: u32) -> nat
    decreases cells.len(),
{
    if cells.len() == 0 {
        0
    } else {
        triangles_in(cells.drop_last(), iso_level) + triangle_count(
            cells.last().0.spec_case(iso_level) as int,
        )
    }
}

/// A triangle of the table gives three corners if it is used and none if it
/// is not.
pub proof fn lemma_triangle_corners(case: int, slot: int, x: usize, y: usize)
    requires
        0 <= case < 16,
        0 <= slot < 4,
    ensures
        triangle_vertices(CASE_TABLE[case][slot], x, y).len() == (if used(CASE_TABLE[case][slot]) {
            3nat
        } else {
            0nat
        }),
{
    lemma_table_entries(case, slot, 0);
    lemma_table_entries(case, slot, 1);
    lemma_table_entries(case, slot, 2);
}

/// A run of cells gives three corners for each of its triangles.
pub proof fn lemma_three_corners_per_triangle(
    cells: Seq<(IsoSample, usize, usize)>,
    iso_level: u32,
)
    ensures
        vertex_stream(cells, iso_level).len() == 3 * triangles_in(cells, iso_level),
    decreases cells.len(),
{
    if cells.len() > 0 {
        lemma_three_corners_per_triangle(cells.drop_last(), iso_level);
        let cell = cells.last();
        let case = cell.0.spec_case(iso_level) as int;
        lemma_case_bits(cell.0, iso_level);
        lemma_triangle_corners(case, 0, cell.1, cell.2);
        lemma_triangle_corners(case, 1, cell.1, cell.2);
        lemma_triangle_corners(case, 2, cell.1, cell.2);
        lemma_triangle_corners(case, 3, cell.1, cell.2);
    }
}

/// The cells of a grid that are still to be handed out, in the order in
/// which the grid lists them.
pub struct IsoSamples {
    cells: Vec<(IsoSample, usize, usize)>,
    taken: usize,
}

impl View for IsoSamples {
    type V = Seq<(IsoSample, usize, usize)>;

    closed spec fn view(&self) -> Seq<(IsoSample, usize, usize)> {
        self.cells@.skip(self.taken as int)
    }
}

fn push_slot(out: &mut Vec<CellVertex>, index: i8, x: usize, y: usize)
    requires
        -1 <= index <= 7,
    ensures
        final(out)@ == old(out)@ + slot_vertices(index, x, y),
{
    match tri_index_to_vertex(index) {
        Some(offset) => {
            out.push(CellVertex { x, y, offset });
        },
        None => {},
    }
}

fn push_triangle(out: &mut Vec<CellVertex>, triangle: [i8; 3], x: usize, y: usize)
    requires
        forall|i: int| 0 <= i < 3 ==> -1 <= #[trigger] triangle[i] <= 7,
    ensures
        final(out)@ == old(out)@ + triangle_vertices(triangle, x, y),
{
    push_slot(out, triangle[0], x, y);
    push_slot(out, triangle[1], x, y);
    push_slot(out, triangle[2], x, y);
}

fn push_triangles(out: &mut Vec<CellVertex>, triangles: [[i8; 3]; 4], x: usize, y: usize)
    requires
        forall|t: int, i: int| 0 <= t < 4 && 0 <= i < 3 ==> -1 <= #[trigger] triangles[t][i] <= 7,
    ensures
        final(out)@ == old(out)@ + (triangle_vertices(triangles[0], x, y) + triangle_vertices(
            triangles[1],
            x,
            y,
        ) + triangle_vertices(triangles[2], x, y) + triangle_vertices(triangles[3], x, y)),
{
    push_triangle(out, triangles[0], x, y);
    push_triangle(out, triangles[1], x, y);
    push_triangle(out, triangles[2], x, y);
    push_triangle(out, triangles[3], x, y);
}

fn push_cell(out: &mut Vec<CellVertex>, cell: (IsoSample, usize, usize), iso_level: u32)
    ensures
        final(out)@ == old(out)@ + cell_vertices(cell, iso_level),
{
    let (sample, x, y): (IsoSample, usize, usize) = cell;
    let triangles: [[i8; 3]; 4] = sample.to_tri_list(iso_level);
    proof {
        lemma_case_bits(sample, iso_level);
        lemma_row_entries(sample.spec_case(iso_level) as int);
    }
    push_triangles(out, triangles, x, y);
}

impl IsoSamples {
    #[verifier::type_invariant]
    spec fn inv(&self) -> bool {
        self.taken <= self.cells@.len()
    }

    /// The given cells, all still to be handed out.
    pub fn new(cells: Vec<(IsoSample, usize, usize)>) -> (r: Self)
        ensures
            r@ == cells@,
    {
        Self { cells, taken: 0 }
    }

    /// Hands out the first cell that is left, if any is.
    pub fn next(&mut self) -> (r: Option<(IsoSample, usize, usize)>)
        ensures
            old(self)@.len() == 0 ==> r is None && final(self)@ == old(self)@,
            old(self)@.len() > 0 ==> r == Some(old(self)@[0]) && final(self)@ == old(
                self,
            )@.drop_first(),
    {
        proof {
            use_type_invariant(&*self);
        }
        if self.taken < self.cells.len() {
            let cell: (IsoSample, usize, usize) = self.cells[self.taken];
            self.taken = self.taken + 1;
            Some(cell)
        } else {
            None
        }
    }

    /// For every cell that is left, in order, the corners of the triangles
    /// of its case against `iso_level`: three corners per triangle, not yet
    /// scaled to the spacing of the grid.
    pub fn triangulate(&self, iso_level: u32) -> (r: Vec<CellVertex>)
        ensures
            r@ == vertex_stream(self@, iso_level),
            r@.len() == 3 * triangles_in(self@, iso_level),
    {
        proof {
            use_type_invariant(self);
            lemma_three_corners_per_triangle(self@, iso_level);
        }
        let mut out: Vec<CellVertex> = Vec::new();
        let mut n: usize = self.taken;
        assert(self@.take(0) == Seq::<(IsoSample, usize, usize)>::empty());
        while n < self.cells.len()
            invariant
                self.taken <= n <= self.cells.len(),
                out@ == vertex_stream(self@.take(n - self.taken), iso_level),
            decreases self.cells.len() - n,
        {
            let cell: (IsoSample, usize, usize) = self.cells[n];
            proof {
                let upto = self@.take(n - self.taken + 1);
                assert(upto.drop_last() == self@.take(n - self.taken));
                assert(upto.last() == cell);
            }
            push_cell(&mut out, cell, iso_level);
            n = n + 1;
        }
        assert(self@.take(n - self.taken) == self@);
        out
    }
}

} // verus!
