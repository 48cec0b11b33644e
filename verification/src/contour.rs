//! The way from a grid to its contour mesh as one mathematical function, and
//! what holds of every mesh made that way.

use crate::field::FieldView;
use crate::mesh::{lemma_nothing_merged_iff_all_distinct, welded, MeshView};
use crate::triangulate::{
    lemma_three_corners_per_triangle, triangles_in, vertex_stream, CellVertex,
};
use vstd::prelude::*;

verus! {

/// The raw vertices of a grid: the corners of all its triangles against
/// `iso_level`, each put where `place` puts it.
pub open spec fn raw_vertices(
    field: FieldView,
    iso_level: u32,
    place: spec_fn(CellVertex) -> (u32, u32),
) -> Seq<(u32, u32)> {
    vertex_stream(field.cells(), iso_level).map_values(place)
}

/// The contour mesh of a grid against `iso_level`, where `place` says at
/// which coordinates a corner of a cell comes to lie.
pub open spec fn contour_mesh(
    field: FieldView,
    iso_level: u32,
    place: spec_fn(CellVertex) -> (u32, u32),
) -> MeshView {
    welded(raw_vertices(field, iso_level, place))
}

/// A mesh has at most three positions per triangle, and exactly that many if
/// and only if no two of its raw vertices have the same coordinate patterns.
pub proof fn lemma_positions_per_triangle(
    field: FieldView,
    iso_level: u32,
    place: spec_fn(CellVertex) -> (u32, u32),
)
    ensures
        contour_mesh(field, iso_level, place).positions.len() <= 3 * triangles_in(
            field.cells(),
            iso_level,
        ),
        contour_mesh(field, iso_level, place).positions.len() == 3 * triangles_in(
            field.cells(),
            iso_level,
        ) <==> raw_vertices(field, iso_level, place).no_duplicates(),
        contour_mesh(field, iso_level, place).indices.len() == 3 * triangles_in(
            field.cells(),
            iso_level,
        ),
{
    lemma_three_corners_per_triangle(field.cells(), iso_level);
    lemma_nothing_merged_iff_all_distinct(raw_vertices(field, iso_level, place));
}

/// A grid that is less than two points wide or high has an empty mesh: no
/// position, no normal, no texture coordinate and no index.
pub proof fn lemma_no_cell_no_mesh(
    field: FieldView,
    iso_level: u32,
    place: spec_fn(CellVertex) -> (u32, u32),
)
    requires
        field.width < 2 || field.height < 2,
    ensures
        field.cells().len() == 0,
        contour_mesh(field, iso_level, place).positions.len() == 0,
        contour_mesh(field, iso_level, place).normals.len() == 0,
        contour_mesh(field, iso_level, place).uvs.len() == 0,
        contour_mesh(field, iso_level, place).indices.len() == 0,
{
    assert(field.cells_across() * field.cells_up() == 0);
}

/// Building twice from grids with the same size and values, against the same
/// level and with the same placing of corners, gives the same four buffers.
pub proof fn lemma_rebuild_is_identical(
    first: FieldView,
    second: FieldView,
    iso_level: u32,
    place: spec_fn(CellVertex) -> (u32, u32),
)
    requires
        first.width == second.width,
        first.height == second.height,
        first.values =~= second.values,
    ensures
        contour_mesh(first, iso_level, place).positions == contour_mesh(
            second,
            iso_level,
            place,
        ).positions,
        contour_mesh(first, iso_level, place).normals == contour_mesh(
            second,
            iso_level,
            place,
        ).normals,
        contour_mesh(first, iso_level, place).uvs == contour_mesh(second, iso_level, place).uvs,
        contour_mesh(first, iso_level, place).indices == contour_mesh(
            second,
            iso_level,
            place,
        ).indices,
{
}

} // verus!
