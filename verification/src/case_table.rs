//! The sixteen topology cases of a cell and the eight boundary positions
//! that their triangles are drawn between.

use crate::binary32::{HALF, ONE, ZERO};
use vstd::prelude::*;

verus! {

/// Marks an unused corner slot of a triangle.
pub const UNUSED: i8 = -1;

/// For each case, up to four triangles. A triangle names three boundary
/// positions; an unused slot holds [`UNUSED`] three times.
///
/// A case is the sum of the weights of the corners that lie inside: `1` for
/// bottom left, `2` for top left, `4` for top right, `8` for bottom right.
/// The corners themselves are the boundary positions `0`, `2`, `4` and `6`,
/// and the positions `1`, `3`, `5` and `7` are the middles of the left, top,
/// right and bottom edge. Where two opposite corners lie inside and the other
/// two do not, the two are always joined through the middle of the cell,
/// with four triangles.
///
/// The table is fixed data: a mesh is made of exactly the triangles listed
/// here, in this order and with their corners in this order.
pub const CASE_TABLE: [[[i8; 3]; 4]; 16] = [
    // 0: no corner
    [[-1, -1, -1], [-1, -1, -1], [-1, -1, -1], [-1, -1, -1]],
    // 1: bottom left
    [[0, 1, 7], [-1, -1, -1], [-1, -1, -1], [-1, -1, -1]],
    // 2: top left
    [[1, 2, 3], [-1, -1, -1], [-1, -1, -1], [-1, -1, -1]],
    // 3: bottom left, top left (the left half)
    [[0, 2, 3], [0, 3, 7], [-1, -1, -1], [-1, -1, -1]],
    // 4: top right
    [[3, 4, 5], [-1, -1, -1], [-1, -1, -1], [-1, -1, -1]],
    // 5: bottom left, top right (opposite corners)
    [[0, 1, 7], [1, 3, 7], [3, 6, 7], [3, 4, 5]],
    // 6: top left, top right (the top half)
    [[1, 2, 4], [1, 4, 5], [-1, -1, -1], [-1, -1, -1]],
    // 7: all but bottom right
    [[0, 2, 7], [2, 5, 7], [2, 4, 5], [-1, -1, -1]],
    // 8: bottom right
    [[5, 6, 7], [-1, -1, -1], [-1, -1, -1], [-1, -1, -1]],
    // 9: bottom left, bottom right (the bottom half)
    [[0, 1, 5], [0, 5, 6], [-1, -1, -1], [-1, -1, -1]],
    // 10: top left, bottom right (opposite corners)
    [[1, 2, 3], [1, 3, 7], [3, 5, 7], [5, 6, 7]],
    // 11: all but top right
    [[0, 2, 3], [0, 3, 5], [0, 5, 6], [-1, -1, -1]],
    // 12: top right, bottom right (the right half)
    [[3, 4, 6], [3, 6, 7], [-1, -1, -1], [-1, -1, -1]],
    // 13: all but top left
    [[1, 3, 6], [0, 1, 6], [3, 4, 6], [-1, -1, -1]],
    // 14: all but bottom left
    [[1, 2, 4], [1, 4, 7], [4, 6, 7], [-1, -1, -1]],
    // 15: every corner (the whole cell)
    [[0, 2, 4], [0, 4, 6], [-1, -1, -1], [-1, -1, -1]],
];

/// Where a boundary position lies in its cell, in half cell widths from the
/// bottom left corner: first along `x`, then along `y`.
pub open spec fn boundary_halves(index: int) -> (int, int) {
    if index == 0 {
        (0, 0)
    } else if index == 1 {
        (0, 1)
    } else if index == 2 {
        (0, 2)
    } else if index == 3 {
        (1, 2)
    } else if index == 4 {
        (2, 2)
    } else if index == 5 {
        (2, 1)
    } else if index == 6 {
        (2, 0)
    } else {
        (1, 0)
    }
}

/// The pattern of the number `halves / 2`, for zero, one or two halves.
pub open spec fn halves_pattern(halves: int) -> u32 {
    if halves == 0 {
        ZERO
    } else if halves == 1 {
        HALF
    } else {
        ONE
    }
}

/// Where a boundary position lies in its cell, as the patterns of its two
/// fractional coordinates.
pub open spec fn boundary_offset(index: int) -> (u32, u32) {
    (halves_pattern(boundary_halves(index).0), halves_pattern(boundary_halves(index).1))
}

/// The fractional coordinates of a boundary position inside its cell, or
/// `None` for an unused slot.
pub fn tri_index_to_vertex(index: i8) -> (r: Option<(u32, u32)>)
    requires
        -1 <= index <= 7,
    ensures
        r == (if index == UNUSED {
            None
        } else {
            Some(boundary_offset(index as int))
        }),
{
    match index {
        -1 => None,
        0 => Some((ZERO, ZERO)),
        1 => Some((ZERO, HALF)),
        2 => Some((ZERO, ONE)),
        3 => Some((HALF, ONE)),
        4 => Some((ONE, ONE)),
        5 => Some((ONE, HALF)),
        6 => Some((ONE, ZERO)),
        _ => Some((HALF, ZERO)),
    }
}

/// A triangle of the table is used when its first slot is.
pub open spec fn used(triangle: [i8; 3]) -> bool {
    triangle[0] != UNUSED
}

/// How many triangles a case has.
pub open spec fn triangle_count(case: int) -> nat {
    let row = CASE_TABLE[case];
    ((if used(row[0]) {
        1nat
    } else {
        0
    }) + (if used(row[1]) {
        1nat
    } else {
        0
    }) + (if used(row[2]) {
        1nat
    } else {
        0
    }) + (if used(row[3]) {
        1nat
    } else {
        0
    })) as nat
}

/// Every slot of the table holds a boundary position or the unused mark,
/// and a triangle is unused in all three slots or in none.
pub proof fn lemma_table_entries(case: int, slot: int, corner: int)
    requires
        0 <= case < 16,
        0 <= slot < 4,
        0 <= corner < 3,
    ensures
        -1 <= CASE_TABLE[case][slot][corner] <= 7,
        CASE_TABLE[case][slot][corner] == UNUSED <==> !used(CASE_TABLE[case][slot]),
{
}

/// Every slot of a case's row holds a boundary position or the unused mark.
pub proof fn lemma_row_entries(case: int)
    requires
        0 <= case < 16,
    ensures
        forall|slot: int, corner: int|
            0 <= slot < 4 && 0 <= corner < 3 ==> -1 <= #[trigger] CASE_TABLE[case][slot][corner]
                <= 7,
{
    assert forall|slot: int, corner: int| 0 <= slot < 4 && 0 <= corner < 3 implies -1
        <= #[trigger] CASE_TABLE[case][slot][corner] <= 7 by {
        lemma_table_entries(case, slot, corner);
    }
}

/// A triangle has the boundary position `position` as one of its corners.
pub open spec fn names(triangle: [i8; 3], position: i8) -> bool {
    triangle[0] == position || triangle[1] == position || triangle[2] == position
}

/// Every used triangle of a case has `position` as one of its corners.
pub open spec fn all_triangles_name(case: int, position: i8) -> bool {
    forall|slot: int|
        0 <= slot < 4 && used(#[trigger] CASE_TABLE[case][slot]) ==> names(
            CASE_TABLE[case][slot],
            position,
        )
}

/// The shape of the table. With no corner inside there is no triangle, and
/// with every corner inside there are two. One corner alone, and two corners
/// on one edge, give one or two triangles. Two opposite corners give four.
/// Where one corner alone lies inside, every triangle has that corner as one
/// of its own.
pub proof fn lemma_table_shape()
    ensures
        triangle_count(0) == 0,
        triangle_count(15) == 2,
        triangle_count(5) == 4,
        triangle_count(10) == 4,
        1 <= triangle_count(1) <= 2,
        1 <= triangle_count(2) <= 2,
        1 <= triangle_count(4) <= 2,
        1 <= triangle_count(8) <= 2,
        1 <= triangle_count(3) <= 2,
        1 <= triangle_count(6) <= 2,
        1 <= triangle_count(9) <= 2,
        1 <= triangle_count(12) <= 2,
        all_triangles_name(1, 0),
        all_triangles_name(2, 2),
        all_triangles_name(4, 4),
        all_triangles_name(8, 6),
{
}

/// The weight that a corner has in the case: `1`, `2`, `4`, `8` for the
/// corners `0` (bottom left), `1` (top left), `2` (top right) and `3`
/// (bottom right).
pub open spec fn corner_weight(corner: int) -> int {
    if corner == 0 {
        1
    } else if corner == 1 {
        2
    } else if corner == 2 {
        4
    } else {
        8
    }
}

/// In this case the corner lies inside.
pub open spec fn holds_corner(case: int, corner: int) -> bool {
    (case / corner_weight(corner)) % 2 == 1
}

/// Some used triangle of the case has `position` as one of its corners.
pub open spec fn some_triangle_names(case: int, position: i8) -> bool {
    exists|slot: int|
        0 <= slot < 4 && used(#[trigger] CASE_TABLE[case][slot]) && names(
            CASE_TABLE[case][slot],
            position,
        )
}

/// The rows stand under the cases they belong to: every corner that lies
/// inside in a case is a corner of one of that case's triangles.
pub proof fn lemma_inside_corners_are_covered(case: int, corner: int)
    requires
        0 <= case < 16,
        0 <= corner < 4,
        holds_corner(case, corner),
    ensures
        some_triangle_names(case, (2 * corner) as i8),
{
    let position = (2 * corner) as i8;
    let row = CASE_TABLE[case];
    if names(row[0], position) {
        assert(used(CASE_TABLE[case][0]));
    } else if names(row[1], position) {
        assert(used(CASE_TABLE[case][1]));
    } else if names(row[2], position) {
        assert(used(CASE_TABLE[case][2]));
    } else {
        assert(names(row[3], position));
        assert(used(CASE_TABLE[case][3]));
    }
}

} // verus!
