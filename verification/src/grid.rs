//! Coordinates, cells and the clipped Moore neighbourhood of a cell.

use vstd::prelude::*;

verus! {

/// One axis of the grid. The grid's origin is the numeric minimum.
pub type CellCoordinate = u64;

/// A grid position: row first, column second.
pub type Cell = (CellCoordinate, CellCoordinate);

/// The coordinate before `val`, or `val` itself at the lower edge of the range.
pub open spec fn spec_start_value(val: CellCoordinate) -> CellCoordinate {
    if val == CellCoordinate::MIN {
        val
    } else {
        (val - 1) as CellCoordinate
    }
}

/// The coordinate after `val`, or `val` itself at the upper edge of the range.
pub open spec fn spec_end_value(val: CellCoordinate) -> CellCoordinate {
    if val == CellCoordinate::MAX {
        val
    } else {
        (val + 1) as CellCoordinate
    }
}

/// First coordinate of the clipped neighbourhood along one axis.
#[verifier::when_used_as_spec(spec_start_value)]
pub fn start_value(val: CellCoordinate) -> (start: CellCoordinate)
    ensures
        start == spec_start_value(val),
{
    if val == CellCoordinate::MIN {
        return val;
    }
    val - 1
}

/// Last coordinate of the clipped neighbourhood along one axis.
#[verifier::when_used_as_spec(spec_end_value)]
pub fn end_value(val: CellCoordinate) -> (end: CellCoordinate)
    ensures
        end == spec_end_value(val),
{
    if val == CellCoordinate::MAX {
        return val;
    }
    val + 1
}

/// Whether `other` lies in the clipped three-by-three rectangle around `cell`.
pub open spec fn in_region(cell: Cell, other: Cell) -> bool {
    &&& spec_start_value(cell.0) <= other.0 <= spec_end_value(cell.0)
    &&& spec_start_value(cell.1) <= other.1 <= spec_end_value(cell.1)
}

/// Whether two cells touch: they differ, and by at most one on each axis.
pub open spec fn adjacent(a: Cell, b: Cell) -> bool {
    &&& a != b
    &&& -1 <= a.0 - b.0 <= 1
    &&& -1 <= a.1 - b.1 <= 1
}

/// The cells of row `row` that lie in the columns next to `col`, `col`
/// itself included, from left to right.
pub open spec fn row_cells(row: CellCoordinate, col: CellCoordinate) -> Seq<Cell> {
    row_left(row, col) + seq![(row, col)] + row_right(row, col)
}

/// The cell left of `(row, col)`, if the grid has one.
pub open spec fn row_left(row: CellCoordinate, col: CellCoordinate) -> Seq<Cell> {
    if col > CellCoordinate::MIN {
        seq![(row, (col - 1) as CellCoordinate)]
    } else {
        Seq::empty()
    }
}

/// The cell right of `(row, col)`, if the grid has one.
pub open spec fn row_right(row: CellCoordinate, col: CellCoordinate) -> Seq<Cell> {
    if col < CellCoordinate::MAX {
        seq![(row, (col + 1) as CellCoordinate)]
    } else {
        Seq::empty()
    }
}

/// The neighbours of `cell` in the row above it, if the grid has one.
pub open spec fn row_above(cell: Cell) -> Seq<Cell> {
    if cell.0 > CellCoordinate::MIN {
        row_cells((cell.0 - 1) as CellCoordinate, cell.1)
    } else {
        Seq::empty()
    }
}

/// The neighbours of `cell` in the row below it, if the grid has one.
pub open spec fn row_below(cell: Cell) -> Seq<Cell> {
    if cell.0 < CellCoordinate::MAX {
        row_cells((cell.0 + 1) as CellCoordinate, cell.1)
    } else {
        Seq::empty()
    }
}

/// The Moore neighbourhood of `cell`, row by row and from left to right
/// within a row. Positions beyond the range of the coordinates are left out,
/// so a cell on an edge has five neighbours and a cell in a corner three.
pub open spec fn neighbors_of(cell: Cell) -> Seq<Cell> {
    row_above(cell) + (row_left(cell.0, cell.1) + row_right(cell.0, cell.1)) + row_below(cell)
}

/// How many coordinates the clipped neighbourhood spans along one axis.
pub open spec fn span(val: CellCoordinate) -> nat {
    (spec_end_value(val) - spec_start_value(val) + 1) as nat
}

/// A clipped row holds the cells of that row whose column is at most one
/// away from `col`.
pub proof fn lemma_row_cells_contains(row: CellCoordinate, col: CellCoordinate, other: Cell)
    ensures
        row_cells(row, col).contains(other) <==> other.0 == row && -1 <= other.1 - col <= 1,
        row_left(row, col).contains(other) <==> other.0 == row && other.1 - col == -1,
        row_right(row, col).contains(other) <==> other.0 == row && other.1 - col == 1,
{
    let left = row_left(row, col);
    let right = row_right(row, col);
    let all = row_cells(row, col);
    if other.0 == row && other.1 - col == -1 {
        assert(left[0] == other);
        assert(all[0] == other);
    }
    if other.0 == row && other.1 - col == 1 {
        assert(right[0] == other);
        assert(all[all.len() - 1] == other);
    }
    if other == (row, col) {
        assert(all[left.len() as int] == other);
    }
}

/// The neighbours of a cell are exactly the cells that touch it.
pub proof fn lemma_neighbors_are_adjacent(cell: Cell, other: Cell)
    ensures
        neighbors_of(cell).contains(other) <==> adjacent(cell, other),
        adjacent(cell, other) <==> in_region(cell, other) && other != cell,
{
    broadcast use vstd::seq_lib::lemma_seq_concat_contains_all_elements;

    lemma_row_cells_contains(cell.0, cell.1, other);
    if cell.0 > CellCoordinate::MIN {
        lemma_row_cells_contains((cell.0 - 1) as CellCoordinate, cell.1, other);
    }
    if cell.0 < CellCoordinate::MAX {
        lemma_row_cells_contains((cell.0 + 1) as CellCoordinate, cell.1, other);
    }
}

/// No neighbour is listed twice, the cell itself is not listed, and there is
/// one neighbour for each position of the clipped rectangle but the centre.
pub proof fn lemma_neighbors_distinct(cell: Cell)
    ensures
        neighbors_of(cell).no_duplicates(),
        !neighbors_of(cell).contains(cell),
        neighbors_of(cell).len() == span(cell.0) * span(cell.1) - 1,
        3 <= neighbors_of(cell).len() <= 8,
{
    let rows = span(cell.0);
    let cols = span(cell.1);
    assert(row_left(cell.0, cell.1).len() + row_right(cell.0, cell.1).len() == cols - 1);
    assert(row_above(cell).len() + row_below(cell).len() == (rows - 1) * cols) by {
        if rows == 2 {
            assert((rows - 1) * cols == cols);
        } else {
            assert(rows == 3);
            assert((rows - 1) * cols == cols + cols);
        }
    }
    assert(rows * cols - 1 == (rows - 1) * cols + (cols - 1)) by (nonlinear_arith);
}

/// Whether a coordinate sits at either end of its range.
pub open spec fn on_edge(val: CellCoordinate) -> bool {
    val == CellCoordinate::MIN || val == CellCoordinate::MAX
}

/// A cell away from every edge of the grid has eight neighbours, all
/// different and none of them the cell itself.
pub proof fn lemma_interior_cell_has_eight_neighbors(cell: Cell)
    requires
        !on_edge(cell.0),
        !on_edge(cell.1),
    ensures
        neighbors_of(cell).len() == 8,
        neighbors_of(cell).no_duplicates(),
        !neighbors_of(cell).contains(cell),
{
    lemma_neighbors_distinct(cell);
}

/// A cell on an edge of the grid along exactly one axis, the lowest
/// coordinate or the highest, has five neighbours.
pub proof fn lemma_edge_cell_has_five_neighbors(cell: Cell)
    requires
        on_edge(cell.0) != on_edge(cell.1),
    ensures
        neighbors_of(cell).len() == 5,
        neighbors_of(cell).no_duplicates(),
        !neighbors_of(cell).contains(cell),
{
    lemma_neighbors_distinct(cell);
}

/// A cell in a corner of the grid, each coordinate the lowest or the
/// highest, has three neighbours.
pub proof fn lemma_corner_cell_has_three_neighbors(cell: Cell)
    requires
        on_edge(cell.0),
        on_edge(cell.1),
    ensures
        neighbors_of(cell).len() == 3,
        neighbors_of(cell).no_duplicates(),
        !neighbors_of(cell).contains(cell),
{
    lemma_neighbors_distinct(cell);
}

} // verus!
