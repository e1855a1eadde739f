//! Walking the neighbours of a cell one at a time.

use crate::grid::{
    end_value, in_region, neighbors_of, spec_end_value, spec_start_value, start_value, Cell,
    CellCoordinate,
};
use vstd::prelude::*;

verus! {

/// The position after `cursor` when the clipped rectangle around `cell` is
/// read row by row, the centre included; `None` at its last corner.
pub open spec fn scan_successor(cell: Cell, cursor: Cell) -> Option<Cell> {
    if cursor == (spec_end_value(cell.0), spec_end_value(cell.1)) {
        None
    } else if cursor.1 == spec_end_value(cell.1) {
        Some(((cursor.0 + 1) as CellCoordinate, spec_start_value(cell.1)))
    } else {
        Some((cursor.0, (cursor.1 + 1) as CellCoordinate))
    }
}

/// Row-major order on cells.
pub open spec fn scan_before(a: Cell, b: Cell) -> bool {
    a.0 < b.0 || (a.0 == b.0 && a.1 < b.1)
}

/// The successor of a position is the first position of the rectangle
/// behind it: it comes later, and nothing of the rectangle lies between.
pub proof fn lemma_scan_successor_is_next(cell: Cell, cursor: Cell, other: Cell)
    requires
        in_region(cell, cursor),
    ensures
        scan_successor(cell, cursor) matches Some(next) ==> in_region(cell, next) && scan_before(
            cursor,
            next,
        ),
        in_region(cell, other) && scan_before(cursor, other) ==> (scan_successor(
            cell,
            cursor,
        ) matches Some(next) && !scan_before(other, next)),
{
}

/// A bound on the positions of the rectangle that the scan has yet to
/// pass, `cursor` included. It falls with every step of the scan.
spec fn scan_distance(cell: Cell, cursor: Option<Cell>) -> nat {
    match cursor {
        Some(cur) if in_region(cell, cur) => {
            let rows_left = spec_end_value(cell.0) - cur.0;
            let cols_left = spec_end_value(cell.1) - cur.1;
            (1 + 3 * rows_left + cols_left) as nat
        },
        _ => 0,
    }
}

/// What the scan yields from `cursor` on: the positions of the rectangle in
/// row-major order, without the centre.
spec fn scan_from(cell: Cell, cursor: Option<Cell>) -> Seq<Cell>
    decreases scan_distance(cell, cursor),
{
    match cursor {
        Some(cur) if in_region(cell, cur) => {
            let rest = scan_from(cell, scan_successor(cell, cur));
            if cur == cell {
                rest
            } else {
                seq![cur] + rest
            }
        },
        _ => Seq::empty(),
    }
}

/// Read from its first corner, the rectangle yields the neighbours of its centre.
proof fn lemma_scan_yields_neighbors(cell: Cell)
    ensures
        scan_from(cell, Some((spec_start_value(cell.0), spec_start_value(cell.1)))) == neighbors_of(
            cell,
        ),
{
    reveal_with_fuel(scan_from, 10);
}

/// The position after `cursor` in the scan of the rectangle that starts in
/// column `first_col` and ends at `end_neighbor`.
fn step(first_col: CellCoordinate, end_neighbor: Cell, cursor: Cell) -> (next: Option<Cell>)
    requires
        cursor.0 <= end_neighbor.0,
        cursor.1 <= end_neighbor.1,
    ensures
        next == if cursor == end_neighbor {
            None
        } else if cursor.1 == end_neighbor.1 {
            Some(((cursor.0 + 1) as CellCoordinate, first_col))
        } else {
            Some((cursor.0, (cursor.1 + 1) as CellCoordinate))
        },
{
    if cursor.0 == end_neighbor.0 && cursor.1 == end_neighbor.1 {
        return None;
    }
    let (_, end_col) = end_neighbor;
    let (cur_row, cur_col) = cursor;

    let neighbor;
    if cur_col == end_col {
        neighbor = (cur_row + 1, first_col);
    } else {
        neighbor = (cur_row, cur_col + 1);
    }

    Some(neighbor)
}

/// Yields the neighbours of one cell, row by row and from left to right
/// within a row. Only cells of the grid are yielded: next to an edge of the
/// coordinate range there are fewer than eight.
#[derive(Debug)]
pub struct NeighborIterator {
    first_col: CellCoordinate,
    current_cell: Cell,
    end_neighbor: Cell,
    current_neighbor: Option<Cell>,
}

impl NeighborIterator {
    #[verifier::type_invariant]
    spec fn well_formed(self) -> bool {
        &&& self.first_col == spec_start_value(self.current_cell.1)
        &&& self.end_neighbor == (
            spec_end_value(self.current_cell.0),
            spec_end_value(self.current_cell.1),
        )
        &&& self.current_neighbor matches Some(cursor) ==> in_region(self.current_cell, cursor)
            && cursor != self.current_cell
    }

    /// The cell whose neighbours are yielded.
    pub closed spec fn cell(&self) -> Cell {
        self.current_cell
    }

    /// The neighbours that are still to come, in the order in which they come.
    pub closed spec fn remaining(&self) -> Seq<Cell> {
        scan_from(self.current_cell, self.current_neighbor)
    }

    /// The neighbour that comes next, if there is one.
    pub open spec fn cursor(&self) -> Option<Cell> {
        if self.remaining().len() > 0 {
            Some(self.remaining()[0])
        } else {
            None
        }
    }

    /// Starts at the first neighbour of `cell`.
    pub fn new(cell: Cell) -> (iter: NeighborIterator)
        ensures
            iter.cell() == cell,
            iter.remaining() == neighbors_of(cell),
    {
        let (row, col) = cell;
        let first_col = start_value(col);
        let end_neighbor = (end_value(row), end_value(col));
        let first = (start_value(row), first_col);
        let current_neighbor = if first.0 == row && first.1 == col {
            step(first_col, end_neighbor, first)
        } else {
            Some(first)
        };
        proof {
            lemma_scan_yields_neighbors(cell);
            reveal_with_fuel(scan_from, 2);
        }
        NeighborIterator { first_col, current_cell: cell, end_neighbor, current_neighbor }
    }

    /// Yields the next neighbour and moves on, past the cell itself where
    /// it comes next in the scan. `None` once all neighbours were yielded.
    pub fn next(&mut self) -> (neighbor: Option<Cell>)
        ensures
            final(self).cell() == old(self).cell(),
            neighbor == old(self).cursor(),
            final(self).remaining() == if old(self).remaining().len() > 0 {
                old(self).remaining().skip(1)
            } else {
                old(self).remaining()
            },
    {
        proof {
            use_type_invariant(&*self);
            reveal_with_fuel(scan_from, 3);
        }
        let current_neighbor = self.current_neighbor;
        let mut upcoming = get_next_neighbor(self);
        if upcoming == Some(self.current_cell) {
            upcoming = step(self.first_col, self.end_neighbor, self.current_cell);
        }
        self.current_neighbor = upcoming;
        current_neighbor
    }
}

/// The position that follows the iterator's next neighbour in the scan of
/// the rectangle, which may be the centre cell; `None` where the next
/// neighbour is the last position, or where none is left.
pub fn get_next_neighbor(iter: &NeighborIterator) -> (next: Option<Cell>)
    ensures
        next == match iter.cursor() {
            Some(cursor) => scan_successor(iter.cell(), cursor),
            None => None,
        },
{
    proof {
        use_type_invariant(iter);
        reveal_with_fuel(scan_from, 2);
    }
    let current_neighbor = match iter.current_neighbor {
        Some(neighbor) => neighbor,
        None => return None,
    };
    step(iter.first_col, iter.end_neighbor, current_neighbor)
}

} // verus!
