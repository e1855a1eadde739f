//! A generation as text: one line for each row of a window on the grid.

use crate::generation::Generation;
use crate::grid::{Cell, CellCoordinate};
use vstd::prelude::*;

verus! {

/// The letter `x`, which marks an alive cell.
pub const ALIVE_GLYPH: u8 = 120;

/// A hyphen, which marks a dead cell.
pub const DEAD_GLYPH: u8 = 45;

/// The space that pads each cell to three columns.
pub const PADDING: u8 = 32;

/// The line feed that ends each row.
pub const END_OF_ROW: u8 = 10;

/// The three bytes that show one cell.
pub open spec fn cell_text(generation: Set<Cell>, cell: Cell) -> Seq<u8> {
    if generation.contains(cell) {
        seq![ALIVE_GLYPH, PADDING, PADDING]
    } else {
        seq![DEAD_GLYPH, PADDING, PADDING]
    }
}

/// The first `cols` cells of row `row`, from left to right.
pub open spec fn row_text(generation: Set<Cell>, row: CellCoordinate, cols: nat) -> Seq<u8>
    decreases cols,
{
    if cols == 0 {
        Seq::empty()
    } else {
        row_text(generation, row, (cols - 1) as nat) + cell_text(
            generation,
            (row, (cols - 1) as CellCoordinate),
        )
    }
}

/// The first `rows` rows of the grid, from the top, each cut after `cols`
/// cells and ended by a line feed.
pub open spec fn window_text(generation: Set<Cell>, rows: nat, cols: nat) -> Seq<u8>
    decreases rows,
{
    if rows == 0 {
        Seq::empty()
    } else {
        window_text(generation, (rows - 1) as nat, cols) + row_text(
            generation,
            (rows - 1) as CellCoordinate,
            cols,
        ) + seq![END_OF_ROW]
    }
}

/// Draws the rows below `row_end` and the columns below `col_end` of
/// `generation` as ASCII text.
pub fn render_window(generation: &Generation, row_end: CellCoordinate, col_end: CellCoordinate) -> (text:
    Vec<u8>)
    ensures
        text@ == window_text(generation@, row_end as nat, col_end as nat),
{
    let mut text: Vec<u8> = Vec::new();
    for row in 0..row_end
        invariant
            text@ == window_text(generation@, row as nat, col_end as nat),
    {
        let ghost above = text@;
        for col in 0..col_end
            invariant
                text@ == above + row_text(generation@, row, col as nat),
        {
            if generation.contains((row, col)) {
                text.push(ALIVE_GLYPH);
            } else {
                text.push(DEAD_GLYPH);
            }
            text.push(PADDING);
            text.push(PADDING);
        }
        text.push(END_OF_ROW);
    }
    text
}

} // verus!
