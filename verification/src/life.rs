//! The rule of the game: which cells are alive in the next generation.

use crate::generation::Generation;
use crate::grid::{
    adjacent, lemma_neighbors_are_adjacent, lemma_neighbors_distinct, neighbors_of, on_edge,
    row_above,
    row_below, row_cells, row_left, row_right, Cell, CellCoordinate,
};
use crate::neighbors::NeighborIterator;
use vstd::prelude::*;

verus! {

/// The test "is alive in `generation`", as a predicate on cells.
pub open spec fn alive_in(generation: Set<Cell>) -> spec_fn(Cell) -> bool {
    |cell: Cell| generation.contains(cell)
}

/// The test "is dead in `generation`", as a predicate on cells.
pub open spec fn dead_in(generation: Set<Cell>) -> spec_fn(Cell) -> bool {
    |cell: Cell| !generation.contains(cell)
}

/// The neighbours of `cell` that are alive in `generation`, in the order
/// of the neighbourhood.
pub open spec fn alive_neighbors(generation: Set<Cell>, cell: Cell) -> Seq<Cell> {
    neighbors_of(cell).filter(alive_in(generation))
}

/// The neighbours of `cell` that are dead in `generation`, in the order
/// of the neighbourhood.
pub open spec fn dead_neighbors(generation: Set<Cell>, cell: Cell) -> Seq<Cell> {
    neighbors_of(cell).filter(dead_in(generation))
}

/// How many neighbours of `cell` are alive in `generation`.
pub open spec fn alive_count(generation: Set<Cell>, cell: Cell) -> nat {
    alive_neighbors(generation, cell).len()
}

/// Whether a dead cell with the neighbours that `cell` has in `generation`
/// comes to life: exactly three of them are alive.
pub open spec fn comes_to_life(generation: Set<Cell>, cell: Cell) -> bool {
    alive_count(generation, cell) == 3
}

/// Whether `cell` is alive in the generation after `generation`: an alive
/// cell with two or three alive neighbours, or a dead one with exactly three.
pub open spec fn alive_next(generation: Set<Cell>, cell: Cell) -> bool {
    if generation.contains(cell) {
        alive_count(generation, cell) == 2 || alive_count(generation, cell) == 3
    } else {
        comes_to_life(generation, cell)
    }
}

/// The generation that follows `generation`.
pub open spec fn next_generation(generation: Set<Cell>) -> Set<Cell> {
    Set::new(|cell: Cell| alive_next(generation, cell))
}

/// What surrounds one cell: how many of its neighbours are alive, and which
/// of them are dead.
#[derive(Debug)]
pub struct NeighborStatus {
    /// The number of alive neighbours, eight at most.
    pub alive_count: u8,
    /// The dead neighbours, in the order of the neighbourhood.
    pub dead_neighbors: Vec<Cell>,
}

/// Whether `cell` has exactly three alive neighbours in `current_gen`, which
/// is what brings a dead cell to life. Asked again of the same cell and
/// generation, it answers the same.
pub fn bring_cell_back_to_life(cell: Cell, current_gen: &Generation) -> (reborn: bool)
    ensures
        reborn == comes_to_life(current_gen@, cell),
{
    let mut alive: u8 = 0;
    let mut iter = NeighborIterator::new(cell);
    let ghost seen: Seq<Cell> = Seq::empty();
    proof {
        lemma_neighbors_distinct(cell);
        reveal(Seq::filter);
    }
    loop
        invariant
            seen + iter.remaining() == neighbors_of(cell),
            neighbors_of(cell).len() <= 8,
            alive == seen.filter(alive_in(current_gen@)).len(),
            alive <= seen.len(),
        ensures
            seen == neighbors_of(cell),
        decreases iter.remaining().len(),
    {
        match iter.next() {
            Some(neighbor) => {
                proof {
                    seen.lemma_filter_push(neighbor, alive_in(current_gen@));
                    seen = seen.push(neighbor);
                }
                if current_gen.contains(neighbor) {
                    alive = alive + 1;
                }
            },
            None => {
                break ;
            },
        }
    }

    alive == 3
}

/// Counts the alive neighbours of `cell` in `current_gen` and collects the
/// dead ones, which are the cells that may come to life next to it.
pub fn get_neighbors_status(cell: Cell, current_gen: &Generation) -> (status: NeighborStatus)
    ensures
        status.alive_count == alive_count(current_gen@, cell),
        status.dead_neighbors@ == dead_neighbors(current_gen@, cell),
{
    let mut neighbor_status = NeighborStatus { alive_count: 0, dead_neighbors: Vec::new() };
    let mut iter = NeighborIterator::new(cell);
    let ghost seen: Seq<Cell> = Seq::empty();
    proof {
        lemma_neighbors_distinct(cell);
        reveal(Seq::filter);
    }
    loop
        invariant
            seen + iter.remaining() == neighbors_of(cell),
            neighbors_of(cell).len() <= 8,
            neighbor_status.alive_count == seen.filter(alive_in(current_gen@)).len(),
            neighbor_status.alive_count <= seen.len(),
            neighbor_status.dead_neighbors@ == seen.filter(dead_in(current_gen@)),
        ensures
            seen == neighbors_of(cell),
        decreases iter.remaining().len(),
    {
        match iter.next() {
            Some(neighbor) => {
                proof {
                    seen.lemma_filter_push(neighbor, alive_in(current_gen@));
                    seen.lemma_filter_push(neighbor, dead_in(current_gen@));
                    seen = seen.push(neighbor);
                }
                if current_gen.contains(neighbor) {
                    neighbor_status.alive_count += 1;
                } else {
                    neighbor_status.dead_neighbors.push(neighbor);
                }
            },
            None => {
                break ;
            },
        }
    }

    neighbor_status
}

/// A cell that comes to life is a dead neighbour of a cell that is alive:
/// with three alive neighbours it has one, and touching is mutual.
pub proof fn lemma_reborn_cell_touches_alive_cell(generation: Set<Cell>, cell: Cell) -> (alive: Cell)
    requires
        !generation.contains(cell),
        comes_to_life(generation, cell),
    ensures
        generation.contains(alive),
        adjacent(alive, cell),
        dead_neighbors(generation, alive).contains(cell),
{
    let around = neighbors_of(cell);
    let found = alive_neighbors(generation, cell);
    let alive = found[0];
    assert(found.contains(alive));
    around.lemma_filter_pred(alive_in(generation), 0);
    around.lemma_filter_contains_rev(alive_in(generation), alive);
    lemma_neighbors_are_adjacent(cell, alive);
    lemma_neighbors_are_adjacent(alive, cell);
    let at = choose|at: int| 0 <= at < neighbors_of(alive).len() && neighbors_of(alive)[at] == cell;
    neighbors_of(alive).lemma_filter_contains(dead_in(generation), at);
    alive
}

/// The generation that follows `current_gen`: of its cells those with two
/// or three alive neighbours, and of the dead cells next to them those
/// with exactly three.
pub fn compute_next_gen(current_gen: &Generation) -> (next: Generation)
    ensures
        next@ == next_generation(current_gen@),
{
    let mut next = Generation::new();
    let cells = current_gen.cells();
    let ghost before = current_gen@;

    for i in 0..cells.len()
        invariant
            before == current_gen@,
            cells@.to_set() == before,
            forall|c: Cell| next@.contains(c) ==> alive_next(before, c),
            forall|j: int|
                0 <= j < i && alive_next(before, #[trigger] cells@[j]) ==> next@.contains(cells@[j]),
            forall|j: int, d: Cell|
                0 <= j < i && #[trigger] dead_neighbors(before, cells@[j]).contains(d)
                    && comes_to_life(before, d) ==> next@.contains(d),
    {
        let cell = cells[i];
        assert(before.contains(cell)) by {
            assert(cells@.to_set().contains(cells@[i as int]));
        }
        let neighbors = get_neighbors_status(cell, current_gen);

        let alive = neighbors.alive_count;
        if alive == 2 || alive == 3 {
            next.insert(cell);
        }
        // Only a dead cell next to an alive one can come to life, so the dead
        // neighbours of the alive cells are all that has to be looked at.

        let candidates = &neighbors.dead_neighbors;
        for k in 0..candidates.len()
            invariant
                before == current_gen@,
                0 <= i < cells@.len(),
                cell == cells@[i as int],
                candidates@ == dead_neighbors(before, cell),
                forall|c: Cell| next@.contains(c) ==> alive_next(before, c),
                forall|j: int|
                    0 <= j <= i && alive_next(before, #[trigger] cells@[j]) ==> next@.contains(
                        cells@[j],
                    ),
                forall|j: int, d: Cell|
                    0 <= j < i && #[trigger] dead_neighbors(before, cells@[j]).contains(d)
                        && comes_to_life(before, d) ==> next@.contains(d),
                forall|m: int|
                    0 <= m < k && comes_to_life(before, #[trigger] candidates@[m])
                        ==> next@.contains(candidates@[m]),
        {
            let candidate = candidates[k];
            assert(!before.contains(candidate)) by {
                neighbors_of(cell).lemma_filter_pred(dead_in(before), k as int);
            }
            if bring_cell_back_to_life(candidate, current_gen) {
                next.insert(candidate);
            }
        }
    }

    proof {
        assert forall|c: Cell| next_generation(before).contains(c) implies next@.contains(c) by {
            if before.contains(c) {
                let j = choose|j: int| 0 <= j < cells@.len() && cells@[j] == c;
                assert(alive_next(before, cells@[j]));
            } else {
                let alive = lemma_reborn_cell_touches_alive_cell(before, c);
                let j = choose|j: int| 0 <= j < cells@.len() && cells@[j] == alive;
                assert(dead_neighbors(before, cells@[j]).contains(c));
            }
        }
    }
    next
}

/// The generations of one game, one after the other, the seed first.
pub struct GOLGenerationIterator {
    current_gen: Generation,
}

impl View for GOLGenerationIterator {
    type V = Set<Cell>;

    /// The generation that is yielded next.
    closed spec fn view(&self) -> Set<Cell> {
        self.current_gen@
    }
}

impl GOLGenerationIterator {
    /// A game that starts with the cells of `seed` alive.
    pub fn new(seed: Vec<Cell>) -> (iter: GOLGenerationIterator)
        ensures
            iter@ == seed@.to_set(),
    {
        let gen_zero = Generation::from_cells(&seed);
        GOLGenerationIterator { current_gen: gen_zero }
    }

    /// Yields the current generation and advances to the one that follows
    /// it. The game never ends: the result is never `None`.
    pub fn next(&mut self) -> (generation: Option<Generation>)
        ensures
            generation matches Some(yielded) && yielded@ == old(self)@,
            final(self)@ == next_generation(old(self)@),
    {
        let mut generation = compute_next_gen(&self.current_gen);
        std::mem::swap(&mut self.current_gen, &mut generation);

        Some(generation)
    }
}

/// One where the position `(row, col)` is a cell of the grid that is alive
/// in `generation`, zero elsewhere.
pub open spec fn alive_at(generation: Set<Cell>, row: int, col: int) -> nat {
    if 0 <= row <= CellCoordinate::MAX && 0 <= col <= CellCoordinate::MAX && generation.contains(
        (row as CellCoordinate, col as CellCoordinate),
    ) {
        1
    } else {
        0
    }
}

/// The alive cells of a clipped row, counted position by position.
proof fn lemma_alive_in_row(generation: Set<Cell>, row: CellCoordinate, col: CellCoordinate)
    ensures
        row_left(row, col).filter(alive_in(generation)).len() == alive_at(
            generation,
            row as int,
            col - 1,
        ),
        row_right(row, col).filter(alive_in(generation)).len() == alive_at(
            generation,
            row as int,
            col + 1,
        ),
        (row_left(row, col) + row_right(row, col)).filter(alive_in(generation)).len() == alive_at(
            generation,
            row as int,
            col - 1,
        ) + alive_at(generation, row as int, col + 1),
        row_cells(row, col).filter(alive_in(generation)).len() == alive_at(
            generation,
            row as int,
            col - 1,
        ) + alive_at(generation, row as int, col as int) + alive_at(generation, row as int, col + 1),
{
    let alive = alive_in(generation);
    let left = row_left(row, col);
    let middle = seq![(row, col)];
    let right = row_right(row, col);
    assert(left.filter(alive).len() == alive_at(generation, row as int, col - 1)) by {
        reveal_with_fuel(Seq::filter, 2);
    }
    assert(middle.filter(alive).len() == alive_at(generation, row as int, col as int)) by {
        reveal_with_fuel(Seq::filter, 2);
    }
    assert(right.filter(alive).len() == alive_at(generation, row as int, col + 1)) by {
        reveal_with_fuel(Seq::filter, 2);
    }
    Seq::filter_distributes_over_add(left, right, alive);
    Seq::filter_distributes_over_add(left + middle, right, alive);
    Seq::filter_distributes_over_add(left, middle, alive);
}

/// The alive neighbours of a cell, counted position by position around it.
pub proof fn lemma_alive_count_by_position(generation: Set<Cell>, cell: Cell)
    ensures
        alive_count(generation, cell) == alive_at(generation, cell.0 - 1, cell.1 - 1) + alive_at(
            generation,
            cell.0 - 1,
            cell.1 as int,
        ) + alive_at(generation, cell.0 - 1, cell.1 + 1) + alive_at(
            generation,
            cell.0 as int,
            cell.1 - 1,
        ) + alive_at(generation, cell.0 as int, cell.1 + 1) + alive_at(
            generation,
            cell.0 + 1,
            cell.1 - 1,
        ) + alive_at(generation, cell.0 + 1, cell.1 as int) + alive_at(
            generation,
            cell.0 + 1,
            cell.1 + 1,
        ),
{
    let alive = alive_in(generation);
    let above = row_above(cell);
    let beside = row_left(cell.0, cell.1) + row_right(cell.0, cell.1);
    let below = row_below(cell);
    Seq::filter_distributes_over_add(above + beside, below, alive);
    Seq::filter_distributes_over_add(above, beside, alive);
    lemma_alive_in_row(generation, cell.0, cell.1);
    if cell.0 > CellCoordinate::MIN {
        lemma_alive_in_row(generation, (cell.0 - 1) as CellCoordinate, cell.1);
    } else {
        assert(above.filter(alive).len() == 0) by {
            reveal(Seq::filter);
        }
    }
    if cell.0 < CellCoordinate::MAX {
        lemma_alive_in_row(generation, (cell.0 + 1) as CellCoordinate, cell.1);
    } else {
        assert(below.filter(alive).len() == 0) by {
            reveal(Seq::filter);
        }
    }
}

/// Nothing grows from nothing: the generation after the empty one is empty.
pub proof fn lemma_empty_generation_stays_empty()
    ensures
        next_generation(Set::<Cell>::empty()) == Set::<Cell>::empty(),
{
    let nothing = Set::<Cell>::empty();
    assert forall|c: Cell| !next_generation(nothing).contains(c) by {
        lemma_alive_count_by_position(nothing, c);
    }
}

/// A cell that is alone dies, and no cell comes to life next to it: a
/// single cell is the only alive neighbour of every cell around it.
pub proof fn lemma_lone_cell_dies(cell: Cell)
    ensures
        next_generation(set![cell]) == Set::<Cell>::empty(),
{
    let lone = set![cell];
    assert forall|c: Cell| !next_generation(lone).contains(c) by {
        lemma_alive_count_by_position(lone, c);
    }
}

/// The two-by-two block whose upper left cell is `(row, col)`.
pub open spec fn block_at(row: CellCoordinate, col: CellCoordinate) -> Set<Cell>
    recommends
        row < CellCoordinate::MAX,
        col < CellCoordinate::MAX,
{
    set![
        (row, col),
        (row, (col + 1) as CellCoordinate),
        ((row + 1) as CellCoordinate, col),
        ((row + 1) as CellCoordinate, (col + 1) as CellCoordinate),
    ]
}

/// A two-by-two block is a still life: each of its cells has the other
/// three as neighbours, and no cell outside touches more than two of them.
#[verifier::rlimit(50)]
pub proof fn lemma_block_is_still_life(row: CellCoordinate, col: CellCoordinate)
    requires
        row < CellCoordinate::MAX,
        col < CellCoordinate::MAX,
    ensures
        next_generation(block_at(row, col)) == block_at(row, col),
{
    let block = block_at(row, col);
    assert forall|c: Cell| next_generation(block).contains(c) == block.contains(c) by {
        lemma_alive_count_by_position(block, c);
    }
}

/// Three cells in a row around `(row, col)`.
pub open spec fn blinker_across(row: CellCoordinate, col: CellCoordinate) -> Set<Cell>
    recommends
        !on_edge(col),
{
    set![(row, (col - 1) as CellCoordinate), (row, col), (row, (col + 1) as CellCoordinate)]
}

/// Three cells in a column around `(row, col)`.
pub open spec fn blinker_upright(row: CellCoordinate, col: CellCoordinate) -> Set<Cell>
    recommends
        !on_edge(row),
{
    set![((row - 1) as CellCoordinate, col), (row, col), ((row + 1) as CellCoordinate, col)]
}

/// Away from the edges of the grid, three cells in a row become three
/// cells in a column around the same middle cell.
#[verifier::rlimit(50)]
pub proof fn lemma_blinker_turns_upright(row: CellCoordinate, col: CellCoordinate)
    requires
        !on_edge(row),
        !on_edge(col),
    ensures
        next_generation(blinker_across(row, col)) == blinker_upright(row, col),
{
    let across = blinker_across(row, col);
    let upright = blinker_upright(row, col);
    assert forall|c: Cell| next_generation(across).contains(c) == upright.contains(c) by {
        lemma_alive_count_by_position(across, c);
    }
}

/// Away from the edges of the grid, three cells in a column become three
/// cells in a row around the same middle cell.
#[verifier::rlimit(50)]
pub proof fn lemma_blinker_turns_across(row: CellCoordinate, col: CellCoordinate)
    requires
        !on_edge(row),
        !on_edge(col),
    ensures
        next_generation(blinker_upright(row, col)) == blinker_across(row, col),
{
    let across = blinker_across(row, col);
    let upright = blinker_upright(row, col);
    assert forall|c: Cell| next_generation(upright).contains(c) == across.contains(c) by {
        lemma_alive_count_by_position(upright, c);
    }
}

/// Away from the edges of the grid, three cells in a line are back where
/// they were after two generations.
pub proof fn lemma_blinker_oscillates(row: CellCoordinate, col: CellCoordinate)
    requires
        !on_edge(row),
        !on_edge(col),
    ensures
        next_generation(next_generation(blinker_across(row, col))) == blinker_across(row, col),
        next_generation(next_generation(blinker_upright(row, col))) == blinker_upright(row, col),
{
    lemma_blinker_turns_upright(row, col);
    lemma_blinker_turns_across(row, col);
}

/// Whether a cell comes to life depends on its neighbours alone: two
/// generations that agree on them give the same answer, and so does one
/// generation asked twice.
pub proof fn lemma_rebirth_depends_on_neighbors(first: Set<Cell>, second: Set<Cell>, cell: Cell)
    requires
        forall|n: Cell| #[trigger] neighbors_of(cell).contains(n) ==> first.contains(n) == second.contains(n),
    ensures
        comes_to_life(first, cell) == comes_to_life(second, cell),
        alive_count(first, cell) == alive_count(second, cell),
{
    lemma_alive_count_by_position(first, cell);
    lemma_alive_count_by_position(second, cell);
    assert forall|n: Cell| adjacent(cell, n) implies first.contains(n) == second.contains(n) by {
        lemma_neighbors_are_adjacent(cell, n);
    }
}

} // verus!
