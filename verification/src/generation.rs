//! The set of cells that are alive at one moment.

use crate::grid::Cell;
use std::collections::HashSet;
use vstd::prelude::*;
use vstd::std_specs::iter::IteratorSpec;

verus! {

/// The number that stands for a cell inside the hash set: the row in the
/// upper 64 bits, the column in the lower 64.
spec fn cell_key(cell: Cell) -> u128 {
    (cell.0 * 0x1_0000_0000_0000_0000 + cell.1) as u128
}

/// The cell that a key stands for.
spec fn key_cell(key: u128) -> Cell {
    ((key / 0x1_0000_0000_0000_0000) as u64, (key % 0x1_0000_0000_0000_0000) as u64)
}

/// Every cell is the cell of its key.
proof fn lemma_cell_of_key(cell: Cell)
    ensures
        key_cell(cell_key(cell)) == cell,
{
}

/// Every key is the key of its cell.
proof fn lemma_key_of_cell(key: u128)
    ensures
        cell_key(key_cell(key)) == key,
{
}

/// Computes the key of a cell.
fn pack(cell: Cell) -> (key: u128)
    ensures
        key == cell_key(cell),
{
    (cell.0 as u128) * 0x1_0000_0000_0000_0000u128 + (cell.1 as u128)
}

/// Computes the cell of a key.
fn unpack(key: u128) -> (cell: Cell)
    ensures
        cell == key_cell(key),
{
    ((key / 0x1_0000_0000_0000_0000u128) as u64, (key % 0x1_0000_0000_0000_0000u128) as u64)
}

/// A generation: every cell in it is alive, every other cell is dead.
///
/// The cells are held in a hash set with one integer for each cell, because
/// what `vstd` states of `HashSet` holds for keys of a primitive type.
pub struct Generation {
    keys: HashSet<u128>,
}

impl View for Generation {
    type V = Set<Cell>;

    /// The cells that are alive.
    closed spec fn view(&self) -> Set<Cell> {
        Set::new(|cell: Cell| self.keys@.contains(cell_key(cell)))
    }
}

impl Generation {
    /// The generation in which no cell is alive.
    pub fn new() -> (generation: Generation)
        ensures
            generation@ == Set::<Cell>::empty(),
    {
        Generation { keys: HashSet::new() }
    }

    /// The generation in which exactly the cells of `cells` are alive. A cell
    /// that is listed more than once counts once.
    pub fn from_cells(cells: &Vec<Cell>) -> (generation: Generation)
        ensures
            generation@ == cells@.to_set(),
    {
        let mut generation = Generation::new();
        for i in 0..cells.len()
            invariant
                generation@ == cells@.take(i as int).to_set(),
        {
            proof {
                assert(cells@.take(i + 1) == cells@.take(i as int).push(cells@[i as int]));
                cells@.take(i as int).lemma_push_to_set_commute(cells@[i as int]);
            }
            generation.insert(cells[i]);
        }
        assert(cells@.take(cells@.len() as int) == cells@);
        generation
    }

    /// Whether `cell` is alive.
    pub fn contains(&self, cell: Cell) -> (alive: bool)
        ensures
            alive == self@.contains(cell),
    {
        let key = pack(cell);
        self.keys.contains(&key)
    }

    /// Makes `cell` alive.
    pub fn insert(&mut self, cell: Cell)
        ensures
            final(self)@ == old(self)@.insert(cell),
    {
        let key = pack(cell);
        self.keys.insert(key);
        proof {
            assert forall|c: Cell| final(self)@.contains(c) == old(self)@.insert(cell).contains(c) by {
                lemma_cell_of_key(c);
                lemma_cell_of_key(cell);
            }
        }
    }

    /// The alive cells, each once, in no particular order.
    pub fn cells(&self) -> (cells: Vec<Cell>)
        ensures
            cells@.to_set() == self@,
            cells@.no_duplicates(),
    {
        let mut cells: Vec<Cell> = Vec::new();
        let ghost keys = self.keys.iter().remaining();
        for key in it: self.keys.iter()
            invariant
                it.seq() == keys,
                cells@.len() == it.index(),
                forall|i: int| 0 <= i < cells@.len() ==> cells@[i] == key_cell(*keys[i]),
        {
            cells.push(unpack(*key));
        }
        proof {
            assert(keys.unref().to_set() == self.keys@);
            assert forall|c: Cell| cells@.to_set().contains(c) == self@.contains(c) by {
                if cells@.to_set().contains(c) {
                    let i = choose|i: int| 0 <= i < cells@.len() && cells@[i] == c;
                    lemma_key_of_cell(*keys[i]);
                    assert(keys.unref()[i] == cell_key(c));
                }
                if self@.contains(c) {
                    let i = choose|i: int|
                        0 <= i < keys.unref().len() && keys.unref()[i] == cell_key(c);
                    lemma_cell_of_key(c);
                    assert(cells@[i] == c);
                }
            }
            assert forall|i: int, j: int|
                0 <= i < cells@.len() && 0 <= j < cells@.len() && i != j implies cells@[i]
                != cells@[j] by {
                lemma_key_of_cell(*keys[i]);
                lemma_key_of_cell(*keys[j]);
            }
        }
        cells
    }
}

} // verus!
