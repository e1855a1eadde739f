use game_of_life::generation::Generation;
use game_of_life::grid::Cell;

fn sorted(generation: &Generation) -> Vec<Cell> {
    let mut cells = generation.cells();
    cells.sort();
    cells
}

#[test]
fn new_generation_is_empty() {
    let generation = Generation::new();
    assert!(generation.cells().is_empty());
    assert!(!generation.contains((0, 0)));
    assert!(!generation.contains((u64::MAX, u64::MAX)));
}

#[test]
fn insert_makes_a_cell_alive() {
    let mut generation = Generation::new();
    generation.insert((3, 4));
    assert!(generation.contains((3, 4)));
    assert!(!generation.contains((4, 3)));
    generation.insert((4, 3));
    assert!(generation.contains((4, 3)));
    assert_eq!(sorted(&generation), vec![(3, 4), (4, 3)]);
}

#[test]
fn inserting_twice_counts_once() {
    let mut generation = Generation::new();
    generation.insert((7, 7));
    generation.insert((7, 7));
    assert_eq!(generation.cells(), vec![(7, 7)]);
}

#[test]
fn from_cells_holds_each_cell_once() {
    let generation = Generation::from_cells(&vec![(1, 2), (0, 0), (1, 2), (9, 9), (0, 0)]);
    assert_eq!(sorted(&generation), vec![(0, 0), (1, 2), (9, 9)]);
    assert!(generation.contains((1, 2)));
    assert!(!generation.contains((2, 1)));
}

#[test]
fn row_and_column_are_told_apart_at_the_ends_of_the_range() {
    let max = u64::MAX;
    let generation = Generation::from_cells(&vec![(0, max), (max, 0), (1, 0), (max, max)]);
    assert!(generation.contains((0, max)));
    assert!(generation.contains((max, 0)));
    assert!(generation.contains((1, 0)));
    assert!(generation.contains((max, max)));
    assert!(!generation.contains((0, 1)));
    assert!(!generation.contains((0, 0)));
    assert!(!generation.contains((max - 1, max)));
    assert_eq!(
        sorted(&generation),
        vec![(0, max), (1, 0), (max, 0), (max, max)]
    );
}
