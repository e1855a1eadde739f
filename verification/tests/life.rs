use game_of_life::generation::Generation;
use game_of_life::grid::Cell;
use game_of_life::life::{
    bring_cell_back_to_life, compute_next_gen, get_neighbors_status, GOLGenerationIterator,
};

const MAX: u64 = u64::MAX;

fn sorted(generation: &Generation) -> Vec<Cell> {
    let mut cells = generation.cells();
    cells.sort();
    cells
}

fn advance(cells: &[Cell]) -> Vec<Cell> {
    sorted(&compute_next_gen(&Generation::from_cells(&cells.to_vec())))
}

#[test]
fn empty_generation_stays_empty() {
    assert_eq!(advance(&[]), vec![]);
}

#[test]
fn lone_cell_dies() {
    assert_eq!(advance(&[(5, 5)]), vec![]);
    assert_eq!(advance(&[(0, 0)]), vec![]);
    assert_eq!(advance(&[(MAX, MAX)]), vec![]);
    assert_eq!(advance(&[(0, MAX)]), vec![]);
}

#[test]
fn pair_of_cells_dies() {
    assert_eq!(advance(&[(5, 5), (5, 6)]), vec![]);
}

#[test]
fn block_is_a_still_life() {
    let block = [(1, 1), (1, 2), (2, 1), (2, 2)];
    assert_eq!(advance(&block), block.to_vec());
}

#[test]
fn block_in_a_corner_is_a_still_life() {
    let low = [(0, 0), (0, 1), (1, 0), (1, 1)];
    assert_eq!(advance(&low), low.to_vec());
    let high = [(MAX - 1, MAX - 1), (MAX - 1, MAX), (MAX, MAX - 1), (MAX, MAX)];
    assert_eq!(advance(&high), high.to_vec());
}

#[test]
fn blinker_oscillates_with_period_two() {
    let seed = [(1, 1), (1, 2), (1, 3)];
    let turned = advance(&seed);
    assert_eq!(turned, vec![(0, 2), (1, 2), (2, 2)]);
    assert_eq!(advance(&turned), seed.to_vec());
}

#[test]
fn blinker_on_the_first_row_does_not_wrap_around() {
    // the cell above the middle does not exist: nothing is born at the far end
    assert_eq!(advance(&[(0, 0), (0, 1), (0, 2)]), vec![(0, 1), (1, 1)]);
}

#[test]
fn three_cells_in_a_corner_fill_the_block() {
    assert_eq!(
        advance(&[(0, 0), (0, 1), (1, 0)]),
        vec![(0, 0), (0, 1), (1, 0), (1, 1)]
    );
    assert_eq!(
        advance(&[(MAX, MAX), (MAX, MAX - 1), (MAX - 1, MAX)]),
        vec![(MAX - 1, MAX - 1), (MAX - 1, MAX), (MAX, MAX - 1), (MAX, MAX)]
    );
}

#[test]
fn crowded_cell_dies() {
    // the middle of a plus has four alive neighbours
    let plus = [(1, 2), (2, 1), (2, 2), (2, 3), (3, 2)];
    let next = advance(&plus);
    assert!(!next.contains(&(2, 2)));
    assert_eq!(
        next,
        vec![(1, 1), (1, 2), (1, 3), (2, 1), (2, 3), (3, 1), (3, 2), (3, 3)]
    );
}

const SEED: [Cell; 7] = [(1, 3), (2, 2), (2, 3), (2, 4), (3, 2), (3, 4), (4, 3)];

#[test]
fn seed_pattern_first_four_generations() {
    let first = advance(&SEED);
    assert_eq!(
        first,
        vec![(1, 2), (1, 3), (1, 4), (2, 2), (2, 4), (3, 2), (3, 4), (4, 3)]
    );
    let second = advance(&first);
    assert_eq!(
        second,
        vec![(0, 3), (1, 2), (1, 4), (2, 1), (2, 2), (2, 4), (2, 5), (3, 2), (3, 4), (4, 3)]
    );
    let third = advance(&second);
    assert_eq!(
        third,
        vec![
            (0, 3), (1, 1), (1, 2), (1, 4), (1, 5), (2, 1), (2, 2), (2, 4), (2, 5), (3, 1),
            (3, 2), (3, 4), (3, 5), (4, 3)
        ]
    );
    let fourth = advance(&third);
    assert_eq!(
        fourth,
        vec![
            (0, 2), (0, 3), (0, 4), (1, 1), (1, 5), (2, 0), (2, 6), (3, 1), (3, 5), (4, 2),
            (4, 3), (4, 4)
        ]
    );
}

#[test]
fn glider_moves_one_cell_diagonally_every_four_generations() {
    let glider = [(0, 1), (1, 2), (2, 0), (2, 1), (2, 2)];
    let mut cells = glider.to_vec();
    for round in 1..=3u64 {
        for _ in 0..4 {
            cells = advance(&cells);
        }
        let mut moved: Vec<Cell> = glider.iter().map(|&(r, c)| (r + round, c + round)).collect();
        moved.sort();
        assert_eq!(cells, moved);
    }
}

#[test]
fn generations_start_with_the_seed() {
    let mut game = GOLGenerationIterator::new(SEED.to_vec());
    let zero = game.next().expect("the game never ends");
    assert_eq!(sorted(&zero), SEED.to_vec());
    let one = game.next().expect("the game never ends");
    assert_eq!(sorted(&one), advance(&SEED));
    let two = game.next().expect("the game never ends");
    assert_eq!(sorted(&two), advance(&advance(&SEED)));
}

#[test]
fn ten_generations_of_the_seed() {
    let mut game = GOLGenerationIterator::new(SEED.to_vec());
    let mut sizes = Vec::new();
    for _ in 0..10 {
        sizes.push(game.next().expect("the game never ends").cells().len());
    }
    assert_eq!(sizes, vec![7, 8, 10, 14, 12, 21, 13, 22, 16, 21]);
}

#[test]
fn seed_with_repeated_cells() {
    let mut game = GOLGenerationIterator::new(vec![(1, 1), (1, 2), (1, 1), (1, 3), (1, 3)]);
    assert_eq!(sorted(&game.next().unwrap()), vec![(1, 1), (1, 2), (1, 3)]);
    assert_eq!(sorted(&game.next().unwrap()), vec![(0, 2), (1, 2), (2, 2)]);
}

#[test]
fn neighbors_status_counts_alive_and_lists_dead() {
    let current = Generation::from_cells(&SEED.to_vec());
    let status = get_neighbors_status((2, 3), &current);
    assert_eq!(status.alive_count, 5);
    assert_eq!(status.dead_neighbors, vec![(1, 2), (1, 4), (3, 3)]);

    let status = get_neighbors_status((1, 3), &current);
    assert_eq!(status.alive_count, 3);
    assert_eq!(status.dead_neighbors, vec![(0, 2), (0, 3), (0, 4), (1, 2), (1, 4)]);
}

#[test]
fn neighbors_status_of_a_lone_cell() {
    let current = Generation::from_cells(&vec![(5, 5)]);
    let status = get_neighbors_status((5, 5), &current);
    assert_eq!(status.alive_count, 0);
    assert_eq!(
        status.dead_neighbors,
        vec![(4, 4), (4, 5), (4, 6), (5, 4), (5, 6), (6, 4), (6, 5), (6, 6)]
    );
}

#[test]
fn neighbors_status_in_a_corner() {
    let current = Generation::from_cells(&vec![(0, 0), (0, 1), (1, 1)]);
    let status = get_neighbors_status((0, 0), &current);
    assert_eq!(status.alive_count, 2);
    assert_eq!(status.dead_neighbors, vec![(1, 0)]);

    let current = Generation::from_cells(&vec![(MAX, MAX)]);
    let status = get_neighbors_status((MAX, MAX), &current);
    assert_eq!(status.alive_count, 0);
    assert_eq!(
        status.dead_neighbors,
        vec![(MAX - 1, MAX - 1), (MAX - 1, MAX), (MAX, MAX - 1)]
    );
}

#[test]
fn neighbors_status_with_all_neighbors_alive() {
    let mut cells = Vec::new();
    for row in 4..=6 {
        for col in 4..=6 {
            cells.push((row, col));
        }
    }
    let status = get_neighbors_status((5, 5), &Generation::from_cells(&cells));
    assert_eq!(status.alive_count, 8);
    assert!(status.dead_neighbors.is_empty());
}

#[test]
fn dead_cell_with_three_alive_neighbors_comes_to_life() {
    let current = Generation::from_cells(&vec![(1, 1), (1, 2), (1, 3)]);
    assert!(bring_cell_back_to_life((0, 2), &current));
    assert!(bring_cell_back_to_life((2, 2), &current));
}

#[test]
fn dead_cell_with_two_or_four_alive_neighbors_stays_dead() {
    let current = Generation::from_cells(&vec![(1, 1), (1, 2), (1, 3)]);
    assert!(!bring_cell_back_to_life((0, 1), &current));
    assert!(!bring_cell_back_to_life((0, 0), &current));
    assert!(!bring_cell_back_to_life((9, 9), &current));
    let crowded = Generation::from_cells(&vec![(0, 0), (0, 2), (2, 0), (2, 2)]);
    assert!(!bring_cell_back_to_life((1, 1), &crowded));
}

#[test]
fn asking_twice_gives_the_same_answer() {
    let current = Generation::from_cells(&SEED.to_vec());
    for row in 0..7 {
        for col in 0..7 {
            let first = bring_cell_back_to_life((row, col), &current);
            let second = bring_cell_back_to_life((row, col), &current);
            assert_eq!(first, second);
        }
    }
    assert!(bring_cell_back_to_life((1, 2), &current));
    assert!(bring_cell_back_to_life((1, 2), &current));
}

#[test]
fn advancing_leaves_the_current_generation_as_it_was() {
    let current = Generation::from_cells(&SEED.to_vec());
    let next = compute_next_gen(&current);
    assert_eq!(sorted(&current), SEED.to_vec());
    assert_eq!(sorted(&next), advance(&SEED));
    assert_eq!(sorted(&compute_next_gen(&current)), sorted(&next));
}
