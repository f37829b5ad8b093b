use snake_core::{Cell, ChangedCells, Direction, Phase, Step, Universe};

const UP: u8 = 0;
const DOWN: u8 = 1;
const LEFT: u8 = 2;
const RIGHT: u8 = 3;

/// The position of a coordinate in the storage of the 64 by 64 grid.
fn position(row: u32, column: u32) -> u32 {
    row * 64 + column
}

/// The contents of all cells, row by row.
fn snapshot(universe: &Universe) -> Vec<Cell> {
    let mut cells = Vec::new();
    for row in 0..universe.get_height() {
        for column in 0..universe.get_width() {
            cells.push(universe.get_cell(row, column).unwrap());
        }
    }
    cells
}

/// The coordinates of the snake, from the head on.
fn body(universe: &Universe) -> Vec<(u32, u32)> {
    (0..universe.get_score()).map(|i| universe.get_segment(i).unwrap()).collect()
}

/// How many cells hold `cell`.
fn count(universe: &Universe, cell: Cell) -> usize {
    snapshot(universe).into_iter().filter(|c| *c == cell).count()
}

/// The report of a step that moved the snake.
fn moved(step: Step) -> ChangedCells {
    match step {
        Step::Moved(report) => report,
        Step::Halted => panic!("the snake halted"),
        Step::NeedsFood => panic!("the snake ate"),
    }
}

/// What holds after every step: the head's cell is `Head`, every segment lies
/// on a `Head` or `Tail` cell, no coordinate occurs twice, the snake fills
/// exactly the `Head` and `Tail` cells, and there is one food, or none while
/// the snake waits for it.
fn assert_invariant(universe: &Universe) {
    let segments = body(universe);
    assert!(!segments.is_empty());
    let (head_row, head_column) = universe.get_head_coordinates();
    assert_eq!(segments[0], (head_row, head_column));
    assert_eq!(universe.get_cell(head_row, head_column), Some(Cell::Head));
    for (i, a) in segments.iter().enumerate() {
        let cell = universe.get_cell(a.0, a.1).unwrap();
        assert!(cell == Cell::Head || cell == Cell::Tail);
        for b in &segments[i + 1..] {
            assert_ne!(a, b);
        }
    }
    assert_eq!(count(universe, Cell::Head) + count(universe, Cell::Tail), segments.len());
    let food = count(universe, Cell::Food);
    if universe.get_phase() == Phase::AwaitingFood {
        assert_eq!(food, 0);
    } else {
        assert_eq!(food, 1);
    }
}

/// A game in which the snake has eaten its first food and the new food lies
/// at the given coordinate.
fn grown_once(food_row: u32, food_column: u32) -> Universe {
    let mut universe = Universe::new();
    assert!(matches!(universe.tick(None), Step::NeedsFood));
    assert!(universe.place_food(position(food_row, food_column)).is_some());
    universe
}

#[test]
fn new_game_has_the_documented_layout() {
    let universe = Universe::new();
    assert_eq!(universe.get_width(), 64);
    assert_eq!(universe.get_height(), 64);
    assert_eq!(universe.get_head_coordinates(), (5, 20));
    assert_eq!(universe.get_direction(), Direction::Right);
    assert_eq!(universe.get_score(), 1);
    assert_eq!(universe.get_phase(), Phase::Running);
    assert_eq!(body(&universe), vec![(5, 20)]);
    for row in 0..64 {
        for column in 0..64 {
            let expected = if (row, column) == (5, 20) {
                Cell::Head
            } else if (row, column) == (5, 21) {
                Cell::Food
            } else {
                Cell::Empty
            };
            assert_eq!(universe.get_cell(row, column), Some(expected));
        }
    }
    assert_invariant(&universe);
}

#[test]
fn cells_off_the_grid_are_none() {
    let universe = Universe::new();
    assert_eq!(universe.get_cell(64, 0), None);
    assert_eq!(universe.get_cell(0, 64), None);
    assert_eq!(universe.get_cell(u32::MAX, u32::MAX), None);
    assert_eq!(universe.get_cell(63, 63), Some(Cell::Empty));
    assert_eq!(universe.get_segment(1), None);
}

#[test]
fn index_is_row_times_width_plus_column() {
    let universe = Universe::new();
    assert_eq!(universe.get_index((0, 0)), 0);
    assert_eq!(universe.get_index((0, 63)), 63);
    assert_eq!(universe.get_index((1, 0)), 64);
    assert_eq!(universe.get_index((5, 20)), 340);
    assert_eq!(universe.get_index((63, 63)), 4095);
}

#[test]
fn moves_are_in_bounds_except_across_an_edge() {
    let universe = Universe::new();
    for input in 0..4u8 {
        let direction = Direction::from_u8(input).unwrap();
        assert!(universe.next_move_inbounds((30, 30), direction));
    }
    assert!(!universe.next_move_inbounds((0, 30), Direction::Up));
    assert!(universe.next_move_inbounds((0, 30), Direction::Down));
    assert!(!universe.next_move_inbounds((63, 30), Direction::Down));
    assert!(universe.next_move_inbounds((63, 30), Direction::Up));
    assert!(!universe.next_move_inbounds((30, 0), Direction::Left));
    assert!(universe.next_move_inbounds((30, 0), Direction::Right));
    assert!(!universe.next_move_inbounds((30, 63), Direction::Right));
    assert!(universe.next_move_inbounds((30, 63), Direction::Left));
    assert!(!universe.next_move_inbounds((0, 0), Direction::Up));
    assert!(!universe.next_move_inbounds((0, 0), Direction::Left));
    assert!(!universe.next_move_inbounds((63, 63), Direction::Down));
    assert!(!universe.next_move_inbounds((63, 63), Direction::Right));
}

#[test]
fn next_head_is_one_step_from_the_head() {
    let universe = Universe::new();
    assert_eq!(universe.next_head(Direction::Up), Some((4, 20)));
    assert_eq!(universe.next_head(Direction::Down), Some((6, 20)));
    assert_eq!(universe.next_head(Direction::Left), Some((5, 19)));
    assert_eq!(universe.next_head(Direction::Right), Some((5, 21)));
}

#[test]
fn first_tick_eats_and_reports_three_cells() {
    let mut universe = Universe::new();
    assert!(matches!(universe.tick(None), Step::NeedsFood));
    assert_eq!(universe.get_phase(), Phase::AwaitingFood);
    assert_eq!(body(&universe), vec![(5, 21), (5, 20)]);
    assert_eq!(universe.get_cell(5, 21), Some(Cell::Head));
    assert_eq!(universe.get_cell(5, 20), Some(Cell::Tail));
    assert_eq!(count(&universe, Cell::Food), 0);
    assert_invariant(&universe);

    let report = universe.place_food(position(5, 40)).unwrap();
    assert_eq!(report.len(), 3);
    assert_eq!(report.xs(), vec![5, 5, 5]);
    assert_eq!(report.ys(), vec![21, 20, 40]);
    assert_eq!(report.cells(), vec![0, 1, 2]);
    assert_eq!(report.score(), 2);
    assert_eq!(universe.get_score(), 2);
    assert_eq!(universe.get_phase(), Phase::Running);
    assert_eq!(universe.get_cell(5, 40), Some(Cell::Food));
    assert_eq!(count(&universe, Cell::Food), 1);
    assert_eq!(count(&universe, Cell::Head), 1);
    assert_eq!(count(&universe, Cell::Tail), 1);
    assert_invariant(&universe);
}

#[test]
fn new_food_goes_to_the_cell_that_the_position_names() {
    let mut universe = Universe::new();
    assert!(matches!(universe.tick(None), Step::NeedsFood));
    let report = universe.place_food(63 * 64 + 7).unwrap();
    assert_eq!(report.xs(), vec![5, 5, 63]);
    assert_eq!(report.ys(), vec![21, 20, 7]);
    assert_eq!(universe.get_cell(63, 7), Some(Cell::Food));
}

#[test]
fn food_is_taken_by_empty_cells_only() {
    let mut universe = Universe::new();
    assert!(matches!(universe.tick(None), Step::NeedsFood));
    let before = snapshot(&universe);
    assert!(universe.place_food(position(5, 21)).is_none());
    assert!(universe.place_food(position(5, 20)).is_none());
    assert!(universe.place_food(4096).is_none());
    assert!(universe.place_food(u32::MAX).is_none());
    assert_eq!(snapshot(&universe), before);
    assert_eq!(universe.get_phase(), Phase::AwaitingFood);
    assert!(universe.place_food(4095).is_some());
    assert_eq!(universe.get_cell(63, 63), Some(Cell::Food));
}

#[test]
fn food_is_refused_while_food_lies_on_the_grid() {
    let mut universe = Universe::new();
    let before = snapshot(&universe);
    assert!(universe.place_food(0).is_none());
    assert_eq!(snapshot(&universe), before);
    assert_eq!(count(&universe, Cell::Food), 1);

    let mut universe = grown_once(0, 0);
    assert!(universe.place_food(1).is_none());
    assert_eq!(count(&universe, Cell::Food), 1);
    assert_eq!(universe.get_cell(0, 1), Some(Cell::Empty));
}

#[test]
fn cell_for_food_names_empty_cells() {
    let universe = Universe::new();
    assert_eq!(universe.cell_for_food(0), Some((0, 0)));
    assert_eq!(universe.cell_for_food(63), Some((0, 63)));
    assert_eq!(universe.cell_for_food(64), Some((1, 0)));
    assert_eq!(universe.cell_for_food(4095), Some((63, 63)));
    assert_eq!(universe.cell_for_food(340), None);
    assert_eq!(universe.cell_for_food(341), None);
    assert_eq!(universe.cell_for_food(4096), None);
}

#[test]
fn steps_do_nothing_while_the_snake_waits_for_food() {
    let mut universe = Universe::new();
    assert!(matches!(universe.tick(None), Step::NeedsFood));
    let cells = snapshot(&universe);
    let segments = body(&universe);
    for input in [None, Some(UP), Some(DOWN), Some(LEFT), Some(RIGHT), Some(9)] {
        assert!(matches!(universe.tick(input), Step::NeedsFood));
        assert_eq!(snapshot(&universe), cells);
        assert_eq!(body(&universe), segments);
        assert_eq!(universe.get_direction(), Direction::Right);
        assert_eq!(universe.get_phase(), Phase::AwaitingFood);
    }
}

#[test]
fn move_onto_an_empty_cell_reports_two_cells() {
    let mut universe = Universe::new();
    let report = moved(universe.tick(Some(UP)));
    assert_eq!(report.len(), 2);
    assert_eq!(report.xs(), vec![4, 5]);
    assert_eq!(report.ys(), vec![20, 20]);
    assert_eq!(report.cells(), vec![0, 3]);
    assert_eq!(report.score(), 1);
    assert_eq!(body(&universe), vec![(4, 20)]);
    assert_eq!(universe.get_cell(4, 20), Some(Cell::Head));
    assert_eq!(universe.get_cell(5, 20), Some(Cell::Empty));
    assert_eq!(universe.get_cell(5, 21), Some(Cell::Food));
    assert_eq!(universe.get_direction(), Direction::Up);
    assert_invariant(&universe);
}

#[test]
fn move_of_a_longer_snake_drops_the_last_segment() {
    let mut universe = grown_once(0, 0);
    let before = snapshot(&universe);
    let report = moved(universe.tick(None));
    assert_eq!(report.len(), 2);
    assert_eq!(report.xs(), vec![5, 5]);
    assert_eq!(report.ys(), vec![22, 20]);
    assert_eq!(report.cells(), vec![0, 3]);
    assert_eq!(report.score(), 2);
    assert_eq!(body(&universe), vec![(5, 22), (5, 21)]);
    let after = snapshot(&universe);
    for k in 0..4096 {
        if k == 5 * 64 + 22 {
            assert_eq!(after[k], Cell::Head);
        } else if k == 5 * 64 + 20 {
            assert_eq!(after[k], Cell::Empty);
        } else {
            assert_eq!(after[k], before[k]);
        }
    }
    assert_invariant(&universe);
}

#[test]
fn cell_that_the_head_left_keeps_its_mark_until_the_tail_has_passed() {
    let mut universe = grown_once(0, 0);
    assert_eq!(count(&universe, Cell::Head), 1);
    moved(universe.tick(None));
    assert_eq!(universe.get_cell(5, 22), Some(Cell::Head));
    assert_eq!(universe.get_cell(5, 21), Some(Cell::Head));
    assert_eq!(count(&universe, Cell::Head), 2);
    assert_eq!(count(&universe, Cell::Tail), 0);
    moved(universe.tick(None));
    assert_eq!(universe.get_cell(5, 21), Some(Cell::Empty));
    assert_eq!(universe.get_cell(5, 22), Some(Cell::Head));
    assert_eq!(universe.get_cell(5, 23), Some(Cell::Head));
    assert_invariant(&universe);
}

#[test]
fn single_segment_keeps_exactly_one_head_cell() {
    let mut universe = Universe::new();
    for input in [UP, UP, LEFT, DOWN, DOWN, RIGHT, UP, LEFT] {
        moved(universe.tick(Some(input)));
        assert_eq!(count(&universe, Cell::Head), 1);
        assert_eq!(count(&universe, Cell::Tail), 0);
        assert_invariant(&universe);
    }
}

#[test]
fn growth_keeps_exactly_one_head_cell() {
    let mut universe = Universe::new();
    for column in 22..30 {
        assert!(matches!(universe.tick(None), Step::NeedsFood));
        assert_eq!(count(&universe, Cell::Head), 1);
        let report = universe.place_food(position(5, column)).unwrap();
        assert_eq!(report.score(), (column - 20) as usize);
        assert_eq!(count(&universe, Cell::Head), 1);
        assert_eq!(count(&universe, Cell::Tail), (column - 21) as usize);
        assert_eq!(count(&universe, Cell::Food), 1);
        assert_invariant(&universe);
    }
    assert_eq!(universe.get_score(), 9);
    assert_eq!(universe.get_head_coordinates(), (5, 28));
}

#[test]
fn growth_adds_one_segment_and_one_point() {
    let mut universe = grown_once(5, 22);
    let length = universe.get_score();
    let segments = body(&universe);
    assert!(matches!(universe.tick(None), Step::NeedsFood));
    assert_eq!(universe.get_score(), length + 1);
    let mut expected = vec![(5, 22)];
    expected.extend(segments);
    assert_eq!(body(&universe), expected);
    let report = universe.place_food(position(10, 10)).unwrap();
    assert_eq!(report.len(), 3);
    assert_eq!(report.score(), length + 1);
    assert_eq!(report.xs(), vec![5, 5, 10]);
    assert_eq!(report.ys(), vec![22, 21, 10]);
    assert_eq!(report.cells(), vec![0, 1, 2]);
    assert_eq!(count(&universe, Cell::Food), 1);
    assert_eq!(universe.get_cell(5, 22), Some(Cell::Head));
    assert_eq!(universe.get_cell(10, 10), Some(Cell::Food));
}

#[test]
fn head_at_the_top_edge_halts_on_up() {
    let mut universe = Universe::new();
    for _ in 0..5 {
        moved(universe.tick(Some(UP)));
    }
    assert_eq!(universe.get_head_coordinates(), (0, 20));
    assert_eq!(universe.next_head(Direction::Up), None);
    let cells = snapshot(&universe);
    assert!(matches!(universe.tick(None), Step::Halted));
    assert_eq!(snapshot(&universe), cells);
    assert_eq!(body(&universe), vec![(0, 20)]);
    assert_eq!(universe.get_phase(), Phase::Halted);
    assert_invariant(&universe);
}

#[test]
fn head_at_the_left_edge_halts_on_left() {
    let mut universe = Universe::new();
    for _ in 0..20 {
        moved(universe.tick(Some(LEFT)));
    }
    assert_eq!(universe.get_head_coordinates(), (5, 0));
    let cells = snapshot(&universe);
    assert!(matches!(universe.tick(Some(LEFT)), Step::Halted));
    assert_eq!(snapshot(&universe), cells);
    assert_eq!(body(&universe), vec![(5, 0)]);
}

#[test]
fn head_at_the_bottom_edge_halts_on_down() {
    let mut universe = Universe::new();
    for _ in 0..58 {
        moved(universe.tick(Some(DOWN)));
    }
    assert_eq!(universe.get_head_coordinates(), (63, 20));
    let cells = snapshot(&universe);
    assert!(matches!(universe.tick(Some(DOWN)), Step::Halted));
    assert_eq!(snapshot(&universe), cells);
    assert_eq!(body(&universe), vec![(63, 20)]);
}

#[test]
fn head_at_the_right_edge_halts_on_right() {
    let mut universe = Universe::new();
    moved(universe.tick(Some(UP)));
    for _ in 0..43 {
        moved(universe.tick(Some(RIGHT)));
    }
    assert_eq!(universe.get_head_coordinates(), (4, 63));
    let cells = snapshot(&universe);
    assert!(matches!(universe.tick(None), Step::Halted));
    assert_eq!(snapshot(&universe), cells);
    assert_eq!(body(&universe), vec![(4, 63)]);
}

#[test]
fn halting_step_keeps_the_resolved_heading() {
    let mut universe = Universe::new();
    for _ in 0..5 {
        moved(universe.tick(Some(UP)));
    }
    moved(universe.tick(Some(LEFT)));
    assert_eq!(universe.get_direction(), Direction::Left);
    assert!(matches!(universe.tick(Some(UP)), Step::Halted));
    assert_eq!(universe.get_direction(), Direction::Up);
}

#[test]
fn halt_is_final() {
    let mut universe = Universe::new();
    for _ in 0..5 {
        moved(universe.tick(Some(UP)));
    }
    assert!(matches!(universe.tick(None), Step::Halted));
    let cells = snapshot(&universe);
    for input in [None, Some(DOWN), Some(LEFT), Some(RIGHT), Some(UP), Some(200)] {
        assert!(matches!(universe.tick(input), Step::Halted));
        assert_eq!(snapshot(&universe), cells);
        assert_eq!(body(&universe), vec![(0, 20)]);
        assert_eq!(universe.get_direction(), Direction::Up);
        assert_eq!(universe.get_phase(), Phase::Halted);
    }
    assert!(universe.place_food(0).is_none());
    assert_eq!(snapshot(&universe), cells);
}

#[test]
fn reverse_is_ignored_by_a_snake_of_two_segments() {
    let mut universe = grown_once(0, 0);
    assert_eq!(universe.get_direction(), Direction::Right);
    let report = moved(universe.tick(Some(LEFT)));
    assert_eq!(universe.get_direction(), Direction::Right);
    assert_eq!(universe.get_head_coordinates(), (5, 22));
    assert_eq!(report.xs(), vec![5, 5]);
    assert_eq!(report.ys(), vec![22, 20]);
}

#[test]
fn reverse_is_ignored_for_every_heading() {
    for (turn, reverse, head) in
        [(UP, DOWN, (3, 21)), (DOWN, UP, (7, 21)), (RIGHT, LEFT, (5, 23))]
    {
        let mut universe = grown_once(0, 0);
        moved(universe.tick(Some(turn)));
        let heading = universe.get_direction();
        moved(universe.tick(Some(reverse)));
        assert_eq!(universe.get_direction(), heading);
        assert_eq!(universe.get_head_coordinates(), head);
    }
    let mut universe = grown_once(0, 0);
    moved(universe.tick(Some(UP)));
    moved(universe.tick(Some(LEFT)));
    moved(universe.tick(Some(RIGHT)));
    assert_eq!(universe.get_direction(), Direction::Left);
    assert_eq!(universe.get_head_coordinates(), (4, 19));
}

#[test]
fn reverse_is_taken_by_a_snake_of_one_segment() {
    let mut universe = Universe::new();
    assert_eq!(universe.get_direction(), Direction::Right);
    let report = moved(universe.tick(Some(LEFT)));
    assert_eq!(universe.get_direction(), Direction::Left);
    assert_eq!(universe.get_head_coordinates(), (5, 19));
    assert_eq!(report.xs(), vec![5, 5]);
    assert_eq!(report.ys(), vec![19, 20]);
    moved(universe.tick(Some(UP)));
    moved(universe.tick(Some(DOWN)));
    assert_eq!(universe.get_direction(), Direction::Down);
    assert_eq!(universe.get_head_coordinates(), (5, 19));
}

#[test]
fn input_that_names_no_direction_keeps_the_heading() {
    let mut universe = Universe::new();
    moved(universe.tick(Some(UP)));
    for input in [Some(4), Some(17), Some(255), None] {
        let (row, column) = universe.get_head_coordinates();
        moved(universe.tick(input));
        assert_eq!(universe.get_direction(), Direction::Up);
        assert_eq!(universe.get_head_coordinates(), (row - 1, column));
    }
}

#[test]
fn step_onto_the_own_body_halts() {
    let mut universe = Universe::new();
    for column in 22..25 {
        assert!(matches!(universe.tick(None), Step::NeedsFood));
        assert!(universe.place_food(position(5, column)).is_some());
    }
    assert_eq!(body(&universe), vec![(5, 23), (5, 22), (5, 21), (5, 20)]);
    moved(universe.tick(Some(UP)));
    moved(universe.tick(Some(LEFT)));
    assert_eq!(body(&universe), vec![(4, 22), (4, 23), (5, 23), (5, 22)]);
    let cells = snapshot(&universe);
    assert!(matches!(universe.tick(Some(DOWN)), Step::Halted));
    assert_eq!(snapshot(&universe), cells);
    assert_eq!(body(&universe), vec![(4, 22), (4, 23), (5, 23), (5, 22)]);
    assert_eq!(universe.get_direction(), Direction::Down);
    assert_eq!(universe.get_phase(), Phase::Halted);
    assert_invariant(&universe);
    assert!(matches!(universe.tick(Some(LEFT)), Step::Halted));
    assert_eq!(snapshot(&universe), cells);
}

#[test]
fn long_walk_keeps_the_invariant() {
    let mut universe = Universe::new();
    let inputs = [RIGHT, RIGHT, DOWN, DOWN, LEFT, LEFT, LEFT, UP, RIGHT, DOWN, DOWN, RIGHT, UP];
    let mut next_food = 100;
    for round in 0..40 {
        let input = inputs[round % inputs.len()];
        match universe.tick(Some(input)) {
            Step::Halted => break,
            Step::Moved(report) => {
                assert_eq!(report.len(), 2);
                assert_eq!(report.score(), universe.get_score());
            },
            Step::NeedsFood => {
                let (row, column) = universe.get_head_coordinates();
                let ahead = match universe.get_direction() {
                    Direction::Right if column < 63 => position(row, column + 1),
                    _ => next_food,
                };
                let report = match universe.place_food(ahead) {
                    Some(report) => report,
                    None => {
                        next_food += 1;
                        universe.place_food(next_food).unwrap()
                    },
                };
                assert_eq!(report.len(), 3);
                assert_eq!(report.score(), universe.get_score());
            },
        }
        assert_invariant(&universe);
    }
}

/// The `n`-th cell of the path that runs through the rows in turn, the even
/// rows from left to right and the odd rows from right to left.
fn winding(n: u32) -> (u32, u32) {
    let row = n / 64;
    let column = if row % 2 == 0 { n % 64 } else { 63 - n % 64 };
    (row, column)
}

#[test]
fn snake_that_fills_the_grid_takes_no_food() {
    let mut universe = Universe::new();
    assert!(matches!(universe.tick(None), Step::NeedsFood));
    assert!(universe.place_food(position(0, 2)).is_some());
    for _ in 0..4 {
        moved(universe.tick(Some(UP)));
    }
    for _ in 0..21 {
        moved(universe.tick(Some(LEFT)));
    }
    moved(universe.tick(Some(UP)));
    moved(universe.tick(Some(RIGHT)));
    assert_eq!(body(&universe), vec![(0, 1), (0, 0)]);

    for n in 2..4096 {
        let (row, column) = winding(n - 1);
        let (next_row, next_column) = winding(n);
        let input = if next_row > row {
            DOWN
        } else if next_column > column {
            RIGHT
        } else {
            LEFT
        };
        assert!(matches!(universe.tick(Some(input)), Step::NeedsFood));
        assert_eq!(universe.get_head_coordinates(), (next_row, next_column));
        assert_eq!(universe.get_score(), n as usize + 1);
        if n + 1 < 4096 {
            let (food_row, food_column) = winding(n + 1);
            let report = universe.place_food(position(food_row, food_column)).unwrap();
            assert_eq!(report.score(), n as usize + 1);
            assert_eq!(report.xs(), vec![next_row, row, food_row]);
            assert_eq!(report.ys(), vec![next_column, column, food_column]);
        }
    }

    assert_eq!(universe.get_score(), 4096);
    assert_eq!(universe.get_phase(), Phase::AwaitingFood);
    assert_eq!(count(&universe, Cell::Empty), 0);
    assert_eq!(count(&universe, Cell::Food), 0);
    for k in 0..4096 {
        assert!(universe.place_food(k).is_none());
    }
    assert_invariant(&universe);
    assert!(matches!(universe.tick(Some(UP)), Step::NeedsFood));
    assert_eq!(universe.get_score(), 4096);
}
