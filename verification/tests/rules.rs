use toweroops::game::field::{
    cell_for_draw, kind_for_draw, selection_for_draw, value_for_draw, Board, CellDraw, BOARD_SIZE,
};
use toweroops::game::logic::{GameState, MoveResult};
use toweroops::game::types::{Cell, CellKind, GameOutcome, Selection, Statistics};

fn cell(kind: CellKind, value: i32) -> Cell {
    Cell { kind, value }
}

fn empty_grid() -> [[Cell; 8]; 8] {
    [[cell(CellKind::Empty, 0); 8]; 8]
}

fn full_grid() -> [[Cell; 8]; 8] {
    [[cell(CellKind::Stone, 0); 8]; 8]
}

fn state_on(grid: &[[Cell; 8]; 8], selection: Selection) -> GameState {
    GameState {
        board: Board::from_grid(grid).expect("cells in range"),
        selection,
        tower_player: 0,
        tower_computer: 0,
        outcome: GameOutcome::Running,
        moves_made: 0,
        ai_level: 2,
        tip: None,
        hovered: None,
        statistics: Statistics::default(),
    }
}

fn same_board(a: &Board, b: &Board) -> bool {
    for col in 0..BOARD_SIZE {
        for row in 0..BOARD_SIZE {
            if a.get(col, row) != b.get(col, row) {
                return false;
            }
        }
    }
    true
}

#[test]
fn default_cell_is_empty() {
    let c = Cell::default();
    assert_eq!(c.kind, CellKind::Empty);
    assert_eq!(c.value, 0);
}

#[test]
fn from_grid_keeps_every_cell() {
    let mut grid = empty_grid();
    grid[3][5] = cell(CellKind::Bomb, 2);
    grid[7][0] = cell(CellKind::Banana, 0);
    grid[0][7] = cell(CellKind::Stone, 3);
    let board = Board::from_grid(&grid).unwrap();
    for col in 0..8 {
        for row in 0..8 {
            assert_eq!(*board.get(col, row), grid[col][row]);
        }
    }
}

#[test]
fn from_grid_rejects_strength_out_of_range() {
    let mut grid = empty_grid();
    grid[2][2] = cell(CellKind::Stone, 4);
    assert!(Board::from_grid(&grid).is_none());
    grid[2][2] = cell(CellKind::Bomb, -1);
    assert!(Board::from_grid(&grid).is_none());
    grid[2][2] = cell(CellKind::Bomb, 3);
    assert!(Board::from_grid(&grid).is_some());
}

#[test]
fn clear_empties_one_square_and_is_idempotent() {
    let grid = full_grid();
    let mut board = Board::from_grid(&grid).unwrap();
    board.clear(4, 6);
    assert_eq!(*board.get(4, 6), cell(CellKind::Empty, 0));
    assert_eq!(*board.get(6, 4), cell(CellKind::Stone, 0));
    let once = board;
    board.clear(4, 6);
    assert!(same_board(&once, &board));
}

#[test]
fn exhausted_iff_all_eight_cells_empty() {
    let mut grid = empty_grid();
    grid[5][2] = cell(CellKind::Banana, 0);
    let mut board = Board::from_grid(&grid).unwrap();
    assert!(!board.selection_exhausted(Selection::Row(2)));
    assert!(!board.selection_exhausted(Selection::Column(5)));
    assert!(board.selection_exhausted(Selection::Row(5)));
    assert!(board.selection_exhausted(Selection::Column(2)));
    board.clear(5, 2);
    assert!(board.selection_exhausted(Selection::Row(2)));
    assert!(board.selection_exhausted(Selection::Column(5)));
}

#[test]
fn exhaustion_follows_every_clear_along_a_row() {
    let mut board = Board::from_grid(&full_grid()).unwrap();
    for col in 0..8 {
        assert!(!board.selection_exhausted(Selection::Row(3)));
        board.clear(col, 3);
    }
    assert!(board.selection_exhausted(Selection::Row(3)));
    for col in 0..8 {
        assert!(!board.selection_exhausted(Selection::Column(col)));
    }
}

#[test]
fn kind_draws_follow_the_distribution() {
    assert_eq!(kind_for_draw(0), CellKind::Banana);
    for d in 1..=6 {
        assert_eq!(kind_for_draw(d), CellKind::Stone);
    }
    for d in 7..=10 {
        assert_eq!(kind_for_draw(d), CellKind::Bomb);
    }
}

#[test]
fn value_draws_follow_the_distribution() {
    let values: Vec<i32> = (0..11).map(value_for_draw).collect();
    assert_eq!(values, vec![3, 2, 2, 1, 1, 1, 1, 0, 0, 0, 0]);
}

#[test]
fn selection_draw_picks_axis_and_index() {
    assert_eq!(selection_for_draw(true, 6), Selection::Row(6));
    assert_eq!(selection_for_draw(false, 1), Selection::Column(1));
}

#[test]
fn cell_draws_give_strength_to_stones_and_bombs_only() {
    assert_eq!(cell_for_draw(CellDraw { kind: 0, value: 0 }), cell(CellKind::Banana, 0));
    assert_eq!(cell_for_draw(CellDraw { kind: 0, value: 5 }), cell(CellKind::Banana, 0));
    assert_eq!(cell_for_draw(CellDraw { kind: 1, value: 0 }), cell(CellKind::Stone, 3));
    assert_eq!(cell_for_draw(CellDraw { kind: 6, value: 2 }), cell(CellKind::Stone, 2));
    assert_eq!(cell_for_draw(CellDraw { kind: 7, value: 6 }), cell(CellKind::Bomb, 1));
    assert_eq!(cell_for_draw(CellDraw { kind: 10, value: 10 }), cell(CellKind::Bomb, 0));
}

#[test]
fn board_from_draws_follows_the_draws_square_by_square() {
    let mut draws = [CellDraw { kind: 0, value: 0 }; 64];
    for i in 0..64 {
        draws[i] = CellDraw { kind: ((i * 7 + 3) % 11) as i32, value: ((i * 5 + 1) % 11) as i32 };
    }
    let (board, selection) = Board::from_draws(&draws, true, 6);
    assert_eq!(selection, Selection::Row(6));
    for col in 0..8 {
        for row in 0..8 {
            assert_eq!(*board.get(col, row), cell_for_draw(draws[col * 8 + row]));
        }
    }
    // Square (0, 1) is the second draw, square (1, 0) the ninth.
    assert_eq!(*board.get(0, 1), cell_for_draw(CellDraw { kind: 10, value: 6 }));
    assert_eq!(*board.get(0, 1), cell(CellKind::Bomb, 1));
    assert_eq!(*board.get(1, 0), cell_for_draw(CellDraw { kind: 4, value: 8 }));
    assert_eq!(*board.get(1, 0), cell(CellKind::Stone, 0));
}

#[test]
fn equal_draws_give_equal_boards() {
    let mut draws = [CellDraw { kind: 0, value: 0 }; 64];
    for i in 0..64 {
        draws[i] = CellDraw { kind: ((i * 3) % 11) as i32, value: ((i * 9 + 4) % 11) as i32 };
    }
    let (first, first_selection) = Board::from_draws(&draws, false, 2);
    let (second, second_selection) = Board::from_draws(&draws, false, 2);
    assert!(same_board(&first, &second));
    assert_eq!(first_selection, second_selection);
    assert_eq!(first_selection, Selection::Column(2));
    // The last square was drawn as a stone; a banana there is another board.
    assert_eq!(draws[63].kind, 2);
    draws[63].kind = 0;
    let (third, _) = Board::from_draws(&draws, false, 2);
    assert!(!same_board(&first, &third));
    assert_eq!(third.get(7, 7).kind, CellKind::Banana);
}

#[test]
fn random_board_is_full_and_in_range() {
    let mut saw_other_than_bomb = false;
    let mut saw_strength = false;
    for _ in 0..20 {
        let (board, selection) = Board::new_random();
        let index = match selection {
            Selection::Row(r) => r,
            Selection::Column(c) => c,
        };
        assert!(index < 8);
        for col in 0..8 {
            for row in 0..8 {
                let c = board.get(col, row);
                assert_ne!(c.kind, CellKind::Empty);
                assert!(0 <= c.value && c.value <= 3);
                if c.kind == CellKind::Banana {
                    assert_eq!(c.value, 0);
                }
                if c.kind != CellKind::Bomb {
                    saw_other_than_bomb = true;
                }
                if c.value > 0 {
                    saw_strength = true;
                }
            }
        }
        assert!(!board.selection_exhausted(selection));
    }
    assert!(saw_other_than_bomb);
    assert!(saw_strength);
}

#[test]
fn random_selection_uses_both_axes() {
    let mut rows = 0;
    let mut columns = 0;
    for _ in 0..200 {
        match Board::new_random().1 {
            Selection::Row(_) => rows += 1,
            Selection::Column(_) => columns += 1,
        }
    }
    assert!(rows > 0);
    assert!(columns > 0);
}

#[test]
fn statistics_record_counts_each_outcome() {
    let mut stats = Statistics::default();
    stats.record(GameOutcome::Won);
    stats.record(GameOutcome::Won);
    stats.record(GameOutcome::Lost);
    stats.record(GameOutcome::Drawn);
    stats.record(GameOutcome::Running);
    assert_eq!(stats, Statistics { player_wins: 2, computer_wins: 1, draws: 1 });
    stats.reset();
    assert_eq!(stats, Statistics { player_wins: 0, computer_wins: 0, draws: 0 });
}

#[test]
fn new_state_starts_a_round() {
    let state = GameState::new();
    assert_eq!(state.tower_player, 0);
    assert_eq!(state.tower_computer, 0);
    assert_eq!(state.outcome, GameOutcome::Running);
    assert_eq!(state.moves_made, 0);
    assert_eq!(state.ai_level, 2);
    assert_eq!(state.tip, None);
    assert_eq!(state.hovered, None);
    assert_eq!(state.statistics, Statistics::default());
    assert!(!state.board.selection_exhausted(state.selection));
}

#[test]
fn well_formed_states_are_recognised() {
    let mut state = state_on(&full_grid(), Selection::Row(2));
    assert!(state.is_well_formed());
    assert!(state.has_room_to_count());
    state.tower_player = 21;
    assert!(!state.is_well_formed());
    state.tower_player = 20;
    assert!(!state.is_well_formed());
    state.outcome = GameOutcome::Won;
    assert!(state.is_well_formed());
    state.tower_computer = -1;
    assert!(!state.is_well_formed());
    state.tower_computer = 0;
    state.selection = Selection::Column(8);
    assert!(!state.is_well_formed());

    let mut spent = state_on(&empty_grid(), Selection::Row(2));
    assert!(!spent.is_well_formed());
    spent.outcome = GameOutcome::Drawn;
    assert!(spent.is_well_formed());

    let mut full = state_on(&full_grid(), Selection::Row(2));
    full.moves_made = u32::MAX;
    assert!(!full.has_room_to_count());
    full.moves_made = 0;
    full.statistics.draws = u32::MAX;
    assert!(!full.has_room_to_count());
}

#[test]
fn valid_move_needs_axis_and_occupied_square() {
    let mut grid = full_grid();
    grid[4][2] = cell(CellKind::Empty, 0);
    let mut state = state_on(&grid, Selection::Row(2));
    assert!(state.is_valid_move(0, 2));
    assert!(state.is_valid_move(7, 2));
    assert!(!state.is_valid_move(4, 2));
    assert!(!state.is_valid_move(0, 3));
    assert!(!state.is_valid_move(8, 2));
    assert!(!state.is_valid_move(0, 8));
    state.selection = Selection::Column(4);
    assert!(state.is_valid_move(4, 0));
    assert!(!state.is_valid_move(4, 2));
    assert!(!state.is_valid_move(3, 0));
    state.outcome = GameOutcome::Drawn;
    assert!(!state.is_valid_move(4, 0));
}

#[test]
fn invalid_move_changes_nothing() {
    let mut grid = full_grid();
    grid[4][2] = cell(CellKind::Empty, 0);
    let mut state = state_on(&grid, Selection::Row(2));
    state.tower_player = 7;
    state.tower_computer = 9;
    state.moves_made = 5;
    state.tip = Some((1, 2));
    state.hovered = Some((2, 2));
    let before = state.clone();
    for (col, row) in [(4, 2), (0, 3), (8, 2), (2, 8), (100, 100)] {
        assert_eq!(state.make_move(col, row, true), MoveResult::Invalid);
        assert_eq!(state.make_move(col, row, false), MoveResult::Invalid);
        assert!(same_board(&state.board, &before.board));
        assert_eq!(state.selection, before.selection);
        assert_eq!(state.tower_player, 7);
        assert_eq!(state.tower_computer, 9);
        assert_eq!(state.moves_made, 5);
        assert_eq!(state.tip, Some((1, 2)));
        assert_eq!(state.hovered, Some((2, 2)));
        assert_eq!(state.outcome, GameOutcome::Running);
        assert_eq!(state.statistics, Statistics::default());
    }
}

#[test]
fn move_on_finished_round_is_invalid() {
    let mut state = state_on(&full_grid(), Selection::Row(0));
    state.outcome = GameOutcome::Won;
    assert_eq!(state.make_move(0, 0, true), MoveResult::Invalid);
    assert_eq!(state.moves_made, 0);
    assert_eq!(*state.board.get(0, 0), cell(CellKind::Stone, 0));
}

#[test]
fn stone_raises_the_picker_and_flips_row_to_column() {
    let mut grid = full_grid();
    grid[5][2] = cell(CellKind::Stone, 2);
    let mut state = state_on(&grid, Selection::Row(2));
    state.tip = Some((5, 2));
    assert_eq!(state.make_move(5, 2, true), MoveResult::Continue);
    assert_eq!(state.tower_player, 3);
    assert_eq!(state.tower_computer, 0);
    assert_eq!(state.selection, Selection::Column(5));
    assert_eq!(*state.board.get(5, 2), cell(CellKind::Empty, 0));
    assert_eq!(state.moves_made, 1);
    assert_eq!(state.tip, None);
    assert_eq!(state.outcome, GameOutcome::Running);
}

#[test]
fn pick_from_column_flips_to_row() {
    let mut grid = full_grid();
    grid[5][6] = cell(CellKind::Stone, 1);
    let mut state = state_on(&grid, Selection::Column(5));
    assert_eq!(state.make_move(5, 6, false), MoveResult::Continue);
    assert_eq!(state.tower_computer, 2);
    assert_eq!(state.tower_player, 0);
    assert_eq!(state.selection, Selection::Row(6));
}

#[test]
fn bomb_lowers_the_picker_and_stops_at_zero() {
    let mut grid = full_grid();
    grid[1][0] = cell(CellKind::Bomb, 3);
    grid[1][1] = cell(CellKind::Bomb, 1);
    let mut state = state_on(&grid, Selection::Row(0));
    state.tower_player = 3;
    state.tower_computer = 10;
    assert_eq!(state.make_move(1, 0, true), MoveResult::Continue);
    assert_eq!(state.tower_player, 0);
    assert_eq!(state.selection, Selection::Column(1));
    assert_eq!(state.make_move(1, 1, false), MoveResult::Continue);
    assert_eq!(state.tower_computer, 8);
    assert_eq!(state.selection, Selection::Row(1));
}

#[test]
fn banana_keeps_the_selection() {
    let mut grid = empty_grid();
    grid[5][2] = cell(CellKind::Banana, 0);
    let mut state = state_on(&grid, Selection::Row(2));
    state.tower_player = 4;
    state.tower_computer = 4;
    let result = state.make_move(5, 2, true);
    assert_ne!(result, MoveResult::Invalid);
    assert_eq!(state.selection, Selection::Row(2));
    assert_eq!(state.tower_player, 4);
    assert_eq!(state.tower_computer, 4);
    assert_eq!(*state.board.get(5, 2), cell(CellKind::Empty, 0));
    assert_eq!(state.moves_made, 1);
    // Row 2 is now empty: the round ends, level towers make it a draw.
    assert_eq!(result, MoveResult::GameOver);
    assert_eq!(state.outcome, GameOutcome::Drawn);
    assert_eq!(state.statistics, Statistics { player_wins: 0, computer_wins: 0, draws: 1 });
}

#[test]
fn banana_lets_the_same_axis_be_picked_again() {
    let mut grid = full_grid();
    grid[5][2] = cell(CellKind::Banana, 0);
    let mut state = state_on(&grid, Selection::Row(2));
    assert_eq!(state.make_move(5, 2, true), MoveResult::Continue);
    assert_eq!(state.selection, Selection::Row(2));
    assert!(state.is_valid_move(0, 2));
    assert!(!state.is_valid_move(5, 2));
}

#[test]
fn tower_stops_at_twenty_and_player_wins() {
    let mut grid = full_grid();
    grid[0][0] = cell(CellKind::Stone, 3);
    let mut state = state_on(&grid, Selection::Row(0));
    state.tower_player = 18;
    state.tower_computer = 19;
    assert_eq!(state.make_move(0, 0, true), MoveResult::GameOver);
    assert_eq!(state.tower_player, 20);
    assert_eq!(state.outcome, GameOutcome::Won);
    assert_eq!(state.statistics, Statistics { player_wins: 1, computer_wins: 0, draws: 0 });
    assert_eq!(state.make_move(0, 1, false), MoveResult::Invalid);
}

#[test]
fn reaching_exactly_twenty_ends_the_round() {
    let mut grid = full_grid();
    grid[0][0] = cell(CellKind::Stone, 3);
    let mut state = state_on(&grid, Selection::Column(0));
    state.tower_computer = 16;
    assert_eq!(state.make_move(0, 0, false), MoveResult::GameOver);
    assert_eq!(state.tower_computer, 20);
    assert_eq!(state.outcome, GameOutcome::Lost);
    assert_eq!(state.statistics, Statistics { player_wins: 0, computer_wins: 1, draws: 0 });
}

#[test]
fn nineteen_does_not_end_the_round() {
    let mut grid = full_grid();
    grid[0][0] = cell(CellKind::Stone, 2);
    let mut state = state_on(&grid, Selection::Column(0));
    state.tower_player = 16;
    assert_eq!(state.make_move(0, 0, true), MoveResult::Continue);
    assert_eq!(state.tower_player, 19);
    assert_eq!(state.outcome, GameOutcome::Running);
}

#[test]
fn twenty_is_judged_before_exhaustion() {
    // The computer reaches twenty with the last cell of the board: the
    // tower decides although nothing is left to pick.
    let mut grid = empty_grid();
    grid[3][3] = cell(CellKind::Stone, 0);
    let mut state = state_on(&grid, Selection::Row(3));
    state.tower_player = 19;
    state.tower_computer = 19;
    assert_eq!(state.make_move(3, 3, false), MoveResult::GameOver);
    assert_eq!(state.tower_computer, 20);
    assert_eq!(state.outcome, GameOutcome::Lost);
}

#[test]
fn exhaustion_compares_the_towers() {
    let mut grid = empty_grid();
    grid[3][3] = cell(CellKind::Stone, 0);
    let mut ahead = state_on(&grid, Selection::Row(3));
    ahead.tower_player = 5;
    ahead.tower_computer = 5;
    assert_eq!(ahead.make_move(3, 3, true), MoveResult::GameOver);
    assert_eq!(ahead.outcome, GameOutcome::Won);
    assert_eq!(ahead.statistics.player_wins, 1);

    let mut behind = state_on(&grid, Selection::Column(3));
    behind.tower_player = 5;
    behind.tower_computer = 5;
    assert_eq!(behind.make_move(3, 3, false), MoveResult::GameOver);
    assert_eq!(behind.outcome, GameOutcome::Lost);
    assert_eq!(behind.statistics.computer_wins, 1);

    grid[3][3] = cell(CellKind::Bomb, 0);
    let mut level = state_on(&grid, Selection::Row(3));
    level.tower_player = 6;
    level.tower_computer = 5;
    assert_eq!(level.make_move(3, 3, true), MoveResult::GameOver);
    assert_eq!(level.outcome, GameOutcome::Drawn);
    assert_eq!(level.statistics.draws, 1);
}

#[test]
fn new_game_keeps_level_and_statistics() {
    let mut state = state_on(&full_grid(), Selection::Row(0));
    state.ai_level = 4;
    state.statistics = Statistics { player_wins: 3, computer_wins: 2, draws: 1 };
    state.tower_player = 12;
    state.tower_computer = 20;
    state.outcome = GameOutcome::Lost;
    state.moves_made = 17;
    state.tip = Some((1, 0));
    state.hovered = Some((2, 0));
    state.new_game();
    assert_eq!(state.ai_level, 4);
    assert_eq!(state.statistics, Statistics { player_wins: 3, computer_wins: 2, draws: 1 });
    assert_eq!(state.tower_player, 0);
    assert_eq!(state.tower_computer, 0);
    assert_eq!(state.outcome, GameOutcome::Running);
    assert_eq!(state.moves_made, 0);
    assert_eq!(state.tip, None);
    assert_eq!(state.hovered, None);
    for col in 0..8 {
        for row in 0..8 {
            assert_ne!(state.board.get(col, row).kind, CellKind::Empty);
        }
    }
}

#[test]
fn surrender_counts_as_computer_win() {
    let mut state = state_on(&full_grid(), Selection::Row(0));
    state.tower_player = 9;
    state.moves_made = 4;
    state.surrender();
    assert_eq!(state.outcome, GameOutcome::Lost);
    assert_eq!(state.statistics, Statistics { player_wins: 0, computer_wins: 1, draws: 0 });
    assert_eq!(state.tower_player, 9);
    assert_eq!(state.moves_made, 4);
    assert_eq!(state.make_move(0, 0, true), MoveResult::Invalid);
}

#[test]
fn surrender_leaves_a_finished_round_alone() {
    for outcome in [GameOutcome::Won, GameOutcome::Lost, GameOutcome::Drawn] {
        let mut state = state_on(&full_grid(), Selection::Row(0));
        state.outcome = outcome;
        state.tower_player = 11;
        state.moves_made = 9;
        state.statistics = Statistics { player_wins: 4, computer_wins: 5, draws: 6 };
        state.surrender();
        assert_eq!(state.outcome, outcome);
        assert_eq!(state.statistics, Statistics { player_wins: 4, computer_wins: 5, draws: 6 });
        assert_eq!(state.tower_player, 11);
        assert_eq!(state.moves_made, 9);
    }
}

#[test]
fn surrender_twice_counts_once() {
    let mut state = state_on(&full_grid(), Selection::Row(0));
    state.surrender();
    state.surrender();
    assert_eq!(state.outcome, GameOutcome::Lost);
    assert_eq!(state.statistics, Statistics { player_wins: 0, computer_wins: 1, draws: 0 });
}

#[test]
fn invalid_move_needs_no_room_in_the_counters() {
    let mut state = state_on(&full_grid(), Selection::Row(2));
    state.moves_made = u32::MAX;
    state.statistics =
        Statistics { player_wins: u32::MAX, computer_wins: u32::MAX, draws: u32::MAX };
    assert_eq!(state.make_move(0, 3, true), MoveResult::Invalid);
    assert_eq!(state.make_move(0, 3, true), MoveResult::Invalid);
    assert_eq!(state.moves_made, u32::MAX);
    assert_eq!(
        state.statistics,
        Statistics { player_wins: u32::MAX, computer_wins: u32::MAX, draws: u32::MAX }
    );
    assert_eq!(state.selection, Selection::Row(2));
    state.outcome = GameOutcome::Won;
    state.computer_turn();
    state.surrender();
    assert_eq!(state.outcome, GameOutcome::Won);
    assert_eq!(state.moves_made, u32::MAX);
}

#[test]
fn hover_follows_the_active_axis() {
    let mut state = state_on(&full_grid(), Selection::Column(3));
    state.update_hover(3, 5);
    assert_eq!(state.hovered, Some((3, 5)));
    state.update_hover(4, 5);
    assert_eq!(state.hovered, None);
    state.update_hover(3, 0);
    assert_eq!(state.hovered, Some((3, 0)));
    state.update_hover(3, 8);
    assert_eq!(state.hovered, None);
    state.update_hover(3, 7);
    state.clear_hover();
    assert_eq!(state.hovered, None);
    state.selection = Selection::Row(1);
    state.update_hover(6, 1);
    assert_eq!(state.hovered, Some((6, 1)));
    state.update_hover(8, 1);
    assert_eq!(state.hovered, None);
}

#[test]
fn hover_accepts_an_empty_square_on_the_axis() {
    let mut grid = full_grid();
    grid[3][5] = cell(CellKind::Empty, 0);
    let mut state = state_on(&grid, Selection::Column(3));
    state.update_hover(3, 5);
    assert_eq!(state.hovered, Some((3, 5)));
}
