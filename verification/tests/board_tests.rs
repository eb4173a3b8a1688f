use tictactoe::board::{Board, BoardUpdateError, TileState};

fn board_from(rows: [[TileState; 3]; 3]) -> Board {
    let mut board = Board::default();
    for (r, row) in rows.iter().enumerate() {
        for (c, tile) in row.iter().enumerate() {
            if *tile != TileState::Empty {
                assert_eq!(board.update(c + 1, r + 1, *tile), Ok(()));
            }
        }
    }
    board
}

const X: TileState = TileState::Ex;
const O: TileState = TileState::Oh;
const E: TileState = TileState::Empty;

#[test]
fn new_board_is_empty() {
    let board = Board::default();
    for y in 1..=3 {
        for x in 1..=3 {
            assert_eq!(board.tile(x, y), Some(TileState::Empty));
        }
    }
    assert!(!board.full());
    assert!(!board.any_row_won());
}

#[test]
fn place_once_sets_exactly_one_tile() {
    for mark in [X, O] {
        for y in 1..=3usize {
            for x in 1..=3usize {
                let mut board = Board::default();
                assert_eq!(board.update(x, y, mark), Ok(()));
                for j in 1..=3usize {
                    for i in 1..=3usize {
                        let expected = if i == x && j == y { mark } else { E };
                        assert_eq!(board.tile(i, j), Some(expected));
                    }
                }
            }
        }
    }
}

#[test]
fn place_addresses_column_then_row() {
    let mut board = Board::default();
    assert_eq!(board.update(3, 1, X), Ok(()));
    assert_eq!(board.render(), "|_|_|X|\n|_|_|_|\n|_|_|_|\n");
    assert_eq!(board.update(1, 2, O), Ok(()));
    assert_eq!(board.render(), "|_|_|X|\n|O|_|_|\n|_|_|_|\n");
}

#[test]
fn place_out_of_range_fails_and_changes_nothing() {
    let outside = [0usize, 4, 5, 100, usize::MAX];
    let mut board = Board::default();
    assert_eq!(board.update(2, 2, O), Ok(()));
    let before = board.render();
    for &bad in outside.iter() {
        for other in 0..=4usize {
            assert_eq!(board.update(bad, other, X), Err(BoardUpdateError::TileNonExistent));
            assert_eq!(board.update(other, bad, X), Err(BoardUpdateError::TileNonExistent));
            assert_eq!(board.render(), before);
        }
    }
    // An occupied tile at a coordinate out of range is still out of range.
    assert_eq!(board.update(0, 2, X), Err(BoardUpdateError::TileNonExistent));
}

#[test]
fn place_twice_fails_as_occupied() {
    for first in [X, O] {
        for second in [X, O, E] {
            let mut board = Board::default();
            assert_eq!(board.update(2, 3, first), Ok(()));
            let before = board.render();
            assert_eq!(board.update(2, 3, second), Err(BoardUpdateError::AlreadyOccupied));
            assert_eq!(board.tile(2, 3), Some(first));
            assert_eq!(board.render(), before);
        }
    }
}

#[test]
fn tile_outside_the_board_is_none() {
    let board = Board::default();
    assert_eq!(board.tile(0, 1), None);
    assert_eq!(board.tile(1, 0), None);
    assert_eq!(board.tile(4, 1), None);
    assert_eq!(board.tile(1, 4), None);
}

#[test]
fn fewer_than_three_like_marks_is_no_win() {
    assert!(!board_from([[X, X, E], [E, E, E], [E, E, E]]).any_row_won());
    assert!(!board_from([[X, X, O], [E, E, E], [E, E, E]]).any_row_won());
    assert!(!board_from([[X, E, E], [X, E, E], [O, E, E]]).any_row_won());
    assert!(!board_from([[X, E, E], [E, X, E], [E, E, O]]).any_row_won());
    assert!(!board_from([[E, E, O], [E, O, E], [E, E, E]]).any_row_won());
    assert!(!board_from([[X, O, X], [O, X, O], [O, X, O]]).any_row_won());
}

#[test]
fn main_diagonal_wins() {
    let board = board_from([[X, E, E], [E, X, E], [E, E, X]]);
    assert!(board.any_row_won());
    assert!(board.any_diagonal_win());
    assert!(!board.any_horizontal_win());
    assert!(!board.any_vertical_win());
}

#[test]
fn anti_diagonal_wins() {
    let board = board_from([[E, E, X], [E, X, E], [X, E, E]]);
    assert!(board.any_row_won());
    assert!(board.any_diagonal_win());
    assert!(!board.any_horizontal_win());
    assert!(!board.any_vertical_win());
}

#[test]
fn anti_diagonal_wins_with_empty_corner() {
    // The main diagonal starts with an empty tile; the other one is complete.
    let board = board_from([[E, O, X], [O, X, E], [X, E, E]]);
    assert!(board.any_diagonal_win());
    assert!(board.any_row_won());
}

#[test]
fn every_row_wins() {
    for r in 0..3 {
        for mark in [X, O] {
            let mut rows = [[E; 3]; 3];
            rows[r] = [mark; 3];
            let board = board_from(rows);
            assert!(board.any_horizontal_win());
            assert!(board.any_row_won());
            assert!(!board.any_vertical_win());
            assert!(!board.any_diagonal_win());
        }
    }
}

#[test]
fn every_column_wins() {
    for c in 0..3 {
        for mark in [X, O] {
            let mut rows = [[E; 3]; 3];
            for row in rows.iter_mut() {
                row[c] = mark;
            }
            let board = board_from(rows);
            assert!(board.any_vertical_win());
            assert!(board.any_row_won());
            assert!(!board.any_horizontal_win());
            assert!(!board.any_diagonal_win());
        }
    }
}

#[test]
fn later_line_wins_though_first_line_starts_empty() {
    assert!(board_from([[E, X, O], [O, O, O], [X, X, E]]).any_row_won());
    assert!(board_from([[E, X, O], [O, X, E], [E, X, E]]).any_row_won());
}

#[test]
fn full_board_without_line_is_a_tie() {
    let board = board_from([[X, O, X], [X, O, O], [O, X, X]]);
    assert!(board.full());
    assert!(!board.any_row_won());
}

#[test]
fn board_with_one_empty_tile_is_not_full() {
    for r in 0..3 {
        for c in 0..3 {
            let mut rows = [[X, O, X], [X, O, O], [O, X, X]];
            rows[r][c] = E;
            assert!(!board_from(rows).full());
        }
    }
}

#[test]
fn reset_empties_the_board() {
    let mut board = board_from([[X, O, X], [X, O, O], [O, X, X]]);
    board.reset();
    assert_eq!(board.render(), "|_|_|_|\n|_|_|_|\n|_|_|_|\n");
    assert!(!board.full());
    assert_eq!(board.update(1, 1, O), Ok(()));
}

#[test]
fn render_shows_three_lines_between_bars() {
    assert_eq!(Board::default().render(), "|_|_|_|\n|_|_|_|\n|_|_|_|\n");
    let board = board_from([[X, O, X], [E, O, E], [O, E, X]]);
    assert_eq!(board.render(), "|X|O|X|\n|_|O|_|\n|O|_|X|\n");
}

#[test]
fn tiles_have_distinct_symbols() {
    assert_eq!(E.symbol(), '_');
    assert_eq!(X.symbol(), 'X');
    assert_eq!(O.symbol(), 'O');
    assert_eq!(E.as_str(), "_");
    assert_eq!(X.as_str(), "X");
    assert_eq!(O.as_str(), "O");
}
