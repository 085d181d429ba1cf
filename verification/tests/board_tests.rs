use sidestacker::board::{Board, Move, Side, Slot};
use sidestacker::error::GameError;

fn slot_at(board: &Board, row: usize, col: usize) -> Slot {
    *board.try_get_row(row).unwrap().get(col)
}

#[test]
fn new_board_is_all_blank() {
    let board = Board::new(7, 7);
    assert_eq!(board.height, 7);
    assert_eq!(board.width, 7);
    for row in 0..7 {
        let r = board.try_get_row(row).unwrap();
        assert_eq!(r.len(), 7);
        assert!(!r.is_full());
        for col in 0..7 {
            assert_eq!(*r.get(col), Slot::Blank);
        }
    }
}

#[test]
fn insert_from_left_fills_leftmost_blank() {
    let mut board = Board::new(7, 7);
    // the returned coordinate always previously held Blank and walks
    // rightward one slot per insertion
    for expected_col in 0..7 {
        assert_eq!(slot_at(&board, 3, expected_col), Slot::Blank);
        let coord = board.insert_from_left(3, Slot::X).unwrap();
        assert_eq!(coord, (3, expected_col));
        assert_eq!(slot_at(&board, 3, expected_col), Slot::X);
    }
}

#[test]
fn insert_from_right_fills_rightmost_blank() {
    let mut board = Board::new(7, 7);
    for step in 0..7 {
        let expected_col = 6 - step;
        assert_eq!(slot_at(&board, 2, expected_col), Slot::Blank);
        let coord = board.insert_from_right(2, Slot::O).unwrap();
        assert_eq!(coord, (2, expected_col));
        assert_eq!(slot_at(&board, 2, expected_col), Slot::O);
    }
}

#[test]
fn insert_into_nonexistent_row_fails() {
    let mut board = Board::new(7, 7);
    assert_eq!(board.insert_from_left(7, Slot::X), Err(GameError::NonexistentRow));
    assert_eq!(board.insert_from_right(99, Slot::O), Err(GameError::NonexistentRow));
}

#[test]
fn full_row_keeps_rejecting_inserts() {
    let mut board = Board::new(7, 7);
    for _ in 0..7 {
        board.insert_from_left(0, Slot::X).unwrap();
    }
    assert!(board.try_get_row(0).unwrap().is_full());
    // every later insert into the row fails FullRow, from either side
    assert_eq!(board.insert_from_left(0, Slot::O), Err(GameError::FullRow));
    assert_eq!(board.insert_from_right(0, Slot::O), Err(GameError::FullRow));
    assert_eq!(board.insert_from_left(0, Slot::X), Err(GameError::FullRow));
    // other rows are unaffected
    assert_eq!(board.insert_from_left(1, Slot::O), Ok((1, 0)));
    assert!(board.try_get_row(0).unwrap().is_full());
    assert_eq!(board.insert_from_right(0, Slot::O), Err(GameError::FullRow));
}

#[test]
fn four_left_insertions_win_horizontally() {
    // on a 7x7 board, four insertions by the same owner at row 3 fill
    // (3,0)..(3,3) and the last one completes a win
    let mut board = Board::new(7, 7);
    for expected_col in 0..3 {
        let coord = board.insert_from_left(3, Slot::X).unwrap();
        assert_eq!(coord, (3, expected_col));
        assert_eq!(board.is_game_over(3, expected_col, &Slot::X), Ok(None));
    }
    let coord = board.insert_from_left(3, Slot::X).unwrap();
    assert_eq!(coord, (3, 3));
    assert_eq!(board.is_game_over(3, 3, &Slot::X), Ok(Some(Slot::X)));
}

#[test]
fn alternating_owners_never_win() {
    // the same four cells filled X, O, X, O report no win at any step
    let mut board = Board::new(7, 7);
    let owners = [Slot::X, Slot::O, Slot::X, Slot::O];
    for (col, owner) in owners.iter().enumerate() {
        let coord = board.insert_from_left(3, *owner).unwrap();
        assert_eq!(coord, (3, col));
        assert_eq!(board.is_game_over(3, col, owner), Ok(None));
    }
}

#[test]
fn vertical_win_detected() {
    let mut board = Board::new(7, 7);
    for row in 0..3 {
        board.insert_from_left(row, Slot::O).unwrap();
        assert_eq!(board.is_game_over(row, 0, &Slot::O), Ok(None));
    }
    board.insert_from_left(3, Slot::O).unwrap();
    assert_eq!(board.is_game_over(3, 0, &Slot::O), Ok(Some(Slot::O)));
}

#[test]
fn diagonal_win_detected() {
    let mut board = Board::new(7, 7);
    // stack fillers so that X lands on (r, r) for r in 0..4
    board.insert_from_left(0, Slot::X).unwrap();
    board.insert_from_left(1, Slot::O).unwrap();
    board.insert_from_left(1, Slot::X).unwrap();
    board.insert_from_left(2, Slot::O).unwrap();
    board.insert_from_left(2, Slot::O).unwrap();
    board.insert_from_left(2, Slot::X).unwrap();
    board.insert_from_left(3, Slot::O).unwrap();
    board.insert_from_left(3, Slot::O).unwrap();
    board.insert_from_left(3, Slot::O).unwrap();
    let coord = board.insert_from_left(3, Slot::X).unwrap();
    assert_eq!(coord, (3, 3));
    assert_eq!(board.is_game_over(3, 3, &Slot::X), Ok(Some(Slot::X)));
}

#[test]
fn win_detection_is_rotation_symmetric() {
    // the mirror of a winning position wins at the mirrored coordinates
    let mut board = Board::new(7, 7);
    for _ in 0..4 {
        board.insert_from_left(3, Slot::X).unwrap();
    }
    assert_eq!(board.is_game_over(3, 3, &Slot::X), Ok(Some(Slot::X)));

    let mut mirrored = Board::new(7, 7);
    for _ in 0..4 {
        mirrored.insert_from_right(3, Slot::X).unwrap();
    }
    // (3, 3) is its own mirror image on a 7x7 board
    assert_eq!(mirrored.is_game_over(3, 3, &Slot::X), Ok(Some(Slot::X)));
}

#[test]
fn run_of_three_is_no_win() {
    let mut board = Board::new(7, 7);
    for col in 0..3 {
        board.insert_from_left(5, Slot::O).unwrap();
        assert_eq!(board.is_game_over(5, col, &Slot::O), Ok(None));
    }
}

#[test]
fn mutable_row_access_writes_through() {
    let mut board = Board::new(7, 7);
    {
        let row = board.try_get_row_mut(2).unwrap();
        row.0[4] = Slot::O;
    }
    assert_eq!(slot_at(&board, 2, 4), Slot::O);
    assert!(board.try_get_row_mut(7).is_err());
}

#[test]
fn one_cell_board_cannot_win() {
    let mut board = Board::new(1, 1);
    assert_eq!(board.insert_from_left(0, Slot::X), Ok((0, 0)));
    assert_eq!(board.is_game_over(0, 0, &Slot::X), Ok(None));
    assert_eq!(board.insert_from_right(0, Slot::O), Err(GameError::FullRow));
}

#[test]
fn parse_accepts_the_documented_examples() {
    assert_eq!(Move::parse("2R"), Ok(Move { row: 2, side: Side::Right }));
    assert_eq!(Move::parse("5r"), Ok(Move { row: 5, side: Side::Right }));
    assert_eq!(Move::parse("1l"), Ok(Move { row: 1, side: Side::Left }));
    assert_eq!(Move::parse("3L"), Ok(Move { row: 3, side: Side::Left }));
}

#[test]
fn parse_rejects_wrong_length() {
    assert_eq!(Move::parse(""), Err(GameError::InvalidMoveFormat));
    assert_eq!(Move::parse("2"), Err(GameError::InvalidMoveFormat));
    assert_eq!(Move::parse("12R"), Err(GameError::InvalidMoveFormat));
}

#[test]
fn parse_rejects_bad_row() {
    assert_eq!(Move::parse("xR"), Err(GameError::NonexistentRow));
    assert_eq!(Move::parse("-l"), Err(GameError::NonexistentRow));
}

#[test]
fn parse_rejects_bad_side() {
    assert_eq!(Move::parse("2z"), Err(GameError::InvalidSide));
    assert_eq!(Move::parse("22"), Err(GameError::InvalidSide));
}
