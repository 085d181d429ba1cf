use sidestacker::board::{Move, Side, Slot};
use sidestacker::error::GameError;
use sidestacker::init;
use sidestacker::player::Player;
use sidestacker::protocol::Turn;
use sidestacker::session::Session;

fn turn(source: Player, row: usize, side: Side) -> Turn {
    Turn { source, mov: Move { row, side } }
}

#[test]
fn init_gives_a_fresh_default_session() {
    let session = init().unwrap();
    assert_eq!(session.board.height, 7);
    assert_eq!(session.board.width, 7);
    assert_eq!(session.player, Player::First);
    assert_eq!(session.current_player, Player::First);
    assert!(session.turns.is_empty());
}

#[test]
fn applied_turns_flip_the_current_player() {
    let mut session = Session::new(Player::First, 7, 7);
    assert_eq!(session.apply_turn(turn(Player::First, 2, Side::Left)), Ok(None));
    assert_eq!(session.current_player, Player::Second);
    assert_eq!(session.apply_turn(turn(Player::Second, 2, Side::Right)), Ok(None));
    assert_eq!(session.current_player, Player::First);
    assert_eq!(session.turns.len(), 2);
}

#[test]
fn applying_a_winning_turn_reports_the_winner() {
    let mut session = Session::new(Player::Second, 7, 7);
    for _ in 0..3 {
        assert_eq!(session.apply_turn(turn(Player::First, 3, Side::Left)), Ok(None));
    }
    let before = session.current_player;
    assert_eq!(session.apply_turn(turn(Player::First, 3, Side::Left)), Ok(Some(Slot::X)));
    // the game is over: the current player no longer advances
    assert_eq!(session.current_player, before);
    assert_eq!(session.turns.len(), 4);
}

#[test]
fn rejected_turns_leave_the_session_untouched() {
    let mut session = Session::new(Player::First, 7, 7);
    assert_eq!(
        session.apply_turn(turn(Player::First, 9, Side::Left)),
        Err(GameError::NonexistentRow)
    );
    assert!(session.turns.is_empty());
    assert_eq!(session.current_player, Player::First);

    let mut player = Player::First;
    for _ in 0..7 {
        session.apply_turn(turn(player, 6, Side::Left)).unwrap();
        player = player.not();
    }
    assert_eq!(session.apply_turn(turn(player, 6, Side::Left)), Err(GameError::FullRow));
    assert_eq!(session.turns.len(), 7);
}

#[test]
fn full_board_without_a_win_is_a_tie_by_move_count() {
    // fill the whole 7x7 board with strictly alternating sources, in a
    // pattern whose longest same-owner run on any axis is two: every turn
    // is accepted, none reports a win, and the 49th makes it a tie
    let mut session = Session::new(Player::First, 7, 7);
    let sides = [
        Side::Left,
        Side::Right,
        Side::Left,
        Side::Left,
        Side::Right,
        Side::Left,
        Side::Left,
    ];
    let mut player = Player::First;
    for row in 0..7 {
        for side in sides.iter() {
            assert!(!session.is_tie());
            assert_eq!(session.apply_turn(turn(player, row, *side)), Ok(None));
            player = player.not();
        }
    }
    assert_eq!(session.turns.len(), 49);
    assert!(session.is_tie());
}

#[test]
fn partially_filled_board_is_no_tie() {
    let mut session = Session::new(Player::First, 7, 7);
    session.apply_turn(turn(Player::First, 0, Side::Left)).unwrap();
    assert!(!session.is_tie());
}

#[test]
fn zero_sized_board_is_an_immediate_tie() {
    let session = Session::new(Player::First, 0, 0);
    assert!(session.is_tie());
}

#[test]
fn players_toggle_and_map_to_their_pieces() {
    assert_eq!(Player::First.not(), Player::Second);
    assert_eq!(Player::Second.not(), Player::First);
    assert_eq!(Player::First.not().not(), Player::First);
    assert_eq!(Player::First.slot(), Slot::X);
    assert_eq!(Player::Second.slot(), Slot::O);
    assert_eq!(Player::from(1), Player::First);
    assert_eq!(Player::from(2), Player::Second);
}
