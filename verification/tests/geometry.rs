use chess::error::CatchAllError;
use chess::moves::{Action, Direction, Move};
use chess::path::Path;
use chess::piece::{Color, MoveCounter, Piece};
use chess::position::{Distance, Position};

fn pos(file: usize, rank: usize) -> Position {
    Position::new(file, rank)
}

#[test]
fn distance_is_signed_displacement() {
    let d = Distance::new(&pos(4, 1), &pos(2, 7));
    assert_eq!(d.file, -2);
    assert_eq!(d.rank, 6);
}

#[test]
fn parse_accepts_standard_tokens() {
    assert_eq!(Position::parse('e', '2'), Ok(pos(4, 1)));
    assert_eq!(Position::parse('a', '1'), Ok(pos(0, 0)));
    assert_eq!(Position::parse('h', '8'), Ok(pos(7, 7)));
    assert_eq!(Position::parse('C', '5'), Ok(pos(2, 4)));
}

#[test]
fn parse_rejects_malformed_tokens() {
    assert_eq!(Position::parse('z', '3'), Err(CatchAllError::BadParse));
    assert_eq!(Position::parse('a', '0'), Err(CatchAllError::BadParse));
    assert_eq!(Position::parse('e', '9'), Err(CatchAllError::BadParse));
    assert_eq!(Position::parse('3', 'e'), Err(CatchAllError::BadParse));
}

#[test]
fn classify_straight_runs() {
    assert_eq!(
        Move::new(&pos(0, 0), &pos(0, 3), Action::Regular),
        Move::Straight(Direction::Up, 3, Action::Regular)
    );
    assert_eq!(
        Move::new(&pos(4, 6), &pos(4, 4), Action::Capture),
        Move::Straight(Direction::Down, 2, Action::Capture)
    );
    assert_eq!(
        Move::new(&pos(2, 2), &pos(6, 2), Action::Regular),
        Move::Straight(Direction::Right, 4, Action::Regular)
    );
    assert_eq!(
        Move::new(&pos(6, 2), &pos(5, 2), Action::Regular),
        Move::Straight(Direction::Left, 1, Action::Regular)
    );
}

#[test]
fn classify_diagonal_runs() {
    assert_eq!(
        Move::new(&pos(2, 2), &pos(5, 5), Action::Regular),
        Move::Diagonal(Direction::Up, Direction::Right, 3, Action::Regular)
    );
    assert_eq!(
        Move::new(&pos(5, 5), &pos(3, 7), Action::Regular),
        Move::Diagonal(Direction::Up, Direction::Left, 2, Action::Regular)
    );
    assert_eq!(
        Move::new(&pos(2, 5), &pos(4, 3), Action::Capture),
        Move::Diagonal(Direction::Down, Direction::Right, 2, Action::Capture)
    );
    assert_eq!(
        Move::new(&pos(7, 7), &pos(4, 4), Action::Regular),
        Move::Diagonal(Direction::Down, Direction::Left, 3, Action::Regular)
    );
}

#[test]
fn classify_jumps_and_invalid() {
    assert_eq!(Move::new(&pos(1, 0), &pos(2, 2), Action::Regular), Move::Jump(Action::Regular));
    assert_eq!(Move::new(&pos(4, 4), &pos(6, 5), Action::Capture), Move::Jump(Action::Capture));
    assert_eq!(Move::new(&pos(1, 0), &pos(2, 3), Action::Regular), Move::Invalid);
    assert_eq!(Move::new(&pos(3, 3), &pos(3, 3), Action::Regular), Move::Invalid);
}

#[test]
fn path_lists_interior_squares_in_travel_order() {
    let mv = Move::new(&pos(0, 0), &pos(0, 3), Action::Regular);
    let p = Path::new(&pos(0, 0), &mv).unwrap();
    assert_eq!(p.0, vec![pos(0, 1), pos(0, 2)]);

    let mv = Move::new(&pos(7, 7), &pos(4, 4), Action::Regular);
    let p = Path::new(&pos(7, 7), &mv).unwrap();
    assert_eq!(p.0, vec![pos(6, 6), pos(5, 5)]);

    let mv = Move::new(&pos(2, 5), &pos(5, 2), Action::Regular);
    let p = Path::new(&pos(2, 5), &mv).unwrap();
    assert_eq!(p.0, vec![pos(3, 4), pos(4, 3)]);
}

#[test]
fn path_is_empty_for_jumps_and_fails_for_invalid() {
    let mv = Move::new(&pos(1, 0), &pos(2, 2), Action::Regular);
    let p = Path::new(&pos(1, 0), &mv).unwrap();
    assert!(p.0.is_empty());
    match Path::new(&pos(1, 0), &Move::Invalid) {
        Err(CatchAllError::InvalidPath) => {}
        _ => panic!("an unclassifiable displacement must yield InvalidPath"),
    }
}

#[test]
fn move_counter_wraps_symmetrically() {
    let mut c = MoveCounter(0);
    c.increment();
    assert_eq!(c, MoveCounter(1));
    c.decrement();
    assert_eq!(c, MoveCounter(0));
    let mut w = MoveCounter(u32::MAX);
    w.increment();
    assert_eq!(w, MoveCounter(0));
    w.decrement();
    assert_eq!(w, MoveCounter(u32::MAX));
}

#[test]
fn piece_update_and_revert_touch_only_counted_kinds() {
    let mut p = Piece::Pawn(Color::White, MoveCounter(0));
    p.update();
    assert_eq!(p, Piece::Pawn(Color::White, MoveCounter(1)));
    p.revert();
    assert_eq!(p, Piece::Pawn(Color::White, MoveCounter(0)));
    let mut n = Piece::Knight(Color::Black);
    n.update();
    assert_eq!(n, Piece::Knight(Color::Black));
    assert_eq!(n.color(), Color::Black);
}

#[test]
fn pawn_reach_depends_on_state_and_action() {
    let fresh = Piece::Pawn(Color::White, MoveCounter(0));
    let moved = Piece::Pawn(Color::White, MoveCounter(1));
    let one = Move::new(&pos(4, 1), &pos(4, 2), Action::Regular);
    let two = Move::new(&pos(4, 1), &pos(4, 3), Action::Regular);
    let take = Move::new(&pos(4, 1), &pos(3, 2), Action::Capture);
    let take_fwd = Move::new(&pos(4, 1), &pos(4, 2), Action::Capture);
    assert!(fresh.can_reach(&one).is_ok());
    assert!(fresh.can_reach(&two).is_ok());
    assert!(fresh.can_reach(&take).is_ok());
    assert_eq!(fresh.can_reach(&take_fwd), Err(CatchAllError::UnreachableField));
    assert!(moved.can_reach(&one).is_ok());
    assert_eq!(moved.can_reach(&two), Err(CatchAllError::UnreachableField));
}

#[test]
fn king_two_step_needs_fresh_counter() {
    let fresh = Piece::King(Color::White, MoveCounter(0));
    let moved = Piece::King(Color::White, MoveCounter(2));
    let castle = Move::new(&pos(4, 0), &pos(6, 0), Action::Regular);
    let step = Move::new(&pos(4, 0), &pos(5, 0), Action::Regular);
    assert!(fresh.can_reach(&castle).is_ok());
    assert_eq!(moved.can_reach(&castle), Err(CatchAllError::UnreachableField));
    assert!(moved.can_reach(&step).is_ok());
}

#[test]
fn all_moves_of_a_cornered_knight() {
    let knight = Piece::Knight(Color::White);
    let v = knight.all_moves(&pos(0, 0));
    assert_eq!(v, vec![pos(2, 1), pos(1, 2)]);
}

#[test]
fn all_moves_of_a_fresh_pawn_and_king() {
    let pawn = Piece::Pawn(Color::White, MoveCounter(0));
    let v = pawn.all_moves(&pos(4, 1));
    assert_eq!(v, vec![pos(3, 2), pos(4, 2), pos(5, 2), pos(4, 3)]);

    let king = Piece::King(Color::White, MoveCounter(0));
    let v = king.all_moves(&pos(4, 0));
    assert_eq!(
        v,
        vec![pos(2, 0), pos(3, 0), pos(5, 0), pos(6, 0), pos(3, 1), pos(4, 1), pos(5, 1)]
    );
}
