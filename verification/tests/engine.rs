use chess::board::Board;
use chess::error::CatchAllError;
use chess::piece::{Color, MoveCounter, Piece};
use chess::position::Position;

fn pos(file: usize, rank: usize) -> Position {
    Position::new(file, rank)
}

fn snapshot(b: &Board) -> Vec<Option<Piece>> {
    let mut v = Vec::new();
    for rank in 0..8 {
        for file in 0..8 {
            v.push(b.at(&pos(file, rank)).ok());
        }
    }
    v
}

#[test]
fn starting_layout_is_standard() {
    let b = Board::new();
    assert_eq!(b.at(&pos(0, 0)), Ok(Piece::Rook(Color::White, MoveCounter(0))));
    assert_eq!(b.at(&pos(4, 0)), Ok(Piece::King(Color::White, MoveCounter(0))));
    assert_eq!(b.at(&pos(3, 7)), Ok(Piece::Queen(Color::Black)));
    assert_eq!(b.at(&pos(6, 6)), Ok(Piece::Pawn(Color::Black, MoveCounter(0))));
    assert_eq!(b.at(&pos(4, 3)), Err(CatchAllError::EmptyField));
    let (kpos, kpiece) = b.king(&Color::Black).unwrap();
    assert_eq!(kpos, pos(4, 7));
    assert_eq!(kpiece, Piece::King(Color::Black, MoveCounter(0)));
}

#[test]
fn legal_advance_moves_the_piece_and_empties_the_origin() {
    // A successful advance leaves no piece at `from` and the moved piece,
    // with its counter incremented, at `to`.
    let mut b = Board::new();
    assert_eq!(b.advance(&Color::White, &pos(4, 1), &pos(4, 3)), Ok(()));
    assert_eq!(b.at(&pos(4, 1)), Err(CatchAllError::EmptyField));
    assert_eq!(b.at(&pos(4, 3)), Ok(Piece::Pawn(Color::White, MoveCounter(1))));
}

#[test]
fn failed_advance_leaves_the_board_identical() {
    let mut b = Board::new();
    assert_eq!(b.advance(&Color::White, &pos(4, 1), &pos(4, 3)), Ok(()));
    let before = snapshot(&b);
    let ep_before = b.enpassant_target();
    assert_eq!(
        b.advance(&Color::White, &pos(3, 0), &pos(3, 3)),
        Err(CatchAllError::BlockedPath)
    );
    assert_eq!(
        b.advance(&Color::White, &pos(0, 0), &pos(0, 4)),
        Err(CatchAllError::BlockedPath)
    );
    assert_eq!(
        b.advance(&Color::White, &pos(4, 3), &pos(4, 2)),
        Err(CatchAllError::UnreachableField)
    );
    assert_eq!(snapshot(&b), before);
    assert_eq!(b.enpassant_target(), ep_before);
}

#[test]
fn double_push_needs_a_fresh_pawn() {
    // Starting position: e2 -> e4 succeeds because the pawn's move count is
    // 0; a later double push by the same pawn is unreachable.
    let mut b = Board::new();
    assert_eq!(b.advance(&Color::White, &pos(4, 1), &pos(4, 3)), Ok(()));
    assert_eq!(b.advance(&Color::Black, &pos(0, 6), &pos(0, 5)), Ok(()));
    assert_eq!(
        b.advance(&Color::White, &pos(4, 3), &pos(4, 5)),
        Err(CatchAllError::UnreachableField)
    );
    // The single step stays available in any state.
    assert_eq!(b.advance(&Color::White, &pos(4, 3), &pos(4, 4)), Ok(()));
}

#[test]
fn uncovering_the_king_fails_with_in_check() {
    // White king e1, White bishop e4 shielding it, Black rook e8: moving the
    // bishop off the e-file uncovers the check and is rejected; moving the
    // king off the e-file succeeds.
    let mut b = Board::empty();
    b.place(&pos(4, 0), Piece::King(Color::White, MoveCounter(0)));
    b.place(&pos(4, 3), Piece::Bishop(Color::White));
    b.place(&pos(4, 7), Piece::Rook(Color::Black, MoveCounter(0)));
    b.place(&pos(7, 7), Piece::King(Color::Black, MoveCounter(0)));
    let before = snapshot(&b);
    assert_eq!(
        b.advance(&Color::White, &pos(4, 3), &pos(3, 4)),
        Err(CatchAllError::InCheck)
    );
    assert_eq!(snapshot(&b), before);
    assert_eq!(b.advance(&Color::White, &pos(4, 0), &pos(3, 0)), Ok(()));
    assert_eq!(b.at(&pos(3, 0)), Ok(Piece::King(Color::White, MoveCounter(1))));
}

#[test]
fn in_check_reports_exactly_the_attacked_king() {
    let mut b = Board::empty();
    b.place(&pos(4, 0), Piece::King(Color::White, MoveCounter(0)));
    b.place(&pos(4, 7), Piece::Rook(Color::Black, MoveCounter(0)));
    b.place(&pos(7, 7), Piece::King(Color::Black, MoveCounter(0)));
    assert_eq!(b.in_check(&Color::White), Ok(true));
    // A shield on the file clears the check.
    b.place(&pos(4, 3), Piece::Bishop(Color::White));
    assert_eq!(b.in_check(&Color::White), Ok(false));
    assert_eq!(b.in_check(&Color::Black), Ok(false));
}

#[test]
fn pawns_check_diagonally_not_straight_ahead() {
    let mut b = Board::empty();
    b.place(&pos(3, 4), Piece::King(Color::Black, MoveCounter(0)));
    b.place(&pos(4, 0), Piece::King(Color::White, MoveCounter(0)));
    b.place(&pos(2, 3), Piece::Pawn(Color::White, MoveCounter(1)));
    assert_eq!(b.in_check(&Color::Black), Ok(true));
    let mut b = Board::empty();
    b.place(&pos(3, 4), Piece::King(Color::Black, MoveCounter(0)));
    b.place(&pos(4, 0), Piece::King(Color::White, MoveCounter(0)));
    b.place(&pos(3, 3), Piece::Pawn(Color::White, MoveCounter(1)));
    assert_eq!(b.in_check(&Color::Black), Ok(false));
}

#[test]
fn in_check_without_a_king_is_an_invariant_violation() {
    let mut b = Board::empty();
    b.place(&pos(0, 0), Piece::Rook(Color::White, MoveCounter(0)));
    assert_eq!(b.in_check(&Color::White), Err(CatchAllError::NoKing));
    assert!(b.king(&Color::White).is_err());
}

#[test]
fn kingside_castle_relocates_both_king_and_rook() {
    // White king e1 and h1 rook unmoved, f1 and g1 empty and unattacked:
    // e1 -> g1 succeeds and brings the rook to f1.
    let mut b = Board::empty();
    b.place(&pos(4, 0), Piece::King(Color::White, MoveCounter(0)));
    b.place(&pos(7, 0), Piece::Rook(Color::White, MoveCounter(0)));
    b.place(&pos(4, 7), Piece::King(Color::Black, MoveCounter(0)));
    assert_eq!(b.advance(&Color::White, &pos(4, 0), &pos(6, 0)), Ok(()));
    assert_eq!(b.at(&pos(6, 0)), Ok(Piece::King(Color::White, MoveCounter(1))));
    assert_eq!(b.at(&pos(5, 0)), Ok(Piece::Rook(Color::White, MoveCounter(0))));
    assert_eq!(b.at(&pos(4, 0)), Err(CatchAllError::EmptyField));
    assert_eq!(b.at(&pos(7, 0)), Err(CatchAllError::EmptyField));
}

#[test]
fn castle_through_an_attacked_square_is_bad() {
    // The same castle fails with BadCastle when g1 is attacked.
    let mut b = Board::empty();
    b.place(&pos(4, 0), Piece::King(Color::White, MoveCounter(0)));
    b.place(&pos(7, 0), Piece::Rook(Color::White, MoveCounter(0)));
    b.place(&pos(4, 7), Piece::King(Color::Black, MoveCounter(0)));
    b.place(&pos(6, 7), Piece::Rook(Color::Black, MoveCounter(0)));
    let before = snapshot(&b);
    assert_eq!(
        b.advance(&Color::White, &pos(4, 0), &pos(6, 0)),
        Err(CatchAllError::BadCastle)
    );
    assert_eq!(snapshot(&b), before);
}

#[test]
fn castle_without_its_rook_is_bad() {
    let mut b = Board::empty();
    b.place(&pos(4, 0), Piece::King(Color::White, MoveCounter(0)));
    b.place(&pos(4, 7), Piece::King(Color::Black, MoveCounter(0)));
    b.place(&pos(0, 0), Piece::Rook(Color::White, MoveCounter(0)));
    assert_eq!(
        b.advance(&Color::White, &pos(4, 0), &pos(6, 0)),
        Err(CatchAllError::BadCastle)
    );
    // Queenside with its rook in place still works.
    assert_eq!(b.advance(&Color::White, &pos(4, 0), &pos(2, 0)), Ok(()));
    assert_eq!(b.at(&pos(2, 0)), Ok(Piece::King(Color::White, MoveCounter(1))));
    assert_eq!(b.at(&pos(3, 0)), Ok(Piece::Rook(Color::White, MoveCounter(0))));
    assert_eq!(b.at(&pos(0, 0)), Err(CatchAllError::EmptyField));
}

#[test]
fn en_passant_capture_removes_the_passed_pawn() {
    // Black's d7 -> d5 double push sets the en-passant target d5; the White
    // e5 pawn captures e5 -> d6 and the Black pawn leaves d5.
    let mut b = Board::new();
    assert_eq!(b.advance(&Color::White, &pos(4, 1), &pos(4, 3)), Ok(()));
    assert_eq!(b.advance(&Color::Black, &pos(0, 6), &pos(0, 5)), Ok(()));
    assert_eq!(b.advance(&Color::White, &pos(4, 3), &pos(4, 4)), Ok(()));
    assert_eq!(b.advance(&Color::Black, &pos(3, 6), &pos(3, 4)), Ok(()));
    assert_eq!(b.enpassant_target(), Some(pos(3, 4)));
    assert_eq!(b.advance(&Color::White, &pos(4, 4), &pos(3, 5)), Ok(()));
    assert_eq!(b.at(&pos(3, 4)), Err(CatchAllError::EmptyField));
    assert_eq!(b.at(&pos(3, 5)), Ok(Piece::Pawn(Color::White, MoveCounter(3))));
    assert_eq!(b.enpassant_target(), None);
}

#[test]
fn a_pinned_en_passant_capture_is_rejected_and_fully_undone() {
    // Capturing en passant would empty both e5 and d5 and uncover the h5
    // rook's line to the a5 king, so the move fails with InCheck — and the
    // passed-over pawn must be back on d5 afterwards.
    let mut b = Board::empty();
    b.place(&pos(0, 4), Piece::King(Color::White, MoveCounter(1)));
    b.place(&pos(4, 4), Piece::Pawn(Color::White, MoveCounter(2)));
    b.place(&pos(3, 6), Piece::Pawn(Color::Black, MoveCounter(0)));
    b.place(&pos(7, 4), Piece::Rook(Color::Black, MoveCounter(0)));
    b.place(&pos(7, 7), Piece::King(Color::Black, MoveCounter(0)));
    assert_eq!(b.advance(&Color::Black, &pos(3, 6), &pos(3, 4)), Ok(()));
    assert_eq!(b.enpassant_target(), Some(pos(3, 4)));
    let before = snapshot(&b);
    assert_eq!(
        b.advance(&Color::White, &pos(4, 4), &pos(3, 5)),
        Err(CatchAllError::InCheck)
    );
    assert_eq!(snapshot(&b), before);
    assert_eq!(b.at(&pos(3, 4)), Ok(Piece::Pawn(Color::Black, MoveCounter(1))));
    assert_eq!(b.enpassant_target(), Some(pos(3, 4)));
}

#[test]
fn en_passant_window_closes_after_one_move() {
    let mut b = Board::new();
    assert_eq!(b.advance(&Color::White, &pos(4, 1), &pos(4, 3)), Ok(()));
    assert_eq!(b.enpassant_target(), Some(pos(4, 3)));
    assert_eq!(b.advance(&Color::Black, &pos(0, 6), &pos(0, 5)), Ok(()));
    assert_eq!(b.enpassant_target(), None);
}

#[test]
fn checkmate_surfaces_as_no_legal_moves() {
    // Black king h8 cornered by a guarded queen on g7: any attempted Black
    // advance reports the terminal condition.
    let mut b = Board::empty();
    b.place(&pos(7, 7), Piece::King(Color::Black, MoveCounter(0)));
    b.place(&pos(0, 6), Piece::Pawn(Color::Black, MoveCounter(0)));
    b.place(&pos(6, 6), Piece::Queen(Color::White));
    b.place(&pos(6, 5), Piece::King(Color::White, MoveCounter(0)));
    assert_eq!(b.in_check(&Color::Black), Ok(true));
    assert_eq!(
        b.advance(&Color::Black, &pos(7, 7), &pos(7, 6)),
        Err(CatchAllError::NoLegalMoves)
    );
    assert_eq!(
        b.advance(&Color::Black, &pos(0, 6), &pos(0, 5)),
        Err(CatchAllError::NoLegalMoves)
    );
}

#[test]
fn stalemate_also_surfaces_as_no_legal_moves() {
    // Black king a8, White queen c7, White king c8-adjacent: Black is not in
    // check but has no move either.
    let mut b = Board::empty();
    b.place(&pos(0, 7), Piece::King(Color::Black, MoveCounter(0)));
    b.place(&pos(2, 6), Piece::Queen(Color::White));
    b.place(&pos(2, 5), Piece::King(Color::White, MoveCounter(0)));
    assert_eq!(b.in_check(&Color::Black), Ok(false));
    assert_eq!(
        b.advance(&Color::Black, &pos(0, 7), &pos(0, 6)),
        Err(CatchAllError::NoLegalMoves)
    );
}

#[test]
fn apply_then_revert_restores_everything() {
    // Round trip: a raw physical move and its revert restore the placement,
    // the move counters and the en-passant target.
    let mut b = Board::new();
    assert_eq!(b.advance(&Color::White, &pos(4, 1), &pos(4, 3)), Ok(()));
    let before = snapshot(&b);
    assert_eq!(b.enpassant_target(), Some(pos(4, 3)));
    assert_eq!(b.update(&pos(3, 6), &pos(3, 4)), Ok(()));
    assert_ne!(snapshot(&b), before);
    assert_eq!(b.revert(), Ok(()));
    assert_eq!(snapshot(&b), before);
    assert_eq!(b.enpassant_target(), Some(pos(4, 3)));
}

#[test]
fn revert_restores_a_promoted_pawn_and_its_victim() {
    let mut b = Board::empty();
    b.place(&pos(4, 6), Piece::Pawn(Color::White, MoveCounter(4)));
    b.place(&pos(3, 7), Piece::Rook(Color::Black, MoveCounter(2)));
    let before = snapshot(&b);
    assert_eq!(b.update(&pos(4, 6), &pos(3, 7)), Ok(()));
    assert_eq!(b.at(&pos(3, 7)), Ok(Piece::Queen(Color::White)));
    assert_eq!(b.revert(), Ok(()));
    assert_eq!(snapshot(&b), before);
}

#[test]
fn revert_without_a_pending_move_fails() {
    let mut b = Board::new();
    assert_eq!(b.revert(), Err(CatchAllError::EmptyMoveCache));
}

#[test]
fn promotion_yields_a_queen_through_advance() {
    let mut b = Board::empty();
    b.place(&pos(4, 6), Piece::Pawn(Color::White, MoveCounter(3)));
    b.place(&pos(0, 0), Piece::King(Color::White, MoveCounter(0)));
    b.place(&pos(7, 7), Piece::King(Color::Black, MoveCounter(0)));
    assert_eq!(b.advance(&Color::White, &pos(4, 6), &pos(4, 7)), Ok(()));
    assert_eq!(b.at(&pos(4, 7)), Ok(Piece::Queen(Color::White)));
    assert_eq!(b.at(&pos(4, 6)), Err(CatchAllError::EmptyField));
}

#[test]
fn knights_jump_over_but_never_onto_their_own_color() {
    let mut b = Board::new();
    // Over the pawn row is fine.
    assert_eq!(b.advance(&Color::White, &pos(1, 0), &pos(2, 2)), Ok(()));
    // Onto an own pawn is a blocked path.
    assert_eq!(
        b.advance(&Color::White, &pos(6, 0), &pos(4, 1)),
        Err(CatchAllError::BlockedPath)
    );
}

#[test]
fn error_kinds_for_bad_geometry_and_empty_squares() {
    let mut b = Board::new();
    assert_eq!(
        b.advance(&Color::White, &pos(4, 3), &pos(4, 4)),
        Err(CatchAllError::EmptyField)
    );
    assert_eq!(
        b.advance(&Color::White, &pos(0, 6), &pos(0, 5)),
        Err(CatchAllError::EmptyField)
    );
    assert_eq!(
        b.advance(&Color::White, &pos(1, 0), &pos(1, 2)),
        Err(CatchAllError::UnreachableField)
    );
    assert_eq!(
        b.advance(&Color::White, &pos(1, 0), &pos(2, 3)),
        Err(CatchAllError::InvalidPath)
    );
}
