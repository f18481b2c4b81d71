use vstd::prelude::*;

verus! {

/// Every failure the engine can report. All of them are recoverable: a failed
/// operation leaves the board unchanged, and `NoLegalMoves` is the one error
/// meant to end a game.
#[derive(Clone, Copy, Debug, PartialEq, Eq, Structural)]
pub enum CatchAllError {
    /// The active color has no move that leaves its king out of check.
    NoLegalMoves,
    /// The castling rook is missing or moved, or the king's path is unsafe.
    BadCastle,
    /// `revert` was invoked with no outstanding cached move.
    EmptyMoveCache,
    /// The color has no king on the board: an invariant violation.
    NoKing,
    /// The candidate move would leave the mover's own king in check.
    InCheck,
    /// The displacement matches no known move shape at all.
    InvalidPath,
    /// The destination or an intervening square holds the mover's own piece.
    BlockedPath,
    /// No piece of the required color stands at the queried square.
    EmptyField,
    /// The move's geometry does not match the piece's movement pattern.
    UnreachableField,
    /// A turn-machine operation was invoked in the wrong state.
    InvalidTurn,
    /// A malformed square token from text input.
    BadParse,
}

} // verus!
