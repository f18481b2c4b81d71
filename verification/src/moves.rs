use crate::position::{Distance, Position};
use vstd::prelude::*;

verus! {

/// One of the four axis directions a run can take.
#[derive(Clone, Copy, Debug, PartialEq, Eq, Structural)]
pub enum Direction {
    Up,
    Right,
    Down,
    Left,
}

/// Whether a move lands on an empty square or takes an opposing piece.
#[derive(Clone, Copy, Debug, PartialEq, Eq, Structural)]
pub enum Action {
    Regular,
    Capture,
}

/// A classified displacement: a straight run, a diagonal run (vertical then
/// horizontal component), a knight jump, or no known shape at all.
#[derive(Clone, Copy, Debug, PartialEq, Eq, Structural)]
pub enum Move {
    Straight(Direction, usize, Action),
    Diagonal(Direction, Direction, usize, Action),
    Jump(Action),
    Invalid,
}

/// Classifies the displacement between two squares. Pure geometry: occupancy
/// has already fixed the action.
pub open spec fn classify(from: Position, to: Position, action: Action) -> Move {
    let df = to.file - from.file;
    let dr = to.rank - from.rank;
    if df == 0 && dr > 0 {
        Move::Straight(Direction::Up, dr as usize, action)
    } else if df == 0 && dr < 0 {
        Move::Straight(Direction::Down, (-dr) as usize, action)
    } else if dr == 0 && df > 0 {
        Move::Straight(Direction::Right, df as usize, action)
    } else if dr == 0 && df < 0 {
        Move::Straight(Direction::Left, (-df) as usize, action)
    } else if df > 0 && dr > 0 && df == dr {
        Move::Diagonal(Direction::Up, Direction::Right, dr as usize, action)
    } else if df > 0 && dr < 0 && df == -dr {
        Move::Diagonal(Direction::Down, Direction::Right, (-dr) as usize, action)
    } else if df < 0 && dr > 0 && -df == dr {
        Move::Diagonal(Direction::Up, Direction::Left, dr as usize, action)
    } else if df < 0 && dr < 0 && df == dr {
        Move::Diagonal(Direction::Down, Direction::Left, (-dr) as usize, action)
    } else if (df == 2 || df == -2) && (dr == 1 || dr == -1) {
        Move::Jump(action)
    } else if (df == 1 || df == -1) && (dr == 2 || dr == -2) {
        Move::Jump(action)
    } else {
        Move::Invalid
    }
}

impl Move {
    pub fn new(from: &Position, to: &Position, action: Action) -> (mv: Move)
        requires
            from.valid(),
            to.valid(),
        ensures
            mv == classify(*from, *to, action),
    {
        let d = Distance::new(from, to);
        if d.file == 0 && d.rank > 0 {
            Move::Straight(Direction::Up, d.rank as usize, action)
        } else if d.file == 0 && d.rank < 0 {
            Move::Straight(Direction::Down, (-d.rank) as usize, action)
        } else if d.rank == 0 && d.file > 0 {
            Move::Straight(Direction::Right, d.file as usize, action)
        } else if d.rank == 0 && d.file < 0 {
            Move::Straight(Direction::Left, (-d.file) as usize, action)
        } else if d.file > 0 && d.rank > 0 && d.file == d.rank {
            Move::Diagonal(Direction::Up, Direction::Right, d.rank as usize, action)
        } else if d.file > 0 && d.rank < 0 && d.file == -d.rank {
            Move::Diagonal(Direction::Down, Direction::Right, (-d.rank) as usize, action)
        } else if d.file < 0 && d.rank > 0 && -d.file == d.rank {
            Move::Diagonal(Direction::Up, Direction::Left, d.rank as usize, action)
        } else if d.file < 0 && d.rank < 0 && d.file == d.rank {
            Move::Diagonal(Direction::Down, Direction::Left, (-d.rank) as usize, action)
        } else if (d.file == 2 || d.file == -2) && (d.rank == 1 || d.rank == -1) {
            Move::Jump(action)
        } else if (d.file == 1 || d.file == -1) && (d.rank == 2 || d.rank == -2) {
            Move::Jump(action)
        } else {
            Move::Invalid
        }
    }
}

} // verus!
