use crate::error::CatchAllError;
use vstd::prelude::*;

verus! {

/// A board square: file and rank, each in `0..8`.
#[derive(Clone, Copy, Debug, PartialEq, Eq, Structural)]
pub struct Position {
    pub file: usize,
    pub rank: usize,
}

/// The signed displacement between two squares; used only for move
/// classification, never stored.
#[derive(Clone, Copy, Debug, PartialEq, Eq, Structural)]
pub struct Distance {
    pub file: isize,
    pub rank: isize,
}

impl Distance {
    pub fn new(from: &Position, to: &Position) -> (d: Distance)
        requires
            from.valid(),
            to.valid(),
        ensures
            d.file == to.file - from.file,
            d.rank == to.rank - from.rank,
    {
        Distance { file: to.file as isize - from.file as isize, rank: to.rank as isize - from.rank as isize }
    }
}

impl Position {
    /// Both coordinates lie on the board.
    pub open spec fn valid(self) -> bool {
        self.file < 8 && self.rank < 8
    }

    /// The square's index in a 64-slot grid laid out rank by rank.
    pub open spec fn idx(self) -> int {
        self.rank * 8 + self.file
    }

    pub fn new(file: usize, rank: usize) -> (p: Position)
        requires
            file < 8,
            rank < 8,
        ensures
            p == (Position { file, rank }),
    {
        Position { file, rank }
    }

    /// The zero-based square a two-character token denotes, if any.
    pub open spec fn spec_parse(file_ch: char, rank_ch: char) -> Option<Position> {
        if 'a' <= file_ch <= 'h' && '1' <= rank_ch <= '8' {
            Some(Position { file: (file_ch as int - 'a' as int) as usize, rank: (rank_ch as int - '1' as int) as usize })
        } else if 'A' <= file_ch <= 'H' && '1' <= rank_ch <= '8' {
            Some(Position { file: (file_ch as int - 'A' as int) as usize, rank: (rank_ch as int - '1' as int) as usize })
        } else {
            None
        }
    }

    /// Maps a case-insensitive file letter 'a'..'h' and a rank digit '1'..'8'
    /// to a square; any other input is a bad parse.
    pub fn parse(file_ch: char, rank_ch: char) -> (r: Result<Position, CatchAllError>)
        ensures
            Self::spec_parse(file_ch, rank_ch) matches Some(p) ==> r == Ok::<Position, CatchAllError>(p),
            Self::spec_parse(file_ch, rank_ch) is None ==> r == Err::<Position, CatchAllError>(CatchAllError::BadParse),
    {
        if !('1' <= rank_ch && rank_ch <= '8') {
            return Err(CatchAllError::BadParse);
        }
        let rank: usize = (rank_ch as usize) - ('1' as usize);
        if 'a' <= file_ch && file_ch <= 'h' {
            Ok(Position { file: (file_ch as usize) - ('a' as usize), rank })
        } else if 'A' <= file_ch && file_ch <= 'H' {
            Ok(Position { file: (file_ch as usize) - ('A' as usize), rank })
        } else {
            Err(CatchAllError::BadParse)
        }
    }
}

} // verus!
