use crate::error::CatchAllError;
use crate::moves::{classify, Action, Direction, Move};
use crate::position::Position;
use vstd::prelude::*;

verus! {

#[derive(Clone, Copy, Debug, PartialEq, Eq, Structural)]
pub enum Color {
    White,
    Black,
}

impl Color {
    pub open spec fn spec_opponent(self) -> Color {
        match self {
            Color::White => Color::Black,
            Color::Black => Color::White,
        }
    }

    /// The other side.
    #[verifier::when_used_as_spec(spec_opponent)]
    pub fn opponent(self) -> (c: Color)
        ensures
            c == self.spec_opponent(),
    {
        match self {
            Color::White => Color::Black,
            Color::Black => Color::White,
        }
    }
}

/// How many physical moves a piece has made; `0` means it has never moved,
/// which gates double pawn pushes and castling. Incremented on every physical
/// move and decremented on revert, wrapping at the type's bounds so the two
/// always undo one another.
#[derive(Clone, Copy, Debug, PartialEq, Eq, Structural)]
pub struct MoveCounter(pub u32);

pub open spec fn wrap_inc(n: u32) -> u32 {
    if n == u32::MAX {
        0
    } else {
        (n + 1) as u32
    }
}

pub open spec fn wrap_dec(n: u32) -> u32 {
    if n == 0 {
        u32::MAX
    } else {
        (n - 1) as u32
    }
}

impl MoveCounter {
    pub fn increment(&mut self)
        ensures
            final(self).0 == wrap_inc(old(self).0),
    {
        if self.0 == u32::MAX {
            self.0 = 0;
        } else {
            self.0 = self.0 + 1;
        }
    }

    pub fn decrement(&mut self)
        ensures
            final(self).0 == wrap_dec(old(self).0),
    {
        if self.0 == 0 {
            self.0 = u32::MAX;
        } else {
            self.0 = self.0 - 1;
        }
    }
}

/// A piece: one of six kinds, each owned by a color; pawns, rooks and kings
/// also carry their move counter.
#[derive(Clone, Copy, Debug, PartialEq, Eq, Structural)]
pub enum Piece {
    Pawn(Color, MoveCounter),
    Knight(Color),
    Bishop(Color),
    Rook(Color, MoveCounter),
    Queen(Color),
    King(Color, MoveCounter),
}

impl Piece {
    pub open spec fn spec_color(&self) -> Color {
        match self {
            Piece::Pawn(color, _) => *color,
            Piece::Knight(color) => *color,
            Piece::Bishop(color) => *color,
            Piece::Rook(color, _) => *color,
            Piece::Queen(color) => *color,
            Piece::King(color, _) => *color,
        }
    }

    #[verifier::when_used_as_spec(spec_color)]
    pub fn color(&self) -> (c: Color)
        ensures
            c == self.spec_color(),
    {
        match self {
            Piece::Pawn(color, _) => *color,
            Piece::Knight(color) => *color,
            Piece::Bishop(color) => *color,
            Piece::Rook(color, _) => *color,
            Piece::Queen(color) => *color,
            Piece::King(color, _) => *color,
        }
    }

    /// The piece after one physical move: the counter, where the kind carries
    /// one, is incremented.
    pub open spec fn spec_update(self) -> Piece {
        match self {
            Piece::Pawn(c, ctr) => Piece::Pawn(c, MoveCounter(wrap_inc(ctr.0))),
            Piece::Rook(c, ctr) => Piece::Rook(c, MoveCounter(wrap_inc(ctr.0))),
            Piece::King(c, ctr) => Piece::King(c, MoveCounter(wrap_inc(ctr.0))),
            _ => self,
        }
    }

    /// The piece after a reverted move: the counter, where the kind carries
    /// one, is decremented.
    pub open spec fn spec_revert(self) -> Piece {
        match self {
            Piece::Pawn(c, ctr) => Piece::Pawn(c, MoveCounter(wrap_dec(ctr.0))),
            Piece::Rook(c, ctr) => Piece::Rook(c, MoveCounter(wrap_dec(ctr.0))),
            Piece::King(c, ctr) => Piece::King(c, MoveCounter(wrap_dec(ctr.0))),
            _ => self,
        }
    }

    pub fn update(&mut self)
        ensures
            *final(self) == old(self).spec_update(),
    {
        match self {
            Piece::Pawn(_, counter) => counter.increment(),
            Piece::Rook(_, counter) => counter.increment(),
            Piece::King(_, counter) => counter.increment(),
            _ => (),
        }
    }

    pub fn revert(&mut self)
        ensures
            *final(self) == old(self).spec_revert(),
    {
        match self {
            Piece::Pawn(_, counter) => counter.decrement(),
            Piece::Rook(_, counter) => counter.decrement(),
            Piece::King(_, counter) => counter.decrement(),
            _ => (),
        }
    }

    /// Whether this piece, given its kind, color and move-count state, can
    /// execute the classified move. Pure geometry: obstruction and self-check
    /// are the board's business.
    pub open spec fn spec_can_reach(self, mv: Move) -> bool {
        match self {
            Piece::Pawn(color, counter) => spec_reach_pawn(mv, color, counter),
            Piece::Knight(_) => mv is Jump,
            Piece::Bishop(_) => mv is Diagonal,
            Piece::Rook(_, _) => mv is Straight,
            Piece::Queen(_) => mv is Straight || mv is Diagonal,
            Piece::King(_, counter) => spec_reach_king(mv, counter),
        }
    }

    pub fn can_reach(&self, mv: &Move) -> (r: Result<(), CatchAllError>)
        ensures
            r is Ok <==> self.spec_can_reach(*mv),
            r is Err ==> r == Err::<(), CatchAllError>(CatchAllError::UnreachableField),
    {
        match self {
            Piece::Pawn(color, counter) => Piece::can_reach_pawn(mv, color, counter),
            Piece::Knight(_) => Piece::can_reach_knight(mv),
            Piece::Bishop(_) => Piece::can_reach_bishop(mv),
            Piece::Rook(_, _) => Piece::can_reach_rook(mv),
            Piece::Queen(_) => Piece::can_reach_queen(mv),
            Piece::King(_, counter) => Piece::can_reach_king(mv, counter),
        }
    }

    /// Some action tag makes the classified move from `from` to `to`
    /// executable for this piece.
    pub open spec fn spec_geom_reach(self, from: Position, to: Position) -> bool {
        ||| self.spec_can_reach(classify(from, to, Action::Regular))
        ||| self.spec_can_reach(classify(from, to, Action::Capture))
    }

    /// Every square this piece could reach from `from` under some action tag,
    /// in grid order. Obstruction and self-check are deliberately ignored:
    /// a caller after truly legal moves must filter these through the
    /// board's full validation.
    pub fn all_moves(&self, from: &Position) -> (v: Vec<Position>)
        requires
            from.valid(),
        ensures
            forall|i: int|
                0 <= i < v@.len() ==> (#[trigger] v@[i]).valid() && self.spec_geom_reach(*from, v@[i]),
            forall|p: Position| p.valid() && self.spec_geom_reach(*from, p) ==> #[trigger] v@.contains(p),
            forall|i: int, j: int| 0 <= i < j < v@.len() ==> v@[i].idx() < v@[j].idx(),
    {
        let mut v: Vec<Position> = Vec::new();
        for idx in 0..64usize
            invariant
                from.valid(),
                forall|i: int|
                    0 <= i < v@.len() ==> (#[trigger] v@[i]).valid() && self.spec_geom_reach(
                        *from,
                        v@[i],
                    ),
                forall|p: Position|
                    p.valid() && p.idx() < idx && self.spec_geom_reach(*from, p)
                        ==> #[trigger] v@.contains(p),
                forall|i: int| 0 <= i < v@.len() ==> (#[trigger] v@[i]).idx() < idx,
                forall|i: int, j: int| 0 <= i < j < v@.len() ==> v@[i].idx() < v@[j].idx(),
        {
            let to = Position::new(idx % 8, idx / 8);
            assert(to.idx() == idx);
            let regular_mv = Move::new(from, &to, Action::Regular);
            let capture_mv = Move::new(from, &to, Action::Capture);
            if self.can_reach(&regular_mv).is_ok() || self.can_reach(&capture_mv).is_ok() {
                let ghost v0 = v@;
                v.push(to);
                proof {
                    broadcast use vstd::seq_lib::lemma_seq_contains_after_push;

                    assert(v@ == v0.push(to));
                    assert(v@.contains(to));
                }
            }
            proof {
                assert(forall|p: Position| p.valid() && p.idx() == idx ==> p == to);
            }
        }
        v
    }

    fn can_reach_pawn(mv: &Move, color: &Color, counter: &MoveCounter) -> (r: Result<
        (),
        CatchAllError,
    >)
        ensures
            r is Ok <==> spec_reach_pawn(*mv, *color, *counter),
            r is Err ==> r == Err::<(), CatchAllError>(CatchAllError::UnreachableField),
    {
        match (mv, color, counter) {
            (Move::Straight(Direction::Up, 2, Action::Regular), Color::White, MoveCounter(0)) => Ok(
                (),
            ),
            (Move::Straight(Direction::Up, 1, Action::Regular), Color::White, _) => Ok(()),
            (
                Move::Diagonal(Direction::Up, Direction::Left, 1, Action::Capture),
                Color::White,
                _,
            ) => Ok(()),
            (
                Move::Diagonal(Direction::Up, Direction::Right, 1, Action::Capture),
                Color::White,
                _,
            ) => Ok(()),
            (Move::Straight(Direction::Down, 2, Action::Regular), Color::Black, MoveCounter(0)) => Ok(
                (),
            ),
            (Move::Straight(Direction::Down, 1, Action::Regular), Color::Black, _) => Ok(()),
            (
                Move::Diagonal(Direction::Down, Direction::Left, 1, Action::Capture),
                Color::Black,
                _,
            ) => Ok(()),
            (
                Move::Diagonal(Direction::Down, Direction::Right, 1, Action::Capture),
                Color::Black,
                _,
            ) => Ok(()),
            _ => Err(CatchAllError::UnreachableField),
        }
    }

    fn can_reach_knight(mv: &Move) -> (r: Result<(), CatchAllError>)
        ensures
            r is Ok <==> *mv is Jump,
            r is Err ==> r == Err::<(), CatchAllError>(CatchAllError::UnreachableField),
    {
        match mv {
            Move::Jump(_) => Ok(()),
            _ => Err(CatchAllError::UnreachableField),
        }
    }

    fn can_reach_bishop(mv: &Move) -> (r: Result<(), CatchAllError>)
        ensures
            r is Ok <==> *mv is Diagonal,
            r is Err ==> r == Err::<(), CatchAllError>(CatchAllError::UnreachableField),
    {
        match mv {
            Move::Diagonal(_, _, _, _) => Ok(()),
            _ => Err(CatchAllError::UnreachableField),
        }
    }

    fn can_reach_rook(mv: &Move) -> (r: Result<(), CatchAllError>)
        ensures
            r is Ok <==> *mv is Straight,
            r is Err ==> r == Err::<(), CatchAllError>(CatchAllError::UnreachableField),
    {
        match mv {
            Move::Straight(_, _, _) => Ok(()),
            _ => Err(CatchAllError::UnreachableField),
        }
    }

    fn can_reach_queen(mv: &Move) -> (r: Result<(), CatchAllError>)
        ensures
            r is Ok <==> (*mv is Straight || *mv is Diagonal),
            r is Err ==> r == Err::<(), CatchAllError>(CatchAllError::UnreachableField),
    {
        match mv {
            Move::Straight(_, _, _) => Ok(()),
            Move::Diagonal(_, _, _, _) => Ok(()),
            _ => Err(CatchAllError::UnreachableField),
        }
    }

    fn can_reach_king(mv: &Move, counter: &MoveCounter) -> (r: Result<(), CatchAllError>)
        ensures
            r is Ok <==> spec_reach_king(*mv, *counter),
            r is Err ==> r == Err::<(), CatchAllError>(CatchAllError::UnreachableField),
    {
        match (mv, counter) {
            (Move::Straight(_, 1, _), _) => Ok(()),
            (Move::Diagonal(_, _, 1, _), _) => Ok(()),
            (Move::Straight(Direction::Left, 2, Action::Regular), MoveCounter(0)) => Ok(()),
            (Move::Straight(Direction::Right, 2, Action::Regular), MoveCounter(0)) => Ok(()),
            _ => Err(CatchAllError::UnreachableField),
        }
    }
}

/// A pawn advances one step, or two on its first move, as a regular action,
/// and takes one step diagonally forward; its direction is fixed by color.
pub open spec fn spec_reach_pawn(mv: Move, color: Color, counter: MoveCounter) -> bool {
    match color {
        Color::White => {
            ||| mv == Move::Straight(Direction::Up, 1usize, Action::Regular)
            ||| (mv == Move::Straight(Direction::Up, 2usize, Action::Regular) && counter.0 == 0)
            ||| mv == Move::Diagonal(Direction::Up, Direction::Left, 1usize, Action::Capture)
            ||| mv == Move::Diagonal(Direction::Up, Direction::Right, 1usize, Action::Capture)
        },
        Color::Black => {
            ||| mv == Move::Straight(Direction::Down, 1usize, Action::Regular)
            ||| (mv == Move::Straight(Direction::Down, 2usize, Action::Regular) && counter.0 == 0)
            ||| mv == Move::Diagonal(Direction::Down, Direction::Left, 1usize, Action::Capture)
            ||| mv == Move::Diagonal(Direction::Down, Direction::Right, 1usize, Action::Capture)
        },
    }
}

/// A king takes any one-step run, and, while it has never moved, a two-square
/// horizontal run as a regular action: the castling intent.
pub open spec fn spec_reach_king(mv: Move, counter: MoveCounter) -> bool {
    ||| mv matches Move::Straight(_, n, _) && n == 1
    ||| mv matches Move::Diagonal(_, _, n, _) && n == 1
    ||| (counter.0 == 0 && (mv == Move::Straight(Direction::Left, 2usize, Action::Regular) || mv
        == Move::Straight(Direction::Right, 2usize, Action::Regular)))
}

} // verus!
