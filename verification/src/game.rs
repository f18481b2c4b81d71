use crate::board::{grid_at, spec_after_ep, spec_after_grid, spec_cache, spec_eff_grid, spec_outcome, spec_pre_update_grid, start_piece, Board, BoardState};
use crate::error::CatchAllError;
use crate::moves::{classify, Action};
use crate::piece::{Color, Piece};
use crate::position::Position;
use vstd::prelude::*;

verus! {

/// The two-phase input state: no square pending, or an origin chosen and a
/// destination awaited.
#[derive(Clone, Copy, Debug, PartialEq, Eq, Structural)]
pub enum Turn {
    New(Color),
    Select(Color, Position),
}

/// The session object: the board and whose move it is, driven one square at
/// a time.
pub struct Game {
    board: Board,
    turn: Turn,
}

impl Game {
    /// The current turn state.
    pub closed spec fn spec_turn(&self) -> Turn {
        self.turn
    }

    /// The board's abstract state.
    pub closed spec fn spec_board(&self) -> BoardState {
        self.board@
    }

    /// The board is well formed and any pending origin lies on it.
    pub open spec fn wf(&self) -> bool {
        &&& crate::board::state_wf(self.spec_board())
        &&& (self.spec_turn() matches Turn::Select(_, p) ==> p.valid())
    }

    /// A fresh session: the standard starting layout, White to move.
    pub fn new() -> (g: Game)
        ensures
            g.wf(),
            g.spec_turn() == Turn::New(Color::White),
            forall|i: int| 0 <= i < 64 ==> g.spec_board().grid[i] == start_piece(i),
            g.spec_board().cache is None,
            g.spec_board().enpassant is None,
    {
        Game { board: Board::new(), turn: Turn::New(Color::White) }
    }

    /// Discards a pending origin, collapsing `Select` back to `New` for the
    /// same color; the board is untouched.
    pub fn reset_turn(&mut self)
        requires
            old(self).wf(),
        ensures
            final(self).wf(),
            final(self).spec_board() == old(self).spec_board(),
            final(self).spec_turn() == match old(self).spec_turn() {
                Turn::New(color) => Turn::New(color),
                Turn::Select(color, _) => Turn::New(color),
            },
    {
        self.turn = match self.turn {
            Turn::New(color) => Turn::New(color),
            Turn::Select(color, _) => Turn::New(color),
        }
    }

    /// Read-only lookup on the underlying board.
    pub fn at(&self, pos: &Position) -> (r: Result<Piece, CatchAllError>)
        requires
            self.wf(),
            pos.valid(),
        ensures
            r matches Ok(p) ==> grid_at(self.spec_board().grid, *pos) == Some(p),
            r is Err ==> grid_at(self.spec_board().grid, *pos) is None && r == Err::<
                Piece,
                CatchAllError,
            >(CatchAllError::EmptyField),
    {
        self.board.at(pos)
    }

    /// The current turn state, read by a front end to highlight a pending
    /// origin.
    pub fn turn(&self) -> (t: Turn)
        ensures
            t == self.spec_turn(),
    {
        self.turn
    }

    /// Picks an origin: the chosen square must hold a piece of the active
    /// color.
    fn select(&self, pos: &Position) -> (r: Result<Turn, CatchAllError>)
        requires
            self.wf(),
            pos.valid(),
        ensures
            self.spec_turn() matches Turn::New(color) ==> {
                &&& (grid_at(self.spec_board().grid, *pos) matches Some(p) ==> if p.spec_color()
                    == color {
                    r == Ok::<Turn, CatchAllError>(Turn::Select(color, *pos))
                } else {
                    r == Err::<Turn, CatchAllError>(CatchAllError::InvalidTurn)
                })
                &&& (grid_at(self.spec_board().grid, *pos) is None ==> r == Err::<
                    Turn,
                    CatchAllError,
                >(CatchAllError::EmptyField))
            },
            self.spec_turn() is Select ==> r == Err::<Turn, CatchAllError>(
                CatchAllError::InvalidTurn,
            ),
    {
        match self.turn {
            Turn::New(color) => {
                let piece = self.board.at(pos)?;
                if piece.color() == color {
                    Ok(Turn::Select(color, *pos))
                } else {
                    Err(CatchAllError::InvalidTurn)
                }
            },
            _ => Err(CatchAllError::InvalidTurn),
        }
    }

    /// Plays the pending origin onto `pos`: delegates to the board and, on
    /// success, hands the move to the opponent; a board error surfaces
    /// unchanged.
    fn play(&mut self, pos: &Position) -> (r: Result<Turn, CatchAllError>)
        requires
            old(self).wf(),
            pos.valid(),
        ensures
            final(self).wf(),
            final(self).spec_turn() == old(self).spec_turn(),
            old(self).spec_turn() matches Turn::Select(color, from) ==> {
                let g = old(self).spec_board().grid;
                let ep = old(self).spec_board().enpassant;
                let outcome = spec_outcome(g, ep, color, from, *pos);
                &&& (outcome is Ok ==> r == Ok::<Turn, CatchAllError>(
                    Turn::New(color.spec_opponent()),
                ) && final(self).spec_board().grid == spec_after_grid(g, ep, color, from, *pos)
                    && final(self).spec_board().enpassant == spec_after_ep(
                    grid_at(g, from).unwrap(),
                    classify(
                        from,
                        *pos,
                        if grid_at(spec_eff_grid(g, ep, color, from, *pos), *pos) is Some {
                            Action::Capture
                        } else {
                            Action::Regular
                        },
                    ),
                    *pos,
                ) && final(self).spec_board().cache == Some(
                    spec_cache(spec_pre_update_grid(g, ep, color, from, *pos), from, *pos),
                ))
                &&& (outcome matches Err(e) ==> r == Err::<Turn, CatchAllError>(e)
                    && final(self).spec_board() == old(self).spec_board())
            },
            old(self).spec_turn() is New ==> r == Err::<Turn, CatchAllError>(
                CatchAllError::InvalidTurn,
            ) && final(self).spec_board() == old(self).spec_board(),
    {
        match self.turn {
            Turn::Select(color, from) => {
                match self.board.advance(&color, &from, pos) {
                    Ok(()) => Ok(Turn::New(color.opponent())),
                    Err(e) => Err(e),
                }
            },
            _ => Err(CatchAllError::InvalidTurn),
        }
    }

    /// The single mutating entry point, driven square by square: in `New` it
    /// selects an origin, in `Select` it plays the move and flips the active
    /// color; on any error the turn is left unresolved for the caller to
    /// reset or retry.
    pub fn advance(&mut self, pos: &Position) -> (r: Result<(), CatchAllError>)
        requires
            old(self).wf(),
            pos.valid(),
        ensures
            final(self).wf(),
            old(self).spec_turn() matches Turn::New(color) ==> {
                &&& final(self).spec_board() == old(self).spec_board()
                &&& (grid_at(old(self).spec_board().grid, *pos) matches Some(p) ==> if p.spec_color()
                    == color {
                    r is Ok && final(self).spec_turn() == Turn::Select(color, *pos)
                } else {
                    r == Err::<(), CatchAllError>(CatchAllError::InvalidTurn)
                        && final(self).spec_turn() == old(self).spec_turn()
                })
                &&& (grid_at(old(self).spec_board().grid, *pos) is None ==> r == Err::<
                    (),
                    CatchAllError,
                >(CatchAllError::EmptyField) && final(self).spec_turn() == old(self).spec_turn())
            },
            old(self).spec_turn() matches Turn::Select(color, from) ==> {
                let g = old(self).spec_board().grid;
                let ep = old(self).spec_board().enpassant;
                let outcome = spec_outcome(g, ep, color, from, *pos);
                &&& r == outcome
                &&& (outcome is Ok ==> final(self).spec_turn() == Turn::New(color.spec_opponent())
                    && final(self).spec_board().grid == spec_after_grid(g, ep, color, from, *pos))
                &&& (outcome is Err ==> final(self).spec_board() == old(self).spec_board()
                    && final(self).spec_turn() == old(self).spec_turn())
            },
    {
        match self.turn {
            Turn::New(_) => {
                let t = match self.select(pos) {
                    Ok(t) => t,
                    Err(e) => {
                        return Err(e);
                    },
                };
                self.turn = t;
                Ok(())
            },
            Turn::Select(_, _) => {
                let t = match self.play(pos) {
                    Ok(t) => t,
                    Err(e) => {
                        return Err(e);
                    },
                };
                self.turn = t;
                Ok(())
            },
        }
    }
}

} // verus!
