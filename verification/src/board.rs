use crate::error::CatchAllError;
use crate::moves::{classify, Action, Direction, Move};
use crate::path::{lemma_classify_path_pre, path_pre, spec_path, Path};
use crate::piece::{Color, MoveCounter, Piece};
use crate::position::Position;
use vstd::prelude::*;

verus! {

/// The single-slot undo record of the last physical move: where the piece
/// came from and went, what stood on the destination, and the piece as it
/// stood right after its counter was incremented but before any promotion,
/// so that a revert can restore the exact prior placement.
#[derive(Clone, Copy, Debug, PartialEq)]
pub struct MoveCache {
    pub from: Position,
    pub to: Position,
    pub captured: Option<Piece>,
    pub moved: Piece,
}

impl MoveCache {
    pub fn new(from: Position, to: Position, captured: Option<Piece>, moved: Piece) -> (c:
        MoveCache)
        ensures
            c == (MoveCache { from, to, captured, moved }),
    {
        MoveCache { from, to, captured, moved }
    }
}

/// The board's abstract state: a 64-slot placement grid laid out rank by
/// rank, the pending undo record, and the en-passant target square.
#[verifier::ext_equal]
pub ghost struct BoardState {
    pub grid: Seq<Option<Piece>>,
    pub cache: Option<MoveCache>,
    pub enpassant: Option<Position>,
}

/// The placement grid has exactly one slot per square.
pub open spec fn grid_ok(g: Seq<Option<Piece>>) -> bool {
    g.len() == 64
}

/// The grid has one slot per square and every recorded position lies on the
/// board.
pub open spec fn state_wf(s: BoardState) -> bool {
    &&& grid_ok(s.grid)
    &&& (s.cache matches Some(c) ==> c.from.valid() && c.to.valid())
    &&& (s.enpassant matches Some(p) ==> p.valid())
}

/// What stands on a square.
pub open spec fn grid_at(g: Seq<Option<Piece>>, p: Position) -> Option<Piece>
    recommends
        grid_ok(g),
        p.valid(),
{
    g[p.idx()]
}

/// The square a grid index denotes.
pub open spec fn pos_of(i: int) -> Position
    recommends
        0 <= i < 64,
{
    Position { file: (i % 8) as usize, rank: (i / 8) as usize }
}

/// The piece that opens the game on back-rank file `file` for `color`.
pub open spec fn start_back_piece(color: Color, file: int) -> Piece {
    if file == 0 || file == 7 {
        Piece::Rook(color, MoveCounter(0))
    } else if file == 1 || file == 6 {
        Piece::Knight(color)
    } else if file == 2 || file == 5 {
        Piece::Bishop(color)
    } else if file == 3 {
        Piece::Queen(color)
    } else {
        Piece::King(color, MoveCounter(0))
    }
}

/// The standard 32-piece starting placement, slot by slot.
pub open spec fn start_piece(i: int) -> Option<Piece> {
    let file = i % 8;
    let rank = i / 8;
    if rank == 0 {
        Some(start_back_piece(Color::White, file))
    } else if rank == 1 {
        Some(Piece::Pawn(Color::White, MoveCounter(0)))
    } else if rank == 6 {
        Some(Piece::Pawn(Color::Black, MoveCounter(0)))
    } else if rank == 7 {
        Some(start_back_piece(Color::Black, file))
    } else {
        None
    }
}

/// Owns the sparse placement of pieces, the single-slot undo cache of the
/// last physical move, and the en-passant target square.
pub struct Board {
    pieces: Vec<Option<Piece>>,
    cache: Option<MoveCache>,
    enpassant: Option<Position>,
}

impl View for Board {
    type V = BoardState;

    closed spec fn view(&self) -> BoardState {
        BoardState { grid: self.pieces@, cache: self.cache, enpassant: self.enpassant }
    }
}

impl Board {
    /// The board's state is well formed.
    pub open spec fn wf(&self) -> bool {
        state_wf(self@)
    }

    /// A board with no pieces, no pending undo record and no en-passant
    /// target; the base for placing arbitrary positions.
    pub fn empty() -> (b: Board)
        ensures
            b.wf(),
            forall|i: int| 0 <= i < 64 ==> b@.grid[i] is None,
            b@.cache is None,
            b@.enpassant is None,
    {
        let mut pieces: Vec<Option<Piece>> = Vec::new();
        let mut i: usize = 0;
        while i < 64
            invariant
                i <= 64,
                pieces@.len() == i,
                forall|j: int| 0 <= j < i ==> pieces@[j] is None,
            decreases 64 - i,
        {
            pieces.push(None);
            i = i + 1;
        }
        Board { pieces, cache: None, enpassant: None }
    }

    /// Puts `piece` on `pos`, replacing whatever stood there. Meant for
    /// setting up positions; play goes through `advance`.
    pub fn place(&mut self, pos: &Position, piece: Piece)
        requires
            old(self).wf(),
            pos.valid(),
        ensures
            final(self).wf(),
            final(self)@.grid == old(self)@.grid.update(pos.idx(), Some(piece)),
            final(self)@.cache == old(self)@.cache,
            final(self)@.enpassant == old(self)@.enpassant,
    {
        let i = pos.rank * 8 + pos.file;
        self.pieces.set(i, Some(piece));
    }

    /// The standard starting layout: both back ranks filled, both pawn rows,
    /// nothing pending.
    pub fn new() -> (b: Board)
        ensures
            b.wf(),
            b@.grid.len() == 64,
            forall|i: int| 0 <= i < 64 ==> b@.grid[i] == start_piece(i),
            b@.cache is None,
            b@.enpassant is None,
    {
        let mut board = Board::empty();
        board.place(&Position::new(0, 0), Piece::Rook(Color::White, MoveCounter(0)));
        board.place(&Position::new(1, 0), Piece::Knight(Color::White));
        board.place(&Position::new(2, 0), Piece::Bishop(Color::White));
        board.place(&Position::new(3, 0), Piece::Queen(Color::White));
        board.place(&Position::new(4, 0), Piece::King(Color::White, MoveCounter(0)));
        board.place(&Position::new(5, 0), Piece::Bishop(Color::White));
        board.place(&Position::new(6, 0), Piece::Knight(Color::White));
        board.place(&Position::new(7, 0), Piece::Rook(Color::White, MoveCounter(0)));
        board.place(&Position::new(0, 1), Piece::Pawn(Color::White, MoveCounter(0)));
        board.place(&Position::new(1, 1), Piece::Pawn(Color::White, MoveCounter(0)));
        board.place(&Position::new(2, 1), Piece::Pawn(Color::White, MoveCounter(0)));
        board.place(&Position::new(3, 1), Piece::Pawn(Color::White, MoveCounter(0)));
        board.place(&Position::new(4, 1), Piece::Pawn(Color::White, MoveCounter(0)));
        board.place(&Position::new(5, 1), Piece::Pawn(Color::White, MoveCounter(0)));
        board.place(&Position::new(6, 1), Piece::Pawn(Color::White, MoveCounter(0)));
        board.place(&Position::new(7, 1), Piece::Pawn(Color::White, MoveCounter(0)));
        board.place(&Position::new(0, 6), Piece::Pawn(Color::Black, MoveCounter(0)));
        board.place(&Position::new(1, 6), Piece::Pawn(Color::Black, MoveCounter(0)));
        board.place(&Position::new(2, 6), Piece::Pawn(Color::Black, MoveCounter(0)));
        board.place(&Position::new(3, 6), Piece::Pawn(Color::Black, MoveCounter(0)));
        board.place(&Position::new(4, 6), Piece::Pawn(Color::Black, MoveCounter(0)));
        board.place(&Position::new(5, 6), Piece::Pawn(Color::Black, MoveCounter(0)));
        board.place(&Position::new(6, 6), Piece::Pawn(Color::Black, MoveCounter(0)));
        board.place(&Position::new(7, 6), Piece::Pawn(Color::Black, MoveCounter(0)));
        board.place(&Position::new(0, 7), Piece::Rook(Color::Black, MoveCounter(0)));
        board.place(&Position::new(1, 7), Piece::Knight(Color::Black));
        board.place(&Position::new(2, 7), Piece::Bishop(Color::Black));
        board.place(&Position::new(3, 7), Piece::Queen(Color::Black));
        board.place(&Position::new(4, 7), Piece::King(Color::Black, MoveCounter(0)));
        board.place(&Position::new(5, 7), Piece::Bishop(Color::Black));
        board.place(&Position::new(6, 7), Piece::Knight(Color::Black));
        board.place(&Position::new(7, 7), Piece::Rook(Color::Black, MoveCounter(0)));
        board
    }

    /// The en-passant target square, if the last move was a double push.
    pub fn enpassant_target(&self) -> (r: Option<Position>)
        ensures
            r == self@.enpassant,
    {
        self.enpassant
    }

    /// Read-only lookup: the piece on `pos`, or `EmptyField` if none stands
    /// there.
    pub fn at(&self, pos: &Position) -> (r: Result<Piece, CatchAllError>)
        requires
            self.wf(),
            pos.valid(),
        ensures
            r matches Ok(p) ==> grid_at(self@.grid, *pos) == Some(p),
            r is Err ==> grid_at(self@.grid, *pos) is None && r == Err::<Piece, CatchAllError>(
                CatchAllError::EmptyField,
            ),
    {
        let i = pos.rank * 8 + pos.file;
        match self.pieces[i] {
            Some(p) => Ok(p),
            None => Err(CatchAllError::EmptyField),
        }
    }
}

/// The lowest grid slot from `i` upward holding a king of `color`.
pub open spec fn first_king_from(g: Seq<Option<Piece>>, color: Color, i: int) -> Option<int>
    recommends
        grid_ok(g),
        0 <= i,
    decreases 64 - i,
{
    if i < 0 || i >= 64 {
        None
    } else if g[i] matches Some(p) && p matches Piece::King(c, _) && c == color {
        Some(i)
    } else {
        first_king_from(g, color, i + 1)
    }
}

/// The first slot in grid order holding a king of `color`, if any.
pub open spec fn spec_king_idx(g: Seq<Option<Piece>>, color: Color) -> Option<int> {
    first_king_from(g, color, 0)
}

impl Board {
    /// Locates `color`'s king: the first one in grid order, or `NoKing` when
    /// the color has none on the board.
    pub fn king(&self, color: &Color) -> (r: Result<(Position, Piece), CatchAllError>)
        requires
            self.wf(),
        ensures
            r matches Ok((pos, p)) ==> {
                &&& spec_king_idx(self@.grid, *color) == Some(pos.idx())
                &&& pos.valid()
                &&& grid_at(self@.grid, pos) == Some(p)
                &&& p matches Piece::King(c, _) && c == *color
            },
            r is Err ==> spec_king_idx(self@.grid, *color) is None && r == Err::<
                (Position, Piece),
                CatchAllError,
            >(CatchAllError::NoKing),
    {
        let mut i: usize = 0;
        while i < 64
            invariant
                self.wf(),
                i <= 64,
                first_king_from(self@.grid, *color, 0) == first_king_from(
                    self@.grid,
                    *color,
                    i as int,
                ),
            decreases 64 - i,
        {
            match self.pieces[i] {
                Some(Piece::King(c, ctr)) => {
                    if c == *color {
                        let pos = Position::new(i % 8, i / 8);
                        assert(pos.idx() == i);
                        assert(first_king_from(self@.grid, *color, i as int) == Some(i as int));
                        return Ok((pos, Piece::King(c, ctr)));
                    }
                },
                _ => {},
            }
            proof {
                assert(first_king_from(self@.grid, *color, i as int) == first_king_from(
                    self@.grid,
                    *color,
                    i + 1,
                ));
            }
            i = i + 1;
        }
        Err(CatchAllError::NoKing)
    }
}

/// Whether `p`, already updated for the move, promotes on landing at `to`:
/// a pawn on the farthest rank for its color becomes a queen.
pub open spec fn spec_promotes(p: Piece, to: Position) -> bool {
    ||| (p matches Piece::Pawn(c, _) && c == Color::White && to.rank == 7)
    ||| (p matches Piece::Pawn(c, _) && c == Color::Black && to.rank == 0)
}

/// The piece that ends up on `to` when the piece at `from` moves there: its
/// counter incremented, then promoted if a pawn reaches the farthest rank.
pub open spec fn spec_placed(g: Seq<Option<Piece>>, from: Position, to: Position) -> Piece
    recommends
        grid_at(g, from) is Some,
{
    let moved = grid_at(g, from).unwrap().spec_update();
    if spec_promotes(moved, to) {
        Piece::Queen(moved.spec_color())
    } else {
        moved
    }
}

/// The placement after the physical move `from -> to`: the origin emptied,
/// the landed piece (updated, possibly promoted) on the destination.
pub open spec fn spec_apply(g: Seq<Option<Piece>>, from: Position, to: Position) -> Seq<
    Option<Piece>,
>
    recommends
        grid_ok(g),
        from.valid(),
        to.valid(),
        grid_at(g, from) is Some,
{
    g.update(from.idx(), None).update(to.idx(), Some(spec_placed(g, from, to)))
}

/// The undo record the physical move `from -> to` leaves behind.
pub open spec fn spec_cache(g: Seq<Option<Piece>>, from: Position, to: Position) -> MoveCache
    recommends
        grid_at(g, from) is Some,
{
    MoveCache {
        from,
        to,
        captured: grid_at(g, to),
        moved: grid_at(g, from).unwrap().spec_update(),
    }
}

/// The placement restored from an undo record: the destination cleared, the
/// moved piece put back with its counter decremented, the captured piece
/// restored.
pub open spec fn spec_unapply(g: Seq<Option<Piece>>, c: MoveCache) -> Seq<Option<Piece>> {
    let g1 = g.update(c.to.idx(), None).update(c.from.idx(), Some(c.moved.spec_revert()));
    match c.captured {
        Some(q) => g1.update(c.to.idx(), Some(q)),
        None => g1,
    }
}

/// Updating a piece and reverting it restores the piece exactly.
pub proof fn lemma_piece_round_trip(p: Piece)
    ensures
        p.spec_update().spec_revert() == p,
{
}

/// Round trip: `update(from, to)` followed by `revert()` restores the exact
/// prior state. `pre` is any board with a piece at `from`; `mid` is what
/// `update` leaves behind by its contract; `post` is what `revert` then
/// leaves by its contract. The placement — and with it every move counter —
/// and the en-passant target all come back exactly.
pub proof fn lemma_apply_revert_round_trip(
    pre: BoardState,
    mid: BoardState,
    post: BoardState,
    from: Position,
    to: Position,
)
    requires
        grid_ok(pre.grid),
        from.valid(),
        to.valid(),
        grid_at(pre.grid, from) is Some,
        mid.grid == spec_apply(pre.grid, from, to),
        mid.cache == Some(spec_cache(pre.grid, from, to)),
        mid.enpassant == pre.enpassant,
        post.grid == spec_unapply(mid.grid, mid.cache.unwrap()),
        post.cache is None,
        post.enpassant == mid.enpassant,
    ensures
        post.grid == pre.grid,
        post.enpassant == pre.enpassant,
{
    lemma_piece_round_trip(pre.grid[from.idx()].unwrap());
    assert(spec_unapply(spec_apply(pre.grid, from, to), spec_cache(pre.grid, from, to))
        =~= pre.grid);
}

impl Board {
    /// Physically moves the piece at `from` to `to`: increments its counter,
    /// promotes a pawn reaching its farthest rank to a queen, and records the
    /// one-slot undo cache. Fails with `EmptyField` when `from` is empty.
    pub fn update(&mut self, from: &Position, to: &Position) -> (r: Result<(), CatchAllError>)
        requires
            old(self).wf(),
            from.valid(),
            to.valid(),
        ensures
            final(self).wf(),
            grid_at(old(self)@.grid, *from) is None ==> r == Err::<(), CatchAllError>(
                CatchAllError::EmptyField,
            ) && final(self)@ == old(self)@,
            grid_at(old(self)@.grid, *from) is Some ==> {
                &&& r is Ok
                &&& final(self)@.grid == spec_apply(old(self)@.grid, *from, *to)
                &&& final(self)@.cache == Some(spec_cache(old(self)@.grid, *from, *to))
                &&& final(self)@.enpassant == old(self)@.enpassant
            },
    {
        let fi = from.rank * 8 + from.file;
        let ti = to.rank * 8 + to.file;
        let captured = self.pieces[ti];
        match self.pieces[fi] {
            None => Err(CatchAllError::EmptyField),
            Some(p) => {
                let mut piece = p;
                piece.update();
                let moved = piece;
                let placed = match piece {
                    Piece::Pawn(Color::White, _) => {
                        if to.rank == 7 {
                            Piece::Queen(Color::White)
                        } else {
                            piece
                        }
                    },
                    Piece::Pawn(Color::Black, _) => {
                        if to.rank == 0 {
                            Piece::Queen(Color::Black)
                        } else {
                            piece
                        }
                    },
                    _ => piece,
                };
                self.pieces.set(fi, None);
                self.pieces.set(ti, Some(placed));
                self.cache = Some(MoveCache::new(*from, *to, captured, moved));
                Ok(())
            },
        }
    }

    /// Restores the cached move exactly once: clears the destination, puts
    /// the moved piece back with its counter decremented, restores any
    /// captured piece, and clears the cache. Fails with `EmptyMoveCache`
    /// when no move is pending.
    pub fn revert(&mut self) -> (r: Result<(), CatchAllError>)
        requires
            old(self).wf(),
        ensures
            final(self).wf(),
            old(self)@.cache is None ==> r == Err::<(), CatchAllError>(
                CatchAllError::EmptyMoveCache,
            ) && final(self)@ == old(self)@,
            old(self)@.cache matches Some(c) ==> (grid_at(old(self)@.grid, c.to) is None ==> r
                == Err::<(), CatchAllError>(CatchAllError::EmptyField) && final(self)@ == old(
                self,
            )@),
            old(self)@.cache matches Some(c) ==> (grid_at(old(self)@.grid, c.to) is Some ==> {
                &&& r is Ok
                &&& final(self)@.grid == spec_unapply(old(self)@.grid, c)
                &&& final(self)@.cache is None
                &&& final(self)@.enpassant == old(self)@.enpassant
            }),
    {
        let cache = match self.cache {
            None => {
                return Err(CatchAllError::EmptyMoveCache);
            },
            Some(c) => c,
        };
        let ti = cache.to.rank * 8 + cache.to.file;
        let fi = cache.from.rank * 8 + cache.from.file;
        if self.pieces[ti].is_none() {
            return Err(CatchAllError::EmptyField);
        }
        self.pieces.set(ti, None);
        let mut piece = cache.moved;
        piece.revert();
        self.pieces.set(fi, Some(piece));
        if let Some(captured) = cache.captured {
            self.pieces.set(ti, Some(captured));
        }
        self.cache = None;
        Ok(())
    }
}

/// Every interior square of the classified move is empty.
pub open spec fn spec_clear_path(g: Seq<Option<Piece>>, from: Position, mv: Move) -> bool {
    forall|i: int|
        0 <= i < spec_path(from, mv).len() ==> grid_at(g, #[trigger] spec_path(from, mv)[i]) is None
}

/// The piece on slot `i` opposes `color` and has a clear, rule-legal capture
/// line to `target`.
pub open spec fn spec_threatens(
    g: Seq<Option<Piece>>,
    i: int,
    color: Color,
    target: Position,
) -> bool {
    &&& 0 <= i < 64
    &&& g[i] matches Some(p) && {
        let mv = classify(pos_of(i), target, Action::Capture);
        &&& p.spec_color() != color
        &&& p.spec_can_reach(mv)
        &&& spec_clear_path(g, pos_of(i), mv)
    }
}

/// Some opposing piece threatens `target`.
pub open spec fn spec_attacked(g: Seq<Option<Piece>>, color: Color, target: Position) -> bool {
    exists|i: int| spec_threatens(g, i, color, target)
}

/// Whether `color`'s king stands attacked: `NoKing` when the color has no
/// king at all.
pub open spec fn spec_in_check(g: Seq<Option<Piece>>, color: Color) -> Result<
    bool,
    CatchAllError,
> {
    match spec_king_idx(g, color) {
        None => Err(CatchAllError::NoKing),
        Some(k) => Ok(spec_attacked(g, color, pos_of(k))),
    }
}

impl Board {
    /// The piece at `pos`, but only when it belongs to `color`; anything
    /// else reads as an empty field.
    fn piece_at(&self, pos: &Position, color: &Color) -> (r: Result<Piece, CatchAllError>)
        requires
            self.wf(),
            pos.valid(),
        ensures
            r matches Ok(p) ==> grid_at(self@.grid, *pos) == Some(p) && p.spec_color() == *color,
            r is Err ==> r == Err::<Piece, CatchAllError>(CatchAllError::EmptyField) && !(grid_at(
                self@.grid,
                *pos,
            ) matches Some(p) && p.spec_color() == *color),
    {
        let i = pos.rank * 8 + pos.file;
        match self.pieces[i] {
            None => Err(CatchAllError::EmptyField),
            Some(p) => {
                if p.color() == *color {
                    Ok(p)
                } else {
                    Err(CatchAllError::EmptyField)
                }
            },
        }
    }

    /// What occupying the destination means for `color`: an empty square is
    /// a regular move, an opposing piece a capture, an own piece a blocked
    /// path.
    fn action(&self, pos: &Position, color: &Color) -> (r: Result<Action, CatchAllError>)
        requires
            self.wf(),
            pos.valid(),
        ensures
            grid_at(self@.grid, *pos) is None ==> r == Ok::<Action, CatchAllError>(Action::Regular),
            grid_at(self@.grid, *pos) matches Some(p) ==> if p.spec_color() != *color {
                r == Ok::<Action, CatchAllError>(Action::Capture)
            } else {
                r == Err::<Action, CatchAllError>(CatchAllError::BlockedPath)
            },
    {
        let i = pos.rank * 8 + pos.file;
        match self.pieces[i] {
            None => Ok(Action::Regular),
            Some(p) => {
                if p.color() != *color {
                    Ok(Action::Capture)
                } else {
                    Err(CatchAllError::BlockedPath)
                }
            },
        }
    }

    /// A square on a sliding piece's way must be empty; an occupied one
    /// blocks the path.
    fn has_piece(&self, pos: &Position) -> (r: Result<(), CatchAllError>)
        requires
            self.wf(),
            pos.valid(),
        ensures
            r is Ok <==> grid_at(self@.grid, *pos) is None,
            r is Err ==> r == Err::<(), CatchAllError>(CatchAllError::BlockedPath),
    {
        let i = pos.rank * 8 + pos.file;
        match self.pieces[i] {
            None => Ok(()),
            Some(_) => Err(CatchAllError::BlockedPath),
        }
    }

    /// Walks the move's interior squares and fails on the first occupied
    /// one; knight jumps cross nothing.
    fn assess_move(&self, pos: &Position, mv: &Move) -> (r: Result<(), CatchAllError>)
        requires
            self.wf(),
            pos.valid(),
            path_pre(*pos, *mv),
        ensures
            r is Ok <==> (!(*mv is Invalid) && spec_clear_path(self@.grid, *pos, *mv)),
            *mv is Invalid ==> r == Err::<(), CatchAllError>(CatchAllError::InvalidPath),
            !(*mv is Invalid) && !spec_clear_path(self@.grid, *pos, *mv) ==> r == Err::<
                (),
                CatchAllError,
            >(CatchAllError::BlockedPath),
    {
        let path = match Path::new(pos, mv) {
            Ok(p) => p,
            Err(e) => {
                return Err(e);
            },
        };
        proof {
            crate::path::lemma_path_valid(*pos, *mv);
        }
        let n = path.0.len();
        let mut k: usize = 0;
        while k < n
            invariant
                self.wf(),
                n == path.0@.len(),
                k <= n,
                path.0@ == spec_path(*pos, *mv),
                forall|i: int| 0 <= i < path.0@.len() ==> (#[trigger] path.0@[i]).valid(),
                forall|i: int| 0 <= i < k ==> grid_at(self@.grid, #[trigger] path.0@[i]) is None,
            decreases n - k,
        {
            match self.has_piece(&path.0[k]) {
                Ok(()) => {},
                Err(e) => {
                    return Err(e);
                },
            }
            k = k + 1;
        }
        Ok(())
    }

    /// Reports whether `color`'s king is attacked: true iff some opposing
    /// piece has a clear, rule-legal capture line to the king's square.
    /// Reachability and obstruction only — this test never recurses into
    /// self-check.
    pub fn in_check(&self, color: &Color) -> (r: Result<bool, CatchAllError>)
        requires
            self.wf(),
        ensures
            r == spec_in_check(self@.grid, *color),
    {
        let (kpos, _kpiece) = match self.king(color) {
            Ok(kp) => kp,
            Err(e) => {
                return Err(e);
            },
        };
        let mut found = false;
        let mut i: usize = 0;
        while i < 64
            invariant
                self.wf(),
                i <= 64,
                kpos.valid(),
                found <==> exists|j: int| j < i && spec_threatens(self@.grid, j, *color, kpos),
            decreases 64 - i,
        {
            match self.pieces[i] {
                Some(p) => {
                    if p.color() != *color {
                        let from = Position::new(i % 8, i / 8);
                        assert(from.idx() == i && pos_of(i as int) == from);
                        let mv = Move::new(&from, &kpos, Action::Capture);
                        proof {
                            lemma_classify_path_pre(from, kpos, Action::Capture);
                        }
                        if p.can_reach(&mv).is_ok() && self.assess_move(&from, &mv).is_ok() {
                            found = true;
                            assert(spec_threatens(self@.grid, i as int, *color, kpos));
                        }
                    }
                },
                None => {},
            }
            i = i + 1;
        }
        Ok(found)
    }
}

/// An en-passant capture resolves: a target square is set, the mover is a
/// pawn of `color` whose displacement to `to` is a diagonal one-rank step
/// toward the empty square directly past the target from its own side, and
/// the passed-over square holds an opposing pawn.
pub open spec fn spec_ep_applies(
    g: Seq<Option<Piece>>,
    ep: Option<Position>,
    color: Color,
    from: Position,
    to: Position,
) -> bool {
    &&& ep matches Some(tgt)
    &&& grid_at(g, from) matches Some(p) && p matches Piece::Pawn(pc, _) && pc == color
    &&& {
        let tgt = ep.unwrap();
        &&& to.file == tgt.file
        &&& (from.file + 1 == to.file || to.file + 1 == from.file)
        &&& (color == Color::White ==> to.rank == tgt.rank + 1 && to.rank == from.rank + 1)
        &&& (color == Color::Black ==> to.rank + 1 == tgt.rank && to.rank + 1 == from.rank)
        &&& grid_at(g, to) is None
        &&& (grid_at(g, tgt) matches Some(v) && v matches Piece::Pawn(vc, _) && vc != color)
    }
}

/// The placement the move is judged against: when an en-passant capture
/// resolves, the passed-over pawn is relocated onto `to`, so that the rest
/// of the pipeline sees a plain capture; otherwise the grid as it stands.
pub open spec fn spec_eff_grid(
    g: Seq<Option<Piece>>,
    ep: Option<Position>,
    color: Color,
    from: Position,
    to: Position,
) -> Seq<Option<Piece>> {
    if spec_ep_applies(g, ep, color, from, to) {
        g.update(ep.unwrap().idx(), None).update(to.idx(), grid_at(g, ep.unwrap()))
    } else {
        g
    }
}

/// The pure half of the validation pipeline: ownership, en-passant
/// resolution, action classification, reachability and obstruction, with
/// the first failure's error.
pub open spec fn spec_move_checks(
    g: Seq<Option<Piece>>,
    ep: Option<Position>,
    color: Color,
    from: Position,
    to: Position,
) -> Result<(), CatchAllError> {
    if !(grid_at(g, from) matches Some(p) && p.spec_color() == color) {
        Err(CatchAllError::EmptyField)
    } else {
        let p = grid_at(g, from).unwrap();
        let eff = spec_eff_grid(g, ep, color, from, to);
        if grid_at(eff, to) matches Some(q) && q.spec_color() == color {
            Err(CatchAllError::BlockedPath)
        } else {
            let a = if grid_at(eff, to) is Some {
                Action::Capture
            } else {
                Action::Regular
            };
            let mv = classify(from, to, a);
            if mv is Invalid {
                Err(CatchAllError::InvalidPath)
            } else if !p.spec_can_reach(mv) {
                Err(CatchAllError::UnreachableField)
            } else if !spec_clear_path(eff, from, mv) {
                Err(CatchAllError::BlockedPath)
            } else {
                Ok(())
            }
        }
    }
}

/// The self-check guard: the move applied hypothetically must not
/// leave `color`'s own king attacked.
pub open spec fn spec_check_guard(
    g: Seq<Option<Piece>>,
    color: Color,
    from: Position,
    to: Position,
) -> Result<(), CatchAllError>
    recommends
        grid_at(g, from) is Some,
{
    match spec_in_check(spec_apply(g, from, to), color) {
        Err(e) => Err(e),
        Ok(true) => Err(CatchAllError::InCheck),
        Ok(false) => Ok(()),
    }
}

/// Move checks and self-check guard all pass: the hypothetical move is
/// legal, castling completion aside.
pub open spec fn spec_turn_ok(
    g: Seq<Option<Piece>>,
    ep: Option<Position>,
    color: Color,
    from: Position,
    to: Position,
) -> bool {
    &&& spec_move_checks(g, ep, color, from, to) is Ok
    &&& spec_check_guard(spec_eff_grid(g, ep, color, from, to), color, from, to) is Ok
}

/// Slot pair `fi -> ti` names a legal hypothetical move.
pub open spec fn spec_legal_from_to(
    g: Seq<Option<Piece>>,
    ep: Option<Position>,
    color: Color,
    fi: int,
    ti: int,
) -> bool {
    0 <= fi < 64 && 0 <= ti < 64 && spec_turn_ok(g, ep, color, pos_of(fi), pos_of(ti))
}

/// The active color has at least one legal hypothetical move.
pub open spec fn spec_exists_legal(
    g: Seq<Option<Piece>>,
    ep: Option<Position>,
    color: Color,
) -> bool {
    exists|fi: int, ti: int| spec_legal_from_to(g, ep, color, fi, ti)
}

impl Board {
    /// Resolves an en-passant capture: when it applies, physically relocates
    /// the passed-over pawn onto `to` — it is then captured like any other
    /// piece — and hands back the target square so the caller can undo the
    /// relocation if a later step fails.
    fn resolve_enpassant(
        &mut self,
        piece: &Piece,
        color: &Color,
        from: &Position,
        to: &Position,
    ) -> (r: Option<Position>)
        requires
            old(self).wf(),
            from.valid(),
            to.valid(),
            grid_at(old(self)@.grid, *from) == Some(*piece),
            piece.spec_color() == *color,
        ensures
            final(self).wf(),
            r is Some <==> spec_ep_applies(
                old(self)@.grid,
                old(self)@.enpassant,
                *color,
                *from,
                *to,
            ),
            r is Some ==> r == old(self)@.enpassant,
            final(self)@.grid == spec_eff_grid(
                old(self)@.grid,
                old(self)@.enpassant,
                *color,
                *from,
                *to,
            ),
            final(self)@.cache == old(self)@.cache,
            final(self)@.enpassant == old(self)@.enpassant,
    {
        let tgt = match self.enpassant {
            None => {
                return None;
            },
            Some(t) => t,
        };
        let is_pawn = match piece {
            Piece::Pawn(_, _) => true,
            _ => false,
        };
        if !is_pawn {
            return None;
        }
        if to.file != tgt.file {
            return None;
        }
        if !(from.file + 1 == to.file || to.file + 1 == from.file) {
            return None;
        }
        let rank_ok = match color {
            Color::White => to.rank == tgt.rank + 1 && to.rank == from.rank + 1,
            Color::Black => to.rank + 1 == tgt.rank && to.rank + 1 == from.rank,
        };
        if !rank_ok {
            return None;
        }
        let ti = to.rank * 8 + to.file;
        if self.pieces[ti].is_some() {
            return None;
        }
        let gi = tgt.rank * 8 + tgt.file;
        let victim_ok = match self.pieces[gi] {
            Some(Piece::Pawn(vc, _)) => vc != *color,
            _ => false,
        };
        if !victim_ok {
            return None;
        }
        let victim = self.pieces[gi];
        self.pieces.set(gi, None);
        self.pieces.set(ti, victim);
        Some(tgt)
    }

    /// Puts a relocated passed-over pawn back where it stood, undoing
    /// `resolve_enpassant` after a failed validation step.
    fn undo_enpassant(&mut self, tgt: &Position, to: &Position)
        requires
            old(self).wf(),
            tgt.valid(),
            to.valid(),
        ensures
            final(self).wf(),
            final(self)@.grid == old(self)@.grid.update(to.idx(), None).update(
                tgt.idx(),
                grid_at(old(self)@.grid, *to),
            ),
            final(self)@.cache == old(self)@.cache,
            final(self)@.enpassant == old(self)@.enpassant,
    {
        let ti = to.rank * 8 + to.file;
        let gi = tgt.rank * 8 + tgt.file;
        let victim = self.pieces[ti];
        self.pieces.set(ti, None);
        self.pieces.set(gi, victim);
    }

    /// The self-check guard: applies the move physically, asks whether
    /// `color`'s king is now attacked, and unconditionally reverts; the
    /// board comes out exactly as it went in.
    fn resolve_check(&mut self, from: &Position, to: &Position, color: &Color) -> (r: Result<
        (),
        CatchAllError,
    >)
        requires
            old(self).wf(),
            from.valid(),
            to.valid(),
            grid_at(old(self)@.grid, *from) is Some,
        ensures
            final(self).wf(),
            final(self)@ == old(self)@,
            r == spec_check_guard(old(self)@.grid, *color, *from, *to),
    {
        let saved = self.cache;
        match self.update(from, to) {
            Ok(()) => {},
            Err(_) => {
                proof {
                    assert(false);
                }
            },
        }
        let res = self.in_check(color);
        match self.revert() {
            Ok(()) => {},
            Err(_) => {
                proof {
                    assert(false);
                }
            },
        }
        proof {
            lemma_piece_round_trip(old(self)@.grid[from.idx()].unwrap());
            assert(spec_unapply(
                spec_apply(old(self)@.grid, *from, *to),
                spec_cache(old(self)@.grid, *from, *to),
            ) =~= old(self)@.grid);
        }
        self.cache = saved;
        proof {
            assert(final(self)@ =~= old(self)@);
        }
        match res {
            Err(e) => Err(e),
            Ok(true) => Err(CatchAllError::InCheck),
            Ok(false) => Ok(()),
        }
    }

    /// Tries the full hypothetical move `from -> to` for `color` — the move
    /// checks and the self-check guard — and restores the board exactly.
    fn try_move(&mut self, color: &Color, from: &Position, to: &Position) -> (b: bool)
        requires
            old(self).wf(),
            from.valid(),
            to.valid(),
        ensures
            final(self).wf(),
            final(self)@ == old(self)@,
            b == spec_turn_ok(old(self)@.grid, old(self)@.enpassant, *color, *from, *to),
    {
        let piece = match self.piece_at(from, color) {
            Err(_) => {
                return false;
            },
            Ok(p) => p,
        };
        let ep_tgt = self.resolve_enpassant(&piece, color, from, to);
        let action = match ep_tgt {
            Some(_) => Action::Capture,
            None => match self.action(to, color) {
                Ok(a) => a,
                Err(_) => {
                    return false;
                },
            },
        };
        let mv = Move::new(from, to, action);
        proof {
            lemma_classify_path_pre(*from, *to, action);
        }
        let geometry_ok = piece.can_reach(&mv).is_ok() && self.assess_move(from, &mv).is_ok();
        if !geometry_ok {
            if let Some(tgt) = ep_tgt {
                self.undo_enpassant(&tgt, to);
                proof {
                    assert(final(self)@ =~= old(self)@);
                }
            }
            return false;
        }
        let checked = self.resolve_check(from, to, color);
        if let Some(tgt) = ep_tgt {
            self.undo_enpassant(&tgt, to);
            proof {
                assert(final(self)@ =~= old(self)@);
            }
        }
        checked.is_ok()
    }

    /// The no-legal-moves precheck: looks for any hypothetical move of
    /// `color` that passes the move checks and the self-check guard, and
    /// reports `NoLegalMoves` when none exists — the terminal condition,
    /// checkmate or stalemate undistinguished.
    fn resolve_nomoves(&mut self, color: &Color) -> (r: Result<(), CatchAllError>)
        requires
            old(self).wf(),
        ensures
            final(self).wf(),
            final(self)@ == old(self)@,
            r is Ok <==> spec_exists_legal(old(self)@.grid, old(self)@.enpassant, *color),
            r is Err ==> r == Err::<(), CatchAllError>(CatchAllError::NoLegalMoves),
    {
        let mut found = false;
        let mut fi: usize = 0;
        while fi < 64
            invariant
                self.wf(),
                self@ == old(self)@,
                fi <= 64,
                found <==> exists|a: int, b: int|
                    a < fi && spec_legal_from_to(self@.grid, self@.enpassant, *color, a, b),
            decreases 64 - fi,
        {
            let pf = Position::new(fi % 8, fi / 8);
            assert(pos_of(fi as int) == pf);
            let mut ti: usize = 0;
            while ti < 64
                invariant
                    self.wf(),
                    self@ == old(self)@,
                    fi < 64,
                    ti <= 64,
                    pf == pos_of(fi as int),
                    pf.valid(),
                    found <==> (exists|a: int, b: int|
                        a < fi && spec_legal_from_to(self@.grid, self@.enpassant, *color, a, b))
                        || (exists|b: int|
                        b < ti && spec_legal_from_to(
                            self@.grid,
                            self@.enpassant,
                            *color,
                            fi as int,
                            b,
                        )),
                decreases 64 - ti,
            {
                let pt = Position::new(ti % 8, ti / 8);
                assert(pos_of(ti as int) == pt);
                if self.try_move(color, &pf, &pt) {
                    found = true;
                    assert(spec_legal_from_to(
                        self@.grid,
                        self@.enpassant,
                        *color,
                        fi as int,
                        ti as int,
                    ));
                }
                ti = ti + 1;
            }
            fi = fi + 1;
        }
        if found {
            Ok(())
        } else {
            assert(!spec_exists_legal(self@.grid, self@.enpassant, *color));
            Err(CatchAllError::NoLegalMoves)
        }
    }
}

/// The move is a castling intent: a never-moved king taking a two-square
/// horizontal run as a regular action.
pub open spec fn spec_castle_intent(p: Piece, mv: Move) -> bool {
    &&& p matches Piece::King(_, ctr) && ctr.0 == 0
    &&& mv matches Move::Straight(d, n, a) && n == 2 && a is Regular && (d is Left || d is Right)
}

/// The run direction of a straight move.
pub open spec fn spec_castle_dir(mv: Move) -> Direction
    recommends
        mv is Straight,
{
    match mv {
        Move::Straight(d, _, _) => d,
        _ => Direction::Up,
    }
}

/// The corner square the castling rook starts from.
pub open spec fn spec_rook_home(color: Color, dir: Direction) -> Position {
    match (color, dir) {
        (Color::White, Direction::Left) => Position { file: 0, rank: 0 },
        (Color::White, _) => Position { file: 7, rank: 0 },
        (Color::Black, Direction::Left) => Position { file: 0, rank: 7 },
        (Color::Black, _) => Position { file: 7, rank: 7 },
    }
}

/// The square the castling rook lands on.
pub open spec fn spec_rook_dest(color: Color, dir: Direction) -> Position {
    match (color, dir) {
        (Color::White, Direction::Left) => Position { file: 3, rank: 0 },
        (Color::White, _) => Position { file: 5, rank: 0 },
        (Color::Black, Direction::Left) => Position { file: 3, rank: 7 },
        (Color::Black, _) => Position { file: 5, rank: 7 },
    }
}

/// The square the king passes over on its two-square run.
pub open spec fn spec_mid_square(from: Position, dir: Direction) -> Position {
    match dir {
        Direction::Right => Position { file: (from.file + 1) as usize, rank: from.rank },
        _ => Position { file: (from.file - 1) as usize, rank: from.rank },
    }
}

/// Castling completes: the king is safe on its start square, the square it
/// passes over and the square it lands on, and the corresponding rook is in
/// place, unmoved and of the king's color, with its destination free.
pub open spec fn spec_castle_ok(
    g: Seq<Option<Piece>>,
    color: Color,
    from: Position,
    to: Position,
    dir: Direction,
) -> bool {
    &&& spec_check_guard(g, color, from, from) is Ok
    &&& spec_check_guard(g, color, from, spec_mid_square(from, dir)) is Ok
    &&& spec_check_guard(g, color, from, to) is Ok
    &&& (grid_at(g, spec_rook_home(color, dir)) matches Some(r) && r matches Piece::Rook(rc, rctr)
        && rc == color && rctr.0 == 0)
    &&& grid_at(g, spec_rook_dest(color, dir)) is None
}

/// The placement just before the final physical king or pawn move: the
/// en-passant victim already relocated, or the castling rook already brought
/// across; otherwise the grid as it stands.
pub open spec fn spec_pre_update_grid(
    g: Seq<Option<Piece>>,
    ep: Option<Position>,
    color: Color,
    from: Position,
    to: Position,
) -> Seq<Option<Piece>>
    recommends
        grid_at(g, from) is Some,
{
    let p = grid_at(g, from).unwrap();
    let eff = spec_eff_grid(g, ep, color, from, to);
    let a = if grid_at(eff, to) is Some {
        Action::Capture
    } else {
        Action::Regular
    };
    let mv = classify(from, to, a);
    if spec_castle_intent(p, mv) {
        let dir = spec_castle_dir(mv);
        g.update(spec_rook_home(color, dir).idx(), None).update(
            spec_rook_dest(color, dir).idx(),
            grid_at(g, spec_rook_home(color, dir)),
        )
    } else {
        eff
    }
}

/// The placement a successful `advance` leaves behind.
pub open spec fn spec_after_grid(
    g: Seq<Option<Piece>>,
    ep: Option<Position>,
    color: Color,
    from: Position,
    to: Position,
) -> Seq<Option<Piece>> {
    spec_apply(spec_pre_update_grid(g, ep, color, from, to), from, to)
}

/// The en-passant target a move leaves behind: the destination of a pawn's
/// double push, nothing after any other move.
pub open spec fn spec_after_ep(p: Piece, mv: Move, to: Position) -> Option<Position> {
    if p matches Piece::Pawn(_, _) && (mv matches Move::Straight(d, n, a) && n == 2 && a is Regular
        && (d is Up || d is Down)) {
        Some(to)
    } else {
        None
    }
}

/// What `advance` decides for the given move, error by error: the
/// no-legal-moves precheck, then the move checks, then castling completion
/// or the self-check guard.
pub open spec fn spec_outcome(
    g: Seq<Option<Piece>>,
    ep: Option<Position>,
    color: Color,
    from: Position,
    to: Position,
) -> Result<(), CatchAllError> {
    if !spec_exists_legal(g, ep, color) {
        Err(CatchAllError::NoLegalMoves)
    } else if spec_move_checks(g, ep, color, from, to) is Err {
        spec_move_checks(g, ep, color, from, to)
    } else {
        let p = grid_at(g, from).unwrap();
        let eff = spec_eff_grid(g, ep, color, from, to);
        let a = if grid_at(eff, to) is Some {
            Action::Capture
        } else {
            Action::Regular
        };
        let mv = classify(from, to, a);
        if spec_castle_intent(p, mv) {
            if spec_castle_ok(g, color, from, to, spec_castle_dir(mv)) {
                Ok(())
            } else {
                Err(CatchAllError::BadCastle)
            }
        } else {
            spec_check_guard(eff, color, from, to)
        }
    }
}

impl Board {
    /// Relocates the castling rook from its corner onto the square beside
    /// the king's destination: the rook must be there, unmoved, of the
    /// king's color, and its destination free; anything else is a bad
    /// castle, attempted without touching the board.
    fn castle_rook(&mut self, color: &Color, dir: &Direction) -> (r: Result<(), CatchAllError>)
        requires
            old(self).wf(),
        ensures
            final(self).wf(),
            r is Ok <==> ({
                &&& (grid_at(old(self)@.grid, spec_rook_home(*color, *dir)) matches Some(rk)
                    && rk matches Piece::Rook(rc, rctr) && rc == *color && rctr.0 == 0)
                &&& grid_at(old(self)@.grid, spec_rook_dest(*color, *dir)) is None
            }),
            r is Err ==> final(self)@ == old(self)@ && r == Err::<(), CatchAllError>(
                CatchAllError::BadCastle,
            ),
            r is Ok ==> final(self)@.grid == old(self)@.grid.update(
                spec_rook_home(*color, *dir).idx(),
                None,
            ).update(
                spec_rook_dest(*color, *dir).idx(),
                grid_at(old(self)@.grid, spec_rook_home(*color, *dir)),
            ),
            final(self)@.cache == old(self)@.cache,
            final(self)@.enpassant == old(self)@.enpassant,
    {
        let (rh, rd) = match (color, dir) {
            (Color::White, Direction::Left) => (Position::new(0, 0), Position::new(3, 0)),
            (Color::White, _) => (Position::new(7, 0), Position::new(5, 0)),
            (Color::Black, Direction::Left) => (Position::new(0, 7), Position::new(3, 7)),
            (Color::Black, _) => (Position::new(7, 7), Position::new(5, 7)),
        };
        proof {
            assert(rh == spec_rook_home(*color, *dir));
            assert(rd == spec_rook_dest(*color, *dir));
        }
        let rh_i = rh.rank * 8 + rh.file;
        let rd_i = rd.rank * 8 + rd.file;
        let rook = self.pieces[rh_i];
        let rook_ok = match rook {
            Some(Piece::Rook(rc, rctr)) => rc == *color && rctr.0 == 0,
            _ => false,
        };
        if !rook_ok {
            return Err(CatchAllError::BadCastle);
        }
        if self.pieces[rd_i].is_some() {
            return Err(CatchAllError::BadCastle);
        }
        self.pieces.set(rh_i, None);
        self.pieces.set(rd_i, rook);
        Ok(())
    }

    /// Castling completion: re-runs the self-check guard for the king's
    /// start square, the square it passes over and its destination — the
    /// king may not castle out of, through or into an attacked square —
    /// then brings the rook across. Any failure is a bad castle and leaves
    /// the board untouched.
    fn resolve_castle(&mut self, color: &Color, from: &Position, to: &Position, dir: &Direction) -> (r:
        Result<(), CatchAllError>)
        requires
            old(self).wf(),
            from.valid(),
            to.valid(),
            grid_at(old(self)@.grid, *from) is Some,
            *dir is Right ==> from.file + 2 <= 7,
            !(*dir is Right) ==> from.file >= 2,
        ensures
            final(self).wf(),
            r is Ok <==> spec_castle_ok(old(self)@.grid, *color, *from, *to, *dir),
            r is Err ==> final(self)@ == old(self)@ && r == Err::<(), CatchAllError>(
                CatchAllError::BadCastle,
            ),
            r is Ok ==> final(self)@.grid == old(self)@.grid.update(
                spec_rook_home(*color, *dir).idx(),
                None,
            ).update(
                spec_rook_dest(*color, *dir).idx(),
                grid_at(old(self)@.grid, spec_rook_home(*color, *dir)),
            ),
            final(self)@.cache == old(self)@.cache,
            final(self)@.enpassant == old(self)@.enpassant,
    {
        if self.resolve_check(from, from, color).is_err() {
            return Err(CatchAllError::BadCastle);
        }
        let mid = match dir {
            Direction::Right => Position::new(from.file + 1, from.rank),
            _ => Position::new(from.file - 1, from.rank),
        };
        proof {
            assert(mid == spec_mid_square(*from, *dir));
        }
        if self.resolve_check(from, &mid, color).is_err() {
            return Err(CatchAllError::BadCastle);
        }
        if self.resolve_check(from, to, color).is_err() {
            return Err(CatchAllError::BadCastle);
        }
        self.castle_rook(color, dir)
    }

    /// Records the en-passant target after a pawn's double push and clears
    /// it after every other move.
    fn enpassantable(&mut self, piece: &Piece, mv: &Move, to: &Position)
        requires
            old(self).wf(),
            to.valid(),
        ensures
            final(self).wf(),
            final(self)@.grid == old(self)@.grid,
            final(self)@.cache == old(self)@.cache,
            final(self)@.enpassant == spec_after_ep(*piece, *mv, *to),
    {
        let dbl = match (piece, mv) {
            (Piece::Pawn(_, _), Move::Straight(Direction::Up, 2, Action::Regular)) => true,
            (Piece::Pawn(_, _), Move::Straight(Direction::Down, 2, Action::Regular)) => true,
            _ => false,
        };
        if dbl {
            self.enpassant = Some(*to);
        } else {
            self.enpassant = None;
        }
    }

    /// The validation pipeline, short-circuiting on the first failure: the
    /// no-legal-moves precheck, ownership, en-passant resolution, action
    /// classification, reachability, obstruction, then castling completion
    /// or the self-check guard, and finally the en-passant bookkeeping. On
    /// success the board stands ready for the physical `update`; on failure
    /// it is exactly as before.
    fn assess_turn(&mut self, color: &Color, from: &Position, to: &Position) -> (r: Result<
        (),
        CatchAllError,
    >)
        requires
            old(self).wf(),
            from.valid(),
            to.valid(),
        ensures
            final(self).wf(),
            r == spec_outcome(old(self)@.grid, old(self)@.enpassant, *color, *from, *to),
            r is Err ==> final(self)@ == old(self)@,
            r is Ok ==> ({
                let g = old(self)@.grid;
                let ep = old(self)@.enpassant;
                let p = grid_at(g, *from).unwrap();
                let eff = spec_eff_grid(g, ep, *color, *from, *to);
                let a = if grid_at(eff, *to) is Some {
                    Action::Capture
                } else {
                    Action::Regular
                };
                &&& final(self)@.grid == spec_pre_update_grid(g, ep, *color, *from, *to)
                &&& grid_at(final(self)@.grid, *from) == Some(p)
                &&& final(self)@.enpassant == spec_after_ep(p, classify(*from, *to, a), *to)
                &&& final(self)@.cache == old(self)@.cache
            }),
    {
        match self.resolve_nomoves(color) {
            Ok(()) => {},
            Err(e) => {
                return Err(e);
            },
        }
        let piece = match self.piece_at(from, color) {
            Ok(p) => p,
            Err(e) => {
                return Err(e);
            },
        };
        let ep_tgt = self.resolve_enpassant(&piece, color, from, to);
        let action = match ep_tgt {
            Some(_) => Action::Capture,
            None => match self.action(to, color) {
                Ok(a) => a,
                Err(e) => {
                    return Err(e);
                },
            },
        };
        let mv = Move::new(from, to, action);
        let invalid = match mv {
            Move::Invalid => true,
            _ => false,
        };
        if invalid {
            if let Some(tgt) = ep_tgt {
                self.undo_enpassant(&tgt, to);
                proof {
                    assert(final(self)@ =~= old(self)@);
                }
            }
            return Err(CatchAllError::InvalidPath);
        }
        match piece.can_reach(&mv) {
            Ok(()) => {},
            Err(e) => {
                if let Some(tgt) = ep_tgt {
                    self.undo_enpassant(&tgt, to);
                    proof {
                        assert(final(self)@ =~= old(self)@);
                    }
                }
                return Err(e);
            },
        }
        proof {
            lemma_classify_path_pre(*from, *to, action);
        }
        match self.assess_move(from, &mv) {
            Ok(()) => {},
            Err(e) => {
                if let Some(tgt) = ep_tgt {
                    self.undo_enpassant(&tgt, to);
                    proof {
                        assert(final(self)@ =~= old(self)@);
                    }
                }
                return Err(e);
            },
        }
        let is_castle = match (&piece, &mv) {
            (Piece::King(_, MoveCounter(0)), Move::Straight(Direction::Left, 2, Action::Regular)) => true,
            (
                Piece::King(_, MoveCounter(0)),
                Move::Straight(Direction::Right, 2, Action::Regular),
            ) => true,
            _ => false,
        };
        if is_castle {
            let dir = match &mv {
                Move::Straight(Direction::Left, _, _) => Direction::Left,
                _ => Direction::Right,
            };
            match self.resolve_castle(color, from, to, &dir) {
                Ok(()) => {},
                Err(e) => {
                    return Err(e);
                },
            }
        } else {
            match self.resolve_check(from, to, color) {
                Ok(()) => {},
                Err(e) => {
                    if let Some(tgt) = ep_tgt {
                        self.undo_enpassant(&tgt, to);
                        proof {
                            assert(final(self)@ =~= old(self)@);
                        }
                    }
                    return Err(e);
                },
            }
        }
        self.enpassantable(&piece, &mv, to);
        Ok(())
    }

    /// The one mutating entry point: validates the move for `color` through
    /// the whole pipeline and, when it is legal, performs the minimal state
    /// change it implies — capture, promotion, castling rook, en-passant
    /// bookkeeping and the undo cache. After a success the origin square is
    /// empty and the moved (or promoted) piece stands on the destination; a
    /// failed call leaves the board exactly as it was.
    pub fn advance(&mut self, color: &Color, from: &Position, to: &Position) -> (r: Result<
        (),
        CatchAllError,
    >)
        requires
            old(self).wf(),
            from.valid(),
            to.valid(),
        ensures
            final(self).wf(),
            r == spec_outcome(old(self)@.grid, old(self)@.enpassant, *color, *from, *to),
            r is Err ==> final(self)@ == old(self)@,
            r is Ok ==> ({
                let g = old(self)@.grid;
                let ep = old(self)@.enpassant;
                let p = grid_at(g, *from).unwrap();
                let pre = spec_pre_update_grid(g, ep, *color, *from, *to);
                let eff = spec_eff_grid(g, ep, *color, *from, *to);
                let a = if grid_at(eff, *to) is Some {
                    Action::Capture
                } else {
                    Action::Regular
                };
                &&& final(self)@.grid == spec_after_grid(g, ep, *color, *from, *to)
                &&& final(self)@.enpassant == spec_after_ep(p, classify(*from, *to, a), *to)
                &&& final(self)@.cache == Some(spec_cache(pre, *from, *to))
                &&& grid_at(final(self)@.grid, *from) is None
                &&& grid_at(final(self)@.grid, *to) == Some(spec_placed(g, *from, *to))
            }),
    {
        match self.assess_turn(color, from, to) {
            Err(e) => Err(e),
            Ok(()) => {
                proof {
                    lemma_pre_update_keeps_mover(
                        old(self)@.grid,
                        old(self)@.enpassant,
                        *color,
                        *from,
                        *to,
                    );
                }
                match self.update(from, to) {
                    Ok(()) => {},
                    Err(_) => {
                        proof {
                            assert(false);
                        }
                    },
                }
                Ok(())
            },
        }
    }
}

/// The mover still stands on `from` in the pre-update placement, and lands
/// exactly as it would straight from the starting grid of the call.
proof fn lemma_pre_update_keeps_mover(
    g: Seq<Option<Piece>>,
    ep: Option<Position>,
    color: Color,
    from: Position,
    to: Position,
)
    requires
        grid_ok(g),
        from.valid(),
        to.valid(),
        grid_at(g, from) is Some,
        spec_outcome(g, ep, color, from, to) is Ok,
    ensures
        grid_at(spec_pre_update_grid(g, ep, color, from, to), from) == grid_at(g, from),
        spec_placed(spec_pre_update_grid(g, ep, color, from, to), from, to) == spec_placed(
            g,
            from,
            to,
        ),
{
}

/// No move `advance` accepts lands on a square the mover's own color
/// occupies, and no accepted sliding move crosses an occupied square;
/// knight jumps have no interior squares at all, so nothing is ever
/// checked for them.
pub proof fn lemma_no_own_color_blocking(
    g: Seq<Option<Piece>>,
    ep: Option<Position>,
    color: Color,
    from: Position,
    to: Position,
)
    requires
        grid_ok(g),
        from.valid(),
        to.valid(),
        (ep matches Some(t) ==> t.valid()),
        spec_outcome(g, ep, color, from, to) is Ok,
    ensures
        grid_at(g, to) matches Some(q) ==> q.spec_color() != color,
        ({
            let eff = spec_eff_grid(g, ep, color, from, to);
            let a = if grid_at(eff, to) is Some {
                Action::Capture
            } else {
                Action::Regular
            };
            let mv = classify(from, to, a);
            forall|i: int|
                0 <= i < spec_path(from, mv).len() ==> grid_at(
                    g,
                    #[trigger] spec_path(from, mv)[i],
                ) is None
        }),
{
    if spec_ep_applies(g, ep, color, from, to) {
        let p = grid_at(g, from).unwrap();
        let eff = spec_eff_grid(g, ep, color, from, to);
        let a = if grid_at(eff, to) is Some {
            Action::Capture
        } else {
            Action::Regular
        };
        let mv = classify(from, to, a);
        assert(p.spec_can_reach(mv));
        assert(mv matches Move::Diagonal(_, _, n, _) && n == 1);
        assert(spec_path(from, mv).len() == 0);
    }
}

} // verus!
