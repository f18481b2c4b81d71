use crate::error::CatchAllError;
use crate::moves::{classify, Action, Direction, Move};
use crate::position::Position;
use vstd::prelude::*;

verus! {

/// The ordered interior squares a sliding move crosses, endpoints excluded;
/// empty for knight jumps.
pub struct Path(pub Vec<Position>);

/// The interior squares of a classified move, in travel order. A run of `n`
/// steps crosses `n - 1` squares; jumps cross none.
pub open spec fn spec_path(pos: Position, mv: Move) -> Seq<Position> {
    match mv {
        Move::Straight(Direction::Up, n, _) => Seq::new(
            (n - 1) as nat,
            |i: int| (Position { file: pos.file, rank: (pos.rank + 1 + i) as usize }),
        ),
        Move::Straight(Direction::Down, n, _) => Seq::new(
            (n - 1) as nat,
            |i: int| (Position { file: pos.file, rank: (pos.rank - 1 - i) as usize }),
        ),
        Move::Straight(Direction::Right, n, _) => Seq::new(
            (n - 1) as nat,
            |i: int| (Position { file: (pos.file + 1 + i) as usize, rank: pos.rank }),
        ),
        Move::Straight(Direction::Left, n, _) => Seq::new(
            (n - 1) as nat,
            |i: int| (Position { file: (pos.file - 1 - i) as usize, rank: pos.rank }),
        ),
        Move::Diagonal(Direction::Up, Direction::Right, n, _) => Seq::new(
            (n - 1) as nat,
            |i: int| (Position { file: (pos.file + 1 + i) as usize, rank: (pos.rank + 1 + i) as usize }),
        ),
        Move::Diagonal(Direction::Up, Direction::Left, n, _) => Seq::new(
            (n - 1) as nat,
            |i: int| (Position { file: (pos.file - 1 - i) as usize, rank: (pos.rank + 1 + i) as usize }),
        ),
        Move::Diagonal(Direction::Down, Direction::Right, n, _) => Seq::new(
            (n - 1) as nat,
            |i: int| (Position { file: (pos.file + 1 + i) as usize, rank: (pos.rank - 1 - i) as usize }),
        ),
        Move::Diagonal(Direction::Down, Direction::Left, n, _) => Seq::new(
            (n - 1) as nat,
            |i: int| (Position { file: (pos.file - 1 - i) as usize, rank: (pos.rank - 1 - i) as usize }),
        ),
        _ => Seq::empty(),
    }
}

/// The move's shape is one the classifier can produce and its endpoint stays
/// on the board when taken from `pos`.
pub open spec fn path_pre(pos: Position, mv: Move) -> bool {
    match mv {
        Move::Straight(Direction::Up, n, _) => 1 <= n && pos.rank + n < 8,
        Move::Straight(Direction::Down, n, _) => 1 <= n <= pos.rank,
        Move::Straight(Direction::Right, n, _) => 1 <= n && pos.file + n < 8,
        Move::Straight(Direction::Left, n, _) => 1 <= n <= pos.file,
        Move::Diagonal(Direction::Up, Direction::Right, n, _) => 1 <= n && pos.rank + n < 8
            && pos.file + n < 8,
        Move::Diagonal(Direction::Up, Direction::Left, n, _) => 1 <= n && pos.rank + n < 8 && n
            <= pos.file,
        Move::Diagonal(Direction::Down, Direction::Right, n, _) => 1 <= n && n <= pos.rank
            && pos.file + n < 8,
        Move::Diagonal(Direction::Down, Direction::Left, n, _) => 1 <= n && n <= pos.rank && n
            <= pos.file,
        Move::Diagonal(_, _, _, _) => false,
        Move::Jump(_) => true,
        Move::Invalid => true,
    }
}

/// Whatever the classifier returns for two on-board squares satisfies
/// `path_pre`, so a path can always be generated for it.
pub proof fn lemma_classify_path_pre(from: Position, to: Position, action: Action)
    requires
        from.valid(),
        to.valid(),
    ensures
        path_pre(from, classify(from, to, action)),
{
}

/// Every interior square of such a move lies on the board.
pub proof fn lemma_path_valid(pos: Position, mv: Move)
    requires
        pos.valid(),
        path_pre(pos, mv),
    ensures
        forall|i: int| 0 <= i < spec_path(pos, mv).len() ==> (#[trigger] spec_path(pos, mv)[i]).valid(),
{
}

impl Path {
    pub fn new(pos: &Position, mv: &Move) -> (r: Result<Path, CatchAllError>)
        requires
            pos.valid(),
            path_pre(*pos, *mv),
        ensures
            r is Err <==> *mv is Invalid,
            r is Err ==> r == Err::<Path, CatchAllError>(CatchAllError::InvalidPath),
            r matches Ok(p) ==> p.0@ == spec_path(*pos, *mv),
    {
        match mv {
            Move::Straight(Direction::Up, steps, _) => Ok(Path::up(pos, *steps)),
            Move::Straight(Direction::Down, steps, _) => Ok(Path::down(pos, *steps)),
            Move::Straight(Direction::Right, steps, _) => Ok(Path::right(pos, *steps)),
            Move::Straight(Direction::Left, steps, _) => Ok(Path::left(pos, *steps)),
            Move::Diagonal(Direction::Up, Direction::Right, steps, _) => Ok(
                Path::up_right(pos, *steps),
            ),
            Move::Diagonal(Direction::Up, Direction::Left, steps, _) => Ok(
                Path::up_left(pos, *steps),
            ),
            Move::Diagonal(Direction::Down, Direction::Right, steps, _) => Ok(
                Path::down_right(pos, *steps),
            ),
            Move::Diagonal(Direction::Down, Direction::Left, steps, _) => Ok(
                Path::down_left(pos, *steps),
            ),
            Move::Jump(_) => Ok(Path(Vec::new())),
            _ => Err(CatchAllError::InvalidPath),
        }
    }

    fn up(pos: &Position, steps: usize) -> (p: Path)
        requires
            pos.valid(),
            1 <= steps,
            pos.rank + steps < 8,
        ensures
            p.0@ == Seq::new(
                (steps - 1) as nat,
                |i: int| (Position { file: pos.file, rank: (pos.rank + 1 + i) as usize }),
            ),
    {
        let mut v: Vec<Position> = Vec::new();
        let mut k: usize = 1;
        while k < steps
            invariant
                pos.valid(),
                1 <= k <= steps,
                pos.rank + steps < 8,
                v@.len() == k - 1,
                forall|i: int|
                    0 <= i < v@.len() ==> v@[i] == (Position {
                        file: pos.file,
                        rank: (pos.rank + 1 + i) as usize,
                    }),
            decreases steps - k,
        {
            v.push(Position::new(pos.file, pos.rank + k));
            k = k + 1;
        }
        proof {
            assert(v@ =~= Seq::new(
                (steps - 1) as nat,
                |i: int| (Position { file: pos.file, rank: (pos.rank + 1 + i) as usize }),
            ));
        }
        Path(v)
    }

    fn down(pos: &Position, steps: usize) -> (p: Path)
        requires
            pos.valid(),
            1 <= steps <= pos.rank,
        ensures
            p.0@ == Seq::new(
                (steps - 1) as nat,
                |i: int| (Position { file: pos.file, rank: (pos.rank - 1 - i) as usize }),
            ),
    {
        let mut v: Vec<Position> = Vec::new();
        let mut k: usize = 1;
        while k < steps
            invariant
                pos.valid(),
                1 <= k <= steps <= pos.rank,
                v@.len() == k - 1,
                forall|i: int|
                    0 <= i < v@.len() ==> v@[i] == (Position {
                        file: pos.file,
                        rank: (pos.rank - 1 - i) as usize,
                    }),
            decreases steps - k,
        {
            v.push(Position::new(pos.file, pos.rank - k));
            k = k + 1;
        }
        proof {
            assert(v@ =~= Seq::new(
                (steps - 1) as nat,
                |i: int| (Position { file: pos.file, rank: (pos.rank - 1 - i) as usize }),
            ));
        }
        Path(v)
    }

    fn right(pos: &Position, steps: usize) -> (p: Path)
        requires
            pos.valid(),
            1 <= steps,
            pos.file + steps < 8,
        ensures
            p.0@ == Seq::new(
                (steps - 1) as nat,
                |i: int| (Position { file: (pos.file + 1 + i) as usize, rank: pos.rank }),
            ),
    {
        let mut v: Vec<Position> = Vec::new();
        let mut k: usize = 1;
        while k < steps
            invariant
                pos.valid(),
                1 <= k <= steps,
                pos.file + steps < 8,
                v@.len() == k - 1,
                forall|i: int|
                    0 <= i < v@.len() ==> v@[i] == (Position {
                        file: (pos.file + 1 + i) as usize,
                        rank: pos.rank,
                    }),
            decreases steps - k,
        {
            v.push(Position::new(pos.file + k, pos.rank));
            k = k + 1;
        }
        proof {
            assert(v@ =~= Seq::new(
                (steps - 1) as nat,
                |i: int| (Position { file: (pos.file + 1 + i) as usize, rank: pos.rank }),
            ));
        }
        Path(v)
    }

    fn left(pos: &Position, steps: usize) -> (p: Path)
        requires
            pos.valid(),
            1 <= steps <= pos.file,
        ensures
            p.0@ == Seq::new(
                (steps - 1) as nat,
                |i: int| (Position { file: (pos.file - 1 - i) as usize, rank: pos.rank }),
            ),
    {
        let mut v: Vec<Position> = Vec::new();
        let mut k: usize = 1;
        while k < steps
            invariant
                pos.valid(),
                1 <= k <= steps <= pos.file,
                v@.len() == k - 1,
                forall|i: int|
                    0 <= i < v@.len() ==> v@[i] == (Position {
                        file: (pos.file - 1 - i) as usize,
                        rank: pos.rank,
                    }),
            decreases steps - k,
        {
            v.push(Position::new(pos.file - k, pos.rank));
            k = k + 1;
        }
        proof {
            assert(v@ =~= Seq::new(
                (steps - 1) as nat,
                |i: int| (Position { file: (pos.file - 1 - i) as usize, rank: pos.rank }),
            ));
        }
        Path(v)
    }

    fn up_right(pos: &Position, steps: usize) -> (p: Path)
        requires
            pos.valid(),
            1 <= steps,
            pos.rank + steps < 8,
            pos.file + steps < 8,
        ensures
            p.0@ == Seq::new(
                (steps - 1) as nat,
                |i: int|
                    (Position {
                        file: (pos.file + 1 + i) as usize,
                        rank: (pos.rank + 1 + i) as usize,
                    }),
            ),
    {
        let mut v: Vec<Position> = Vec::new();
        let mut k: usize = 1;
        while k < steps
            invariant
                pos.valid(),
                1 <= k <= steps,
                pos.rank + steps < 8,
                pos.file + steps < 8,
                v@.len() == k - 1,
                forall|i: int|
                    0 <= i < v@.len() ==> v@[i] == (Position {
                        file: (pos.file + 1 + i) as usize,
                        rank: (pos.rank + 1 + i) as usize,
                    }),
            decreases steps - k,
        {
            v.push(Position::new(pos.file + k, pos.rank + k));
            k = k + 1;
        }
        proof {
            assert(v@ =~= Seq::new(
                (steps - 1) as nat,
                |i: int|
                    (Position {
                        file: (pos.file + 1 + i) as usize,
                        rank: (pos.rank + 1 + i) as usize,
                    }),
            ));
        }
        Path(v)
    }

    fn up_left(pos: &Position, steps: usize) -> (p: Path)
        requires
            pos.valid(),
            1 <= steps <= pos.file,
            pos.rank + steps < 8,
        ensures
            p.0@ == Seq::new(
                (steps - 1) as nat,
                |i: int|
                    (Position {
                        file: (pos.file - 1 - i) as usize,
                        rank: (pos.rank + 1 + i) as usize,
                    }),
            ),
    {
        let mut v: Vec<Position> = Vec::new();
        let mut k: usize = 1;
        while k < steps
            invariant
                pos.valid(),
                1 <= k <= steps <= pos.file,
                pos.rank + steps < 8,
                v@.len() == k - 1,
                forall|i: int|
                    0 <= i < v@.len() ==> v@[i] == (Position {
                        file: (pos.file - 1 - i) as usize,
                        rank: (pos.rank + 1 + i) as usize,
                    }),
            decreases steps - k,
        {
            v.push(Position::new(pos.file - k, pos.rank + k));
            k = k + 1;
        }
        proof {
            assert(v@ =~= Seq::new(
                (steps - 1) as nat,
                |i: int|
                    (Position {
                        file: (pos.file - 1 - i) as usize,
                        rank: (pos.rank + 1 + i) as usize,
                    }),
            ));
        }
        Path(v)
    }

    fn down_right(pos: &Position, steps: usize) -> (p: Path)
        requires
            pos.valid(),
            1 <= steps <= pos.rank,
            pos.file + steps < 8,
        ensures
            p.0@ == Seq::new(
                (steps - 1) as nat,
                |i: int|
                    (Position {
                        file: (pos.file + 1 + i) as usize,
                        rank: (pos.rank - 1 - i) as usize,
                    }),
            ),
    {
        let mut v: Vec<Position> = Vec::new();
        let mut k: usize = 1;
        while k < steps
            invariant
                pos.valid(),
                1 <= k <= steps <= pos.rank,
                pos.file + steps < 8,
                v@.len() == k - 1,
                forall|i: int|
                    0 <= i < v@.len() ==> v@[i] == (Position {
                        file: (pos.file + 1 + i) as usize,
                        rank: (pos.rank - 1 - i) as usize,
                    }),
            decreases steps - k,
        {
            v.push(Position::new(pos.file + k, pos.rank - k));
            k = k + 1;
        }
        proof {
            assert(v@ =~= Seq::new(
                (steps - 1) as nat,
                |i: int|
                    (Position {
                        file: (pos.file + 1 + i) as usize,
                        rank: (pos.rank - 1 - i) as usize,
                    }),
            ));
        }
        Path(v)
    }

    fn down_left(pos: &Position, steps: usize) -> (p: Path)
        requires
            pos.valid(),
            1 <= steps <= pos.rank,
            steps <= pos.file,
        ensures
            p.0@ == Seq::new(
                (steps - 1) as nat,
                |i: int|
                    (Position {
                        file: (pos.file - 1 - i) as usize,
                        rank: (pos.rank - 1 - i) as usize,
                    }),
            ),
    {
        let mut v: Vec<Position> = Vec::new();
        let mut k: usize = 1;
        while k < steps
            invariant
                pos.valid(),
                1 <= k <= steps <= pos.rank,
                steps <= pos.file,
                v@.len() == k - 1,
                forall|i: int|
                    0 <= i < v@.len() ==> v@[i] == (Position {
                        file: (pos.file - 1 - i) as usize,
                        rank: (pos.rank - 1 - i) as usize,
                    }),
            decreases steps - k,
        {
            v.push(Position::new(pos.file - k, pos.rank - k));
            k = k + 1;
        }
        proof {
            assert(v@ =~= Seq::new(
                (steps - 1) as nat,
                |i: int|
                    (Position {
                        file: (pos.file - 1 - i) as usize,
                        rank: (pos.rank - 1 - i) as usize,
                    }),
            ));
        }
        Path(v)
    }
}

} // verus!
