use vstd::prelude::*;

verus! {

/// Number of files (columns) and ranks (rows) on the board.
pub const BOARD_SIZE: usize = 8;

/// Number of squares on the board.
pub const SQUARE_COUNT: usize = 64;

/// A square of the board, addressed by row (rank index, 0 is rank 1) and
/// column (file index, 0 is file A).
#[derive(Clone, Copy, Debug, PartialEq, Eq, Structural)]
pub struct Position {
    pub row: i8,
    pub col: i8,
}

impl Position {
    /// Whether both coordinates address a square of the board.
    pub open spec fn on_board(self) -> bool {
        0 <= self.row < 8 && 0 <= self.col < 8
    }

    /// Index of the square in row-major order (row 0 first).
    pub open spec fn index(self) -> int {
        self.row * 8 + self.col
    }

    pub fn is_on_board(&self) -> (r: bool)
        ensures
            r == self.on_board(),
    {
        0 <= self.row && self.row < 8 && 0 <= self.col && self.col < 8
    }

    pub fn new(row: i8, col: i8) -> (r: Position)
        ensures
            r.row == row,
            r.col == col,
    {
        Position { row, col }
    }
}

/// The kind of a chess piece.
#[derive(Clone, Copy, Debug, PartialEq, Eq, Structural)]
pub enum PieceType {
    Pawn,
    Knight,
    Bishop,
    Rook,
    Queen,
    King,
}

/// The side a piece belongs to.
#[derive(Clone, Copy, Debug, PartialEq, Eq, Structural)]
pub enum Color {
    White,
    Black,
}

/// A piece standing on a square.
#[derive(Clone, Copy, Debug, PartialEq, Eq, Structural)]
pub struct Piece {
    pub piece_type: PieceType,
    pub color: Color,
}

/// How a finished game ended.
#[derive(Clone, Copy, Debug, PartialEq, Eq, Structural)]
pub enum GameResult {
    /// The given side delivered mate.
    Checkmate(Color),
    Stalemate,
}

/// A snapshot of the board: what stands on each of the 64 squares.
#[derive(Debug)]
pub struct Board {
    squares: Vec<Option<Piece>>,
}

impl View for Board {
    type V = Seq<Option<Piece>>;

    closed spec fn view(&self) -> Seq<Option<Piece>> {
        self.squares@
    }
}

impl Board {
    /// A board has exactly one entry per square.
    pub open spec fn wf(&self) -> bool {
        self@.len() == 64
    }

    /// The occupant of `pos` in the board's view.
    pub open spec fn at(self, pos: Position) -> Option<Piece> {
        self@[pos.index()]
    }

    /// A board with no piece on it.
    pub fn empty() -> (r: Board)
        ensures
            r.wf(),
            r@ == Seq::new(64, |i: int| None::<Piece>),
    {
        let mut squares: Vec<Option<Piece>> = Vec::new();
        while squares.len() < SQUARE_COUNT
            invariant
                squares.len() <= 64,
                forall|i: int| 0 <= i < squares.len() ==> squares@[i] is None,
            decreases 64 - squares.len(),
        {
            squares.push(None);
        }
        let r = Board { squares };
        assert(r@ =~= Seq::new(64, |i: int| None::<Piece>));
        r
    }

    /// A board whose squares are those of `squares` in row-major order, or
    /// `None` unless exactly 64 squares are given.
    pub fn from_squares(squares: Vec<Option<Piece>>) -> (r: Option<Board>)
        ensures
            squares@.len() == 64 <==> r is Some,
            r matches Some(b) ==> b.wf() && b@ == squares@,
    {
        if squares.len() == SQUARE_COUNT {
            Some(Board { squares })
        } else {
            None
        }
    }

    /// The number of squares held: 64 for every board built here.
    pub fn square_count(&self) -> (r: usize)
        ensures
            r == self@.len(),
    {
        self.squares.len()
    }

    /// What stands on `pos`.
    pub fn get(&self, pos: Position) -> (r: Option<Piece>)
        requires
            self.wf(),
            pos.on_board(),
        ensures
            r == self.at(pos),
    {
        self.squares[(pos.row as usize) * BOARD_SIZE + pos.col as usize]
    }

    /// Puts `square` on `pos`, leaving every other square as it was.
    pub fn set(&mut self, pos: Position, square: Option<Piece>)
        requires
            old(self).wf(),
            pos.on_board(),
        ensures
            final(self)@ == old(self)@.update(pos.index(), square),
    {
        let i = (pos.row as usize) * BOARD_SIZE + pos.col as usize;
        self.squares.set(i, square);
    }
}

} // verus!
