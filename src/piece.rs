use vstd::prelude::*;

verus! {

/// The two sides of a chess game.
#[derive(Clone, Copy, Debug, PartialEq, Eq, Hash, Structural)]
pub enum Color {
    White,
    Black,
}

impl Color {
    pub open spec fn opp(self) -> Color {
        match self {
            Color::White => Color::Black,
            Color::Black => Color::White,
        }
    }

    /// The other side.
    pub fn opponent(self) -> (r: Color)
        ensures
            r == self.opp(),
    {
        match self {
            Color::White => Color::Black,
            Color::Black => Color::White,
        }
    }
}

/// The kind of a chess piece, regardless of its color.
#[derive(Clone, Copy, Debug, PartialEq, Eq, Hash, Structural)]
pub enum PieceKind {
    King,
    Queen,
    Rook,
    Bishop,
    Knight,
    Pawn,
}

/// A piece: a kind paired with a color.
#[derive(Clone, Copy, Debug, PartialEq, Eq, Hash, Structural)]
pub struct Piece {
    pub kind: PieceKind,
    pub color: Color,
}

impl Piece {
    pub fn new(kind: PieceKind, color: Color) -> (r: Piece)
        ensures
            r.kind == kind,
            r.color == color,
    {
        Piece { kind, color }
    }

    /// The color of the piece.
    pub fn colour(&self) -> (r: Color)
        ensures
            r == self.color,
    {
        self.color
    }

    /// The same kind of piece, in the given color.
    pub fn type_as_colour(&self, col: Color) -> (r: Piece)
        ensures
            r.kind == self.kind,
            r.color == col,
    {
        Piece { kind: self.kind, color: col }
    }
}

/// A square of the board: `file` and `rank` each run from 1 to 8.
#[derive(Clone, Copy, Debug, PartialEq, Eq, Hash, Structural)]
pub struct Position {
    pub file: u8,
    pub rank: u8,
}

impl Position {
    pub open spec fn valid(self) -> bool {
        1 <= self.file <= 8 && 1 <= self.rank <= 8
    }

    /// The index of the square in rank-major order, from 0 (a1) to 63 (h8).
    pub open spec fn index(self) -> int {
        (self.rank as int - 1) * 8 + (self.file as int - 1)
    }

    pub fn new(file: u8, rank: u8) -> (r: Position)
        ensures
            r.file == file,
            r.rank == rank,
    {
        Position { file, rank }
    }

    /// Whether both coordinates lie on the board.
    pub fn is_valid(&self) -> (r: bool)
        ensures
            r == self.valid(),
    {
        1 <= self.file && self.file <= 8 && 1 <= self.rank && self.rank <= 8
    }

    /// Whether the square is one of the four centre squares d4, e4, d5, e5.
    pub fn is_center(&self) -> (r: bool)
        ensures
            r == is_center_square(*self),
    {
        (self.file == 4 || self.file == 5) && (self.rank == 4 || self.rank == 5)
    }
}

pub open spec fn is_center_square(p: Position) -> bool {
    (p.file == 4 || p.file == 5) && (p.rank == 4 || p.rank == 5)
}

pub open spec fn position_of_index(i: int) -> Position {
    Position { file: (i % 8 + 1) as u8, rank: (i / 8 + 1) as u8 }
}

pub proof fn lemma_index_roundtrip(p: Position)
    requires
        p.valid(),
    ensures
        0 <= p.index() < 64,
        position_of_index(p.index()) == p,
{
}

pub proof fn lemma_position_of_index(i: int)
    requires
        0 <= i < 64,
    ensures
        position_of_index(i).valid(),
        position_of_index(i).index() == i,
{
}

} // verus!
