use vstd::prelude::*;
use crate::piece::{Color, Piece, PieceKind, Position, is_center_square, position_of_index};

verus! {

/// What stands on each square, in the order of `Position::index`.
///
/// The library's copy of the occupancy map that the base chess engine owns; it
/// is handed in before a move is resolved and handed back afterwards.
pub struct Board {
    squares: Vec<Option<Piece>>,
}

impl View for Board {
    type V = Seq<Option<Piece>>;

    closed spec fn view(&self) -> Seq<Option<Piece>> {
        self.squares@
    }
}

/// Whether `piece` stands anywhere on the squares `b`.
pub open spec fn occurs(b: Seq<Option<Piece>>, piece: Piece) -> bool {
    exists|i: int| 0 <= i < b.len() && #[trigger] b[i] == Some(piece)
}

/// Whether the king of `c` stands on one of the four centre squares.
pub open spec fn king_on_hill(b: Seq<Option<Piece>>, c: Color) -> bool {
    exists|i: int|
        0 <= i < b.len() && #[trigger] b[i] == Some(Piece { kind: PieceKind::King, color: c })
            && is_center_square(position_of_index(i))
}

impl Board {
    pub open spec fn wf(&self) -> bool {
        self@.len() == 64
    }

    pub open spec fn piece_at(&self, p: Position) -> Option<Piece> {
        self@[p.index()]
    }

    /// A board with no pieces.
    pub fn empty() -> (r: Board)
        ensures
            r.wf(),
            forall|i: int| 0 <= i < 64 ==> r@[i].is_none(),
    {
        let mut squares: Vec<Option<Piece>> = Vec::new();
        let mut i: usize = 0;
        while i < 64
            invariant
                i <= 64,
                squares@.len() == i,
                forall|j: int| 0 <= j < i ==> squares@[j].is_none(),
            decreases 64 - i,
        {
            squares.push(None);
            i = i + 1;
        }
        Board { squares }
    }

    /// What stands on `p`.
    pub fn at(&self, p: Position) -> (r: Option<Piece>)
        requires
            self.wf(),
            p.valid(),
        ensures
            r == self.piece_at(p),
    {
        let idx: usize = (p.rank as usize - 1) * 8 + (p.file as usize - 1);
        self.squares[idx]
    }

    /// Puts `v` on `p`, leaving every other square as it was.
    pub fn set(&mut self, p: Position, v: Option<Piece>)
        requires
            old(self).wf(),
            p.valid(),
        ensures
            final(self).wf(),
            final(self)@ == old(self)@.update(p.index(), v),
    {
        let idx: usize = (p.rank as usize - 1) * 8 + (p.file as usize - 1);
        self.squares.set(idx, v);
    }

    /// Puts `piece` on `p`.
    pub fn place(&mut self, p: Position, piece: Piece)
        requires
            old(self).wf(),
            p.valid(),
        ensures
            final(self).wf(),
            final(self)@ == old(self)@.update(p.index(), Some(piece)),
    {
        self.set(p, Some(piece));
    }

    /// Empties `p`.
    pub fn clear(&mut self, p: Position)
        requires
            old(self).wf(),
            p.valid(),
        ensures
            final(self).wf(),
            final(self)@ == old(self)@.update(p.index(), None),
    {
        self.set(p, None);
    }

    /// Whether `piece` (kind and color) stands on any square.
    pub fn contains_piece(&self, piece: Piece) -> (r: bool)
        requires
            self.wf(),
        ensures
            r == occurs(self@, piece),
    {
        let mut i: usize = 0;
        while i < 64
            invariant
                self.wf(),
                i <= 64,
                forall|j: int| 0 <= j < i ==> self@[j] != Some(piece),
            decreases 64 - i,
        {
            if self.squares[i] == Some(piece) {
                return true;
            }
            i = i + 1;
        }
        false
    }

    /// Whether the king of `c` stands on d4, e4, d5 or e5.
    pub fn king_on_center(&self, c: Color) -> (r: bool)
        requires
            self.wf(),
        ensures
            r == king_on_hill(self@, c),
    {
        let king = Piece { kind: PieceKind::King, color: c };
        let centre: [usize; 4] = [27, 28, 35, 36];
        let mut k: usize = 0;
        while k < 4
            invariant
                self.wf(),
                k <= 4,
                king == (Piece { kind: PieceKind::King, color: c }),
                centre@ == seq![27usize, 28, 35, 36],
                forall|j: int| 0 <= j < k ==> self@[centre@[j] as int] != Some(king),
            decreases 4 - k,
        {
            if self.squares[centre[k]] == Some(king) {
                let ghost w: int = centre@[k as int] as int;
                assert(w == 27 || w == 28 || w == 35 || w == 36);
                assert(self@[w] == Some(king));
                assert(is_center_square(position_of_index(w)));
                return true;
            }
            k = k + 1;
        }
        assert forall|i: int|
            0 <= i < 64 && is_center_square(position_of_index(i)) implies self@[i] != Some(king) by {
            assert(i == 27 || i == 28 || i == 35 || i == 36);
            if i == 27 {
                assert(centre@[0] == 27);
            } else if i == 28 {
                assert(centre@[1] == 28);
            } else if i == 35 {
                assert(centre@[2] == 35);
            } else {
                assert(centre@[3] == 36);
            }
        }
        false
    }
}

/// The board coordinates of the tile with number `x`, counted row by row
/// from the top-left corner of the drawn board (a8 is tile 0, h1 is tile 63).
pub fn int_to_pos_tuple(x: isize) -> (r: (isize, isize))
    requires
        0 <= x < 64,
    ensures
        r.0 == x % 8 + 1,
        r.1 == 8 - x / 8,
        1 <= r.0 <= 8,
        1 <= r.1 <= 8,
{
    let pos_x = x % 8;
    let pos_y = x / 8;
    (pos_x + 1, 9 - (pos_y + 1))
}

} // verus!
