use vstd::prelude::*;
use crate::piece::{Piece, PieceKind, Position, position_of_index, lemma_index_roundtrip, lemma_position_of_index};
use crate::board::Board;

verus! {

/// The square at slot `k` (0 to 8) of the 3×3 block centred on `to`: the
/// file offset is `k / 3 - 1`, the rank offset `k % 3 - 1`; slot 4 is `to`.
pub open spec fn blast_square(to: Position, k: int) -> Position {
    Position { file: (to.file + k / 3 - 1) as u8, rank: (to.rank + k % 3 - 1) as u8 }
}

/// The slot of `p` in the 3×3 block centred on `to`.
pub open spec fn slot_of(to: Position, p: Position) -> int {
    (p.file - to.file + 1) * 3 + (p.rank - to.rank + 1)
}

/// Whether slot `k` holds a square of the board other than the centre.
pub open spec fn slot_on_board(to: Position, k: int) -> bool {
    k != 4 && blast_square(to, k).valid()
}

/// Whether `p` is one of the eight squares around `to`.
pub open spec fn in_blast(to: Position, p: Position) -> bool {
    &&& p != to
    &&& -1 <= p.file - to.file <= 1
    &&& -1 <= p.rank - to.rank <= 1
}

/// Whether an explosion removes what stands on a square: any piece but a pawn.
pub open spec fn destroyable(o: Option<Piece>) -> bool {
    o is Some && o.unwrap().kind != PieceKind::Pawn
}

/// The squares `b` after an explosion centred on `to`: every piece but a pawn
/// on the eight surrounding squares is gone; `to` itself is untouched.
pub open spec fn after_blast(b: Seq<Option<Piece>>, to: Position) -> Seq<Option<Piece>> {
    Seq::new(
        b.len(),
        |i: int|
            if in_blast(to, position_of_index(i)) && destroyable(b[i]) {
                None
            } else {
                b[i]
            },
    )
}

/// The pieces removed from `b` by an explosion centred on `to`, in slot order,
/// counting only the first `k` slots.
pub open spec fn blast_debris(b: Seq<Option<Piece>>, to: Position, k: int) -> Seq<Piece>
    decreases k,
{
    if k <= 0 {
        Seq::empty()
    } else {
        let sq = blast_square(to, k - 1);
        let prev = blast_debris(b, to, k - 1);
        if slot_on_board(to, k - 1) && destroyable(b[sq.index()]) {
            prev.push(b[sq.index()].unwrap())
        } else {
            prev
        }
    }
}

/// The squares `b` with the explosion applied to the first `k` slots only.
pub open spec fn blast_upto(b: Seq<Option<Piece>>, to: Position, k: int, i: int) -> Option<Piece> {
    if in_blast(to, position_of_index(i)) && slot_of(to, position_of_index(i)) < k && destroyable(b[i]) {
        None
    } else {
        b[i]
    }
}

proof fn lemma_slot(to: Position, k: int)
    requires
        to.valid(),
        0 <= k < 9,
    ensures
        slot_on_board(to, k) ==> in_blast(to, blast_square(to, k)) && slot_of(to, blast_square(to, k))
            == k,
        forall|p: Position|
            p.valid() && in_blast(to, p) && slot_of(to, p) == k ==> slot_on_board(to, k) && p
                == blast_square(to, k),
{
    assert forall|p: Position|
        p.valid() && in_blast(to, p) && slot_of(to, p) == k implies slot_on_board(to, k) && p
            == blast_square(to, k) by {
        let x = p.file - to.file + 1;
        let y = p.rank - to.rank + 1;
        assert(0 <= x < 3 && 0 <= y < 3);
        assert(k / 3 == x && k % 3 == y);
    }
}

/// Explodes the eight squares around `to`: each piece but a pawn is taken off
/// `board` and appended to `debris`, in slot order.
pub fn explode(board: &mut Board, to: Position, debris: &mut Vec<Piece>)
    requires
        old(board).wf(),
        to.valid(),
    ensures
        final(board).wf(),
        final(board)@ == after_blast(old(board)@, to),
        final(debris)@ == old(debris)@ + blast_debris(old(board)@, to, 9),
{
    let ghost b0 = board@;
    let ghost d0 = debris@;
    let mut k: u8 = 0;
    while k < 9
        invariant
            board.wf(),
            to.valid(),
            b0.len() == 64,
            k <= 9,
            forall|i: int| 0 <= i < 64 ==> #[trigger] board@[i] == blast_upto(b0, to, k as int, i),
            debris@ == d0 + blast_debris(b0, to, k as int),
        decreases 9 - k,
    {
        proof {
            lemma_slot(to, k as int);
        }
        let ghost before_step = board@;
        let ghost d_before = debris@;
        let df: u8 = k / 3;
        let dr: u8 = k % 3;
        if k != 4 {
            let f: u8 = to.file + df - 1;
            let r: u8 = to.rank + dr - 1;
            if 1 <= f && f <= 8 && 1 <= r && r <= 8 {
                let p = Position { file: f, rank: r };
                assert(p == blast_square(to, k as int));
                proof {
                    lemma_index_roundtrip(p);
                }
                match board.at(p) {
                    Some(pc) => {
                        if pc.kind != PieceKind::Pawn {
                            assert(before_step[p.index()] == b0[p.index()]);
                            debris.push(pc);
                            board.clear(p);
                        }
                    },
                    None => {},
                }
                assert forall|i: int| 0 <= i < 64 implies #[trigger] board@[i] == blast_upto(
                    b0,
                    to,
                    k + 1,
                    i,
                ) by {
                    lemma_position_of_index(i);
                    if i == p.index() {
                        assert(position_of_index(i) == p);
                        assert(before_step[i] == b0[i]);
                    } else {
                        assert(position_of_index(i) != p);
                    }
                }
            } else {
                assert forall|i: int| 0 <= i < 64 implies #[trigger] board@[i] == blast_upto(
                    b0,
                    to,
                    k + 1,
                    i,
                ) by {
                    lemma_position_of_index(i);
                    assert(before_step[i] == blast_upto(b0, to, k as int, i));
                }
            }
        } else {
            assert forall|i: int| 0 <= i < 64 implies #[trigger] board@[i] == blast_upto(
                b0,
                to,
                k + 1,
                i,
            ) by {
                lemma_position_of_index(i);
                assert(before_step[i] == blast_upto(b0, to, k as int, i));
            }
        }
        assert(debris@ =~= d0 + blast_debris(b0, to, k + 1));
        k = k + 1;
    }
    assert(board@ =~= after_blast(b0, to)) by {
        assert forall|i: int| 0 <= i < 64 implies board@[i] == after_blast(b0, to)[i] by {
            lemma_position_of_index(i);
            assert(board@[i] == blast_upto(b0, to, 9, i));
            if in_blast(to, position_of_index(i)) {
                let p = position_of_index(i);
                assert(0 <= slot_of(to, p) < 9);
            }
        }
    }
}

} // verus!
