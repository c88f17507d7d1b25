use vstd::prelude::*;
use crate::piece::{Color, Piece, PieceKind, Position, position_of_index, lemma_index_roundtrip};
use crate::board::occurs;
use crate::modifier::Modifier;
use crate::blast::{after_blast, in_blast};
use crate::generator::{drawn, lemma_collect_fresh};
use crate::game::Match;
use crate::resolver::{
    move_accepted,
    captured_piece,
    sniper_fires,
    atomic_fires,
    extinction_fires,
    effects_board,
    taken_pieces,
};

verus! {

/// A move whose destination is not among the base engine's legal
/// destinations is never accepted, so `Match::resolve_move` leaves the match
/// (piles, counters, modifier sets) and the board as they were.
pub proof fn law_illegal_move_rejected(
    m: Match,
    before: Seq<Option<Piece>>,
    mover: Color,
    from: Position,
    to: Position,
    legal: Seq<Position>,
)
    requires
        !legal.contains(to),
    ensures
        !move_accepted(m, before, mover, from, to, legal),
{
}

/// An explosion never removes a pawn and never touches the square it is
/// centred on; after a move, the landing square is emptied only by Sniper.
pub proof fn law_blast_spares_pawns_and_landing(
    m: Match,
    before: Seq<Option<Piece>>,
    after: Seq<Option<Piece>>,
    mover: Color,
    from: Position,
    to: Position,
)
    requires
        after.len() == 64,
        from.valid(),
        to.valid(),
    ensures
        forall|i: int|
            0 <= i < 64 && after[i] is Some && after[i].unwrap().kind == PieceKind::Pawn
                ==> #[trigger] after_blast(after, to)[i] == after[i],
        after_blast(after, to)[to.index()] == after[to.index()],
        effects_board(m, before, after, mover, from, to)[to.index()] == if sniper_fires(
            m,
            mover,
            before[from.index()].unwrap(),
            captured_piece(before, mover, to),
        ) {
            None
        } else {
            after[to.index()]
        },
{
    lemma_index_roundtrip(to);
    lemma_index_roundtrip(from);
    let piece = before[from.index()].unwrap();
    let cap = captured_piece(before, mover, to);
    let b1 = if sniper_fires(m, mover, piece, cap) {
        after.update(from.index(), after[to.index()]).update(to.index(), None)
    } else {
        after
    };
    assert(!in_blast(to, position_of_index(to.index())));
    assert(after_blast(b1, to)[to.index()] == b1[to.index()]);
}

/// Sniper: when the engine has moved the piece from `from` onto `to`, the
/// piece stands on `from` again after the move, `to` is empty, and the
/// defending piece heads what joins the pile of its color. (When Atomic also
/// fires and `from` borders `to`, the explosion may remove the piece again.)
pub proof fn law_sniper_stays_home(
    m: Match,
    before: Seq<Option<Piece>>,
    after: Seq<Option<Piece>>,
    mover: Color,
    from: Position,
    to: Position,
)
    requires
        before.len() == 64,
        after.len() == 64,
        from.valid(),
        to.valid(),
        from != to,
        before[from.index()] is Some,
        before[from.index()].unwrap().color == mover,
        after[to.index()] == before[from.index()],
        sniper_fires(m, mover, before[from.index()].unwrap(), captured_piece(before, mover, to)),
        !(atomic_fires(m, mover, before[from.index()].unwrap(), captured_piece(before, mover, to))
            && in_blast(to, from)),
    ensures
        ({
            let b = effects_board(m, before, after, mover, from, to);
            let t = taken_pieces(m, before, after, mover, from, to);
            &&& b[from.index()] == before[from.index()]
            &&& b[to.index()] is None
            &&& before[to.index()] is Some
            &&& before[to.index()].unwrap().color == mover.opp()
            &&& t.len() >= 1
            &&& t[0] == before[to.index()].unwrap()
        }),
{
    lemma_index_roundtrip(to);
    lemma_index_roundtrip(from);
    let b1 = after.update(from.index(), after[to.index()]).update(to.index(), None);
    assert(from.index() != to.index());
    assert(b1[from.index()] == before[from.index()]);
    assert(position_of_index(from.index()) == from);
    if atomic_fires(m, mover, before[from.index()].unwrap(), captured_piece(before, mover, to)) {
        assert(!in_blast(to, from));
        assert(after_blast(b1, to)[from.index()] == b1[from.index()]);
    }
    assert(after_blast(b1, to)[to.index()] == b1[to.index()]) by {
        assert(position_of_index(to.index()) == to);
    }
}

/// Extinction fires exactly when the mover holds Extinction for the defending
/// piece and, with that piece taken off the board, none of its kind and color
/// is left. `b` is the board after the move's other effects, on which the
/// mover's piece stands on `to` or `to` is empty.
pub proof fn law_extinction_exact(
    m: Match,
    mover: Color,
    defender: Piece,
    b: Seq<Option<Piece>>,
    to: Position,
)
    requires
        b.len() == 64,
        to.valid(),
        defender.color == mover.opp(),
        b[to.index()] is None || b[to.index()].unwrap().color == mover,
    ensures
        extinction_fires(m, mover, Some(defender), b) <==> (m.mods(mover)@.contains(
            Modifier::Extinction(defender),
        ) && !occurs(b.update(to.index(), Some(defender)).update(to.index(), None), defender)),
{
    lemma_index_roundtrip(to);
    let h = b.update(to.index(), Some(defender)).update(to.index(), None);
    assert(occurs(b, defender) ==> occurs(h, defender)) by {
        if occurs(b, defender) {
            let i = choose|i: int| 0 <= i < b.len() && #[trigger] b[i] == Some(defender);
            assert(i != to.index());
            assert(h[i] == Some(defender));
        }
    }
    assert(occurs(h, defender) ==> occurs(b, defender)) by {
        if occurs(h, defender) {
            let i = choose|i: int| 0 <= i < h.len() && #[trigger] h[i] == Some(defender);
            assert(i != to.index());
            assert(b[i] == Some(defender));
        }
    }
}

/// A reward draw never offers a modifier that the recipient already holds,
/// and never offers one modifier twice.
pub proof fn law_candidates_fresh(recipient: Color, existing: Set<Modifier>, dice: Seq<(u64, u64)>)
    ensures
        drawn(recipient, existing, dice).no_duplicates(),
        forall|i: int|
            0 <= i < drawn(recipient, existing, dice).len() ==> !existing.contains(
                #[trigger] drawn(recipient, existing, dice)[i],
            ),
{
    lemma_collect_fresh(recipient, existing, Seq::empty(), dice + crate::generator::sweep());
}

} // verus!
