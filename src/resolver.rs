use vstd::prelude::*;
use crate::piece::{Color, Piece, PieceKind, Position};
use crate::board::{Board, occurs, king_on_hill};
use crate::modifier::Modifier;
use crate::blast::{explode, after_blast, blast_debris};
use crate::game::{Match, MatchState, CHECKS_TO_WIN, bump};

verus! {

/// What came of a proposed move.
#[derive(Clone, Copy, Debug, PartialEq, Eq, Structural)]
pub struct MoveOutcome {
    /// Whether the move was carried out.
    pub committed: bool,
    /// `Some(winner)` when the move ended the round (`winner` is `None` when
    /// nobody won it).
    pub round_end: Option<Option<Color>>,
}

/// Whether a move of `mover` from `from` to `to` is accepted: a round is under
/// way, both squares are on the board, `to` is among the base engine's legal
/// destinations `legal`, and a piece of `mover` stands on `from`.
pub open spec fn move_accepted(
    m: Match,
    before: Seq<Option<Piece>>,
    mover: Color,
    from: Position,
    to: Position,
    legal: Seq<Position>,
) -> bool {
    &&& m.state is Playing
    &&& from.valid()
    &&& to.valid()
    &&& legal.contains(to)
    &&& before[from.index()] is Some
    &&& before[from.index()].unwrap().color == mover
}

/// The defending piece when the move is a taking move: a piece of the other
/// color stands on `to`.
pub open spec fn captured_piece(before: Seq<Option<Piece>>, mover: Color, to: Position) -> Option<
    Piece,
> {
    match before[to.index()] {
        Some(p) => if p.color == mover.opp() {
            Some(p)
        } else {
            None
        },
        None => None,
    }
}

/// Whether `mover` holds Sniper for `piece` and the move takes.
pub open spec fn sniper_fires(m: Match, mover: Color, piece: Piece, cap: Option<Piece>) -> bool {
    cap is Some && m.mods(mover)@.contains(Modifier::Sniper(piece))
}

/// Whether `mover` holds Atomic for `piece` and the move takes.
pub open spec fn atomic_fires(m: Match, mover: Color, piece: Piece, cap: Option<Piece>) -> bool {
    cap is Some && m.mods(mover)@.contains(Modifier::Atomic(piece))
}

/// `after` with the piece on `to` put back on `from` and `to` emptied.
pub open spec fn snipe_back(after: Seq<Option<Piece>>, from: Position, to: Position) -> Seq<
    Option<Piece>,
> {
    after.update(from.index(), after[to.index()]).update(to.index(), None)
}

/// The verdict of an explosion on the squares `b` it left: a side without a
/// king loses; with neither king left nobody wins.
pub open spec fn kings_verdict(b: Seq<Option<Piece>>) -> Option<Option<Color>> {
    let white = occurs(b, Piece { kind: PieceKind::King, color: Color::White });
    let black = occurs(b, Piece { kind: PieceKind::King, color: Color::Black });
    if !white && !black {
        Some(None)
    } else if !white {
        Some(Some(Color::Black))
    } else if !black {
        Some(Some(Color::White))
    } else {
        None
    }
}

/// Whether Extinction wins for `mover`: the defending piece `cap` is one that
/// `mover` holds Extinction for, and none of its kind and color is left on `b`.
pub open spec fn extinction_fires(m: Match, mover: Color, cap: Option<Piece>, b: Seq<Option<Piece>>) -> bool {
    &&& cap is Some
    &&& m.mods(mover)@.contains(Modifier::Extinction(cap.unwrap()))
    &&& !occurs(b, cap.unwrap())
}

/// Whether the move counts towards Triple-Check: the defender holds
/// Triple-Check for the moving piece and the engine reports a check that the
/// moved piece gives.
pub open spec fn triple_check_hit(m: Match, mover: Color, piece: Piece, checking: bool) -> bool {
    checking && m.mods(mover.opp())@.contains(Modifier::TripleCheck(piece))
}

/// Who wins by King-of-the-Hill: the side whose king stands on a centre
/// square, looking at the mover's king first.
pub open spec fn hill_verdict(b: Seq<Option<Piece>>, mover: Color) -> Option<Option<Color>> {
    if king_on_hill(b, mover) {
        Some(Some(mover))
    } else if king_on_hill(b, mover.opp()) {
        Some(Some(mover.opp()))
    } else {
        None
    }
}

/// The board once the modifiers have acted on the committed move: `after` is
/// the base engine's board after the move, `before` the board before it.
pub open spec fn effects_board(
    m: Match,
    before: Seq<Option<Piece>>,
    after: Seq<Option<Piece>>,
    mover: Color,
    from: Position,
    to: Position,
) -> Seq<Option<Piece>> {
    let piece = before[from.index()].unwrap();
    let cap = captured_piece(before, mover, to);
    let b1 = if sniper_fires(m, mover, piece, cap) {
        snipe_back(after, from, to)
    } else {
        after
    };
    if atomic_fires(m, mover, piece, cap) {
        after_blast(b1, to)
    } else {
        b1
    }
}

/// The pieces that the committed move takes off the board, in the order in
/// which they join the opponent's pile: the defending piece, then what the
/// explosion removed.
pub open spec fn taken_pieces(
    m: Match,
    before: Seq<Option<Piece>>,
    after: Seq<Option<Piece>>,
    mover: Color,
    from: Position,
    to: Position,
) -> Seq<Piece> {
    let piece = before[from.index()].unwrap();
    let cap = captured_piece(before, mover, to);
    let b1 = if sniper_fires(m, mover, piece, cap) {
        snipe_back(after, from, to)
    } else {
        after
    };
    let first = match cap {
        Some(p) => seq![p],
        None => Seq::empty(),
    };
    if atomic_fires(m, mover, piece, cap) {
        first + blast_debris(b1, to, 9)
    } else {
        first
    }
}

/// The win, if any, that one of the steps before Triple-Check declares:
/// the explosion's, then Extinction's.
pub open spec fn early_verdict(
    m: Match,
    before: Seq<Option<Piece>>,
    after: Seq<Option<Piece>>,
    mover: Color,
    from: Position,
    to: Position,
) -> Option<Option<Color>> {
    let piece = before[from.index()].unwrap();
    let cap = captured_piece(before, mover, to);
    let b = effects_board(m, before, after, mover, from, to);
    if atomic_fires(m, mover, piece, cap) && kings_verdict(b) is Some {
        kings_verdict(b)
    } else if extinction_fires(m, mover, cap, b) {
        Some(Some(mover))
    } else {
        None
    }
}

/// Whether the move raises the mover's Triple-Check counter: no earlier step
/// ended the round and the move counts towards Triple-Check.
pub open spec fn counts_check(
    m: Match,
    before: Seq<Option<Piece>>,
    after: Seq<Option<Piece>>,
    mover: Color,
    from: Position,
    to: Position,
    checking: bool,
) -> bool {
    early_verdict(m, before, after, mover, from, to) is None && triple_check_hit(
        m,
        mover,
        before[from.index()].unwrap(),
        checking,
    )
}

/// How the committed move ends the round, if it does: the first of the
/// explosion, Extinction, Triple-Check and King-of-the-Hill to declare a win.
pub open spec fn move_verdict(
    m: Match,
    before: Seq<Option<Piece>>,
    after: Seq<Option<Piece>>,
    mover: Color,
    from: Position,
    to: Position,
    checking: bool,
) -> Option<Option<Color>> {
    let early = early_verdict(m, before, after, mover, from, to);
    let b = effects_board(m, before, after, mover, from, to);
    if early is Some {
        early
    } else if counts_check(m, before, after, mover, from, to, checking) && m.checks(mover) + 1 >= 3 {
        Some(Some(mover))
    } else {
        hill_verdict(b, mover)
    }
}

/// Whether `to` is among `legal`.
fn listed(legal: &Vec<Position>, to: Position) -> (r: bool)
    ensures
        r == legal@.contains(to),
{
    let mut i: usize = 0;
    while i < legal.len()
        invariant
            i <= legal@.len(),
            forall|j: int| 0 <= j < i ==> legal@[j] != to,
        decreases legal@.len() - i,
    {
        if legal[i] == to {
            assert(legal@[i as int] == to);
            return true;
        }
        i = i + 1;
    }
    false
}

/// The verdict of the kings left on `board`, as `kings_verdict` states it.
fn judge_kings(board: &Board) -> (r: Option<Option<Color>>)
    requires
        board.wf(),
    ensures
        r == kings_verdict(board@),
{
    let white = board.contains_piece(Piece { kind: PieceKind::King, color: Color::White });
    let black = board.contains_piece(Piece { kind: PieceKind::King, color: Color::Black });
    if !white && !black {
        Some(None)
    } else if !white {
        Some(Some(Color::Black))
    } else if !black {
        Some(Some(Color::White))
    } else {
        None
    }
}

/// Whether a piece of `mover` may be dropped from the opponent's pile: a round
/// is under way, `to` is an empty square of the board, and `mover` holds
/// CrazyHouse for the piece at `index` of the pile of the opponent's color.
pub open spec fn drop_allowed(m: Match, board: Seq<Option<Piece>>, mover: Color, index: int, to: Position) -> bool {
    &&& m.state is Playing
    &&& to.valid()
    &&& board[to.index()] is None
    &&& 0 <= index < m.pile(mover.opp()).len()
    &&& m.mods(mover)@.contains(Modifier::CrazyHouse(m.pile(mover.opp())[index]))
}

impl Match {
    /// Whether `c` holds `m`.
    pub fn holds(&self, c: Color, m: Modifier) -> (r: bool)
        requires
            self.wf(),
        ensures
            r == self.mods(c)@.contains(m),
    {
        match c {
            Color::White => self.white_mods.contains(m),
            Color::Black => self.black_mods.contains(m),
        }
    }

    /// Whether the move of `mover` from `from` to `to` is accepted on `board`,
    /// given the base engine's legal destinations `legal` for the piece on
    /// `from`. Only an accepted move is to be handed to the engine.
    pub fn check_move(&self, board: &Board, mover: Color, from: Position, to: Position, legal: &Vec<Position>) -> (r: bool)
        requires
            board.wf(),
        ensures
            r == move_accepted(*self, board@, mover, from, to, legal@),
    {
        if !self.is_playing() || !from.is_valid() || !to.is_valid() {
            return false;
        }
        if !listed(legal, to) {
            return false;
        }
        match board.at(from) {
            Some(p) => p.color == mover,
            None => false,
        }
    }

    /// Resolves a move of `mover` from `from` to `to` around the base engine.
    ///
    /// `before` is the board before the move and `legal` the engine's legal
    /// destinations for the piece on `from`. `committed` says whether the
    /// engine carried the move out, `after` is its board afterwards, and
    /// `checking` whether the engine now reports check given by the moved
    /// piece. A move that is not accepted, or that the engine did not carry
    /// out, changes nothing. Otherwise, in this order: the defending piece of a
    /// taking move joins the opponent's pile; Sniper puts the moving piece back
    /// on `from` and empties `to`; Atomic removes every piece but pawns from
    /// the eight squares around `to` into the opponent's pile and a side left
    /// without its king loses; Extinction wins when no piece of the defending
    /// piece's kind and color is left; Triple-Check counts the check and wins
    /// at the third; a king on a centre square wins for its side, whether or
    /// not anyone holds King-of-the-Hill. The first win ends the round and the
    /// later steps are skipped. Every effect acts only after the engine has
    /// carried the move out, so a move it refuses leaves no trace.
    pub fn resolve_move(
        &mut self,
        before: &Board,
        after: &mut Board,
        mover: Color,
        from: Position,
        to: Position,
        legal: &Vec<Position>,
        committed: bool,
        checking: bool,
    ) -> (r: MoveOutcome)
        requires
            old(self).wf(),
            before.wf(),
            old(after).wf(),
        ensures
            final(self).wf(),
            final(after).wf(),
            r.committed == (move_accepted(*old(self), before@, mover, from, to, legal@) && committed),
            !r.committed ==> r.round_end is None && *final(self) == *old(self) && final(after)@
                == old(after)@,
            forall|c: Color|
                #[trigger] final(self).checks(c) != old(self).checks(c) ==> old(self).state is Playing
                    && r.committed && c == mover && final(self).checks(c) == old(self).checks(c) + 1,
            r.committed ==> {
                let m = *old(self);
                let opp = mover.opp();
                let v = move_verdict(m, before@, old(after)@, mover, from, to, checking);
                &&& final(after)@ == effects_board(m, before@, old(after)@, mover, from, to)
                &&& r.round_end == v
                &&& final(self).pile(opp) == m.pile(opp) + taken_pieces(
                    m,
                    before@,
                    old(after)@,
                    mover,
                    from,
                    to,
                )
                &&& final(self).pile(mover) == m.pile(mover)
                &&& final(self).checks(mover) == if counts_check(
                    m,
                    before@,
                    old(after)@,
                    mover,
                    from,
                    to,
                    checking,
                ) {
                    m.checks(mover) + 1
                } else {
                    m.checks(mover) as int
                }
                &&& final(self).checks(opp) == m.checks(opp)
                &&& final(self).white_mods == m.white_mods
                &&& final(self).black_mods == m.black_mods
                &&& final(self).state == match v {
                    Some(w) => MatchState::RoundEnded { winner: w },
                    None => MatchState::Playing,
                }
                &&& final(self).wins(mover) == if v == Some(Some(mover)) {
                    bump(m.wins(mover))
                } else {
                    m.wins(mover)
                }
                &&& final(self).wins(opp) == if v == Some(Some(opp)) {
                    bump(m.wins(opp))
                } else {
                    m.wins(opp)
                }
            },
    {
        if !committed || !self.check_move(before, mover, from, to, legal) {
            return MoveOutcome { committed: false, round_end: None };
        }
        let ghost m = *self;
        let ghost after0 = after@;
        let opp = mover.opponent();
        let piece = before.at(from).unwrap();
        let cap: Option<Piece> = match before.at(to) {
            Some(p) => if p.color == opp {
                Some(p)
            } else {
                None
            },
            None => None,
        };
        assert(cap == captured_piece(before@, mover, to));
        if let Some(p) = cap {
            match opp {
                Color::White => self.white_pile.push(p),
                Color::Black => self.black_pile.push(p),
            }
        }
        let sniper = cap.is_some() && self.holds(mover, Modifier::Sniper(piece));
        let atomic = cap.is_some() && self.holds(mover, Modifier::Atomic(piece));
        if sniper {
            let back = after.at(to);
            after.set(from, back);
            after.clear(to);
        }
        let ghost b1 = after@;
        let ghost pile1 = self.pile(opp);
        let mut verdict: Option<Option<Color>> = None;
        if atomic {
            match opp {
                Color::White => explode(after, to, &mut self.white_pile),
                Color::Black => explode(after, to, &mut self.black_pile),
            }
            verdict = judge_kings(after);
        }
        assert(after@ == effects_board(m, before@, after0, mover, from, to));
        assert(self.pile(opp) =~= m.pile(opp) + taken_pieces(m, before@, after0, mover, from, to));
        if verdict.is_none() {
            if let Some(t) = cap {
                if self.holds(mover, Modifier::Extinction(t)) && !after.contains_piece(t) {
                    verdict = Some(Some(mover));
                }
            }
        }
        assert(verdict == early_verdict(m, before@, after0, mover, from, to));
        if verdict.is_none() && checking && self.holds(opp, Modifier::TripleCheck(piece)) {
            match mover {
                Color::White => {
                    self.white_checks = self.white_checks + 1;
                    if self.white_checks >= CHECKS_TO_WIN {
                        verdict = Some(Some(mover));
                    }
                },
                Color::Black => {
                    self.black_checks = self.black_checks + 1;
                    if self.black_checks >= CHECKS_TO_WIN {
                        verdict = Some(Some(mover));
                    }
                },
            }
        }
        if verdict.is_none() {
            if after.king_on_center(mover) {
                verdict = Some(Some(mover));
            } else if after.king_on_center(opp) {
                verdict = Some(Some(opp));
            }
        }
        assert(verdict == move_verdict(m, before@, after0, mover, from, to, checking));
        if let Some(w) = verdict {
            self.end_game(w);
        }
        MoveOutcome { committed: true, round_end: verdict }
    }

    /// A CrazyHouse drop: `mover` puts the piece at `index` of the opponent's
    /// pile back on the board, on the empty square `to`, as a piece of its own
    /// color; the piece leaves the pile. Returns whether the drop was allowed;
    /// when it was not, nothing changes.
    pub fn drop_piece(&mut self, board: &mut Board, mover: Color, index: usize, to: Position) -> (r: bool)
        requires
            old(self).wf(),
            old(board).wf(),
        ensures
            final(self).wf(),
            final(board).wf(),
            r == drop_allowed(*old(self), old(board)@, mover, index as int, to),
            !r ==> *final(self) == *old(self) && final(board)@ == old(board)@,
            r ==> {
                let m = *old(self);
                let opp = mover.opp();
                let dropped = m.pile(opp)[index as int];
                &&& final(board)@ == old(board)@.update(
                    to.index(),
                    Some(Piece { kind: dropped.kind, color: mover }),
                )
                &&& final(self).pile(opp) == m.pile(opp).remove(index as int)
                &&& final(self).pile(mover) == m.pile(mover)
                &&& final(self).white_mods == m.white_mods
                &&& final(self).black_mods == m.black_mods
                &&& final(self).white_checks == m.white_checks
                &&& final(self).black_checks == m.black_checks
                &&& final(self).white_wins == m.white_wins
                &&& final(self).black_wins == m.black_wins
                &&& final(self).state == m.state
            },
    {
        if !self.is_playing() || !to.is_valid() {
            return false;
        }
        if board.at(to).is_some() {
            return false;
        }
        let opp = mover.opponent();
        let len = match opp {
            Color::White => self.white_pile.len(),
            Color::Black => self.black_pile.len(),
        };
        if index >= len {
            return false;
        }
        let taken = match opp {
            Color::White => self.white_pile[index],
            Color::Black => self.black_pile[index],
        };
        if !self.holds(mover, Modifier::CrazyHouse(taken)) {
            return false;
        }
        match opp {
            Color::White => {
                self.white_pile.remove(index);
            },
            Color::Black => {
                self.black_pile.remove(index);
            },
        }
        board.place(to, taken.type_as_colour(mover));
        true
    }
}

} // verus!
