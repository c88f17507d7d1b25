use mod_chess::{Board, Color, Match, MatchState, Modifier, Piece, PieceKind, Position};

fn pc(kind: PieceKind, color: Color) -> Piece {
    Piece::new(kind, color)
}

fn sq(file: u8, rank: u8) -> Position {
    Position::new(file, rank)
}

/// A board with both kings tucked into corners, out of every blast below.
fn with_kings() -> Board {
    let mut b = Board::empty();
    b.place(sq(8, 1), pc(PieceKind::King, Color::White));
    b.place(sq(8, 8), pc(PieceKind::King, Color::Black));
    b
}

/// `b` with the piece on `from` moved to `to`, as the base engine does it.
fn moved(b: &Board, from: Position, to: Position) -> Board {
    let mut a = Board::empty();
    for f in 1..=8u8 {
        for r in 1..=8u8 {
            if let Some(p) = b.at(sq(f, r)) {
                a.place(sq(f, r), p);
            }
        }
    }
    let p = a.at(from).unwrap();
    a.clear(from);
    a.place(to, p);
    a
}

#[test]
fn illegal_destination_changes_nothing() {
    let mut m = Match::new();
    m.white_mods.insert(Modifier::Atomic(pc(PieceKind::Rook, Color::White)));
    let mut before = with_kings();
    before.place(sq(1, 1), pc(PieceKind::Rook, Color::White));
    before.place(sq(1, 5), pc(PieceKind::Queen, Color::Black));
    let mut after = moved(&before, sq(1, 1), sq(1, 5));
    let legal = vec![sq(1, 2), sq(1, 3)];
    assert!(!m.check_move(&before, Color::White, sq(1, 1), sq(1, 5), &legal));
    let out = m.resolve_move(&before, &mut after, Color::White, sq(1, 1), sq(1, 5), &legal, true, false);
    assert!(!out.committed);
    assert_eq!(out.round_end, None);
    assert!(m.black_pile.is_empty());
    assert!(m.white_pile.is_empty());
    assert_eq!(m.white_checks, 0);
    assert_eq!(m.white_mods.len(), 1);
    assert_eq!(after.at(sq(1, 5)), Some(pc(PieceKind::Rook, Color::White)));
    assert_eq!(m.state, MatchState::Playing);
}

#[test]
fn moving_the_other_sides_piece_is_refused() {
    let m = Match::new();
    let mut before = with_kings();
    before.place(sq(1, 1), pc(PieceKind::Rook, Color::Black));
    assert!(!m.check_move(&before, Color::White, sq(1, 1), sq(1, 4), &vec![sq(1, 4)]));
    assert!(m.check_move(&before, Color::Black, sq(1, 1), sq(1, 4), &vec![sq(1, 4)]));
    assert!(!m.check_move(&before, Color::Black, sq(1, 1), sq(9, 4), &vec![sq(9, 4)]));
}

#[test]
fn engine_failure_changes_nothing() {
    let mut m = Match::new();
    let mut before = with_kings();
    before.place(sq(1, 1), pc(PieceKind::Rook, Color::White));
    before.place(sq(1, 5), pc(PieceKind::Queen, Color::Black));
    let mut after = moved(&before, sq(1, 1), sq(1, 5));
    let out = m.resolve_move(&before, &mut after, Color::White, sq(1, 1), sq(1, 5), &vec![sq(1, 5)], false, false);
    assert!(!out.committed);
    assert!(m.black_pile.is_empty());
}

#[test]
fn plain_capture_fills_the_pile() {
    let mut m = Match::new();
    let mut before = with_kings();
    before.place(sq(1, 1), pc(PieceKind::Rook, Color::White));
    before.place(sq(1, 5), pc(PieceKind::Queen, Color::Black));
    let mut after = moved(&before, sq(1, 1), sq(1, 5));
    let out = m.resolve_move(&before, &mut after, Color::White, sq(1, 1), sq(1, 5), &vec![sq(1, 5)], true, false);
    assert!(out.committed);
    assert_eq!(out.round_end, None);
    assert_eq!(m.black_pile, vec![pc(PieceKind::Queen, Color::Black)]);
    assert!(m.white_pile.is_empty());
    assert_eq!(after.at(sq(1, 5)), Some(pc(PieceKind::Rook, Color::White)));
}

#[test]
fn sniper_captures_without_moving() {
    let mut m = Match::new();
    m.white_mods.insert(Modifier::Sniper(pc(PieceKind::Bishop, Color::White)));
    let mut before = with_kings();
    before.place(sq(3, 1), pc(PieceKind::Bishop, Color::White));
    before.place(sq(6, 4), pc(PieceKind::Knight, Color::Black));
    let mut after = moved(&before, sq(3, 1), sq(6, 4));
    let out = m.resolve_move(&before, &mut after, Color::White, sq(3, 1), sq(6, 4), &vec![sq(6, 4)], true, false);
    assert!(out.committed);
    assert_eq!(after.at(sq(3, 1)), Some(pc(PieceKind::Bishop, Color::White)));
    assert_eq!(after.at(sq(6, 4)), None);
    assert!(!after.contains_piece(pc(PieceKind::Knight, Color::Black)));
    assert_eq!(m.black_pile, vec![pc(PieceKind::Knight, Color::Black)]);
}

#[test]
fn sniper_needs_a_capture() {
    let mut m = Match::new();
    m.white_mods.insert(Modifier::Sniper(pc(PieceKind::Bishop, Color::White)));
    let mut before = with_kings();
    before.place(sq(3, 1), pc(PieceKind::Bishop, Color::White));
    let mut after = moved(&before, sq(3, 1), sq(6, 4));
    m.resolve_move(&before, &mut after, Color::White, sq(3, 1), sq(6, 4), &vec![sq(6, 4)], true, false);
    assert_eq!(after.at(sq(3, 1)), None);
    assert_eq!(after.at(sq(6, 4)), Some(pc(PieceKind::Bishop, Color::White)));
}

#[test]
fn atomic_spares_pawns_and_the_landing_square() {
    let mut m = Match::new();
    m.white_mods.insert(Modifier::Atomic(pc(PieceKind::Rook, Color::White)));
    let mut before = with_kings();
    before.place(sq(1, 1), pc(PieceKind::Rook, Color::White));
    before.place(sq(1, 5), pc(PieceKind::Queen, Color::Black));
    before.place(sq(2, 6), pc(PieceKind::Pawn, Color::Black));
    before.place(sq(2, 5), pc(PieceKind::Bishop, Color::Black));
    before.place(sq(2, 4), pc(PieceKind::Knight, Color::White));
    before.place(sq(1, 7), pc(PieceKind::Bishop, Color::Black));
    let mut after = moved(&before, sq(1, 1), sq(1, 5));
    let out = m.resolve_move(&before, &mut after, Color::White, sq(1, 1), sq(1, 5), &vec![sq(1, 5)], true, false);
    assert!(out.committed);
    assert_eq!(out.round_end, None);
    assert_eq!(after.at(sq(1, 5)), Some(pc(PieceKind::Rook, Color::White)));
    assert_eq!(after.at(sq(2, 6)), Some(pc(PieceKind::Pawn, Color::Black)));
    assert_eq!(after.at(sq(2, 5)), None);
    assert_eq!(after.at(sq(2, 4)), None);
    assert_eq!(after.at(sq(1, 7)), Some(pc(PieceKind::Bishop, Color::Black)));
    assert_eq!(
        m.black_pile,
        vec![
            pc(PieceKind::Queen, Color::Black),
            pc(PieceKind::Knight, Color::White),
            pc(PieceKind::Bishop, Color::Black),
        ]
    );
    assert!(m.white_pile.is_empty());
}

#[test]
fn atomic_blast_takes_a_king() {
    let mut m = Match::new();
    m.white_mods.insert(Modifier::Atomic(pc(PieceKind::Knight, Color::White)));
    let mut before = Board::empty();
    before.place(sq(1, 1), pc(PieceKind::King, Color::White));
    before.place(sq(5, 7), pc(PieceKind::King, Color::Black));
    before.place(sq(3, 5), pc(PieceKind::Knight, Color::White));
    before.place(sq(4, 7), pc(PieceKind::Rook, Color::Black));
    let mut after = moved(&before, sq(3, 5), sq(4, 7));
    let out = m.resolve_move(&before, &mut after, Color::White, sq(3, 5), sq(4, 7), &vec![sq(4, 7)], true, false);
    assert_eq!(out.round_end, Some(Some(Color::White)));
    assert_eq!(m.state, MatchState::RoundEnded { winner: Some(Color::White) });
    assert_eq!(m.white_wins, 1);
    assert_eq!(m.black_wins, 0);
}

#[test]
fn atomic_blast_takes_both_kings() {
    let mut m = Match::new();
    m.black_mods.insert(Modifier::Atomic(pc(PieceKind::Queen, Color::Black)));
    let mut before = Board::empty();
    before.place(sq(2, 2), pc(PieceKind::King, Color::White));
    before.place(sq(3, 3), pc(PieceKind::King, Color::Black));
    before.place(sq(2, 8), pc(PieceKind::Queen, Color::Black));
    before.place(sq(2, 3), pc(PieceKind::Bishop, Color::White));
    let mut after = moved(&before, sq(2, 8), sq(2, 3));
    let out = m.resolve_move(&before, &mut after, Color::Black, sq(2, 8), sq(2, 3), &vec![sq(2, 3)], true, false);
    assert_eq!(out.round_end, Some(None));
    assert_eq!(m.state, MatchState::RoundEnded { winner: None });
    assert_eq!(m.white_wins, 0);
    assert_eq!(m.black_wins, 0);
    assert_eq!(
        m.white_pile,
        vec![
            pc(PieceKind::Bishop, Color::White),
            pc(PieceKind::King, Color::White),
            pc(PieceKind::King, Color::Black),
        ]
    );
}

#[test]
fn extinction_of_the_last_queen_wins() {
    let mut m = Match::new();
    m.white_mods.insert(Modifier::Extinction(pc(PieceKind::Queen, Color::Black)));
    let mut before = with_kings();
    before.place(sq(1, 1), pc(PieceKind::Rook, Color::White));
    before.place(sq(1, 6), pc(PieceKind::Queen, Color::Black));
    let mut after = moved(&before, sq(1, 1), sq(1, 6));
    let out = m.resolve_move(&before, &mut after, Color::White, sq(1, 1), sq(1, 6), &vec![sq(1, 6)], true, false);
    assert!(out.committed);
    assert_eq!(out.round_end, Some(Some(Color::White)));
    assert_eq!(m.state, MatchState::RoundEnded { winner: Some(Color::White) });
    assert_eq!(m.white_wins, 1);
}

#[test]
fn extinction_waits_while_another_remains() {
    let mut m = Match::new();
    m.white_mods.insert(Modifier::Extinction(pc(PieceKind::Queen, Color::Black)));
    let mut before = with_kings();
    before.place(sq(1, 1), pc(PieceKind::Rook, Color::White));
    before.place(sq(1, 6), pc(PieceKind::Queen, Color::Black));
    before.place(sq(3, 7), pc(PieceKind::Queen, Color::Black));
    let mut after = moved(&before, sq(1, 1), sq(1, 6));
    let out = m.resolve_move(&before, &mut after, Color::White, sq(1, 1), sq(1, 6), &vec![sq(1, 6)], true, false);
    assert_eq!(out.round_end, None);
    assert_eq!(m.state, MatchState::Playing);
    assert_eq!(after.at(sq(3, 7)), Some(pc(PieceKind::Queen, Color::Black)));
    assert_eq!(after.at(sq(1, 6)), Some(pc(PieceKind::Rook, Color::White)));
}

#[test]
fn third_qualifying_check_wins() {
    let mut m = Match::new();
    m.black_mods.insert(Modifier::TripleCheck(pc(PieceKind::Knight, Color::White)));
    let mut board = with_kings();
    board.place(sq(2, 1), pc(PieceKind::Knight, Color::White));
    let hops = [(sq(2, 1), sq(3, 3)), (sq(3, 3), sq(2, 1)), (sq(2, 1), sq(3, 3))];
    for (n, (from, to)) in hops.iter().enumerate() {
        let mut after = moved(&board, *from, *to);
        let out = m.resolve_move(&board, &mut after, Color::White, *from, *to, &vec![*to], true, true);
        assert!(out.committed);
        assert_eq!(m.white_checks as usize, n + 1);
        assert_eq!(m.black_checks, 0);
        if n < 2 {
            assert_eq!(out.round_end, None);
        } else {
            assert_eq!(out.round_end, Some(Some(Color::White)));
        }
        board = after;
    }
    assert_eq!(m.state, MatchState::RoundEnded { winner: Some(Color::White) });
    let mut after = moved(&board, sq(3, 3), sq(2, 1));
    let out = m.resolve_move(&board, &mut after, Color::White, sq(3, 3), sq(2, 1), &vec![sq(2, 1)], true, true);
    assert!(!out.committed);
    assert_eq!(m.white_checks, 3);
}

#[test]
fn check_without_the_modifier_is_not_counted() {
    let mut m = Match::new();
    m.white_mods.insert(Modifier::TripleCheck(pc(PieceKind::Knight, Color::White)));
    let mut board = with_kings();
    board.place(sq(2, 1), pc(PieceKind::Knight, Color::White));
    let mut after = moved(&board, sq(2, 1), sq(3, 3));
    m.resolve_move(&board, &mut after, Color::White, sq(2, 1), sq(3, 3), &vec![sq(3, 3)], true, true);
    assert_eq!(m.white_checks, 0);
}

#[test]
fn king_on_the_hill_wins() {
    let mut m = Match::new();
    let mut before = Board::empty();
    before.place(sq(5, 3), pc(PieceKind::King, Color::White));
    before.place(sq(8, 8), pc(PieceKind::King, Color::Black));
    let mut after = moved(&before, sq(5, 3), sq(5, 4));
    let out = m.resolve_move(&before, &mut after, Color::White, sq(5, 3), sq(5, 4), &vec![sq(5, 4)], true, false);
    assert_eq!(out.round_end, Some(Some(Color::White)));
    assert_eq!(m.white_wins, 1);
}

#[test]
fn crazyhouse_drop() {
    let mut m = Match::new();
    m.white_mods.insert(Modifier::CrazyHouse(pc(PieceKind::Queen, Color::Black)));
    m.black_pile.push(pc(PieceKind::Rook, Color::Black));
    m.black_pile.push(pc(PieceKind::Queen, Color::Black));
    let mut board = with_kings();
    board.place(sq(4, 4), pc(PieceKind::Pawn, Color::White));
    assert!(!m.drop_piece(&mut board, Color::White, 1, sq(4, 4)));
    assert!(!m.drop_piece(&mut board, Color::White, 0, sq(4, 5)));
    assert!(!m.drop_piece(&mut board, Color::White, 2, sq(4, 5)));
    assert!(!m.drop_piece(&mut board, Color::Black, 1, sq(4, 5)));
    assert_eq!(m.black_pile.len(), 2);
    assert!(m.drop_piece(&mut board, Color::White, 1, sq(4, 5)));
    assert_eq!(board.at(sq(4, 5)), Some(pc(PieceKind::Queen, Color::White)));
    assert_eq!(m.black_pile, vec![pc(PieceKind::Rook, Color::Black)]);
}
