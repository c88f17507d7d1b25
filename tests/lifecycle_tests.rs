use mod_chess::{int_to_pos_tuple, Board, Color, DiceStream, Match, MatchState, Modifier, Piece, PieceKind, Position, REWARD_ROLLS};

fn pc(kind: PieceKind, color: Color) -> Piece {
    Piece::new(kind, color)
}

#[test]
fn acknowledged_black_win_rewards_white() {
    let mut m = Match::new();
    m.end_game(Some(Color::Black));
    assert_eq!(m.state, MatchState::RoundEnded { winner: Some(Color::Black) });
    assert_eq!(m.black_wins, 1);
    let mut stream = DiceStream::new(42);
    let dice = stream.next_rolls(REWARD_ROLLS);
    let reset = m.acknowledge(&dice);
    assert!(!reset);
    match m.state {
        MatchState::AwaitingReward { candidates, recipient } => {
            assert_eq!(recipient, Color::White);
            assert_ne!(candidates[0], candidates[1]);
            assert_ne!(candidates[0], candidates[2]);
            assert_ne!(candidates[1], candidates[2]);
        }
        _ => panic!("expected a reward offer"),
    }
}

#[test]
fn reward_offer_follows_the_dice() {
    let mut m = Match::new();
    m.end_game(Some(Color::White));
    let reset = m.acknowledge(&vec![(10, 15), (90, 70), (34, 50)]);
    assert!(!reset);
    assert_eq!(
        m.state,
        MatchState::AwaitingReward {
            candidates: [
                Modifier::Atomic(pc(PieceKind::Pawn, Color::Black)),
                Modifier::Sniper(pc(PieceKind::Queen, Color::Black)),
                Modifier::Extinction(pc(PieceKind::Bishop, Color::White)),
            ],
            recipient: Color::Black,
        }
    );
}

#[test]
fn selecting_a_reward_starts_the_next_round() {
    let mut m = Match::new();
    m.white_pile.push(pc(PieceKind::Rook, Color::White));
    m.end_game(Some(Color::White));
    m.acknowledge(&vec![(10, 15), (90, 70), (34, 50)]);
    assert!(!m.select_reward(3));
    assert!(matches!(m.state, MatchState::AwaitingReward { .. }));
    assert!(m.select_reward(1));
    assert_eq!(m.state, MatchState::Playing);
    assert!(m.black_mods.contains(Modifier::Sniper(pc(PieceKind::Queen, Color::Black))));
    assert_eq!(m.black_mods.len(), 1);
    assert_eq!(m.white_mods.len(), 0);
    assert!(m.white_pile.is_empty());
    assert_eq!(m.white_wins, 1);
    assert!(!m.select_reward(0));
}

#[test]
fn drawn_round_restarts_on_acknowledgement() {
    let mut m = Match::new();
    m.black_pile.push(pc(PieceKind::Queen, Color::Black));
    m.white_checks = 2;
    m.end_game(None);
    assert_eq!(m.white_wins, 0);
    assert_eq!(m.black_wins, 0);
    assert!(m.acknowledge(&Vec::new()));
    assert_eq!(m.state, MatchState::Playing);
    assert!(m.black_pile.is_empty());
    assert_eq!(m.white_checks, 0);
}

#[test]
fn acknowledgement_while_playing_is_ignored() {
    let mut m = Match::new();
    assert!(!m.acknowledge(&vec![(1, 1)]));
    assert_eq!(m.state, MatchState::Playing);
}

#[test]
fn no_reward_left_starts_the_next_round() {
    let mut m = Match::new();
    let kinds = [PieceKind::Pawn, PieceKind::Bishop, PieceKind::Knight, PieceKind::Rook, PieceKind::Queen];
    m.black_mods.insert(Modifier::KingOfTheHill);
    for k in kinds {
        m.black_mods.insert(Modifier::Atomic(pc(k, Color::Black)));
        m.black_mods.insert(Modifier::CrazyHouse(pc(k, Color::White)));
        m.black_mods.insert(Modifier::Extinction(pc(k, Color::White)));
        m.black_mods.insert(Modifier::Sniper(pc(k, Color::Black)));
    }
    m.black_mods.insert(Modifier::TripleCheck(pc(PieceKind::Pawn, Color::Black)));
    m.black_mods.insert(Modifier::TripleCheck(pc(PieceKind::Bishop, Color::Black)));
    m.black_mods.insert(Modifier::TripleCheck(pc(PieceKind::Knight, Color::Black)));
    assert_eq!(m.black_mods.len(), 24);
    m.end_game(Some(Color::White));
    assert!(m.acknowledge(&vec![(0, 90)]));
    assert_eq!(m.state, MatchState::Playing);
}

#[test]
fn checkmate_ends_the_round_for_the_side_not_to_move() {
    let mut m = Match::new();
    m.observe_checkmate(false, Color::White);
    assert_eq!(m.state, MatchState::Playing);
    m.observe_checkmate(true, Color::White);
    assert_eq!(m.state, MatchState::RoundEnded { winner: Some(Color::Black) });
    assert_eq!(m.black_wins, 1);
    m.observe_checkmate(true, Color::Black);
    assert_eq!(m.state, MatchState::RoundEnded { winner: Some(Color::Black) });
    assert_eq!(m.white_wins, 0);
}

#[test]
fn second_end_of_round_is_ignored() {
    let mut m = Match::new();
    m.end_game(Some(Color::White));
    m.end_game(Some(Color::Black));
    assert_eq!(m.state, MatchState::RoundEnded { winner: Some(Color::White) });
    assert_eq!(m.white_wins, 1);
    assert_eq!(m.black_wins, 0);
}

#[test]
fn tile_numbers_to_squares() {
    assert_eq!(int_to_pos_tuple(0), (1, 8));
    assert_eq!(int_to_pos_tuple(9), (2, 7));
    assert_eq!(int_to_pos_tuple(63), (8, 1));
}

#[test]
fn board_squares() {
    let mut b = Board::empty();
    let e4 = Position::new(5, 4);
    assert!(e4.is_center());
    assert!(!Position::new(3, 4).is_center());
    assert!(!Position::new(0, 4).is_valid());
    b.place(e4, pc(PieceKind::King, Color::Black));
    assert!(b.king_on_center(Color::Black));
    assert!(!b.king_on_center(Color::White));
    assert!(b.contains_piece(pc(PieceKind::King, Color::Black)));
    b.clear(e4);
    assert_eq!(b.at(e4), None);
    assert!(!b.contains_piece(pc(PieceKind::King, Color::Black)));
    let q = pc(PieceKind::Queen, Color::White);
    assert_eq!(q.colour(), Color::White);
    assert_eq!(q.type_as_colour(Color::Black), pc(PieceKind::Queen, Color::Black));
    assert_eq!(Color::White.opponent(), Color::Black);
}

#[test]
fn round_tally_stays_at_its_top() {
    let mut m = Match::new();
    m.white_wins = u64::MAX;
    m.end_game(Some(Color::White));
    assert_eq!(m.white_wins, u64::MAX);
    assert_eq!(m.state, MatchState::RoundEnded { winner: Some(Color::White) });
}
