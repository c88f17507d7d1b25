use vstd::prelude::*;
use crate::piece::{Color, Piece};
use crate::modifier::{Modifier, ModifierSet};
use crate::generator::{draw_candidates, drawn};

verus! {

/// Where the match stands between moves.
#[derive(Clone, Copy, Debug, PartialEq, Eq)]
pub enum MatchState {
    /// A round is under way and moves are accepted.
    Playing,
    /// The round is over; `winner` is `None` when nobody won it.
    RoundEnded { winner: Option<Color> },
    /// The loser of the last round picks one of three modifiers.
    AwaitingReward { candidates: [Modifier; 3], recipient: Color },
}

/// The state of a match that the base chess engine does not hold: both
/// players' modifiers, the captured piles, the triple-check counters, the
/// tally of rounds won, and the lifecycle state.
pub struct Match {
    /// The modifiers held by White.
    pub white_mods: ModifierSet,
    /// The modifiers held by Black.
    pub black_mods: ModifierSet,
    /// White pieces taken off the board this round, oldest first.
    pub white_pile: Vec<Piece>,
    /// Black pieces taken off the board this round, oldest first.
    pub black_pile: Vec<Piece>,
    /// Qualifying checks delivered by White this round.
    pub white_checks: u8,
    /// Qualifying checks delivered by Black this round.
    pub black_checks: u8,
    /// Rounds won by White.
    pub white_wins: u64,
    /// Rounds won by Black.
    pub black_wins: u64,
    /// Where the match stands.
    pub state: MatchState,
}

/// The number of qualifying checks that wins a round.
pub const CHECKS_TO_WIN: u8 = 3;

/// How many pairs of random dice a reward draw may use before it sweeps.
pub const REWARD_ROLLS: usize = 32;

/// A count increased by one, staying at the top once there.
pub open spec fn bump(n: u64) -> u64 {
    if n == u64::MAX {
        n
    } else {
        (n + 1) as u64
    }
}

impl Match {
    pub open spec fn wf(&self) -> bool {
        &&& self.white_mods.wf()
        &&& self.black_mods.wf()
        &&& self.white_checks <= 3
        &&& self.black_checks <= 3
        &&& self.state is Playing ==> self.white_checks < 3 && self.black_checks < 3
    }

    pub open spec fn mods(&self, c: Color) -> ModifierSet {
        match c {
            Color::White => self.white_mods,
            Color::Black => self.black_mods,
        }
    }

    pub open spec fn pile(&self, c: Color) -> Seq<Piece> {
        match c {
            Color::White => self.white_pile@,
            Color::Black => self.black_pile@,
        }
    }

    pub open spec fn checks(&self, c: Color) -> u8 {
        match c {
            Color::White => self.white_checks,
            Color::Black => self.black_checks,
        }
    }

    pub open spec fn wins(&self, c: Color) -> u64 {
        match c {
            Color::White => self.white_wins,
            Color::Black => self.black_wins,
        }
    }

    /// The same match with the round's overlay (piles and counters) fresh.
    pub open spec fn fresh_round(&self, other: &Match) -> bool {
        &&& self.white_pile@.len() == 0
        &&& self.black_pile@.len() == 0
        &&& self.white_checks == 0
        &&& self.black_checks == 0
        &&& self.white_wins == other.white_wins
        &&& self.black_wins == other.black_wins
    }

    /// Whether a round is under way.
    pub fn is_playing(&self) -> (r: bool)
        ensures
            r == self.state is Playing,
    {
        match self.state {
            MatchState::Playing => true,
            _ => false,
        }
    }

    /// A match at the start of its first round: no modifiers, nothing taken,
    /// no rounds won.
    pub fn new() -> (r: Match)
        ensures
            r.wf(),
            r.state == MatchState::Playing,
            r.white_mods@ == Set::<Modifier>::empty(),
            r.black_mods@ == Set::<Modifier>::empty(),
            r.white_pile@.len() == 0,
            r.black_pile@.len() == 0,
            r.white_checks == 0,
            r.black_checks == 0,
            r.white_wins == 0,
            r.black_wins == 0,
    {
        Match {
            white_mods: ModifierSet::new(),
            black_mods: ModifierSet::new(),
            white_pile: Vec::new(),
            black_pile: Vec::new(),
            white_checks: 0,
            black_checks: 0,
            white_wins: 0,
            black_wins: 0,
            state: MatchState::Playing,
        }
    }

    /// Ends the round under way with `winner` (`None`: nobody won) and counts
    /// the win. Outside a round nothing changes.
    pub fn end_game(&mut self, winner: Option<Color>)
        requires
            old(self).white_mods.wf(),
            old(self).black_mods.wf(),
            old(self).white_checks <= 3,
            old(self).black_checks <= 3,
            !(old(self).state is Playing) ==> old(self).wf(),
        ensures
            final(self).wf(),
            old(self).state is Playing ==> final(self).state == (MatchState::RoundEnded { winner }),
            !(old(self).state is Playing) ==> final(self).state == old(self).state,
            final(self).white_wins == if old(self).state is Playing && winner == Some(Color::White) {
                bump(old(self).white_wins)
            } else {
                old(self).white_wins
            },
            final(self).black_wins == if old(self).state is Playing && winner == Some(Color::Black) {
                bump(old(self).black_wins)
            } else {
                old(self).black_wins
            },
            final(self).white_mods == old(self).white_mods,
            final(self).black_mods == old(self).black_mods,
            final(self).white_pile == old(self).white_pile,
            final(self).black_pile == old(self).black_pile,
            final(self).white_checks == old(self).white_checks,
            final(self).black_checks == old(self).black_checks,
    {
        if let MatchState::Playing = self.state {
            match winner {
                Some(Color::White) => {
                    self.white_wins = self.white_wins.saturating_add(1);
                },
                Some(Color::Black) => {
                    self.black_wins = self.black_wins.saturating_add(1);
                },
                None => {},
            }
            self.state = MatchState::RoundEnded { winner };
        }
    }

    /// Takes the base engine's verdict on the position: a checkmate seen while
    /// a round is under way ends it in favour of the side not to move.
    pub fn observe_checkmate(&mut self, checkmate: bool, active: Color)
        requires
            old(self).wf(),
        ensures
            final(self).wf(),
            checkmate && old(self).state is Playing ==> final(self).state == (MatchState::RoundEnded {
                winner: Some(active.opp()),
            }) && final(self).wins(active.opp()) == bump(old(self).wins(active.opp()))
                && final(self).wins(active) == old(self).wins(active),
            !(checkmate && old(self).state is Playing) ==> *final(self) == *old(self),
            final(self).white_mods == old(self).white_mods,
            final(self).black_mods == old(self).black_mods,
            final(self).white_pile == old(self).white_pile,
            final(self).black_pile == old(self).black_pile,
            final(self).white_checks == old(self).white_checks,
            final(self).black_checks == old(self).black_checks,
    {
        if checkmate {
            if let MatchState::Playing = self.state {
                self.end_game(Some(active.opponent()));
            }
        }
    }

    /// Clears the captured piles and the check counters for a new round.
    fn reset_overlay(&mut self)
        ensures
            final(self).white_pile@.len() == 0,
            final(self).black_pile@.len() == 0,
            final(self).white_checks == 0,
            final(self).black_checks == 0,
            final(self).white_mods == old(self).white_mods,
            final(self).black_mods == old(self).black_mods,
            final(self).white_wins == old(self).white_wins,
            final(self).black_wins == old(self).black_wins,
            final(self).state == old(self).state,
    {
        self.white_pile = Vec::new();
        self.black_pile = Vec::new();
        self.white_checks = 0;
        self.black_checks = 0;
    }

    /// The acknowledgement that ends the pause after a round.
    ///
    /// After a round without a winner the next round starts. After a round
    /// won by one side, three reward candidates for the loser are drawn from
    /// `dice` (see `draw_candidates`) and the match waits for the loser's
    /// choice; should no three fresh modifiers exist for the loser, the next
    /// round starts at once. In any other state nothing changes. Returns
    /// whether a new round started, in which case the board is to be set up
    /// afresh.
    pub fn acknowledge(&mut self, dice: &Vec<(u64, u64)>) -> (r: bool)
        requires
            old(self).wf(),
            dice@.len() + 30 <= usize::MAX,
        ensures
            final(self).wf(),
            final(self).white_mods == old(self).white_mods,
            final(self).black_mods == old(self).black_mods,
            final(self).white_wins == old(self).white_wins,
            final(self).black_wins == old(self).black_wins,
            match old(self).state {
                MatchState::RoundEnded { winner: None } => {
                    &&& r
                    &&& final(self).state == MatchState::Playing
                    &&& final(self).fresh_round(old(self))
                },
                MatchState::RoundEnded { winner: Some(w) } => {
                    let loser = w.opp();
                    let c = drawn(loser, old(self).mods(loser)@, dice@);
                    if c.len() == 3 {
                        &&& !r
                        &&& final(self).state is AwaitingReward
                        &&& final(self).state->recipient == loser
                        &&& final(self).state->candidates@ == c
                        &&& final(self).white_pile == old(self).white_pile
                        &&& final(self).black_pile == old(self).black_pile
                        &&& final(self).white_checks == old(self).white_checks
                        &&& final(self).black_checks == old(self).black_checks
                    } else {
                        &&& r
                        &&& final(self).state == MatchState::Playing
                        &&& final(self).fresh_round(old(self))
                    }
                },
                _ => !r && *final(self) == *old(self),
            },
    {
        match self.state {
            MatchState::RoundEnded { winner: None } => {
                self.reset_overlay();
                self.state = MatchState::Playing;
                true
            },
            MatchState::RoundEnded { winner: Some(w) } => {
                let loser = w.opponent();
                let drawn_mods = match loser {
                    Color::White => draw_candidates(loser, &self.white_mods, dice),
                    Color::Black => draw_candidates(loser, &self.black_mods, dice),
                };
                match drawn_mods {
                    Some(candidates) => {
                        self.state = MatchState::AwaitingReward { candidates, recipient: loser };
                        false
                    },
                    None => {
                        self.reset_overlay();
                        self.state = MatchState::Playing;
                        true
                    },
                }
            },
            _ => false,
        }
    }

    /// The loser's pick of reward `choice` (0, 1 or 2): the candidate joins
    /// the recipient's modifiers and the next round starts. Outside the reward
    /// pause, or for a choice past the third, nothing changes. Returns whether
    /// a new round started, in which case the board is to be set up afresh.
    pub fn select_reward(&mut self, choice: usize) -> (r: bool)
        requires
            old(self).wf(),
        ensures
            final(self).wf(),
            final(self).white_wins == old(self).white_wins,
            final(self).black_wins == old(self).black_wins,
            r == (old(self).state is AwaitingReward && choice < 3),
            r ==> {
                let who = old(self).state->recipient;
                let m = old(self).state->candidates[choice as int];
                &&& final(self).state == MatchState::Playing
                &&& final(self).fresh_round(old(self))
                &&& final(self).mods(who)@ == old(self).mods(who)@.insert(m)
                &&& final(self).mods(who.opp()) == old(self).mods(who.opp())
            },
            !r ==> *final(self) == *old(self),
    {
        match self.state {
            MatchState::AwaitingReward { candidates, recipient } => {
                if choice < 3 {
                    let m = candidates[choice];
                    match recipient {
                        Color::White => self.white_mods.insert(m),
                        Color::Black => self.black_mods.insert(m),
                    }
                    self.reset_overlay();
                    self.state = MatchState::Playing;
                    true
                } else {
                    false
                }
            },
            _ => false,
        }
    }
}

} // verus!
