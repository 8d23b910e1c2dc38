//! The session manager: pairs two participants over one shared game,
//! enforces turn order, forfeits the match on an illegal submission,
//! caps game length with a forced draw, and runs a sequence of games
//! with aggregated statistics until the session's game limit is reached.
//!
//! Everything here is sequential logic over one owned [`GameState`];
//! the exclusive-access gate and the transport around it live with the
//! caller.

use vstd::prelude::*;

use crate::board::{initial_grid, other_turn, CellType};
use crate::game::{applied_grid, applied_winner, GameState};
use crate::rules::{submit_verdict, MoveError};

verus! {

/// The hard ceiling on moves in one game: once this many total moves
/// have been played with no winner, the session forces a draw.
pub const MOVE_CAP: u32 = 100;

/// Aggregated statistics over the games of one session: games played,
/// wins and move totals per side, and per-move latency samples in
/// microseconds.
pub struct SessionStats {
    pub total_games: u32,
    pub total_attacker_moves: u64,
    pub total_defender_moves: u64,
    pub attacker_wins: u32,
    pub defender_wins: u32,
    pub move_durations_attacker: Vec<u64>,
    pub move_durations_defender: Vec<u64>,
}

/// What concluding a finished game means for the session.
#[derive(Clone, Copy, Debug, PartialEq, Eq, Structural)]
pub enum SessionOutcome {
    GameContinuing,
    NewGameStarted,
    SessionComplete,
}

/// One match between two paired participants: the shared game, the
/// session's statistics, and the cap on how many games are played.
pub struct Session {
    pub game_id: u32,
    pub games_limit: u32,
    pub game: GameState,
    pub stats: SessionStats,
    pub finished: bool,
}

/// The two statistics records hold the same latency samples.
pub open spec fn same_durations(a: SessionStats, b: SessionStats) -> bool {
    a.move_durations_attacker@ == b.move_durations_attacker@
        && a.move_durations_defender@ == b.move_durations_defender@
}

/// The two statistics records agree on every counter.
pub open spec fn same_counters(a: SessionStats, b: SessionStats) -> bool {
    &&& a.total_games == b.total_games
    &&& a.total_attacker_moves == b.total_attacker_moves
    &&& a.total_defender_moves == b.total_defender_moves
    &&& a.attacker_wins == b.attacker_wins
    &&& a.defender_wins == b.defender_wins
}

/// The two sessions agree on everything but the game they carry.
pub open spec fn same_session_frame(a: Session, b: Session) -> bool {
    &&& a.game_id == b.game_id
    &&& a.games_limit == b.games_limit
    &&& a.finished == b.finished
    &&& same_counters(a.stats, b.stats)
    &&& same_durations(a.stats, b.stats)
}

impl Session {
    /// Well-formedness: the game is well formed and awaiting a source
    /// selection, the move total respects the cap (reaching it ends the
    /// game), an unfinished session has games left to play, and the
    /// statistics are internally consistent.
    pub open spec fn wf(self) -> bool {
        &&& self.game.wf()
        &&& self.game.awaiting_source()
        &&& self.game.attacker_moves + self.game.defender_moves <= MOVE_CAP
        &&& (self.game.attacker_moves + self.game.defender_moves == MOVE_CAP
            ==> self.game.game_over)
        &&& (!self.game.game_over ==> self.game.winner is None)
        &&& (!self.finished ==> self.stats.total_games < self.games_limit)
        &&& self.stats.attacker_wins + self.stats.defender_wins <= self.stats.total_games
        &&& self.stats.total_attacker_moves <= MOVE_CAP * (self.stats.total_games as int)
        &&& self.stats.total_defender_moves <= MOVE_CAP * (self.stats.total_games as int)
    }

    /// Creates a session for a freshly paired pair of participants: a
    /// new game, zeroed statistics. A session with a zero game limit is
    /// complete from the start.
    pub fn new(game_id: u32, games_limit: u32) -> (s: Session)
        ensures
            s.wf(),
            s.game_id == game_id,
            s.games_limit == games_limit,
            s.finished == (games_limit == 0),
            s.game.grid() == initial_grid(),
            s.game.current_turn == CellType::Attacker,
            s.game.game_over == false,
            s.game.winner is None,
            s.game.attacker_moves == 0,
            s.game.defender_moves == 0,
            s.stats.total_games == 0,
            s.stats.total_attacker_moves == 0,
            s.stats.total_defender_moves == 0,
            s.stats.attacker_wins == 0,
            s.stats.defender_wins == 0,
            s.stats.move_durations_attacker@ == Seq::<u64>::empty(),
            s.stats.move_durations_defender@ == Seq::<u64>::empty(),
    {
        let s = Session {
            game_id,
            games_limit,
            game: GameState::new(1),
            stats: SessionStats {
                total_games: 0,
                total_attacker_moves: 0,
                total_defender_moves: 0,
                attacker_wins: 0,
                defender_wins: 0,
                move_durations_attacker: Vec::new(),
                move_durations_defender: Vec::new(),
            },
            finished: games_limit == 0,
        };
        s
    }

    /// Submits the move `from` -> `to` on behalf of `role`.
    ///
    /// A submission out of turn is rejected with `NotYourTurn` and a
    /// submission to an ended game or session with `GameAlreadyOver`;
    /// both leave everything unchanged. Any rule violation forfeits the
    /// match: the opposing side is declared winner at once. A legal move
    /// is applied in full, the side's move counter grows, and once the
    /// total reaches the cap with no winner the game ends in a draw,
    /// recorded as an `Empty` winner.
    pub fn submit_move(&mut self, role: CellType, from: (usize, usize), to: (usize, usize)) -> (r:
        Result<(), MoveError>)
        requires
            old(self).wf(),
            role == CellType::Attacker || role == CellType::Defender,
        ensures
            final(self).wf(),
            ({
                let s = *old(self);
                let t = *final(self);
                if s.finished || s.game.game_over {
                    r == Result::<(), MoveError>::Err(MoveError::GameAlreadyOver) && t == s
                } else if role != s.game.current_turn {
                    r == Result::<(), MoveError>::Err(MoveError::NotYourTurn) && t == s
                } else {
                    match submit_verdict(
                        s.game.grid(),
                        s.game.current_turn,
                        from.0 as int,
                        from.1 as int,
                        to.0 as int,
                        to.1 as int,
                    ) {
                        Some(e) => {
                            // the offending side forfeits the match
                            &&& r == Result::<(), MoveError>::Err(e)
                            &&& t.game.winner == Some(other_turn(role))
                            &&& t.game.game_over == true
                            &&& t.game.grid() == s.game.grid()
                            &&& t.game.current_turn == s.game.current_turn
                            &&& t.game.attacker_moves == s.game.attacker_moves
                            &&& t.game.defender_moves == s.game.defender_moves
                            &&& t.game.click_count == s.game.click_count
                            &&& t.game.from == s.game.from
                            &&& t.game.last_click == s.game.last_click
                            &&& t.game.king_capture == s.game.king_capture
                            &&& same_session_frame(s, t)
                        },
                        None => {
                            let w = applied_winner(s.game, from, to);
                            let wafter = if w is Some {
                                w
                            } else {
                                s.game.winner
                            };
                            let total = t.game.attacker_moves + t.game.defender_moves;
                            &&& r is Ok
                            &&& t.game.grid() == applied_grid(s.game, from, to)
                            &&& t.game.attacker_moves == if role == CellType::Attacker {
                                s.game.attacker_moves + 1
                            } else {
                                (s.game.attacker_moves) as int
                            }
                            &&& t.game.defender_moves == if role == CellType::Attacker {
                                (s.game.defender_moves) as int
                            } else {
                                s.game.defender_moves + 1
                            }
                            &&& t.game.current_turn == if w is Some {
                                s.game.current_turn
                            } else {
                                other_turn(s.game.current_turn)
                            }
                            &&& t.game.king_capture == false
                            &&& t.game.click_count == s.game.click_count
                            &&& t.game.from == s.game.from
                            &&& t.game.last_click == s.game.last_click
                            &&& if total >= MOVE_CAP && wafter is None {
                                // the session forces a draw at the cap
                                t.game.winner == Some(CellType::Empty) && t.game.game_over == true
                            } else {
                                t.game.winner == wafter && t.game.game_over == (w is Some)
                            }
                            &&& same_session_frame(s, t)
                        },
                    }
                }
            }),
    {
        if self.finished || self.game.game_over {
            return Err(MoveError::GameAlreadyOver);
        }
        if role != self.game.current_turn {
            return Err(MoveError::NotYourTurn);
        }
        match self.game.submit_move(from, to) {
            Err(e) => {
                self.game.winner = Some(
                    if role == CellType::Attacker {
                        CellType::Defender
                    } else {
                        CellType::Attacker
                    },
                );
                self.game.game_over = true;
                Err(e)
            },
            Ok(_) => {
                if role == CellType::Attacker {
                    self.game.attacker_moves = self.game.attacker_moves + 1;
                } else {
                    self.game.defender_moves = self.game.defender_moves + 1;
                }
                if self.game.attacker_moves + self.game.defender_moves >= MOVE_CAP
                    && self.game.winner.is_none() {
                    self.game.winner = Some(CellType::Empty);
                    self.game.game_over = true;
                }
                Ok(())
            },
        }
    }

    /// Records one per-move latency sample for the given side.
    pub fn record_latency(&mut self, role: CellType, micros: u64)
        requires
            old(self).wf(),
        ensures
            final(self).wf(),
            role == CellType::Attacker ==> final(self).stats.move_durations_attacker@ == old(
                self,
            ).stats.move_durations_attacker@.push(micros)
                && final(self).stats.move_durations_defender@ == old(
                self,
            ).stats.move_durations_defender@,
            role != CellType::Attacker ==> final(self).stats.move_durations_defender@ == old(
                self,
            ).stats.move_durations_defender@.push(micros)
                && final(self).stats.move_durations_attacker@ == old(
                self,
            ).stats.move_durations_attacker@,
            same_counters(final(self).stats, old(self).stats),
            final(self).game == old(self).game,
            final(self).game_id == old(self).game_id,
            final(self).games_limit == old(self).games_limit,
            final(self).finished == old(self).finished,
    {
        if role == CellType::Attacker {
            self.stats.move_durations_attacker.push(micros);
        } else {
            self.stats.move_durations_defender.push(micros);
        }
    }

    /// Concludes a finished game: folds its outcome into the statistics
    /// (wins and move totals per side; a draw counts only the game),
    /// then either starts a fresh game or, once the game limit is
    /// reached, completes the session. With no winner yet, or on a
    /// session already complete, nothing changes.
    pub fn conclude_game(&mut self) -> (o: SessionOutcome)
        requires
            old(self).wf(),
        ensures
            final(self).wf(),
            ({
                let s = *old(self);
                let t = *final(self);
                if s.finished {
                    o == SessionOutcome::SessionComplete && t == s
                } else {
                    match s.game.winner {
                        None => o == SessionOutcome::GameContinuing && t == s,
                        Some(w) => {
                            &&& t.stats.total_games == s.stats.total_games + 1
                            &&& t.stats.attacker_wins == s.stats.attacker_wins + (
                            if w == CellType::Attacker {
                                1int
                            } else {
                                0
                            })
                            &&& t.stats.defender_wins == s.stats.defender_wins + (
                            if w == CellType::Defender {
                                1int
                            } else {
                                0
                            })
                            &&& t.stats.total_attacker_moves == s.stats.total_attacker_moves + (
                            if w == CellType::Attacker {
                                s.game.attacker_moves as int
                            } else {
                                0
                            })
                            &&& t.stats.total_defender_moves == s.stats.total_defender_moves + (
                            if w == CellType::Defender {
                                s.game.defender_moves as int
                            } else {
                                0
                            })
                            &&& same_durations(t.stats, s.stats)
                            &&& t.game_id == s.game_id
                            &&& t.games_limit == s.games_limit
                            &&& if t.stats.total_games >= s.games_limit {
                                // the session has reached its game limit
                                &&& o == SessionOutcome::SessionComplete
                                &&& t.finished == true
                                &&& t.game.grid() == s.game.grid()
                                &&& t.game.winner is None
                                &&& t.game.game_over == s.game.game_over
                                &&& t.game.current_turn == s.game.current_turn
                                &&& t.game.attacker_moves == s.game.attacker_moves
                                &&& t.game.defender_moves == s.game.defender_moves
                            } else {
                                // a fresh game begins
                                &&& o == SessionOutcome::NewGameStarted
                                &&& t.finished == false
                                &&& t.game.grid() == initial_grid()
                                &&& t.game.current_turn == CellType::Attacker
                                &&& t.game.game_over == false
                                &&& t.game.winner is None
                                &&& t.game.attacker_moves == 0
                                &&& t.game.defender_moves == 0
                            }
                        },
                    }
                }
            }),
    {
        if self.finished {
            return SessionOutcome::SessionComplete;
        }
        let winner = match self.game.winner {
            None => {
                return SessionOutcome::GameContinuing;
            },
            Some(w) => w,
        };
        self.stats.total_games = self.stats.total_games + 1;
        if winner == CellType::Attacker {
            self.stats.attacker_wins = self.stats.attacker_wins + 1;
            self.stats.total_attacker_moves = self.stats.total_attacker_moves
                + self.game.attacker_moves as u64;
        } else if winner == CellType::Defender {
            self.stats.defender_wins = self.stats.defender_wins + 1;
            self.stats.total_defender_moves = self.stats.total_defender_moves
                + self.game.defender_moves as u64;
        }
        self.game.winner = None;
        if self.stats.total_games >= self.games_limit {
            self.finished = true;
            SessionOutcome::SessionComplete
        } else {
            self.game = GameState::new(1);
            SessionOutcome::NewGameStarted
        }
    }
}

} // verus!
