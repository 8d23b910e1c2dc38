use brandubh::board::CellType;
use brandubh::rules::MoveError;
use brandubh::session::{Session, SessionOutcome};

#[test]
fn fresh_session_state() {
    let s = Session::new(7, 100);
    assert_eq!(s.game_id, 7);
    assert_eq!(s.games_limit, 100);
    assert!(!s.finished);
    assert_eq!(s.stats.total_games, 0);
    assert_eq!(s.game.current_turn, CellType::Attacker);
}

#[test]
fn out_of_turn_submission_is_rejected_without_change() {
    let mut s = Session::new(1, 100);
    let before: Vec<Vec<CellType>> = s
        .game
        .board
        .iter()
        .map(|row| row.iter().map(|c| c.cell_type).collect())
        .collect();
    assert_eq!(
        s.submit_move(CellType::Defender, (2, 3), (2, 2)),
        Err(MoveError::NotYourTurn)
    );
    let after: Vec<Vec<CellType>> = s
        .game
        .board
        .iter()
        .map(|row| row.iter().map(|c| c.cell_type).collect())
        .collect();
    assert_eq!(before, after);
    assert_eq!(s.game.current_turn, CellType::Attacker);
    assert!(!s.game.game_over);
    assert!(s.game.winner.is_none());
}

#[test]
fn legal_submission_moves_and_flips_turn() {
    let mut s = Session::new(1, 100);
    assert_eq!(s.submit_move(CellType::Attacker, (0, 3), (0, 2)), Ok(()));
    assert_eq!(s.game.board[0][3].cell_type, CellType::Empty);
    assert_eq!(s.game.board[0][2].cell_type, CellType::Attacker);
    assert_eq!(s.game.current_turn, CellType::Defender);
    assert_eq!(s.game.attacker_moves, 1);
    assert_eq!(s.game.defender_moves, 0);
}

#[test]
fn illegal_submission_forfeits_the_match() {
    let mut s = Session::new(1, 100);
    // the attacker tries to move onto an occupied square
    assert_eq!(
        s.submit_move(CellType::Attacker, (0, 3), (1, 3)),
        Err(MoveError::PathBlocked)
    );
    assert!(s.game.game_over);
    assert_eq!(s.game.winner, Some(CellType::Defender));
    // further submissions are turned away
    assert_eq!(
        s.submit_move(CellType::Attacker, (0, 3), (0, 2)),
        Err(MoveError::GameAlreadyOver)
    );
}

#[test]
fn hundredth_move_forces_a_draw() {
    let mut s = Session::new(1, 100);
    // a long game: 99 moves already played, none decisive
    s.game.attacker_moves = 50;
    s.game.defender_moves = 49;
    assert_eq!(s.submit_move(CellType::Attacker, (0, 3), (0, 2)), Ok(()));
    assert!(s.game.game_over);
    assert_eq!(s.game.winner, Some(CellType::Empty));
}

#[test]
fn conclude_game_updates_stats_and_restarts() {
    let mut s = Session::new(1, 100);
    assert_eq!(s.conclude_game(), SessionOutcome::GameContinuing);
    // a forfeit hands the win to the defender
    s.submit_move(CellType::Attacker, (0, 3), (1, 3)).unwrap_err();
    s.game.attacker_moves = 1;
    assert_eq!(s.conclude_game(), SessionOutcome::NewGameStarted);
    assert_eq!(s.stats.total_games, 1);
    assert_eq!(s.stats.defender_wins, 1);
    assert_eq!(s.stats.attacker_wins, 0);
    // the fresh game is playable again
    assert!(!s.game.game_over);
    assert_eq!(s.game.current_turn, CellType::Attacker);
    assert_eq!(s.game.board[3][3].cell_type, CellType::King);
    assert_eq!(s.game.attacker_moves, 0);
}

#[test]
fn session_completes_at_its_game_limit() {
    let mut s = Session::new(1, 1);
    s.submit_move(CellType::Attacker, (0, 3), (1, 3)).unwrap_err();
    assert_eq!(s.conclude_game(), SessionOutcome::SessionComplete);
    assert!(s.finished);
    assert_eq!(s.stats.total_games, 1);
    // a complete session accepts nothing further
    assert_eq!(s.conclude_game(), SessionOutcome::SessionComplete);
    assert_eq!(
        s.submit_move(CellType::Attacker, (0, 3), (0, 2)),
        Err(MoveError::GameAlreadyOver)
    );
}

#[test]
fn attacker_win_counts_attacker_moves() {
    let mut s = Session::new(1, 100);
    // surround the king on the throne with the attacker's next move
    s.game.board[2][3].cell_type = CellType::Attacker;
    s.game.board[3][2].cell_type = CellType::Attacker;
    s.game.board[3][4].cell_type = CellType::Attacker;
    s.game.board[4][3].cell_type = CellType::Empty;
    s.game.board[5][3].cell_type = CellType::Attacker;
    assert_eq!(s.submit_move(CellType::Attacker, (5, 3), (4, 3)), Ok(()));
    assert!(s.game.game_over);
    assert_eq!(s.game.winner, Some(CellType::Attacker));
    assert_eq!(s.conclude_game(), SessionOutcome::NewGameStarted);
    assert_eq!(s.stats.attacker_wins, 1);
    assert_eq!(s.stats.total_attacker_moves, 1);
    assert_eq!(s.stats.total_defender_moves, 0);
}

#[test]
fn latency_samples_are_recorded_per_side() {
    let mut s = Session::new(1, 100);
    s.record_latency(CellType::Attacker, 1200);
    s.record_latency(CellType::Defender, 800);
    s.record_latency(CellType::Attacker, 300);
    assert_eq!(s.stats.move_durations_attacker, vec![1200, 300]);
    assert_eq!(s.stats.move_durations_defender, vec![800]);
}

#[test]
fn drawn_game_counts_no_win() {
    let mut s = Session::new(1, 100);
    s.game.attacker_moves = 50;
    s.game.defender_moves = 49;
    s.submit_move(CellType::Attacker, (0, 3), (0, 2)).unwrap();
    assert_eq!(s.game.winner, Some(CellType::Empty));
    assert_eq!(s.conclude_game(), SessionOutcome::NewGameStarted);
    assert_eq!(s.stats.total_games, 1);
    assert_eq!(s.stats.attacker_wins, 0);
    assert_eq!(s.stats.defender_wins, 0);
    assert_eq!(s.stats.total_attacker_moves, 0);
    assert_eq!(s.stats.total_defender_moves, 0);
}
