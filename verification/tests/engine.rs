use brandubh::board::CellType;
use brandubh::game::GameState;
use brandubh::rules::MoveError;

fn kind_at(g: &GameState, r: usize, c: usize) -> CellType {
    g.board[r][c].cell_type
}

fn king_count(g: &GameState) -> usize {
    let mut n = 0;
    for row in &g.board {
        for cell in row {
            if cell.cell_type == CellType::King {
                n += 1;
            }
        }
    }
    n
}

#[test]
fn initial_board_layout() {
    let g = GameState::new(1);
    assert_eq!(kind_at(&g, 3, 3), CellType::King);
    assert!(g.board[3][3].is_throne);
    for &(r, c) in &[(0, 3), (1, 3), (3, 0), (3, 1), (3, 5), (3, 6), (5, 3), (6, 3)] {
        assert_eq!(kind_at(&g, r, c), CellType::Attacker);
    }
    for &(r, c) in &[(2, 3), (3, 2), (3, 4), (4, 3)] {
        assert_eq!(kind_at(&g, r, c), CellType::Defender);
    }
    for &(r, c) in &[(0, 0), (0, 6), (6, 0), (6, 6)] {
        assert!(g.board[r][c].is_corner);
        assert_eq!(kind_at(&g, r, c), CellType::Empty);
    }
    assert_eq!(g.current_turn, CellType::Attacker);
    assert!(!g.game_over);
    assert!(g.winner.is_none());
}

#[test]
fn one_king_after_moves() {
    let mut g = GameState::new(1);
    assert_eq!(king_count(&g), 1);
    g.make_move((0, 3), (0, 2)).unwrap();
    assert_eq!(king_count(&g), 1);
    g.make_move((3, 2), (2, 2)).unwrap();
    assert_eq!(king_count(&g), 1);
}

#[test]
fn attacker_slide_destinations() {
    let g = GameState::new(1);
    let mut moves = g.calculate_valid_moves((0, 3));
    moves.sort();
    assert_eq!(moves, vec![(0, 1), (0, 2), (0, 4), (0, 5)]);
}

#[test]
fn destinations_exclude_own_square_and_stay_on_board() {
    let g = GameState::new(1);
    for r in 0..7 {
        for c in 0..7 {
            for &(tr, tc) in g.calculate_valid_moves((r, c)).iter() {
                assert!(tr < 7 && tc < 7);
                assert!((tr, tc) != (r, c));
            }
        }
    }
}

#[test]
fn non_king_never_reaches_corner_or_throne() {
    let mut g = GameState::new(1);
    // clear a lane along the top edge for the attacker on (0, 3)
    g.board[1][3].cell_type = CellType::Empty;
    for r in 0..7 {
        for c in 0..7 {
            if g.board[r][c].cell_type == CellType::Attacker
                || g.board[r][c].cell_type == CellType::Defender
            {
                for &(tr, tc) in g.calculate_valid_moves((r, c)).iter() {
                    assert!(!g.board[tr][tc].is_corner);
                    assert!((tr, tc) != (3, 3));
                }
            }
        }
    }
}

#[test]
fn king_may_enter_corner_and_throne() {
    let mut g = GameState::new(1);
    // move the King to (0, 2) with an open lane to the corner
    g.board[3][3].cell_type = CellType::Empty;
    g.board[0][2].cell_type = CellType::King;
    let moves = g.calculate_valid_moves((0, 2));
    assert!(moves.contains(&(0, 0)));
    assert!(moves.contains(&(0, 1)));

    let mut h = GameState::new(1);
    // the King beside the vacated throne may step back onto it
    h.board[3][3].cell_type = CellType::Empty;
    h.board[3][2].cell_type = CellType::King;
    let back = h.calculate_valid_moves((3, 2));
    assert!(back.contains(&(3, 3)));
}

#[test]
fn defender_cannot_enter_vacated_throne() {
    let mut g = GameState::new(1);
    g.board[3][3].cell_type = CellType::Empty;
    g.board[3][2].cell_type = CellType::Defender;
    let moves = g.calculate_valid_moves((3, 2));
    assert!(!moves.contains(&(3, 3)));
    assert_eq!(
        g.make_move((3, 2), (3, 3)),
        Err(MoveError::IllegalDestination)
    );
}

#[test]
fn simple_move_relocates_piece_and_flips_turn() {
    let mut g = GameState::new(1);
    assert_eq!(g.make_move((0, 3), (0, 2)), Ok(()));
    assert_eq!(kind_at(&g, 0, 3), CellType::Empty);
    assert_eq!(kind_at(&g, 0, 2), CellType::Attacker);
    assert_eq!(g.current_turn, CellType::Defender);
    assert!(!g.game_over);
}

#[test]
fn move_errors_are_reported_in_priority_order() {
    let mut g = GameState::new(1);
    assert_eq!(g.make_move((0, 3), (9, 9)), Err(MoveError::OutOfBounds));
    assert_eq!(g.make_move((0, 0), (0, 1)), Err(MoveError::EmptyCellSelected));
    assert_eq!(g.make_move((0, 3), (0, 3)), Err(MoveError::IllegalDestination));
    assert_eq!(g.make_move((0, 3), (1, 4)), Err(MoveError::NotStraightLine));
    // the lane from (3, 0) to (3, 2) runs through the defender on (3, 2)
    assert_eq!(g.make_move((3, 0), (3, 2)), Err(MoveError::PathBlocked));
    // failed moves leave the board untouched
    assert_eq!(kind_at(&g, 0, 3), CellType::Attacker);
    assert_eq!(g.current_turn, CellType::Attacker);
}

#[test]
fn sandwiched_attacker_is_captured() {
    let mut g = GameState::new(1);
    // a lone attacker on (2, 2), one defender above it, one defender
    // ready to close the sandwich from (4, 2)
    g.board[0][3].cell_type = CellType::Empty;
    g.board[2][2].cell_type = CellType::Attacker;
    g.board[1][2].cell_type = CellType::Defender;
    g.board[4][2].cell_type = CellType::Defender;
    g.current_turn = CellType::Defender;
    assert_eq!(g.make_move((4, 2), (3, 2)).is_err(), true); // blocked: (3, 2) holds a defender
    // clear the lane and complete the sandwich
    g.board[3][2].cell_type = CellType::Empty;
    assert_eq!(g.make_move((4, 2), (3, 2)), Ok(()));
    assert_eq!(kind_at(&g, 2, 2), CellType::Empty);
    // the flanking pieces stay
    assert_eq!(kind_at(&g, 1, 2), CellType::Defender);
    assert_eq!(kind_at(&g, 3, 2), CellType::Defender);
}

#[test]
fn corner_serves_as_anvil() {
    let mut g = GameState::new(1);
    // a defender on (0, 1) next to the corner, an attacker closing in
    g.board[0][1].cell_type = CellType::Defender;
    g.board[2][2].cell_type = CellType::Attacker;
    assert_eq!(g.make_move((2, 2), (0, 2)), Ok(()));
    assert_eq!(kind_at(&g, 0, 1), CellType::Empty);
}

#[test]
fn capture_pass_leaves_distant_pieces_alone() {
    let mut g = GameState::new(1);
    let before: Vec<(usize, usize, CellType)> = (0..7)
        .flat_map(|r| (0..7).map(move |c| (r, c)))
        .map(|(r, c)| (r, c, g.board[r][c].cell_type))
        .collect();
    g.make_move((0, 3), (0, 2)).unwrap();
    for (r, c, k) in before {
        let near_landing =
            (r == 0 && (c == 1 || c == 3)) || (r == 1 && c == 2) || (r == 0 && c == 2);
        if !near_landing && (r, c) != (0, 3) {
            assert_eq!(g.board[r][c].cell_type, k);
        }
    }
}

#[test]
fn king_on_corner_wins_for_defender() {
    let mut g = GameState::new(1);
    g.board[3][3].cell_type = CellType::Empty;
    g.board[0][0].cell_type = CellType::King;
    assert_eq!(g.check_win_condition(), Some(CellType::Defender));
}

#[test]
fn king_surrounded_on_throne_loses() {
    let mut g = GameState::new(1);
    // attackers on all four throne-adjacent squares
    g.board[2][3].cell_type = CellType::Attacker;
    g.board[3][2].cell_type = CellType::Attacker;
    g.board[3][4].cell_type = CellType::Attacker;
    g.board[4][3].cell_type = CellType::Attacker;
    g.current_turn = CellType::Attacker; // the attacker has just moved
    assert_eq!(g.check_win_condition(), Some(CellType::Attacker));
}

#[test]
fn surround_completed_by_capture_is_seen_at_once() {
    let mut g = GameState::new(1);
    // three attackers already pin the throne; the fourth arrives with
    // the move that completes the surround
    g.board[2][3].cell_type = CellType::Attacker;
    g.board[3][2].cell_type = CellType::Attacker;
    g.board[3][4].cell_type = CellType::Attacker;
    g.board[4][3].cell_type = CellType::Empty;
    g.board[5][3].cell_type = CellType::Attacker;
    g.current_turn = CellType::Attacker;
    assert_eq!(g.make_move((5, 3), (4, 3)), Ok(()));
    assert!(g.game_over);
    assert_eq!(g.winner, Some(CellType::Attacker));
}

#[test]
fn king_surrounded_off_throne_by_pair() {
    let mut g = GameState::new(1);
    g.board[3][3].cell_type = CellType::Empty;
    g.board[5][5].cell_type = CellType::King;
    g.board[4][5].cell_type = CellType::Attacker;
    g.board[6][5].cell_type = CellType::Attacker;
    g.current_turn = CellType::Attacker;
    assert_eq!(g.check_win_condition(), Some(CellType::Attacker));
}

#[test]
fn win_check_clears_deferred_flag() {
    let mut g = GameState::new(1);
    g.king_capture = true;
    g.current_turn = CellType::Defender;
    assert_eq!(g.check_win_condition(), None);
    assert!(!g.king_capture);
}

#[test]
fn two_click_flow_moves_a_piece() {
    let mut g = GameState::new(1);
    assert_eq!(g.process_click(0, 3), Ok(()));
    assert!(g.board[0][3].is_selected);
    assert!(g.board[0][2].is_possible_move);
    assert!(!g.board[0][0].is_possible_move);
    assert_eq!(g.process_click(0, 2), Ok(()));
    assert_eq!(kind_at(&g, 0, 2), CellType::Attacker);
    assert_eq!(kind_at(&g, 0, 3), CellType::Empty);
    assert_eq!(g.current_turn, CellType::Defender);
    // highlights are cleared after the move
    for r in 0..7 {
        for c in 0..7 {
            assert!(!g.board[r][c].is_possible_move);
        }
    }
}

#[test]
fn click_rejections_reset_selection() {
    let mut g = GameState::new(1);
    assert_eq!(g.process_click(9, 0), Err(MoveError::OutOfBounds));
    assert_eq!(g.process_click(0, 0), Err(MoveError::EmptyCellSelected));
    assert_eq!(g.process_click(2, 3), Err(MoveError::WrongOwner));
    // a rejected selection leaves the flow awaiting a source again
    assert_eq!(g.process_click(0, 3), Ok(()));
    assert_eq!(g.process_click(1, 3), Err(MoveError::PathBlocked));
    assert_eq!(g.process_click(0, 3), Ok(()));
    assert_eq!(g.process_click(0, 0), Err(MoveError::IllegalDestination));
    let mut over = GameState::new(1);
    over.game_over = true;
    assert_eq!(over.process_click(0, 3), Err(MoveError::GameAlreadyOver));
}

#[test]
fn submit_move_applies_both_gates() {
    let mut g = GameState::new(1);
    assert_eq!(g.submit_move((0, 0), (0, 1)), Err(MoveError::EmptyCellSelected));
    assert_eq!(g.submit_move((2, 3), (2, 2)), Err(MoveError::WrongOwner));
    assert_eq!(g.submit_move((0, 3), (1, 3)), Err(MoveError::PathBlocked));
    assert_eq!(g.submit_move((0, 3), (0, 2)), Ok(()));
    assert_eq!(kind_at(&g, 0, 2), CellType::Attacker);
    assert_eq!(g.current_turn, CellType::Defender);
}

#[test]
fn geometric_validity_check() {
    let g = GameState::new(1);
    assert!(g.is_valid_move((0, 3), (0, 2)));
    assert!(!g.is_valid_move((0, 3), (0, 3)));
    assert!(!g.is_valid_move((0, 3), (1, 4)));
    assert!(!g.is_valid_move((0, 3), (2, 3)));
    assert!(!g.is_valid_move((0, 3), (0, 9)));
}

fn clear_board(g: &mut GameState) {
    for r in 0..7 {
        for c in 0..7 {
            g.board[r][c].cell_type = CellType::Empty;
        }
    }
}

#[test]
fn stalemated_defenders_lose() {
    let mut g = GameState::new(1);
    clear_board(&mut g);
    // the defending side is just the King, boxed in on the throne; the
    // surround gate is off (a Defender has just moved), so the win comes
    // from the stalemate rule
    g.board[3][3].cell_type = CellType::King;
    g.board[2][3].cell_type = CellType::Attacker;
    g.board[4][3].cell_type = CellType::Attacker;
    g.board[3][2].cell_type = CellType::Attacker;
    g.board[3][4].cell_type = CellType::Attacker;
    g.current_turn = CellType::Defender;
    assert_eq!(g.check_win_condition(), Some(CellType::Attacker));
}

#[test]
fn stalemated_attackers_lose() {
    let mut g = GameState::new(1);
    clear_board(&mut g);
    // a single attacker wedged against the corner by two defenders
    g.board[1][0].cell_type = CellType::Attacker;
    g.board[2][0].cell_type = CellType::Defender;
    g.board[1][1].cell_type = CellType::Defender;
    g.board[3][3].cell_type = CellType::King;
    g.current_turn = CellType::Defender;
    assert_eq!(g.check_win_condition(), Some(CellType::Defender));
}
