use parcheesi::autoplayers::{move_first_pawn_player, move_last_pawn_player, search_moves, MoveEndPawnPlayer};
use parcheesi::board::{Board, Pawn};
use parcheesi::dice::Dice;
use parcheesi::game::Player;
use parcheesi::geometry::{Color, Loc};
use parcheesi::moves::{Move, MoveType};

fn spot(index: usize) -> Loc {
    Loc::Spot { index }
}

#[test]
fn do_move_basic() {
    let test_player = move_first_pawn_player("Test".to_string(), Color::Green);
    let test_board = Board::from(vec![(Color::Green, [spot(58), Loc::Nest, Loc::Nest, Loc::Home])]);
    let test_dice = Dice { rolls: vec![5, 5] };
    let expected_move = Move {
        m_type: MoveType::MoveMain { start: 58, distance: 5 },
        pawn: Pawn { id: 0, color: Color::Green },
    };
    assert!(test_player.do_move(test_board, test_dice).pop() == Some(expected_move));
}

#[test]
fn do_move_choose_farthest_pawn() {
    let test_player = move_first_pawn_player("Test".to_string(), Color::Green);
    let test_board = Board::from(vec![
        (Color::Green, [spot(67), spot(19), Loc::Home, spot(36)]),
        (Color::Blue, [spot(18), Loc::Home, Loc::Nest, spot(13)]),
    ]);
    let test_dice = Dice { rolls: vec![1, 2] };
    let expected_move = Move {
        m_type: MoveType::MoveMain { start: 36, distance: 1 },
        pawn: Pawn { id: 3, color: Color::Green },
    };
    assert!(test_player.do_move(test_board, test_dice).pop() == Some(expected_move));
}

#[test]
fn do_move_choose_second_pawn_if_first_blockaded() {
    let test_player: MoveEndPawnPlayer = move_first_pawn_player("Test".to_string(), Color::Green);
    let test_board = Board::from(vec![
        (Color::Green, [Loc::Nest, spot(34), spot(47), spot(19)]),
        (Color::Red, [spot(49), spot(49), Loc::Nest, Loc::Nest]),
        (Color::Blue, [spot(50), Loc::Nest, Loc::Nest, Loc::Nest]),
    ]);
    let test_dice = Dice { rolls: vec![3, 2] };
    let expected_move = Move {
        m_type: MoveType::MoveMain { start: 34, distance: 3 },
        pawn: Pawn { id: 1, color: Color::Green },
    };
    assert!(test_player.do_move(test_board, test_dice).pop() == Some(expected_move));
}

#[test]
fn do_move_choose_second_pawn_if_first_overshoot_second_blockaded() {
    let test_player: MoveEndPawnPlayer = move_first_pawn_player("Test".to_string(), Color::Green);
    let test_board = Board::from(vec![
        (Color::Green, [Loc::Nest, spot(19), spot(406), spot(47)]),
        (Color::Red, [spot(49), spot(49), Loc::Nest, Loc::Nest]),
        (Color::Blue, [spot(50), Loc::Nest, Loc::Nest, Loc::Nest]),
    ]);
    let test_dice = Dice { rolls: vec![3, 2] };
    let expected_move = Move {
        m_type: MoveType::MoveMain { start: 19, distance: 3 },
        pawn: Pawn { id: 1, color: Color::Green },
    };
    assert!(test_player.do_move(test_board, test_dice).pop() == Some(expected_move));
}

#[test]
fn do_move_choose_first_pawn_and_bop() {
    let test_player: MoveEndPawnPlayer = move_first_pawn_player("Test".to_string(), Color::Green);
    let test_board = Board::from(vec![
        (Color::Green, [Loc::Nest, spot(34), spot(47), spot(19)]),
        (Color::Red, [spot(49), Loc::Nest, Loc::Nest, Loc::Nest]),
        (Color::Blue, [spot(50), Loc::Nest, Loc::Nest, Loc::Nest]),
    ]);
    let test_dice = Dice { rolls: vec![3, 2] };
    let expected_move = Move {
        m_type: MoveType::MoveMain { start: 47, distance: 2 },
        pawn: Pawn { id: 2, color: Color::Green },
    };
    assert_eq!(test_player.do_move(test_board, test_dice), vec![expected_move]);
}

#[test]
fn do_move_enter_if_no_others_can_move() {
    let test_player: MoveEndPawnPlayer = move_first_pawn_player("Test".to_string(), Color::Green);
    let test_board = Board::from(vec![
        (Color::Green, [Loc::Nest, spot(19), spot(406), spot(47)]),
        (Color::Red, [spot(49), spot(49), Loc::Nest, Loc::Nest]),
        (Color::Blue, [spot(50), spot(21), Loc::Nest, Loc::Nest]),
        (Color::Yellow, [spot(22), spot(22), Loc::Nest, Loc::Nest]),
    ]);
    let test_dice = Dice { rolls: vec![3, 2] };
    let expected_move = Move { m_type: MoveType::EnterPiece, pawn: Pawn { id: 0, color: Color::Green } };
    assert!(test_player.do_move(test_board, test_dice).pop() == Some(expected_move));
}

#[test]
fn do_move_no_possible_moves() {
    let test_player: MoveEndPawnPlayer = move_first_pawn_player("Test".to_string(), Color::Green);
    let test_board = Board::from(vec![
        (Color::Green, [Loc::Nest, spot(19), spot(406), spot(47)]),
        (Color::Blue, [spot(50), Loc::Nest, Loc::Nest, Loc::Nest]),
        (Color::Yellow, [spot(22), spot(22), Loc::Nest, Loc::Nest]),
    ]);
    let test_dice = Dice { rolls: vec![3, 3] };
    assert!(test_player.do_move(test_board, test_dice).pop() == None);
}

#[test]
fn last_pawn_player_moves_least_advanced() {
    let player = move_last_pawn_player("Last".to_string(), Color::Red);
    assert!(!player.should_reverse_path);
    assert_eq!(player.start_game(), "Last");
    let board = Board::from(vec![(Color::Red, [spot(30), spot(10), Loc::Home, spot(102)])]);
    let chosen = player.choose_move(&board, &Dice { rolls: vec![2] });
    assert_eq!(
        chosen,
        vec![Move { m_type: MoveType::MoveMain { start: 10, distance: 2 }, pawn: Pawn { id: 1, color: Color::Red } }]
    );
}

#[test]
fn policy_offers_nothing_for_pawn_off_route() {
    let player = MoveEndPawnPlayer::new("Odd".to_string(), Color::Red, true);
    let board = Board::from(vec![(Color::Red, [spot(250), spot(10), Loc::Nest, Loc::Nest])]);
    assert!(player.choose_move(&board, &Dice { rolls: vec![2] }).is_empty());
}

#[test]
fn search_moves_plays_until_stuck() {
    let board = Board::from(vec![(Color::Red, [spot(20), Loc::Home, Loc::Home, Loc::Home])]);
    let moves = search_moves(board, Dice { rolls: vec![2, 3] }, Color::Red);
    assert_eq!(
        moves,
        vec![
            Move { m_type: MoveType::MoveMain { start: 20, distance: 2 }, pawn: Pawn { id: 0, color: Color::Red } },
            Move { m_type: MoveType::MoveMain { start: 22, distance: 3 }, pawn: Pawn { id: 0, color: Color::Red } },
        ]
    );
    let entry = search_moves(Board::new(), Dice { rolls: vec![5, 5] }, Color::Blue);
    assert_eq!(entry.len(), 2);
    assert!(entry.iter().all(|m| m.m_type == MoveType::EnterPiece));
}
