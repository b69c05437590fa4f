use parcheesi::board::{Board, MoveError, MoveResult, Pawn};
use parcheesi::dice::Dice;
use parcheesi::geometry::{Color, Loc, PawnLocs, HOME_BONUS};
use parcheesi::moves::{Move, MoveType};

fn spot(index: usize) -> Loc {
    Loc::Spot { index }
}

fn single_pawn_board(color: Color, start_index: usize) -> Board {
    let locs: PawnLocs = [spot(start_index), Loc::Nest, Loc::Nest, Loc::Nest];
    Board::from(vec![(color, locs)])
}

fn single_pawn_move(color: Color, start_index: usize, distance: usize) -> Move {
    let pawn = Pawn { id: 0, color };
    let m_type = if start_index > Board::get_home_row(&color) {
        MoveType::MoveHome { start: start_index, distance }
    } else {
        MoveType::MoveMain { start: start_index, distance }
    };
    Move { pawn, m_type }
}

fn is_valid_single(color: Color, start_index: usize, distance: usize) -> bool {
    let board = single_pawn_board(color, start_index);
    let dice = Dice { rolls: vec![distance] };
    Board::is_valid_move(&board, &dice, &single_pawn_move(color, start_index, distance))
}

fn next_single(color: Color, start_index: usize, distance: usize) -> (Loc, Option<usize>) {
    let board = single_pawn_board(color, start_index);
    match board.handle_move(single_pawn_move(color, start_index, distance)) {
        Ok(MoveResult(next_board, bonus)) => (next_board.get_pawn_loc(&color, 0), bonus),
        Err(_) => panic!("Move resulted in an error"),
    }
}

fn check_all(fixtures: Vec<(Color, usize, usize, Loc, Option<usize>)>) {
    for (color, start, distance, expected_loc, expected_bonus) in fixtures {
        assert!(is_valid_single(color, start, distance));
        let (actual_loc, actual_bonus) = next_single(color, start, distance);
        assert_eq!(expected_loc, actual_loc);
        assert_eq!(expected_bonus, actual_bonus);
    }
}

#[test]
fn test_pawn_colors() {
    let y1 = Pawn::new(1, Color::Yellow);
    let r1 = Pawn::new(1, Color::Red);
    let r2 = Pawn::new(2, Color::Red);
    assert_ne!(y1.color, r2.color);
    assert_eq!(r1.color, r2.color);
}

#[test]
fn sort_player_locs_with_home() {
    let posns = [spot(57), Loc::Home, spot(0), spot(402)];
    let expected: Vec<(usize, Loc)> = vec![(0, spot(57)), (2, spot(0)), (3, spot(402)), (1, Loc::Home)];
    let actual = Board::sort_player_locs(&Color::Green, posns);
    assert_eq!(actual, expected);
}

#[test]
fn sort_player_locs_with_nest() {
    let posns = [spot(57), Loc::Nest, spot(302), spot(0)];
    let expected: Vec<(usize, Loc)> = vec![(1, Loc::Nest), (0, spot(57)), (3, spot(0)), (2, spot(302))];
    let actual = Board::sort_player_locs(&Color::Yellow, posns);
    assert_eq!(actual, expected);
}

#[test]
fn sort_player_locs_by_color() {
    let posns = [spot(11), spot(30), spot(49), spot(66)];
    assert_eq!(
        Board::sort_player_locs(&Color::Red, posns),
        vec![(0, spot(11)), (1, spot(30)), (2, spot(49)), (3, spot(66))]
    );
    assert_eq!(
        Board::sort_player_locs(&Color::Blue, posns),
        vec![(1, spot(30)), (2, spot(49)), (3, spot(66)), (0, spot(11))]
    );
    assert_eq!(
        Board::sort_player_locs(&Color::Yellow, posns),
        vec![(2, spot(49)), (3, spot(66)), (0, spot(11)), (1, spot(30))]
    );
    assert_eq!(
        Board::sort_player_locs(&Color::Green, posns),
        vec![(3, spot(66)), (0, spot(11)), (1, spot(30)), (2, spot(49))]
    );
}

#[test]
fn can_bop_other_pawn() {
    let board = Board::from(vec![
        (Color::Green, [spot(14), Loc::Nest, Loc::Nest, Loc::Nest]),
        (Color::Yellow, [spot(29), Loc::Nest, Loc::Nest, Loc::Nest]),
    ]);
    assert_eq!(board.can_bop(Color::Red, spot(14)).unwrap(), Pawn { color: Color::Green, id: 0 });
    assert_eq!(board.can_bop(Color::Blue, spot(29)).unwrap(), Pawn { color: Color::Yellow, id: 0 });
}

#[test]
fn cannot_bop_own_pawn() {
    let board = Board::from(vec![(Color::Red, [spot(13), spot(14), Loc::Nest, Loc::Nest])]);
    assert!(board.can_bop(Color::Red, spot(13)).is_none());
}

#[test]
fn cannot_bop_empty() {
    let board = Board::new();
    assert!(board.can_bop(Color::Green, spot(13)).is_none());
}

#[test]
fn cannot_bop_blockade() {
    let board = Board::from(vec![(Color::Red, [spot(13), spot(13), Loc::Nest, Loc::Nest])]);
    assert!(board.can_bop(Color::Green, spot(13)).is_none());
}

#[test]
fn can_bop_off_entrance() {
    let board = Board::from(vec![(Color::Green, [spot(4), Loc::Nest, Loc::Nest, Loc::Nest])]);
    assert_eq!(board.can_bop(Color::Red, spot(4)).unwrap(), Pawn { color: Color::Green, id: 0 });
}

#[test]
fn cannot_bop_off_entrance_without_entering() {
    let board = Board::from(vec![(Color::Green, [spot(4), Loc::Nest, Loc::Nest, Loc::Nest])]);
    assert!(board.can_bop(Color::Yellow, spot(4)).is_some());
}

#[test]
fn cannot_bop_off_safety() {
    let board = Board::from(vec![(Color::Green, [spot(11), Loc::Nest, Loc::Nest, Loc::Nest])]);
    assert!(board.can_bop(Color::Yellow, spot(11)).is_none());
}

#[test]
fn enter() {
    let board = Board::new();
    let mv = Move { m_type: MoveType::EnterPiece, pawn: Pawn { color: Color::Green, id: 0 } };
    let MoveResult(result_board, bonus) = board.handle_move(mv).unwrap();
    assert_eq!(
        result_board,
        Board::from(vec![(Color::Green, [spot(55), Loc::Nest, Loc::Nest, Loc::Nest])])
    );
    assert_eq!(bonus, None);
}

#[test]
fn move_from_entrance() {
    check_all(vec![
        (Color::Red, 4, 5, spot(9), None),
        (Color::Green, 55, 5, spot(60), None),
        (Color::Blue, 38, 5, spot(43), None),
        (Color::Yellow, 21, 5, spot(26), None),
    ]);
}

#[test]
fn main_ring_wrap_index() {
    check_all(vec![
        (Color::Blue, 66, 5, spot(3), None),
        (Color::Green, 66, 5, spot(3), None),
        (Color::Yellow, 64, 5, spot(1), None),
    ]);
}

#[test]
fn main_ring_to_home_row() {
    check_all(vec![
        (Color::Red, 66, 5, spot(103), None),
        (Color::Yellow, 33, 1, spot(300), None),
        (Color::Green, 45, 6, spot(400), None),
        (Color::Blue, 13, 6, spot(202), None),
    ]);
}

#[test]
fn main_ring_bonus() {
    assert_eq!(next_single(Color::Yellow, 38, 10), (spot(48), None));
}

#[test]
fn move_within_home_row() {
    check_all(vec![
        (Color::Red, 100, 5, spot(105), None),
        (Color::Green, 400, 3, spot(403), None),
        (Color::Yellow, 301, 6, Loc::Home, Some(10)),
        (Color::Blue, 203, 4, Loc::Home, Some(10)),
    ]);
}

#[test]
fn main_to_home_row_with_bonus() {
    check_all(vec![
        (Color::Red, 64, 10, spot(106), None),
        (Color::Green, 36, 20, spot(405), None),
        (Color::Yellow, 30, 10, spot(306), None),
        (Color::Blue, 1, 20, spot(204), None),
    ]);
}

#[test]
fn main_to_home_with_bonus() {
    assert_eq!(next_single(Color::Blue, 4, 20), (Loc::Home, Some(HOME_BONUS)));
}

#[test]
fn overshoot_is_an_error_not_a_clip() {
    let board = single_pawn_board(Color::Red, 105);
    let result = board.handle_move(single_pawn_move(Color::Red, 105, 5));
    assert!(matches!(result, Err(MoveError::Overshoot)));
    assert!(!is_valid_single(Color::Red, 105, 5));
    assert!(!is_valid_single(Color::Red, 64, 20));
    assert!(!is_valid_single(Color::Green, 49, 10));
    assert!(!is_valid_single(Color::Green, 404, 4));
}

#[test]
fn path_steps_agree_with_handle_move() {
    let mut path = parcheesi::board::Path::started(Color::Green, spot(36));
    let cells = path.take_steps(20);
    assert_eq!(cells.len(), 20);
    assert_eq!(cells[13], spot(50));
    assert_eq!(cells[14], spot(400));
    assert_eq!(*cells.last().unwrap(), next_single(Color::Green, 36, 20).0);
    let mut from_nest = parcheesi::board::Path::new(Color::Red);
    assert_eq!(from_nest.next(), Some(Loc::Nest));
    assert_eq!(from_nest.next(), Some(spot(4)));
    assert_eq!(from_nest.next(), Some(spot(5)));
}

#[test]
fn bop_needs_exactly_one_opponent() {
    let board = Board::from(vec![
        (Color::Green, [spot(4), Loc::Nest, Loc::Nest, Loc::Nest]),
        (Color::Blue, [spot(4), Loc::Nest, Loc::Nest, Loc::Nest]),
    ]);
    assert!(board.can_bop(Color::Red, spot(4)).is_none());
    assert!(board.can_bop(Color::Green, spot(4)).is_some());
    assert!(board.can_bop(Color::Green, spot(5)).is_none());
    assert!(board.can_bop(Color::Green, Loc::Home).is_none());
}

#[test]
fn blockades_are_listed_once() {
    let board = Board::from(vec![
        (Color::Green, [spot(30), spot(30), spot(30), Loc::Home]),
        (Color::Red, [spot(10), spot(10), Loc::Home, Loc::Home]),
        (Color::Blue, [Loc::Nest, Loc::Nest, spot(12), spot(13)]),
    ]);
    let mut blockades = board.get_blockades();
    blockades.sort_by_key(|l| match l {
        Loc::Spot { index } => *index,
        _ => 0,
    });
    assert_eq!(blockades, vec![spot(10), spot(30)]);
    assert!(Board::new().get_blockades().is_empty());
}

#[test]
fn winner_and_entry_queries() {
    let board = Board::from(vec![(Color::Blue, [Loc::Home, Loc::Home, Loc::Home, Loc::Home])]);
    assert_eq!(board.has_winner(), Some(Color::Blue));
    assert_eq!(Board::new().has_winner(), None);
    assert!(board.all_pawns_entered(&Color::Blue));
    assert!(!board.all_pawns_entered(&Color::Red));
    assert!(Board::is_home_row(Color::Red, spot(103)));
    assert!(!Board::is_home_row(Color::Red, spot(67)));
    assert!(Board::is_safety(spot(62)));
    assert!(!Board::is_safety(spot(63)));
    assert_eq!(Board::get_exit(&Color::Yellow), 33);
    assert_eq!(Board::get_entrance(&Color::Blue), 21);
    assert_eq!(Board::get_home_row(&Color::Green), 400);
    let single = Board::from(vec![(Color::Red, [spot(11), Loc::Nest, Loc::Nest, Loc::Nest])]);
    assert!(single.full_safety_square(spot(11), Color::Green));
    assert!(!single.full_safety_square(spot(11), Color::Red));
}

#[test]
fn later_entry_for_a_color_wins() {
    let board = Board::from(vec![
        (Color::Red, [spot(1), Loc::Nest, Loc::Nest, Loc::Nest]),
        (Color::Red, [spot(2), Loc::Nest, Loc::Nest, Loc::Nest]),
    ]);
    assert_eq!(board.get_pawns_by_color(&Color::Red), [spot(2), Loc::Nest, Loc::Nest, Loc::Nest]);
    assert_eq!(board.get_pawns_by_color(&Color::Green), [Loc::Nest; 4]);
}

#[test]
fn draw_cells() {
    let two = vec![Pawn { color: Color::Green, id: 3 }, Pawn { color: Color::Green, id: 1 }];
    assert_eq!(Board::draw_cell(false, &two), "+--------+\n| G3 G1  |\n+--------+");
    let one = vec![Pawn { color: Color::Green, id: 2 }];
    assert_eq!(Board::draw_cell(true, &one), "+--------+\n|///G2///|\n+--------+");
    let crowded = vec![
        Pawn { color: Color::Red, id: 0 },
        Pawn { color: Color::Blue, id: 1 },
        Pawn { color: Color::Yellow, id: 2 },
    ];
    assert_eq!(Board::draw_cell(false, &crowded), "+--------+\n|R0 B1 Y2|\n+--------+");
    assert_eq!(Board::draw_cell(true, &Vec::new()), "+--------+\n|////////|\n+--------+");
}

#[test]
fn steps_from_an_unstarted_path_begin_at_the_nest() {
    let mut path = parcheesi::board::Path::new(Color::Blue);
    assert_eq!(path.take_steps(3), vec![Loc::Nest, spot(21), spot(22)]);
    assert_eq!(path.take_steps(2), vec![spot(23), spot(24)]);
    let mut empty = parcheesi::board::Path::new(Color::Blue);
    assert!(empty.take_steps(0).is_empty());
    let mut home = parcheesi::board::Path::started(Color::Red, spot(105));
    assert_eq!(home.take_steps(5), vec![spot(106), Loc::Home]);
}
