use parcheesi::board::{Board, MoveResult, Pawn};
use parcheesi::dice::{Dice, DiceError, EntryMove};
use parcheesi::game::{Game, Player, TurnError};
use parcheesi::gametree::GameTree;
use parcheesi::geometry::{Color, Loc, PawnLocs, BOP_BONUS, HOME_BONUS};
use parcheesi::moves::{Move, MoveType};

fn spot(index: usize) -> Loc {
    Loc::Spot { index }
}

fn pawn(color: Color, id: usize) -> Pawn {
    Pawn { color, id }
}

struct TestPlayer {
    chosen_move: Move,
}

impl TestPlayer {
    fn new(m_type: MoveType, color: Color) -> TestPlayer {
        TestPlayer { chosen_move: Move { m_type, pawn: Pawn::new(0, color) } }
    }
}

impl Player for TestPlayer {
    fn start_game(&self) -> String {
        "test".to_string()
    }

    fn do_move(&self, _board: Board, _dice: Dice) -> Vec<Move> {
        vec![self.chosen_move]
    }

    fn doubles_penalty(&self) {}
}

/// Plays the first move that the search offers.
struct SearchPlayer {
    color: Color,
}

impl Player for SearchPlayer {
    fn start_game(&self) -> String {
        "search".to_string()
    }

    fn do_move(&self, board: Board, dice: Dice) -> Vec<Move> {
        let mut tree = GameTree::new(board, dice, self.color);
        match tree.next() {
            Some(m) => vec![m],
            None => vec![],
        }
    }

    fn doubles_penalty(&self) {}
}

#[test]
fn dice_enter_1_4() {
    let dice = Dice { rolls: vec![1, 4] };
    assert!(dice.can_enter() != EntryMove::NoEntry);
    assert_eq!(dice.consume_entry_move(), Ok(Dice { rolls: Vec::new() }));
}

#[test]
fn enter_2_3() {
    let dice = Dice { rolls: vec![2, 3] };
    assert!(dice.can_enter() != EntryMove::NoEntry);
    assert_eq!(dice.consume_entry_move(), Ok(Dice { rolls: Vec::new() }));
}

#[test]
fn enter_two_pieces() {
    let mut dice = Dice { rolls: vec![5, 5, 6] };
    assert!(dice.can_enter() != EntryMove::NoEntry);
    dice = dice.consume_entry_move().unwrap();
    assert_eq!(dice, Dice { rolls: vec![5, 6] });
    assert!(dice.can_enter() != EntryMove::NoEntry);
    dice = dice.consume_entry_move().unwrap();
    assert_eq!(dice, Dice { rolls: vec![6] });
}

#[test]
fn illegal_enter() {
    let dice = Dice { rolls: vec![3, 3, 6] };
    assert!(dice.can_enter() == EntryMove::NoEntry);
    assert_eq!(dice.consume_entry_move(), Err(DiceError::NoEntry));
}

#[test]
fn entry_scan_order() {
    assert_eq!(Dice { rolls: vec![1, 4, 5] }.can_enter(), EntryMove::WithSum(1, 4));
    assert_eq!(Dice { rolls: vec![6, 5, 1, 4] }.can_enter(), EntryMove::WithFive);
    assert_eq!(Dice { rolls: vec![3, 6, 2] }.can_enter(), EntryMove::WithSum(3, 2));
    assert_eq!(Dice { rolls: vec![] }.can_enter(), EntryMove::NoEntry);
}

#[test]
fn consume_removes_first_occurrence() {
    let dice = Dice { rolls: vec![3, 5, 3] };
    assert_eq!(dice.consume_normal_move(3), Ok(Dice { rolls: vec![5, 3] }));
    assert_eq!(dice.consume_normal_move(4), Err(DiceError::InvalidConsumption));
    let mv = Move { m_type: MoveType::MoveMain { start: 9, distance: 5 }, pawn: pawn(Color::Red, 0) };
    assert_eq!(dice.consume_move(&mv), Ok(Dice { rolls: vec![3, 3] }));
    assert!(dice.contains(&5));
    assert!(!dice.contains(&6));
    assert!(!dice.all_used());
    assert!(Dice::new().all_used());
}

#[test]
fn bonus_round_trip() {
    let dice = Dice { rolls: vec![3, 5] };
    let back = dice.give_bonus(20).consume_normal_move(20).unwrap();
    assert_eq!(back, dice);
    let with_repeat = dice.give_bonus(3);
    assert_eq!(with_repeat, Dice { rolls: vec![3, 5, 3] });
    let mut again = with_repeat.consume_normal_move(3).unwrap().rolls;
    let mut original = dice.rolls.clone();
    again.sort();
    original.sort();
    assert_eq!(again, original);
}

#[test]
fn roll_gives_die_faces() {
    for _ in 0..200 {
        let (dice, is_doubles) = Dice::roll(false);
        assert_eq!(dice.rolls.len(), 2);
        assert!(dice.rolls.iter().all(|d| (1..=6).contains(d)));
        assert_eq!(is_doubles, dice.rolls[0] == dice.rolls[1]);
        let (bonus_dice, _) = Dice::roll(true);
        assert!(bonus_dice.rolls.len() == 2 || bonus_dice.rolls.len() == 4);
        assert!((1..=6).contains(&bonus_dice.rolls[0]));
    }
}

#[test]
fn roll_outcome_from_faces() {
    assert_eq!(Dice::from_roll(2, 2, true), (Dice { rolls: vec![2, 2, 4, 4] }, true));
    assert_eq!(Dice::from_roll(2, 2, false), (Dice { rolls: vec![2, 2] }, true));
    assert_eq!(Dice::from_roll(3, 5, true), (Dice { rolls: vec![3, 5] }, false));
}

#[test]
fn game_enter_1_4() {
    let p_1 = TestPlayer::new(MoveType::EnterPiece, Color::Green);
    let game = Game::new();
    let roll_fn = |_| (Dice { rolls: vec![1, 4] }, false);
    let (next_board, _next_dice) = game.give_turn(&Color::Green, &p_1, roll_fn).unwrap();
    let green_entry = Board::get_entrance(&Color::Green);
    assert!(next_board.get_pawn_loc(&Color::Green, 0) == Loc::Spot { index: green_entry });
}

#[test]
fn give_turn_rejects_entry_onto_blockade() {
    let mut game = Game::new();
    game.board = Board::from(vec![(Color::Green, [spot(4), spot(4), Loc::Nest, Loc::Nest])]);
    assert!(game.is_blockaded(4));
    let p1 = TestPlayer::new(MoveType::EnterPiece, Color::Red);
    let roll_fn = |_| (Dice { rolls: vec![1, 4] }, false);
    // Red cannot enter, and has nothing else to move: the turn ends untouched.
    let (board, dice) = game.give_turn(&Color::Red, &p1, roll_fn).unwrap();
    assert_eq!(board, game.board);
    assert_eq!(dice, Dice { rolls: vec![1, 4] });
}

#[test]
fn give_turn_rejects_passing_a_blockade() {
    let mut game = Game::new();
    game.board = Board::from(vec![
        (Color::Green, [spot(11), spot(11), Loc::Nest, Loc::Nest]),
        (Color::Red, [spot(10), spot(30), Loc::Nest, Loc::Nest]),
    ]);
    let p1 = TestPlayer::new(MoveType::MoveMain { start: 10, distance: 2 }, Color::Red);
    let roll_fn = |_| (Dice { rolls: vec![2, 4] }, false);
    assert_eq!(game.give_turn(&Color::Red, &p1, roll_fn), Err(TurnError::InvalidMove));
}

#[test]
fn give_turn_with_search_player_uses_all_dice() {
    let mut game = Game::new();
    game.board = Board::from(vec![(Color::Red, [spot(20), Loc::Home, Loc::Home, Loc::Home])]);
    let player = SearchPlayer { color: Color::Red };
    let roll_fn = |_| (Dice { rolls: vec![2, 3] }, false);
    let (board, dice) = game.give_turn(&Color::Red, &player, roll_fn).unwrap();
    assert_eq!(board.get_pawn_loc(&Color::Red, 0), spot(25));
    assert!(dice.all_used());
}

#[test]
fn third_double_ends_turn_with_penalty() {
    let game = Game::new();
    let player = SearchPlayer { color: Color::Blue };
    let roll_fn = |_| (Dice { rolls: vec![3, 3] }, true);
    let (board, dice) = game.give_turn(&Color::Blue, &player, roll_fn).unwrap();
    assert_eq!(board, Board::new());
    assert!(dice.all_used());
}

#[test]
fn game_queries() {
    let mut game = Game::new();
    assert!(!game.is_game_over());
    game.board = Board::from(vec![(Color::Yellow, [Loc::Home; 4])]);
    assert!(game.is_game_over());
}

#[test]
fn scenario_green_ring_move() {
    let board = Board::from(vec![(Color::Green, [spot(58), Loc::Nest, Loc::Nest, Loc::Home])]);
    let dice = Dice { rolls: vec![5, 5] };
    let mv = Move { m_type: MoveType::MoveMain { start: 58, distance: 5 }, pawn: pawn(Color::Green, 0) };
    assert!(Board::is_valid_move(&board, &dice, &mv));
    let MoveResult(next, bonus) = board.handle_move(mv).unwrap();
    assert_eq!(next.get_pawn_loc(&Color::Green, 0), spot(63));
    assert_eq!(bonus, None);
}

#[test]
fn scenario_green_enters() {
    let board = Board::new();
    let dice = Dice { rolls: vec![5] };
    let mv = Move { m_type: MoveType::EnterPiece, pawn: pawn(Color::Green, 0) };
    assert!(Board::is_valid_move(&board, &dice, &mv));
    let MoveResult(next, bonus) = board.handle_move(mv).unwrap();
    assert_eq!(next.get_pawn_loc(&Color::Green, 0), spot(55));
    assert_eq!(bonus, None);
}

#[test]
fn scenario_no_blockade_of_three() {
    let locs: PawnLocs = [spot(30), spot(30), spot(29), Loc::Nest];
    let board = Board::from(vec![(Color::Green, locs)]);
    let dice = Dice { rolls: vec![1, 4] };
    let mv = Move { m_type: MoveType::MoveMain { start: 29, distance: 1 }, pawn: pawn(Color::Green, 2) };
    assert!(!Board::is_valid_move(&board, &dice, &mv));
    assert!(board.get_blockades().contains(&spot(30)));
    let red = Board::from(vec![(Color::Green, locs), (Color::Red, [spot(28), Loc::Nest, Loc::Nest, Loc::Nest])]);
    let pass = Move { m_type: MoveType::MoveMain { start: 28, distance: 4 }, pawn: pawn(Color::Red, 0) };
    assert!(!Board::is_valid_move(&red, &dice, &pass));
}

#[test]
fn scenario_red_home_row() {
    let board = Board::from(vec![(Color::Red, [spot(100), spot(103), Loc::Nest, Loc::Nest])]);
    let dice = Dice { rolls: vec![5, 4] };
    let m1 = Move { m_type: MoveType::MoveHome { start: 100, distance: 5 }, pawn: pawn(Color::Red, 0) };
    assert!(Board::is_valid_move(&board, &dice, &m1));
    let MoveResult(next, bonus) = board.handle_move(m1).unwrap();
    assert_eq!(next.get_pawn_loc(&Color::Red, 0), spot(105));
    assert_eq!(bonus, None);
    let m2 = Move { m_type: MoveType::MoveHome { start: 103, distance: 4 }, pawn: pawn(Color::Red, 1) };
    assert!(Board::is_valid_move(&board, &dice, &m2));
    let MoveResult(next, bonus) = board.handle_move(m2).unwrap();
    assert_eq!(next.get_pawn_loc(&Color::Red, 1), Loc::Home);
    assert_eq!(bonus, Some(HOME_BONUS));
}

#[test]
fn scenario_yellow_bops_green() {
    let board = Board::from(vec![
        (Color::Yellow, [spot(10), Loc::Nest, Loc::Nest, Loc::Nest]),
        (Color::Green, [spot(14), Loc::Nest, Loc::Nest, Loc::Nest]),
    ]);
    assert_eq!(board.can_bop(Color::Yellow, spot(14)), Some(pawn(Color::Green, 0)));
    let mv = Move { m_type: MoveType::MoveMain { start: 10, distance: 4 }, pawn: pawn(Color::Yellow, 0) };
    let MoveResult(next, bonus) = board.handle_move(mv).unwrap();
    assert_eq!(next.get_pawn_loc(&Color::Yellow, 0), spot(14));
    assert_eq!(next.get_pawn_loc(&Color::Green, 0), Loc::Nest);
    assert_eq!(bonus, Some(BOP_BONUS));
}

#[test]
fn blockade_may_not_move_together() {
    let start = Board::from(vec![(Color::Green, [spot(57), spot(57), Loc::Nest, Loc::Nest])]);
    let dice = Dice { rolls: vec![3, 3] };
    let together = Board::from(vec![(Color::Green, [spot(60), spot(60), Loc::Nest, Loc::Nest])]);
    let split = Board::from(vec![(Color::Green, [spot(60), spot(57), Loc::Nest, Loc::Nest])]);
    assert!(!start.is_valid_turn(&together, &dice, Color::Green));
    assert!(start.is_valid_turn(&split, &dice, Color::Green));
    assert!(start.is_valid_turn(&start, &dice, Color::Green));
}

#[test]
fn has_valid_moves_counts_entries() {
    let dice = Dice { rolls: vec![1, 4] };
    assert!(Board::has_valid_moves(&Board::new(), &dice, &Color::Green));
    assert!(!Board::has_valid_moves(&Board::new(), &Dice { rolls: vec![3, 3] }, &Color::Green));
    assert!(!Board::has_valid_moves(&Board::new(), &Dice::new(), &Color::Green));
}

#[test]
fn search_offers_entry_then_moves() {
    let board = Board::from(vec![(Color::Green, [spot(57), spot(57), Loc::Nest, Loc::Home])]);
    let mut tree = GameTree::new(board, Dice { rolls: vec![5, 3] }, Color::Green);
    assert_eq!(tree.next(), Some(Move { m_type: MoveType::EnterPiece, pawn: pawn(Color::Green, 2) }));
    assert_eq!(
        tree.next(),
        Some(Move { m_type: MoveType::MoveMain { start: 57, distance: 5 }, pawn: pawn(Color::Green, 0) })
    );
    let mut count = 1;
    while tree.next().is_some() {
        count += 1;
        assert!(count < 100);
    }
    assert_eq!(tree.next(), None);
}

#[test]
fn search_keeps_blockade_apart() {
    let start = Board::from(vec![(Color::Green, [spot(57), spot(57), Loc::Nest, Loc::Home])]);
    let moved = Board::from(vec![(Color::Green, [spot(60), spot(57), Loc::Nest, Loc::Home])]);
    let mut tree = GameTree::from(moved, Dice { rolls: vec![3] }, Color::Green, start);
    assert_eq!(
        tree.next(),
        Some(Move { m_type: MoveType::MoveMain { start: 60, distance: 3 }, pawn: pawn(Color::Green, 0) })
    );
    assert_eq!(tree.next(), None);
}

#[test]
fn proposals_are_judged() {
    let board = Board::from(vec![(Color::Red, [spot(20), Loc::Nest, Loc::Nest, Loc::Nest])]);
    let dice = Dice { rolls: vec![2, 3] };
    assert_eq!(Game::play_proposal(&board, &dice, Color::Red, None), Err(TurnError::NoMove));
    let foreign = Move { m_type: MoveType::MoveMain { start: 20, distance: 2 }, pawn: pawn(Color::Blue, 0) };
    assert_eq!(Game::play_proposal(&board, &dice, Color::Red, Some(foreign)), Err(TurnError::InvalidMove));
    let too_far = Move { m_type: MoveType::MoveMain { start: 20, distance: 4 }, pawn: pawn(Color::Red, 0) };
    assert_eq!(Game::play_proposal(&board, &dice, Color::Red, Some(too_far)), Err(TurnError::InvalidMove));
    let good = Move { m_type: MoveType::MoveMain { start: 20, distance: 2 }, pawn: pawn(Color::Red, 0) };
    let (next, left) = Game::play_proposal(&board, &dice, Color::Red, Some(good)).unwrap();
    assert_eq!(next.get_pawn_loc(&Color::Red, 0), spot(22));
    assert_eq!(left, Dice { rolls: vec![3] });
}

#[test]
fn end_of_roll_and_doubles_count() {
    let start = Board::from(vec![(Color::Green, [spot(57), spot(57), Loc::Nest, Loc::Nest])]);
    let together = Board::from(vec![(Color::Green, [spot(60), spot(60), Loc::Nest, Loc::Nest])]);
    let dice = Dice::new();
    assert_eq!(Game::end_of_roll(&start, &start, &dice, Color::Green, true), Ok(true));
    assert_eq!(Game::end_of_roll(&start, &start, &dice, Color::Green, false), Ok(false));
    assert_eq!(Game::end_of_roll(&start, &together, &dice, Color::Green, false), Err(TurnError::InvalidTurn));
    assert_eq!(Game::count_doubles(0, true), (1, false));
    assert_eq!(Game::count_doubles(2, true), (3, true));
    assert_eq!(Game::count_doubles(2, false), (2, false));
}

#[test]
fn doubles_roll_again_on_the_new_board() {
    let mut game = Game::new();
    game.board = Board::from(vec![(Color::Red, [spot(20), Loc::Home, Loc::Home, Loc::Home])]);
    let player = SearchPlayer { color: Color::Red };
    let calls = std::cell::Cell::new(0);
    let roll_fn = |_| {
        calls.set(calls.get() + 1);
        if calls.get() == 1 { (Dice { rolls: vec![2, 2] }, true) } else { (Dice { rolls: vec![1, 3] }, false) }
    };
    let (board, dice) = game.give_turn(&Color::Red, &player, roll_fn).unwrap();
    assert_eq!(calls.get(), 2);
    assert_eq!(board.get_pawn_loc(&Color::Red, 0), spot(28));
    assert!(dice.all_used());
}
