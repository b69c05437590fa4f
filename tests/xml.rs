use parcheesi::board::{Board, Pawn};
use parcheesi::dice::Dice;
use parcheesi::geometry::{Color, Loc};
use parcheesi::moves::{Move, MoveType};
use parcheesi::xml::{
    decimal_string, xml_do_move, xml_doubles_penalty, xml_moves, xml_start_game, xml_start_game_response, xml_void,
};

#[test]
fn xml_start_game_basic() {
    assert!(xml_start_game(&Color::Red) == "<start-game> Red </start-game>");
}

#[test]
fn xmlify_pawn() {
    let pawn = Pawn { color: Color::Red, id: 2 };
    assert!(pawn.xmlify() == "<pawn> <color> Red </color> <id> 2 </id> </pawn>");
}

#[test]
fn xmlify_dice() {
    let dice = Dice { rolls: vec![1, 2] };
    assert!(dice.xmlify() == "<dice> <die> 1 </die> <die> 2 </die> </dice>")
}

#[test]
fn xmlify_move_enter_piece() {
    let m: Move = Move { m_type: MoveType::EnterPiece, pawn: Pawn { color: Color::Red, id: 2 } };
    assert!(m.xmlify() == "<enter-piece> ".to_string() + &m.pawn.xmlify() + " </enter-piece>");
}

#[test]
fn xmlify_move_piece_main() {
    let m: Move = Move {
        m_type: MoveType::MoveMain { start: 59, distance: 4 },
        pawn: Pawn { color: Color::Red, id: 2 },
    };
    let expected: String = "<move-piece-main> ".to_string() + &m.pawn.xmlify() + " <start> "
        + &59.to_string() + " </start>" + " <distance> " + &4.to_string()
        + " </distance> </move-piece-main>";
    assert!(m.xmlify() == expected);
}

#[test]
fn xmlify_move_piece_home() {
    let m: Move = Move {
        m_type: MoveType::MoveHome { start: 59, distance: 4 },
        pawn: Pawn { color: Color::Red, id: 2 },
    };
    let expected: String = "<move-piece-home> ".to_string() + &m.pawn.xmlify() + " <start> "
        + &59.to_string() + " </start>" + " <distance> " + &4.to_string()
        + " </distance> </move-piece-home>";
    assert!(m.xmlify() == expected);
}

#[test]
fn xmlify_board_nest() {
    let board: Board = Board::new();
    assert!(board.xmlify() == "<board> <start> <pawn> <color> Red </color> <id> 0 </id> </pawn> <pawn> <color> Red </color> <id> 1 </id> </pawn> <pawn> <color> Red </color> <id> 2 </id> </pawn> <pawn> <color> Red </color> <id> 3 </id> </pawn> <pawn> <color> Green </color> <id> 0 </id> </pawn> <pawn> <color> Green </color> <id> 1 </id> </pawn> <pawn> <color> Green </color> <id> 2 </id> </pawn> <pawn> <color> Green </color> <id> 3 </id> </pawn> <pawn> <color> Blue </color> <id> 0 </id> </pawn> <pawn> <color> Blue </color> <id> 1 </id> </pawn> <pawn> <color> Blue </color> <id> 2 </id> </pawn> <pawn> <color> Blue </color> <id> 3 </id> </pawn> <pawn> <color> Yellow </color> <id> 0 </id> </pawn> <pawn> <color> Yellow </color> <id> 1 </id> </pawn> <pawn> <color> Yellow </color> <id> 2 </id> </pawn> <pawn> <color> Yellow </color> <id> 3 </id> </pawn> </start> <main> </main> <home-rows> </home-rows> <home> </home> </board>");
}

#[test]
fn xmlify_board_real_game_do_move() {
    let board: Board = Board::from(vec![(
        Color::Red,
        [Loc::Home, Loc::Spot { index: 103 }, Loc::Spot { index: 30 }, Loc::Spot { index: 29 }],
    )]);
    let dice: Dice = Dice { rolls: vec![1, 2] };
    let expected: String = "<board> <start> <pawn> <color> Green </color> <id> 0 </id> </pawn> <pawn> <color> Green </color> <id> 1 </id> </pawn> <pawn> <color> Green </color> <id> 2 </id> </pawn> <pawn> <color> Green </color> <id> 3 </id> </pawn> <pawn> <color> Blue </color> <id> 0 </id> </pawn> <pawn> <color> Blue </color> <id> 1 </id> </pawn> <pawn> <color> Blue </color> <id> 2 </id> </pawn> <pawn> <color> Blue </color> <id> 3 </id> </pawn> <pawn> <color> Yellow </color> <id> 0 </id> </pawn> <pawn> <color> Yellow </color> <id> 1 </id> </pawn> <pawn> <color> Yellow </color> <id> 2 </id> </pawn> <pawn> <color> Yellow </color> <id> 3 </id> </pawn> </start> <main> <piece-loc> <pawn> <color> Red </color> <id> 2 </id> </pawn> <loc> 30 </loc> </piece-loc> <piece-loc> <pawn> <color> Red </color> <id> 3 </id> </pawn> <loc> 29 </loc> </piece-loc> </main> <home-rows> <piece-loc> <pawn> <color> Red </color> <id> 1 </id> </pawn> <loc> 103 </loc> </piece-loc> </home-rows> <home> <pawn> <color> Red </color> <id> 0 </id> </pawn> </home> </board>".to_string();
    assert!(board.xmlify() == expected);
    assert!(xml_do_move(&board, &dice) == "<do-move> ".to_string() + &expected + " " + &dice.xmlify() + " </do-move>");
}

#[test]
fn xml_moves_() {
    let m_1: Move = Move { m_type: MoveType::EnterPiece, pawn: Pawn { color: Color::Red, id: 2 } };
    let m_2: Move = Move {
        m_type: MoveType::MoveHome { start: 101, distance: 3 },
        pawn: Pawn { color: Color::Red, id: 2 },
    };
    let m_3: Move = Move {
        m_type: MoveType::MoveMain { start: 12, distance: 3 },
        pawn: Pawn { color: Color::Red, id: 2 },
    };
    let m_vec: Vec<Move> = vec![m_1, m_2, m_3];
    assert!(xml_moves(&m_vec) == "<moves> ".to_string() + &m_1.xmlify() + " " + &m_2.xmlify() + " " + &m_3.xmlify() + " </moves>");
}

#[test]
fn fixed_messages_and_numbers() {
    assert_eq!(xml_doubles_penalty(), "<doubles-penalty> </doubles-penalty>");
    assert_eq!(xml_void(), "<void> </void>");
    assert_eq!(decimal_string(0), "0");
    assert_eq!(decimal_string(407), "407");
    assert_eq!(decimal_string(usize::MAX), usize::MAX.to_string());
    assert_eq!(xml_moves(&Vec::new()), "<moves> </moves>");
    assert_eq!(Color::Yellow.to_string(), "Yellow");
}

#[test]
fn xml_start_game_response_basic() {
    assert!(xml_start_game_response(&"Sven".to_string()) == "<name> Sven </name>");
}
