use vstd::prelude::*;

use crate::board::{Board, Pawn};
use crate::dice::Dice;
use crate::geometry::{color_at, home_row_of, Color, Loc, PawnLocs};
use crate::moves::{Move, MoveType};

verus! {

/// The character of decimal digit `d`.
pub open spec fn digit_char(d: nat) -> char {
    if d == 0 {
        '0'
    } else if d == 1 {
        '1'
    } else if d == 2 {
        '2'
    } else if d == 3 {
        '3'
    } else if d == 4 {
        '4'
    } else if d == 5 {
        '5'
    } else if d == 6 {
        '6'
    } else if d == 7 {
        '7'
    } else if d == 8 {
        '8'
    } else {
        '9'
    }
}

/// The decimal digits of `n`, most significant first, without leading zeros.
pub open spec fn decimal(n: nat) -> Seq<char>
    decreases n,
{
    if n < 10 {
        seq![digit_char(n)]
    } else {
        decimal(n / 10).push(digit_char(n % 10))
    }
}

/// The name of a color as the protocol writes it.
pub open spec fn color_name(c: Color) -> Seq<char> {
    match c {
        Color::Red => "Red"@,
        Color::Green => "Green"@,
        Color::Blue => "Blue"@,
        Color::Yellow => "Yellow"@,
    }
}

pub open spec fn pawn_xml(p: Pawn) -> Seq<char> {
    "<pawn> <color> "@ + color_name(p.color) + " </color> <id> "@ + decimal(p.id as nat)
        + " </id> </pawn>"@
}

pub open spec fn piece_loc_xml(p: Pawn, index: usize) -> Seq<char> {
    " <piece-loc> "@ + pawn_xml(p) + " <loc> "@ + decimal(index as nat) + " </loc> </piece-loc>"@
}

/// What pawn `k` of the `ci`-th color adds to section `kind` of a board's text:
/// 0 the nests, 1 the main ring, 2 the home rows, 3 home.
pub open spec fn board_item(b: Board, kind: int, ci: int, k: int) -> Seq<char> {
    let c = color_at(ci);
    let p = Pawn { color: c, id: k as usize };
    match b.locs_at(ci)[k] {
        Loc::Nest => if kind == 0 {
            " "@ + pawn_xml(p)
        } else {
            Seq::empty()
        },
        Loc::Home => if kind == 3 {
            " "@ + pawn_xml(p)
        } else {
            Seq::empty()
        },
        Loc::Spot { index } => if (kind == 1 && index < home_row_of(c)) || (kind == 2 && index
            >= home_row_of(c)) {
            piece_loc_xml(p, index)
        } else {
            Seq::empty()
        },
    }
}

/// What the pawns before pawn `k` of the `ci`-th color, in board order, add to
/// section `kind`.
pub open spec fn board_section(b: Board, kind: int, ci: int, k: int) -> Seq<char>
    decreases ci, k,
{
    if ci <= 0 && k <= 0 {
        Seq::empty()
    } else if k <= 0 {
        board_section(b, kind, ci - 1, 4)
    } else {
        board_section(b, kind, ci, k - 1) + board_item(b, kind, ci, k - 1)
    }
}

pub open spec fn board_xml(b: Board) -> Seq<char> {
    "<board> "@ + ("<start>"@ + board_section(b, 0, 3, 4)) + " </start> "@ + ("<main>"@
        + board_section(b, 1, 3, 4)) + " </main> "@ + ("<home-rows>"@ + board_section(b, 2, 3, 4))
        + " </home-rows> "@ + ("<home>"@ + board_section(b, 3, 3, 4)) + " </home> </board>"@
}

/// The `<die>` elements of the first `n` distances of `s`.
pub open spec fn dice_items(s: Seq<usize>, n: int) -> Seq<char>
    decreases n,
{
    if n <= 0 {
        Seq::empty()
    } else {
        dice_items(s, n - 1) + "<die> "@ + decimal(s[n - 1] as nat) + " </die> "@
    }
}

pub open spec fn dice_xml(d: Dice) -> Seq<char> {
    "<dice> "@ + dice_items(d.rolls@, d.rolls@.len() as int) + "</dice>"@
}

pub open spec fn move_xml(m: Move) -> Seq<char> {
    match m.m_type {
        MoveType::EnterPiece => "<enter-piece> "@ + pawn_xml(m.pawn) + " </enter-piece>"@,
        MoveType::MoveMain { start, distance } => "<move-piece-main> "@ + pawn_xml(m.pawn)
            + " <start> "@ + decimal(start as nat) + " </start>"@ + " <distance> "@ + decimal(
            distance as nat,
        ) + " </distance> </move-piece-main>"@,
        MoveType::MoveHome { start, distance } => "<move-piece-home> "@ + pawn_xml(m.pawn)
            + " <start> "@ + decimal(start as nat) + " </start>"@ + " <distance> "@ + decimal(
            distance as nat,
        ) + " </distance> </move-piece-home>"@,
    }
}

/// The `<moves>` items of the first `n` moves of `ms`.
pub open spec fn moves_items(ms: Seq<Move>, n: int) -> Seq<char>
    decreases n,
{
    if n <= 0 {
        Seq::empty()
    } else {
        moves_items(ms, n - 1) + " "@ + move_xml(ms[n - 1])
    }
}

/// The text of decimal digit `d`.
fn digit_str(d: usize) -> (r: &'static str)
    requires
        d < 10,
    ensures
        r@ == seq![digit_char(d as nat)],
{
    proof {
        reveal_strlit("0");
        reveal_strlit("1");
        reveal_strlit("2");
        reveal_strlit("3");
        reveal_strlit("4");
        reveal_strlit("5");
        reveal_strlit("6");
        reveal_strlit("7");
        reveal_strlit("8");
        reveal_strlit("9");
    }
    if d == 0 {
        "0"
    } else if d == 1 {
        "1"
    } else if d == 2 {
        "2"
    } else if d == 3 {
        "3"
    } else if d == 4 {
        "4"
    } else if d == 5 {
        "5"
    } else if d == 6 {
        "6"
    } else if d == 7 {
        "7"
    } else if d == 8 {
        "8"
    } else {
        "9"
    }
}

/// The decimal text of `n`.
pub fn decimal_string(n: usize) -> (r: String)
    ensures
        r@ == decimal(n as nat),
    decreases n,
{
    if n < 10 {
        String::from_str(digit_str(n))
    } else {
        let mut s = decimal_string(n / 10);
        s.append(digit_str(n % 10));
        s
    }
}

impl Color {
    /// The name of the color: `Red`, `Green`, `Blue` or `Yellow`.
    pub fn to_string(&self) -> (r: String)
        ensures
            r@ == color_name(*self),
    {
        match self {
            Color::Red => String::from_str("Red"),
            Color::Green => String::from_str("Green"),
            Color::Blue => String::from_str("Blue"),
            Color::Yellow => String::from_str("Yellow"),
        }
    }
}

impl Pawn {
    pub fn xmlify(&self) -> (r: String)
        ensures
            r@ == pawn_xml(*self),
    {
        let mut s = String::from_str("<pawn> <color> ");
        s.append(self.color.to_string().as_str());
        s.append(" </color> <id> ");
        s.append(decimal_string(self.id).as_str());
        s.append(" </id> </pawn>");
        s
    }
}

/// The `<piece-loc>` item of pawn `p` at cell `index`.
fn piece_loc_string(p: &Pawn, index: usize) -> (r: String)
    ensures
        r@ == piece_loc_xml(*p, index),
{
    let mut s = String::from_str(" <piece-loc> ");
    s.append(p.xmlify().as_str());
    s.append(" <loc> ");
    s.append(decimal_string(index).as_str());
    s.append(" </loc> </piece-loc>");
    s
}

impl Board {
    /// The board as protocol text: the pawns in nests, on the main ring, in home
    /// rows and home, each section in board order.
    pub fn xmlify(&self) -> (r: String)
        ensures
            r@ == board_xml(*self),
    {
        let mut start_string = String::from_str("<start>");
        let mut main_row_string = String::from_str("<main>");
        let mut home_row_string = String::from_str("<home-rows>");
        let mut home_string = String::from_str("<home>");
        let ghost b = *self;
        let mut ci: usize = 0;
        while ci < 4
            invariant
                b == *self,
                ci <= 4,
                start_string@ == "<start>"@ + board_section(b, 0, ci as int, 0),
                main_row_string@ == "<main>"@ + board_section(b, 1, ci as int, 0),
                home_row_string@ == "<home-rows>"@ + board_section(b, 2, ci as int, 0),
                home_string@ == "<home>"@ + board_section(b, 3, ci as int, 0),
            decreases 4 - ci,
        {
            let clr = Board::color_of_index(ci);
            let locs: PawnLocs = self.positions[ci];
            let home_row = Board::get_home_row(&clr);
            let mut k: usize = 0;
            while k < 4
                invariant
                    b == *self,
                    ci < 4,
                    k <= 4,
                    clr == color_at(ci as int),
                    home_row == home_row_of(clr),
                    locs@ == b.locs_at(ci as int),
                    start_string@ == "<start>"@ + board_section(b, 0, ci as int, k as int),
                    main_row_string@ == "<main>"@ + board_section(b, 1, ci as int, k as int),
                    home_row_string@ == "<home-rows>"@ + board_section(b, 2, ci as int, k as int),
                    home_string@ == "<home>"@ + board_section(b, 3, ci as int, k as int),
                decreases 4 - k,
            {
                let pawn = Pawn { id: k, color: clr };
                match locs[k] {
                    Loc::Nest => {
                        start_string.append(" ");
                        start_string.append(pawn.xmlify().as_str());
                    },
                    Loc::Home => {
                        home_string.append(" ");
                        home_string.append(pawn.xmlify().as_str());
                    },
                    Loc::Spot { index } => {
                        if index >= home_row {
                            home_row_string.append(piece_loc_string(&pawn, index).as_str());
                        } else {
                            main_row_string.append(piece_loc_string(&pawn, index).as_str());
                        }
                    },
                }
                k = k + 1;
            }
            ci = ci + 1;
        }
        let mut s = String::from_str("<board> ");
        s.append(start_string.as_str());
        s.append(" </start> ");
        s.append(main_row_string.as_str());
        s.append(" </main> ");
        s.append(home_row_string.as_str());
        s.append(" </home-rows> ");
        s.append(home_string.as_str());
        s.append(" </home> </board>");
        s
    }
}

impl Dice {
    pub fn xmlify(&self) -> (r: String)
        ensures
            r@ == dice_xml(*self),
    {
        let mut s = String::from_str("<dice> ");
        let mut i: usize = 0;
        while i < self.rolls.len()
            invariant
                i <= self.rolls@.len(),
                s@ == "<dice> "@ + dice_items(self.rolls@, i as int),
            decreases self.rolls@.len() - i,
        {
            s.append("<die> ");
            s.append(decimal_string(self.rolls[i]).as_str());
            s.append(" </die> ");
            i = i + 1;
        }
        s.append("</dice>");
        s
    }
}

impl Move {
    pub fn xmlify(&self) -> (r: String)
        ensures
            r@ == move_xml(*self),
    {
        match self.m_type {
            MoveType::EnterPiece => {
                let mut s = String::from_str("<enter-piece> ");
                s.append(self.pawn.xmlify().as_str());
                s.append(" </enter-piece>");
                s
            },
            MoveType::MoveMain { start, distance } => {
                let mut s = String::from_str("<move-piece-main> ");
                s.append(self.pawn.xmlify().as_str());
                s.append(" <start> ");
                s.append(decimal_string(start).as_str());
                s.append(" </start>");
                s.append(" <distance> ");
                s.append(decimal_string(distance).as_str());
                s.append(" </distance> </move-piece-main>");
                s
            },
            MoveType::MoveHome { start, distance } => {
                let mut s = String::from_str("<move-piece-home> ");
                s.append(self.pawn.xmlify().as_str());
                s.append(" <start> ");
                s.append(decimal_string(start).as_str());
                s.append(" </start>");
                s.append(" <distance> ");
                s.append(decimal_string(distance).as_str());
                s.append(" </distance> </move-piece-home>");
                s
            },
        }
    }
}

/// The message that tells a player its color.
pub fn xml_start_game(color: &Color) -> (r: String)
    ensures
        r@ == "<start-game> "@ + color_name(*color) + " </start-game>"@,
{
    let mut s = String::from_str("<start-game> ");
    s.append(color.to_string().as_str());
    s.append(" </start-game>");
    s
}

/// A player's answer to the start of a game: its name.
pub fn xml_start_game_response(name: &String) -> (r: String)
    ensures
        r@ == "<name> "@ + name@ + " </name>"@,
{
    let mut s = String::from_str("<name> ");
    s.append(name.as_str());
    s.append(" </name>");
    s
}

/// The message that asks a player for moves on `board` with `dice`.
pub fn xml_do_move(board: &Board, dice: &Dice) -> (r: String)
    ensures
        r@ == "<do-move> "@ + board_xml(*board) + " "@ + dice_xml(*dice) + " </do-move>"@,
{
    let mut s = String::from_str("<do-move> ");
    s.append(board.xmlify().as_str());
    s.append(" ");
    s.append(dice.xmlify().as_str());
    s.append(" </do-move>");
    s
}

/// The message that carries a player's moves.
pub fn xml_moves(move_vec: &Vec<Move>) -> (r: String)
    ensures
        r@ == "<moves>"@ + moves_items(move_vec@, move_vec@.len() as int) + " </moves>"@,
{
    let mut s = String::from_str("<moves>");
    let mut i: usize = 0;
    while i < move_vec.len()
        invariant
            i <= move_vec@.len(),
            s@ == "<moves>"@ + moves_items(move_vec@, i as int),
        decreases move_vec@.len() - i,
    {
        s.append(" ");
        s.append(move_vec[i].xmlify().as_str());
        i = i + 1;
    }
    s.append(" </moves>");
    s
}

/// The message that tells a player of its doubles penalty.
pub fn xml_doubles_penalty() -> (r: String)
    ensures
        r@ == "<doubles-penalty> </doubles-penalty>"@,
{
    String::from_str("<doubles-penalty> </doubles-penalty>")
}

/// The empty answer.
pub fn xml_void() -> (r: String)
    ensures
        r@ == "<void> </void>"@,
{
    String::from_str("<void> </void>")
}

} // verus!
