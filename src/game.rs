use vstd::prelude::*;

use crate::board::{count_at, move_dest, Board, MoveResult};
use crate::dice::{consumed, entry_from, lemma_consumed, lemma_entry_from, Dice, EntryMove};
use crate::geometry::{Color, Loc};
use crate::legality::{some_valid_move, valid_move, valid_turn};
use crate::moves::{Move, MoveType};

verus! {

/// A decision policy: it is told the game started, picks moves, and hears of a
/// doubles penalty.
pub trait Player {
    /// Informs the player that the game started; returns its name.
    fn start_game(&self) -> String;

    /// The moves the player wants to make on `board` with `dice`; the last one is
    /// played.
    fn do_move(&self, board: Board, dice: Dice) -> Vec<Move>;

    /// Informs the player that it suffered a doubles penalty.
    fn doubles_penalty(&self);
}

/// Why a turn was rejected.
#[derive(Debug, Clone, Copy, PartialEq, Eq, Structural)]
pub enum TurnError {
    /// The player offered a move that is not legal.
    InvalidMove,
    /// The moves of the turn, legal one by one, moved a blockade together.
    InvalidTurn,
    /// The player offered no move while a legal one existed.
    NoMove,
}

/// The state of a game between turns.
pub struct Game {
    pub board: Board,
    pub dice: Dice,
}

/// 1 for a pawn on a cell, 0 otherwise.
pub open spec fn on_track(l: Loc) -> int {
    if l is Spot {
        1
    } else {
        0
    }
}

/// 1 for a pawn that is not home, 0 otherwise.
pub open spec fn away(l: Loc) -> int {
    if l == Loc::Home {
        0
    } else {
        1
    }
}

pub open spec fn track_count(s: Seq<Loc>) -> int {
    on_track(s[0]) + on_track(s[1]) + on_track(s[2]) + on_track(s[3])
}

pub open spec fn away_count(s: Seq<Loc>) -> int {
    away(s[0]) + away(s[1]) + away(s[2]) + away(s[3])
}

/// How many pawns of colors other than `c` stand on cells.
pub open spec fn opponents_on_track(b: Board, c: Color) -> int {
    (if c != Color::Red { track_count(b.locs(Color::Red)) } else { 0 }) + (if c != Color::Green {
        track_count(b.locs(Color::Green))
    } else {
        0
    }) + (if c != Color::Blue { track_count(b.locs(Color::Blue)) } else { 0 }) + (if c
        != Color::Yellow {
        track_count(b.locs(Color::Yellow))
    } else {
        0
    })
}

/// What is left to play in a turn of `c`: every distance, every opposing pawn
/// that can still be bopped, every own pawn that can still reach home. Each
/// legal move lowers it.
pub open spec fn turn_measure(b: Board, d: Dice, c: Color) -> int {
    d.rolls@.len() + opponents_on_track(b, c) + away_count(b.locs(c))
}

/// The distances left after move `m` consumed its share of `d` and earned
/// `bonus`.
pub open spec fn dice_after(d: Seq<usize>, m: Move, bonus: Option<usize>) -> Option<Seq<usize>> {
    let rest = match m.m_type {
        MoveType::EnterPiece => match entry_from(d, 0) {
            EntryMove::WithFive => consumed(d, 5),
            EntryMove::WithSum(x, y) => match consumed(d, x) {
                Some(s1) => consumed(s1, y),
                None => None,
            },
            EntryMove::NoEntry => None,
        },
        MoveType::MoveMain { distance, .. } | MoveType::MoveHome { distance, .. } => consumed(
            d,
            distance,
        ),
    };
    match rest {
        Some(s) => match bonus {
            Some(a) => Some(s.push(a)),
            None => Some(s),
        },
        None => None,
    }
}

/// A legal move uses at least one distance, and a bonus adds one.
proof fn lemma_dice_shrink(d: Dice, m: Move, bonus: Option<usize>, nd: Seq<usize>)
    requires
        dice_after(d.rolls@, m, bonus) == Some(nd),
    ensures
        nd.len() <= d.rolls@.len() - 1 + (if bonus is Some { 1int } else { 0 }),
{
    let s = d.rolls@;
    match m.m_type {
        MoveType::EnterPiece => {
            match entry_from(s, 0) {
                EntryMove::WithFive => {
                    lemma_consumed(s, 5);
                },
                EntryMove::WithSum(x, y) => {
                    lemma_consumed(s, x);
                    lemma_consumed(consumed(s, x).unwrap(), y);
                },
                EntryMove::NoEntry => {},
            }
        },
        MoveType::MoveMain { distance, .. } | MoveType::MoveHome { distance, .. } => {
            lemma_consumed(s, distance);
        },
    }
}

/// Moving onto `dest` takes off the track exactly the opposing pawns it bops.
proof fn lemma_color_track(b: Board, m: Move, dest: Loc, next: Board, o: Color)
    requires
        b.after_move(m, dest, next),
        o != m.pawn.color,
    ensures
        track_count(next.locs(o)) == track_count(b.locs(o)) - (if b.bops(m.pawn.color, dest) {
            count_at(b.locs(o), dest)
        } else {
            0
        }),
{
}

proof fn lemma_opponents_track(b: Board, m: Move, dest: Loc, next: Board)
    requires
        b.after_move(m, dest, next),
    ensures
        opponents_on_track(next, m.pawn.color) == opponents_on_track(b, m.pawn.color) - (if b.bops(
            m.pawn.color,
            dest,
        ) {
            1int
        } else {
            0
        }),
{
    let c = m.pawn.color;
    if c != Color::Red {
        lemma_color_track(b, m, dest, next, Color::Red);
    }
    if c != Color::Green {
        lemma_color_track(b, m, dest, next, Color::Green);
    }
    if c != Color::Blue {
        lemma_color_track(b, m, dest, next, Color::Blue);
    }
    if c != Color::Yellow {
        lemma_color_track(b, m, dest, next, Color::Yellow);
    }
}

proof fn lemma_own_away(b: Board, m: Move, dest: Loc, next: Board)
    requires
        b.after_move(m, dest, next),
        m.pawn.id < 4,
        b.locs(m.pawn.color)[m.pawn.id as int] != Loc::Home,
    ensures
        away_count(next.locs(m.pawn.color)) == away_count(b.locs(m.pawn.color)) - (if dest
            == Loc::Home {
            1int
        } else {
            0
        }),
{
}

/// Each legal move lowers what is left to play in the turn.
pub proof fn lemma_move_lowers_measure(b: Board, d: Dice, m: Move, next: Board, nd: Dice)
    requires
        valid_move(b, d, m),
        move_dest(m) is Some,
        b.after_move(m, move_dest(m).unwrap(), next),
        dice_after(d.rolls@, m, b.bonus_for(m.pawn.color, move_dest(m).unwrap())) == Some(nd.rolls@),
    ensures
        turn_measure(next, nd, m.pawn.color) < turn_measure(b, d, m.pawn.color),
        turn_measure(next, nd, m.pawn.color) >= 0,
{
    let c = m.pawn.color;
    let dest = move_dest(m).unwrap();
    lemma_dice_shrink(d, m, b.bonus_for(c, dest), nd.rolls@);
    lemma_opponents_track(b, m, dest, next);
    lemma_own_away(b, m, dest, next);
}

impl Game {
    /// A game with every pawn in its nest and no distances.
    pub fn new() -> (r: Game)
        ensures
            forall|c: Color, k: int| 0 <= k < 4 ==> #[trigger] r.board.locs(c)[k] == Loc::Nest,
            r.dice.rolls@.len() == 0,
    {
        Game { board: Board::new(), dice: Dice::new() }
    }

    /// Whether some color has all its pawns home.
    pub fn is_game_over(&self) -> (r: bool)
        ensures
            r == exists|ci: int| 0 <= ci < 4 && #[trigger] self.board.all_home_at(ci),
    {
        self.board.has_winner().is_some()
    }

    /// Whether cell `index` is a blockade.
    pub fn is_blockaded(&self, index: usize) -> (r: bool)
        ensures
            r == self.board.is_blockade(Loc::Spot { index }),
    {
        self.board.blockade_at(Loc::Spot { index })
    }

    /// Informs `player` of its doubles penalty.
    pub fn give_doubles_penalty<P: Player>(&self, player: &P) {
        player.doubles_penalty();
    }

    /// Plays move `mv` chosen by a player on `board` with `dice`: rejects it
    /// unless it is legal, else applies it, consumes its distances and adds the
    /// bonus it earned.
    pub fn apply_chosen_move(board: &Board, dice: &Dice, mv: &Move) -> (r: Result<(Board, Dice), TurnError>)
        ensures
            !valid_move(*board, *dice, *mv) <==> r is Err,
            r is Err ==> r == Err::<(Board, Dice), TurnError>(TurnError::InvalidMove),
            r matches Ok((nb, nd)) ==> {
                &&& move_dest(*mv) is Some
                &&& board.after_move(*mv, move_dest(*mv).unwrap(), nb)
                &&& dice_after(
                    dice.rolls@,
                    *mv,
                    board.bonus_for(mv.pawn.color, move_dest(*mv).unwrap()),
                ) == Some(nd.rolls@)
            },
    {
        if !Board::is_valid_move(board, dice, mv) {
            return Err(TurnError::InvalidMove);
        }
        proof {
            lemma_entry_from(dice.rolls@, 0);
            lemma_consumed(dice.rolls@, 5);
            match mv.m_type {
                MoveType::EnterPiece => {
                    match entry_from(dice.rolls@, 0) {
                        EntryMove::WithSum(x, y) => {
                            lemma_consumed(dice.rolls@, x);
                        },
                        _ => {},
                    }
                },
                MoveType::MoveMain { distance, .. } | MoveType::MoveHome { distance, .. } => {
                    lemma_consumed(dice.rolls@, distance);
                },
            }
        }
        let next_dice = match dice.consume_move(mv) {
            Ok(d) => d,
            Err(_) => {
                return Err(TurnError::InvalidMove);
            },
        };
        match board.handle_move(*mv) {
            Ok(MoveResult(next_board, bonus)) => {
                let nd = match bonus {
                    Some(amt) => next_dice.give_bonus(amt),
                    None => next_dice,
                };
                Ok((next_board, nd))
            },
            Err(_) => Err(TurnError::InvalidMove),
        }
    }

    /// Plays what a player proposed for `color` on `board` with `dice`: nothing
    /// proposed is `NoMove`; a move of another color or an illegal move is
    /// `InvalidMove`; a legal move is applied, its distances consumed and its
    /// bonus added.
    pub fn play_proposal(board: &Board, dice: &Dice, color: Color, proposal: Option<Move>) -> (r: Result<
        (Board, Dice),
        TurnError,
    >)
        ensures
            proposal is None ==> r == Err::<(Board, Dice), TurnError>(TurnError::NoMove),
            proposal matches Some(m) ==> ((m.pawn.color != color || !valid_move(*board, *dice, m))
                <==> r == Err::<(Board, Dice), TurnError>(TurnError::InvalidMove)),
            proposal matches Some(m) ==> (r is Err <==> (m.pawn.color != color || !valid_move(
                *board,
                *dice,
                m,
            ))),
            r matches Ok((nb, nd)) ==> proposal matches Some(m) && plays_move(color, *board, *dice, m, nb, nd),
    {
        match proposal {
            None => Err(TurnError::NoMove),
            Some(m) => {
                if m.pawn.color != color {
                    return Err(TurnError::InvalidMove);
                }
                Game::apply_chosen_move(board, dice, &m)
            },
        }
    }

    /// What ends a roll: the turn that went from `turn_start` to `end` is
    /// rejected unless it kept blockades apart; else the player rolls again
    /// exactly after a double.
    pub fn end_of_roll(turn_start: &Board, end: &Board, dice: &Dice, color: Color, is_doubles: bool) -> (r:
        Result<bool, TurnError>)
        ensures
            r == if valid_turn(*turn_start, *end, color) {
                Ok::<bool, TurnError>(is_doubles)
            } else {
                Err::<bool, TurnError>(TurnError::InvalidTurn)
            },
    {
        if turn_start.is_valid_turn(end, dice, color) {
            Ok(is_doubles)
        } else {
            Err(TurnError::InvalidTurn)
        }
    }

    /// Counts a roll into the `n` doubles rolled in a row so far; the second
    /// result tells that this roll is the third double, which ends the turn with
    /// a penalty.
    pub fn count_doubles(n: usize, is_doubles: bool) -> (r: (usize, bool))
        requires
            n <= 2,
        ensures
            r.0 == if is_doubles { n + 1 } else { n as int },
            r.1 == (is_doubles && n == 2),
    {
        if is_doubles {
            (n + 1, n == 2)
        } else {
            (n, false)
        }
    }

    /// Gives `player` its whole turn as `color`: rolls with `roll` (mirrored
    /// doubles once every pawn has entered), plays the player's proposals while
    /// a legal move exists (`play_proposal`), checks the roll's moves as a turn
    /// (`end_of_roll`), and rolls again after a double. A third double in a row
    /// (`count_doubles`) tells the player once and ends the turn, that roll
    /// unplayed and no distances left.
    ///
    /// What comes back leaves no legal move. It is reached from the game's board
    /// through the rolls of the turn: each roll but the last a double, whose
    /// legal moves kept its blockades apart; the last either not a double, with
    /// the same said of its moves, or a third double that left the board as it was
    /// and no distances.
    pub fn give_turn<P: Player, F: Fn(bool) -> (Dice, bool)>(
        &self,
        color: &Color,
        player: &P,
        roll: F,
    ) -> (r: Result<(Board, Dice), TurnError>)
        requires
            forall|b: bool| roll.requires((b,)),
        ensures
            r matches Ok((b, d)) ==> {
                &&& !some_valid_move(b, d, *color)
                &&& exists|starts: Seq<Board>|
                    #[trigger] doubles_chain(*color, roll, starts) && starts[0] == self.board && {
                        ||| roll_done(*color, roll, starts.last(), b, d, false)
                        ||| {
                            &&& starts.len() == 3
                            &&& b == starts.last()
                            &&& d.rolls@.len() == 0
                            &&& exists|x: Dice| roll.ensures((all_entered(b, *color),), (x, true))
                        }
                    }
            },
    {
        let mut doubles_rolled: usize = 0;
        let mut board = self.board;
        let ghost mut starts: Seq<Board> = seq![self.board];
        loop
            invariant
                doubles_rolled <= 2,
                forall|b: bool| roll.requires((b,)),
                starts.len() == doubles_rolled + 1,
                starts[0] == self.board,
                starts.last() == board,
                doubles_chain(*color, roll, starts),
            decreases 3 - doubles_rolled,
        {
            let give_doubles_bonus = board.all_pawns_entered(color);
            let (rolled_dice, is_doubles) = roll(give_doubles_bonus);
            let (count, penalty) = Game::count_doubles(doubles_rolled, is_doubles);
            if penalty {
                self.give_doubles_penalty(player);
                let none = Dice::new();
                proof {
                    assert(roll.ensures((all_entered(board, *color),), (rolled_dice, true)));
                    assert(!some_valid_move(board, none, *color));
                }
                return Ok((board, none));
            }
            doubles_rolled = count;
            let turn_start = board;
            let mut temp_board = board;
            let mut temp_dice = rolled_dice;
            let ghost mut played: Seq<Move> = Seq::empty();
            let ghost mut boards: Seq<Board> = seq![turn_start];
            let ghost mut dices: Seq<Dice> = seq![rolled_dice];
            assert(roll.ensures((all_entered(turn_start, *color),), (rolled_dice, is_doubles)));
            while Board::has_valid_moves(&temp_board, &temp_dice, color)
                invariant
                    turn_measure(temp_board, temp_dice, *color) >= 0,
                    plays(*color, boards, dices, played),
                    boards[0] == turn_start,
                    dices[0] == rolled_dice,
                    roll.ensures((all_entered(turn_start, *color),), (rolled_dice, is_doubles)),
                    boards.last() == temp_board,
                    dices.last() == temp_dice,
                decreases turn_measure(temp_board, temp_dice, *color),
            {
                let mut chosen_moves = player.do_move(temp_board, temp_dice.clone());
                let (next_board, next_dice) = match Game::play_proposal(
                    &temp_board,
                    &temp_dice,
                    *color,
                    chosen_moves.pop(),
                ) {
                    Ok(res) => res,
                    Err(e) => {
                        return Err(e);
                    },
                };
                proof {
                    let m = choose|m: Move| plays_move(*color, temp_board, temp_dice, m, next_board, next_dice);
                    lemma_move_lowers_measure(temp_board, temp_dice, m, next_board, next_dice);
                    assert(plays_move(*color, boards[played.len() as int], dices[played.len() as int], m, next_board, next_dice));
                    played = played.push(m);
                    boards = boards.push(next_board);
                    dices = dices.push(next_dice);
                }
                temp_board = next_board;
                temp_dice = next_dice;
            }
            let again = match Game::end_of_roll(&turn_start, &temp_board, &temp_dice, *color, is_doubles) {
                Ok(again) => again,
                Err(e) => {
                    return Err(e);
                },
            };
            proof {
                assert(plays(*color, boards, dices, played) && boards[0] == turn_start && boards.last()
                    == temp_board && dices.last().rolls@ == temp_dice.rolls@ && valid_turn(turn_start, temp_board, *color)
                    && roll.ensures((all_entered(turn_start, *color),), (dices[0], is_doubles)));
                assert(roll_done(*color, roll, turn_start, temp_board, temp_dice, is_doubles));
            }
            if !again {
                return Ok((temp_board, temp_dice));
            }
            proof {
                assert(roll_reaches(*color, roll, turn_start, temp_board));
                let next_starts = starts.push(temp_board);
                assert forall|i: int| 0 <= i < next_starts.len() - 1 implies #[trigger] roll_reaches(
                    *color,
                    roll,
                    next_starts[i],
                    next_starts[i + 1],
                ) by {
                    if i < starts.len() - 1 {
                        assert(next_starts[i] == starts[i] && next_starts[i + 1] == starts[i + 1]);
                    }
                }
                starts = next_starts;
            }
            board = temp_board;
        }
    }
}

/// Whether move `m` of color `c`, legal on `b` with `d`, leads to `next` and
/// leaves distances `nd`: the rolled ones minus what the move used, plus its
/// bonus.
pub open spec fn plays_move(c: Color, b: Board, d: Dice, m: Move, next: Board, nd: Dice) -> bool {
    &&& m.pawn.color == c
    &&& valid_move(b, d, m)
    &&& move_dest(m) is Some
    &&& b.after_move(m, move_dest(m).unwrap(), next)
    &&& dice_after(d.rolls@, m, b.bonus_for(c, move_dest(m).unwrap())) == Some(nd.rolls@)
}

/// Whether no pawn of `c` is left in its nest on `b`.
pub open spec fn all_entered(b: Board, c: Color) -> bool {
    forall|k: int| 0 <= k < 4 ==> b.locs(c)[k] != Loc::Nest
}

/// Whether one roll of the turn of `c`, made with `roll` on `t` (told whether
/// every pawn of `c` has entered), came out a double exactly when `doubles`, and
/// its moves, played legally one after another, led to `b` with distances `d`
/// left and kept the blockades of `t` apart.
pub open spec fn roll_done<F: Fn(bool) -> (Dice, bool)>(
    c: Color,
    roll: F,
    t: Board,
    b: Board,
    d: Dice,
    doubles: bool,
) -> bool {
    exists|bs: Seq<Board>, ds: Seq<Dice>, ms: Seq<Move>|
        #[trigger] plays(c, bs, ds, ms) && bs[0] == t && bs.last() == b && ds.last().rolls@ == d.rolls@
            && valid_turn(t, b, c) && roll.ensures((all_entered(t, c),), (ds[0], doubles))
}

/// Whether a roll on `t` came out a double and its moves led to `b`.
pub open spec fn roll_reaches<F: Fn(bool) -> (Dice, bool)>(c: Color, roll: F, t: Board, b: Board) -> bool {
    exists|d: Dice| #[trigger] roll_done(c, roll, t, b, d, true)
}

/// Whether each board of `starts` is where a double roll on the one before led.
pub open spec fn doubles_chain<F: Fn(bool) -> (Dice, bool)>(c: Color, roll: F, starts: Seq<Board>) -> bool {
    &&& starts.len() >= 1
    &&& forall|i: int|
        0 <= i < starts.len() - 1 ==> #[trigger] roll_reaches(c, roll, starts[i], starts[i + 1])
}

/// Whether the moves `ms` of color `c` are played one after another through the
/// boards `bs` and distances `ds`: move `i` leads from `bs[i]`, `ds[i]` to
/// `bs[i + 1]`, `ds[i + 1]`.
pub open spec fn plays(c: Color, bs: Seq<Board>, ds: Seq<Dice>, ms: Seq<Move>) -> bool {
    &&& bs.len() == ms.len() + 1
    &&& ds.len() == ms.len() + 1
    &&& forall|i: int|
        0 <= i < ms.len() ==> plays_move(c, bs[i], ds[i], #[trigger] ms[i], bs[i + 1], ds[i + 1])
}

} // verus!
