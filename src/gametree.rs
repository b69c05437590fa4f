use vstd::prelude::*;

use crate::board::{move_dest, Board, MoveResult, Pawn};
use crate::dice::{entry_from, Dice, EntryMove};
use crate::geometry::{entrance_of, Color, Loc};
use crate::legality::{candidate, valid_move, valid_turn_locs};
use crate::moves::{Move, MoveType};

verus! {

/// A resumable search for the legal next moves of one color.
///
/// An entry comes first, when the distances allow one, a pawn waits in its nest
/// and the entrance is not a blockade. Then each (pawn, distance) pair is tried,
/// pawn-major, keeping the moves that are legal and that also leave the turn
/// valid against the board the turn started from.
#[derive(Debug, Clone)]
pub struct GameTree {
    color: Color,
    board: Board,
    turn_start: Board,
    dice: Dice,
    current_pawn: usize,
    current_roll: usize,
    entry_offered: bool,
}

/// The state of a search: whose moves, on which board and distances, against
/// which turn-start board, and where the search stands.
pub struct GameTreeView {
    pub color: Color,
    pub board: Board,
    pub turn_start: Board,
    pub dice: Dice,
    pub pawn: int,
    pub roll: int,
    pub entry_offered: bool,
}

impl View for GameTree {
    type V = GameTreeView;

    closed spec fn view(&self) -> GameTreeView {
        GameTreeView {
            color: self.color,
            board: self.board,
            turn_start: self.turn_start,
            dice: self.dice,
            pawn: self.current_pawn as int,
            roll: self.current_roll as int,
            entry_offered: self.entry_offered,
        }
    }
}

/// The first ordinal whose location in `s` is the nest.
pub open spec fn first_nest(s: Seq<Loc>) -> Option<int> {
    if s[0] == Loc::Nest {
        Some(0)
    } else if s[1] == Loc::Nest {
        Some(1)
    } else if s[2] == Loc::Nest {
        Some(2)
    } else if s[3] == Loc::Nest {
        Some(3)
    } else {
        None
    }
}

/// Whether move `m` on board `b` keeps the turn that started from `turn_start` valid.
pub open spec fn keeps_turn_valid(turn_start: Board, b: Board, m: Move) -> bool {
    match move_dest(m) {
        Some(dest) => valid_turn_locs(
            turn_start.locs(m.pawn.color),
            b.locs(m.pawn.color).update(m.pawn.id as int, dest),
        ),
        None => false,
    }
}

/// Whether the search `g` keeps the move of pawn `p` with the distance at `j`.
pub open spec fn accepted(g: GameTreeView, p: int, j: int) -> bool {
    match candidate(g.board, g.color, p, g.dice.rolls@[j]) {
        Some(m) => valid_move(g.board, g.dice, m) && keeps_turn_valid(g.turn_start, g.board, m),
        None => false,
    }
}

/// The first kept (pawn, distance position) pair at or after `(p, j)`.
pub open spec fn next_pair(g: GameTreeView, p: int, j: int) -> Option<(int, int)>
    decreases 4 - p, g.dice.rolls@.len() - j,
{
    if p < 0 || p >= 4 || j < 0 {
        None
    } else if j >= g.dice.rolls@.len() {
        next_pair(g, p + 1, 0)
    } else if accepted(g, p, j) {
        Some((p, j))
    } else {
        next_pair(g, p, j + 1)
    }
}

/// Whether the search `g` offers an entry before anything else.
pub open spec fn offers_entry(g: GameTreeView) -> bool {
    &&& !g.entry_offered
    &&& entry_from(g.dice.rolls@, 0) != EntryMove::NoEntry
    &&& first_nest(g.board.locs(g.color)) is Some
    &&& !g.board.is_blockade(Loc::Spot { index: entrance_of(g.color) })
}

impl GameTree {
    /// Whether the search's cursor is within its (pawn, distance) pairs: at most
    /// one past the last pawn.
    pub open spec fn wf(&self) -> bool {
        0 <= self@.pawn <= 4 && 0 <= self@.roll
    }

    /// A search on `board` whose turn starts from `board` itself.
    pub fn new(board: Board, dice: Dice, color: Color) -> (r: GameTree)
        ensures
            r@ == (GameTreeView {
                color,
                board,
                turn_start: board,
                dice,
                pawn: 0,
                roll: 0,
                entry_offered: false,
            }),
    {
        GameTree {
            color,
            turn_start: board,
            board,
            dice,
            current_pawn: 0,
            current_roll: 0,
            entry_offered: false,
        }
    }

    /// A search on `board` whose turn started from `turn_start`.
    pub fn from(board: Board, dice: Dice, color: Color, turn_start: Board) -> (r: GameTree)
        ensures
            r@ == (GameTreeView {
                color,
                board,
                turn_start,
                dice,
                pawn: 0,
                roll: 0,
                entry_offered: false,
            }),
    {
        GameTree { color, board, turn_start, dice, current_pawn: 0, current_roll: 0, entry_offered: false }
    }

    /// The next move that the search keeps, or `None` once every pair is tried.
    pub fn next(&mut self) -> (r: Option<Move>)
        requires
            old(self).wf(),
        ensures
            ({
                let g = old(self)@;
                let n = final(self)@;
                &&& n.color == g.color && n.board == g.board && n.turn_start == g.turn_start && n.dice == g.dice
                &&& n.entry_offered
                &&& final(self).wf()
                &&& if offers_entry(g) {
                    &&& r == Some(
                        Move {
                            m_type: MoveType::EnterPiece,
                            pawn: Pawn { color: g.color, id: first_nest(g.board.locs(g.color)).unwrap() as usize },
                        },
                    )
                    &&& n.pawn == g.pawn && n.roll == g.roll
                } else {
                    match next_pair(g, g.pawn, g.roll) {
                        Some((p, j)) => {
                            &&& r == candidate(g.board, g.color, p, g.dice.rolls@[j])
                            &&& n.pawn == p && n.roll == j + 1
                        },
                        None => r is None && n.pawn == 4,
                    }
                }
            }),
    {
        let ghost g = old(self)@;
        if !self.entry_offered {
            self.entry_offered = true;
            let can_enter = match self.dice.can_enter() {
                EntryMove::NoEntry => false,
                _ => true,
            };
            if can_enter {
                let entrance = Board::get_entrance(&self.color);
                if !self.board.blockade_at(Loc::Spot { index: entrance }) {
                    let pawns = self.board.get_pawns_by_color(&self.color);
                    let mut i: usize = 0;
                    while i < 4
                        invariant
                            g == old(self)@,
                            0 <= g.pawn <= 4,
                            0 <= g.roll,
                            i <= 4,
                            pawns@ == g.board.locs(g.color),
                            self@.color == g.color && self@.board == g.board && self@.turn_start
                                == g.turn_start && self@.dice == g.dice,
                            self@.pawn == g.pawn && self@.roll == g.roll && self@.entry_offered,
                            !g.entry_offered,
                            entry_from(g.dice.rolls@, 0) != EntryMove::NoEntry,
                            !g.board.is_blockade(Loc::Spot { index: entrance_of(g.color) }),
                            forall|k: int| 0 <= k < i ==> pawns@[k] != Loc::Nest,
                        decreases 4 - i,
                    {
                        if pawns[i] == Loc::Nest {
                            return Some(
                                Move {
                                    pawn: Pawn { id: i, color: self.color },
                                    m_type: MoveType::EnterPiece,
                                },
                            );
                        }
                        i = i + 1;
                    }
                }
            }
        }
        let pawns = self.board.get_pawns_by_color(&self.color);
        while self.current_pawn < 4
            invariant
                g == old(self)@,
                0 <= g.pawn <= 4,
                0 <= g.roll,
                !offers_entry(g),
                pawns@ == g.board.locs(g.color),
                self@.color == g.color && self@.board == g.board && self@.turn_start == g.turn_start
                    && self@.dice == g.dice,
                self@.entry_offered,
                0 <= self@.pawn <= 4,
                0 <= self@.roll,
                next_pair(g, g.pawn, g.roll) == next_pair(g, self@.pawn, self@.roll),
            decreases 4 - self@.pawn,
        {
            let ghost p0 = self@.pawn;
            while self.current_roll < self.dice.rolls.len()
                invariant
                    g == old(self)@,
                    self@.pawn == p0,
                    !offers_entry(g),
                    pawns@ == g.board.locs(g.color),
                    self@.color == g.color && self@.board == g.board && self@.turn_start == g.turn_start
                        && self@.dice == g.dice,
                    self@.entry_offered,
                    0 <= self@.pawn < 4,
                    0 <= self@.roll,
                    next_pair(g, g.pawn, g.roll) == next_pair(g, self@.pawn, self@.roll),
                decreases self.dice.rolls@.len() - self@.roll,
            {
                let p = self.current_pawn;
                let j = self.current_roll;
                assert(next_pair(g, p as int, j as int) == if accepted(g, p as int, j as int) {
                    Some((p as int, j as int))
                } else {
                    next_pair(g, p as int, j as int + 1)
                });
                let pawn_loc = pawns[p];
                let move_distance = self.dice.rolls[j];
                let m_type = match pawn_loc {
                    Loc::Nest => Some(MoveType::EnterPiece),
                    Loc::Home => None,
                    Loc::Spot { index } => if Board::is_home_row(self.color, pawn_loc) {
                        Some(MoveType::MoveHome { start: index, distance: move_distance })
                    } else {
                        Some(MoveType::MoveMain { start: index, distance: move_distance })
                    },
                };
                self.current_roll = self.current_roll + 1;
                match m_type {
                    Some(t) => {
                        let mv = Move { pawn: Pawn { color: self.color, id: p }, m_type: t };
                        let is_valid_mini_move = Board::is_valid_move(&self.board, &self.dice, &mv);
                        let is_valid_for_turn = match self.board.handle_move(mv) {
                            Ok(MoveResult(next_board, _)) => self.turn_start.is_valid_turn(
                                &next_board,
                                &self.dice,
                                self.color,
                            ),
                            Err(_) => false,
                        };
                        if is_valid_mini_move && is_valid_for_turn {
                            return Some(mv);
                        }
                    },
                    None => {},
                }
            }
            self.current_pawn = self.current_pawn + 1;
            self.current_roll = 0;
        }
        None
    }
}

/// The state of a fresh search for moves of `c` on `b` with `d`, in a turn that
/// started from `turn_start`.
pub open spec fn fresh_search(turn_start: Board, b: Board, d: Dice, c: Color) -> GameTreeView {
    GameTreeView { color: c, board: b, turn_start, dice: d, pawn: 0, roll: 0, entry_offered: false }
}

/// The first move that a fresh search offers (see `GameTree::next`).
pub open spec fn first_offer(turn_start: Board, b: Board, d: Dice, c: Color) -> Option<Move> {
    let g = fresh_search(turn_start, b, d, c);
    if offers_entry(g) {
        Some(
            Move {
                m_type: MoveType::EnterPiece,
                pawn: Pawn { color: c, id: first_nest(b.locs(c)).unwrap() as usize },
            },
        )
    } else {
        match next_pair(g, 0, 0) {
            Some((p, j)) => candidate(b, c, p, d.rolls@[j]),
            None => None,
        }
    }
}

proof fn lemma_next_pair_rolls(g1: GameTreeView, g2: GameTreeView, p: int, j: int)
    requires
        g1.color == g2.color,
        g1.board == g2.board,
        g1.turn_start == g2.turn_start,
        g1.dice.rolls@ == g2.dice.rolls@,
    ensures
        next_pair(g1, p, j) == next_pair(g2, p, j),
    decreases 4 - p, g1.dice.rolls@.len() - j,
{
    if p < 0 || p >= 4 || j < 0 {
    } else if j >= g1.dice.rolls@.len() {
        lemma_next_pair_rolls(g1, g2, p + 1, 0);
    } else {
        assert(accepted(g1, p, j) == accepted(g2, p, j));
        lemma_next_pair_rolls(g1, g2, p, j + 1);
    }
}

proof fn lemma_next_pair_sound(g: GameTreeView, p: int, j: int)
    requires
        0 <= p,
        0 <= j,
    ensures
        next_pair(g, p, j) matches Some((q, k)) ==> 0 <= q < 4 && 0 <= k < g.dice.rolls@.len()
            && accepted(g, q, k),
    decreases 4 - p, g.dice.rolls@.len() - j,
{
    if p >= 4 {
    } else if j >= g.dice.rolls@.len() {
        lemma_next_pair_sound(g, p + 1, 0);
    } else if !accepted(g, p, j) {
        lemma_next_pair_sound(g, p, j + 1);
    }
}

/// The first offer of a search depends on the distances alone, not on which
/// copy of them the search holds.
pub proof fn lemma_first_offer_rolls(turn_start: Board, b: Board, d1: Dice, d2: Dice, c: Color)
    requires
        d1.rolls@ == d2.rolls@,
    ensures
        first_offer(turn_start, b, d1, c) == first_offer(turn_start, b, d2, c),
{
    lemma_next_pair_rolls(fresh_search(turn_start, b, d1, c), fresh_search(turn_start, b, d2, c), 0, 0);
}

/// What a search offers first is a legal move of its color.
pub proof fn lemma_first_offer_valid(turn_start: Board, b: Board, d: Dice, c: Color)
    ensures
        first_offer(turn_start, b, d, c) matches Some(m) ==> m.pawn.color == c && valid_move(b, d, m),
{
    lemma_next_pair_sound(fresh_search(turn_start, b, d, c), 0, 0);
}

} // verus!
