use vstd::prelude::*;

use crate::board::{Board, Pawn};
use crate::dice::{entry_from, Dice, EntryMove};
use crate::geometry::{
    entrance_of, home_row_of, is_safety_loc, lemma_path_agrees_with_walk, path_cells, walk, Color,
    Loc,
};
use crate::moves::{Move, MoveType};
use crate::board::Path;

verus! {

/// The cells a travel passes through, its start excluded and its destination
/// included; none for an entry.
pub open spec fn travel_cells(m: Move) -> Seq<Loc> {
    match m.m_type {
        MoveType::EnterPiece => Seq::empty(),
        MoveType::MoveMain { start, distance } | MoveType::MoveHome { start, distance } => path_cells(
            m.pawn.color,
            Loc::Spot { index: start },
            distance as nat,
        ),
    }
}

/// Whether move `m` is legal on board `b` with distances `d`.
///
/// An entry needs the distances to allow it, the pawn in its nest and no blockade
/// on the entrance. A travel needs the pawn at `start`, `distance` among the
/// distances, a destination no further than home, no blockade on any cell passed
/// (the destination included), and no opposing pawn on a safety-cell destination.
pub open spec fn valid_move(b: Board, d: Dice, m: Move) -> bool {
    let c = m.pawn.color;
    let id = m.pawn.id as int;
    &&& m.pawn.id < 4
    &&& match m.m_type {
        MoveType::EnterPiece => {
            &&& entry_from(d.rolls@, 0) != EntryMove::NoEntry
            &&& b.locs(c)[id] == Loc::Nest
            &&& !b.is_blockade(Loc::Spot { index: entrance_of(c) })
        },
        MoveType::MoveMain { start, distance } | MoveType::MoveHome { start, distance } => {
            let from = Loc::Spot { index: start };
            let cells = travel_cells(m);
            &&& b.locs(c)[id] == from
            &&& d.rolls@.contains(distance)
            &&& walk(c, from, distance as nat) matches Some(dest)
            &&& !(is_safety_loc(dest) && b.opponents_at(c, dest) > 0)
            &&& forall|k: int| 0 <= k < cells.len() ==> !b.is_blockade(#[trigger] cells[k])
        },
    }
}

/// The move that pawn `id` of color `c` would make with `distance`: an entry from
/// the nest, a home-row or main-ring travel from a cell, nothing from home.
pub open spec fn candidate(b: Board, c: Color, id: int, distance: usize) -> Option<Move> {
    let pawn = Pawn { color: c, id: id as usize };
    match b.locs(c)[id] {
        Loc::Nest => Some(Move { m_type: MoveType::EnterPiece, pawn }),
        Loc::Home => None,
        Loc::Spot { index } => if index >= home_row_of(c) {
            Some(Move { m_type: MoveType::MoveHome { start: index, distance }, pawn })
        } else {
            Some(Move { m_type: MoveType::MoveMain { start: index, distance }, pawn })
        },
    }
}

/// Whether pawn `id` of color `c` has a legal move with `distance`.
pub open spec fn candidate_valid(b: Board, d: Dice, c: Color, id: int, distance: usize) -> bool {
    match candidate(b, c, id, distance) {
        Some(m) => valid_move(b, d, m),
        None => false,
    }
}

/// Whether some pawn of `c` has a legal move with some remaining distance.
pub open spec fn some_valid_move(b: Board, d: Dice, c: Color) -> bool {
    exists|id: int, j: int|
        0 <= id < 4 && 0 <= j < d.rolls@.len() && #[trigger] candidate_valid(b, d, c, id, d.rolls@[j])
}

/// Whether a turn from `start` to `end` kept every blockade of `c` from moving
/// together: no two pawns that shared a cell at the start both left it for one
/// same location.
pub open spec fn valid_turn(start: Board, end: Board, c: Color) -> bool {
    valid_turn_locs(start.locs(c), end.locs(c))
}

/// Whether no two pawns that shared a cell in `start` both left it for one same
/// location in `end`.
pub open spec fn valid_turn_locs(start: Seq<Loc>, end: Seq<Loc>) -> bool {
    forall|a: int, b: int|
        0 <= a < b < 4 && start[a] is Spot && #[trigger] start[a] == #[trigger] start[b] ==> !(end[a]
            == end[b] && end[a] != start[a])
}

impl Board {
    /// Whether some cell of `cells` is a blockade.
    fn any_blockade(&self, cells: &Vec<Loc>) -> (r: bool)
        ensures
            r == exists|k: int| 0 <= k < cells@.len() && self.is_blockade(#[trigger] cells@[k]),
    {
        let mut k: usize = 0;
        while k < cells.len()
            invariant
                k <= cells@.len(),
                forall|kk: int| 0 <= kk < k ==> !self.is_blockade(#[trigger] cells@[kk]),
            decreases cells@.len() - k,
        {
            if self.blockade_at(cells[k]) {
                return true;
            }
            k = k + 1;
        }
        false
    }

    /// Whether move `m` is legal on `board` with distances `dice`.
    pub fn is_valid_move(board: &Board, dice: &Dice, m: &Move) -> (r: bool)
        ensures
            r == valid_move(*board, *dice, *m),
    {
        let Move { pawn, m_type } = *m;
        let Pawn { color, id } = pawn;
        if id >= 4 {
            return false;
        }
        match m_type {
            MoveType::EnterPiece => {
                let is_dice_valid = match dice.can_enter() {
                    EntryMove::NoEntry => false,
                    _ => true,
                };
                let pawn_in_nest = board.get_pawn_loc(&color, id) == Loc::Nest;
                let entrance = Board::get_entrance(&color);
                let is_entrance_blockaded = board.blockade_at(Loc::Spot { index: entrance });
                is_dice_valid && pawn_in_nest && !is_entrance_blockaded
            },
            MoveType::MoveMain { start, distance } | MoveType::MoveHome { start, distance } => {
                let start_loc = Loc::Spot { index: start };
                if board.get_pawn_loc(&color, id) != start_loc {
                    return false;
                }
                if !dice.contains(&distance) {
                    return false;
                }
                let mut path = Path::started(color, start_loc);
                let cells = path.take_steps(distance);
                proof {
                    lemma_path_agrees_with_walk(color, start_loc, distance as nat);
                }
                if cells.len() < distance {
                    return false;
                }
                let finish_loc = if distance == 0 {
                    start_loc
                } else {
                    cells[distance - 1]
                };
                if Board::is_safety(finish_loc) && board.full_safety_square(finish_loc, color) {
                    return false;
                }
                let blocked = board.any_blockade(&cells);
                assert(cells@ == travel_cells(*m));
                !blocked
            },
        }
    }

    /// Whether some pawn of `color` has a legal move with some remaining distance
    /// (an entry for a pawn in its nest).
    pub fn has_valid_moves(board: &Board, dice: &Dice, color: &Color) -> (r: bool)
        ensures
            r == some_valid_move(*board, *dice, *color),
    {
        let pawns = board.get_pawns_by_color(color);
        let mut j: usize = 0;
        while j < dice.rolls.len()
            invariant
                pawns@ == board.locs(*color),
                j <= dice.rolls@.len(),
                forall|id: int, jj: int|
                    0 <= id < 4 && 0 <= jj < j ==> !#[trigger] candidate_valid(*board, *dice, *color, id, dice.rolls@[jj]),
            decreases dice.rolls@.len() - j,
        {
            let r = dice.rolls[j];
            let mut id: usize = 0;
            while id < 4
                invariant
                    pawns@ == board.locs(*color),
                    j < dice.rolls@.len(),
                    r == dice.rolls@[j as int],
                    id <= 4,
                    forall|i: int, jj: int|
                        0 <= i < 4 && 0 <= jj < j ==> !#[trigger] candidate_valid(*board, *dice, *color, i, dice.rolls@[jj]),
                    forall|i: int| 0 <= i < id ==> !#[trigger] candidate_valid(*board, *dice, *color, i, r),
                decreases 4 - id,
            {
                let pawn = Pawn { color: *color, id };
                let loc = pawns[id];
                let m_type = match loc {
                    Loc::Nest => Some(MoveType::EnterPiece),
                    Loc::Home => None,
                    Loc::Spot { index } => if Board::is_home_row(*color, loc) {
                        Some(MoveType::MoveHome { start: index, distance: r })
                    } else {
                        Some(MoveType::MoveMain { start: index, distance: r })
                    },
                };
                match m_type {
                    Some(t) => {
                        let mv = Move { m_type: t, pawn };
                        if Board::is_valid_move(board, dice, &mv) {
                            assert(candidate_valid(*board, *dice, *color, id as int, dice.rolls@[j as int]));
                            return true;
                        }
                    },
                    None => {},
                }
                id = id + 1;
            }
            j = j + 1;
        }
        false
    }

    /// Whether the turn that led from `self` to `end` kept every blockade of
    /// `color` from moving together to one location.
    pub fn is_valid_turn(&self, end: &Board, dice: &Dice, color: Color) -> (r: bool)
        ensures
            r == valid_turn(*self, *end, color),
    {
        let pawns = self.get_pawns_by_color(&color);
        let finals = end.get_pawns_by_color(&color);
        let mut a: usize = 0;
        while a < 4
            invariant
                a <= 4,
                pawns@ == self.locs(color),
                finals@ == end.locs(color),
                forall|x: int, y: int|
                    0 <= x < a && x < y < 4 && self.locs(color)[x] is Spot && #[trigger] self.locs(color)[x]
                        == #[trigger] self.locs(color)[y] ==> !(end.locs(color)[x] == end.locs(color)[y]
                        && end.locs(color)[x] != self.locs(color)[x]),
            decreases 4 - a,
        {
            let mut b: usize = a + 1;
            while b < 4
                invariant
                    a < 4,
                    a + 1 <= b <= 4,
                    pawns@ == self.locs(color),
                    finals@ == end.locs(color),
                    forall|x: int, y: int|
                        0 <= x < a && x < y < 4 && self.locs(color)[x] is Spot && #[trigger] self.locs(
                            color,
                        )[x] == #[trigger] self.locs(color)[y] ==> !(end.locs(color)[x] == end.locs(
                            color,
                        )[y] && end.locs(color)[x] != self.locs(color)[x]),
                    forall|y: int|
                        a < y < b && self.locs(color)[a as int] is Spot && self.locs(color)[a as int]
                            == #[trigger] self.locs(color)[y] ==> !(end.locs(color)[a as int] == end.locs(
                            color,
                        )[y] && end.locs(color)[a as int] != self.locs(color)[a as int]),
                decreases 4 - b,
            {
                let is_spot = match pawns[a] {
                    Loc::Spot { .. } => true,
                    _ => false,
                };
                if is_spot && pawns[a] == pawns[b] && finals[a] == finals[b] && finals[a] != pawns[a] {
                    return false;
                }
                b = b + 1;
            }
            a = a + 1;
        }
        true
    }
}

/// In a turn accepted as valid, two pawns of `c` that formed a blockade at the
/// start do not end on one same new location.
pub proof fn lemma_turn_keeps_blockade_apart(start: Board, end: Board, c: Color, a: int, b: int)
    requires
        valid_turn(start, end, c),
        0 <= a < 4,
        0 <= b < 4,
        a != b,
        start.locs(c)[a] is Spot,
        start.locs(c)[a] == start.locs(c)[b],
    ensures
        !(end.locs(c)[a] == end.locs(c)[b] && end.locs(c)[a] != start.locs(c)[a]),
{
    if a > b {
    }
}

/// A travel whose route passes through a blockade (its destination included) is
/// never legal.
pub proof fn lemma_blockade_impassable(b: Board, d: Dice, m: Move, k: int)
    requires
        !(m.m_type is EnterPiece),
        0 <= k < travel_cells(m).len(),
        b.is_blockade(travel_cells(m)[k]),
    ensures
        !valid_move(b, d, m),
{
}

} // verus!
