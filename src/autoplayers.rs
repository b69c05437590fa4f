use vstd::prelude::*;

use crate::board::{route_rank, Board, Pawn};
use crate::game::{lemma_move_lowers_measure, plays, plays_move, turn_measure, Game};
use crate::gametree::{first_offer, lemma_first_offer_rolls, lemma_first_offer_valid, GameTree};
use crate::dice::Dice;
use crate::game::Player;
use crate::geometry::{route_index, Color, Loc, PawnLocs};
use crate::legality::{candidate, candidate_valid};
use crate::moves::{Move, MoveType};

verus! {

/// A policy that moves its most advanced pawn that can move (or its least
/// advanced one), trying the distances in order.
pub struct MoveEndPawnPlayer {
    pub color: Color,
    pub name: String,
    pub should_reverse_path: bool,
}

/// Where pawn `k` comes in the order a policy tries pawns: by route position,
/// the most advanced first when `reverse`.
pub open spec fn try_position(c: Color, locs: Seq<Loc>, k: int, reverse: bool) -> int {
    if reverse {
        3 - route_rank(c, locs, k)
    } else {
        route_rank(c, locs, k)
    }
}

/// Whether all four locations are on the route of `c`.
pub open spec fn all_on_route(c: Color, locs: Seq<Loc>) -> bool {
    forall|k: int| 0 <= k < 4 ==> route_index(c, #[trigger] locs[k]) is Some
}

/// Four distinct positions among four cover them all.
proof fn lemma_ranks_cover(c: Color, locs: Seq<Loc>, q: int)
    requires
        0 <= q < 4,
    ensures
        exists|k: int| 0 <= k < 4 && #[trigger] route_rank(c, locs, k) == q,
{
    crate::board::lemma_route_rank_distinct(c, locs, 0, 1);
    crate::board::lemma_route_rank_distinct(c, locs, 0, 2);
    crate::board::lemma_route_rank_distinct(c, locs, 0, 3);
    crate::board::lemma_route_rank_distinct(c, locs, 1, 2);
    crate::board::lemma_route_rank_distinct(c, locs, 1, 3);
    crate::board::lemma_route_rank_distinct(c, locs, 2, 3);
    if route_rank(c, locs, 0) == q {
    } else if route_rank(c, locs, 1) == q {
    } else if route_rank(c, locs, 2) == q {
    } else {
    }
}

impl MoveEndPawnPlayer {
    pub fn new(name: String, color: Color, should_reverse_path: bool) -> (r: MoveEndPawnPlayer)
        ensures
            r.color == color,
            r.name == name,
            r.should_reverse_path == should_reverse_path,
    {
        MoveEndPawnPlayer { name, color, should_reverse_path }
    }

    /// The move this policy picks: the first legal (pawn, distance) pair, pawns in
    /// route order (the most advanced first when `should_reverse_path`), distances in order;
    /// none when no pair is legal or a pawn stands off its route.
    pub fn choose_move(&self, board: &Board, dice: &Dice) -> (r: Vec<Move>)
        ensures
            r@.len() <= 1,
            !all_on_route(self.color, board.locs(self.color)) ==> r@.len() == 0,
            all_on_route(self.color, board.locs(self.color)) ==> {
                let locs = board.locs(self.color);
                let pos = |k: int| try_position(self.color, locs, k, self.should_reverse_path);
                &&& r@.len() == 0 <==> !exists|k: int, j: int|
                    0 <= k < 4 && 0 <= j < dice.rolls@.len() && #[trigger] candidate_valid(
                        *board,
                        *dice,
                        self.color,
                        k,
                        dice.rolls@[j],
                    )
                &&& r@.len() == 1 ==> exists|k: int, j: int|
                    #![trigger candidate(*board, self.color, k, dice.rolls@[j])]
                    0 <= k < 4 && 0 <= j < dice.rolls@.len() && candidate_valid(
                        *board,
                        *dice,
                        self.color,
                        k,
                        dice.rolls@[j],
                    ) && Some(r@[0]) == candidate(*board, self.color, k, dice.rolls@[j]) && forall|
                        k2: int,
                        j2: int,
                    |
                        0 <= k2 < 4 && 0 <= j2 < dice.rolls@.len() && (pos(k2) < pos(k) || (k2
                            == k && j2 < j)) ==> !#[trigger] candidate_valid(
                            *board,
                            *dice,
                            self.color,
                            k2,
                            dice.rolls@[j2],
                        )
            },
    {
        let color = self.color;
        let pawn_locs: PawnLocs = board.get_pawns_by_color(&color);
        let ghost locs = pawn_locs@;
        let mut k: usize = 0;
        while k < 4
            invariant
                k <= 4,
                color == self.color,
                locs == pawn_locs@,
                locs == board.locs(color),
                forall|kk: int| 0 <= kk < k ==> route_index(color, #[trigger] locs[kk]) is Some,
            decreases 4 - k,
        {
            if !Board::on_route(&color, pawn_locs[k]) {
                return Vec::new();
            }
            k = k + 1;
        }
        let sorted = Board::sort_player_locs(&color, pawn_locs);
        let mut t: usize = 0;
        while t < 4
            invariant
                t <= 4,
                color == self.color,
                locs == board.locs(color),
                all_on_route(color, locs),
                sorted@.len() == 4,
                forall|kk: int|
                    0 <= kk < 4 ==> sorted@[#[trigger] route_rank(color, locs, kk)] == (kk as usize, locs[kk]),
                forall|kk: int, j: int|
                    0 <= kk < 4 && 0 <= j < dice.rolls@.len() && try_position(color, locs, kk, self.should_reverse_path) < t
                        ==> !#[trigger] candidate_valid(*board, *dice, color, kk, dice.rolls@[j]),
            decreases 4 - t,
        {
            let q: usize = if self.should_reverse_path {
                3 - t
            } else {
                t
            };
            proof {
                lemma_ranks_cover(color, locs, q as int);
            }
            let ghost kq = choose|kk: int| 0 <= kk < 4 && #[trigger] route_rank(color, locs, kk) == q;
            let (pawn_id, loc) = sorted[q];
            let mut j: usize = 0;
            while j < dice.rolls.len()
                invariant
                    t < 4,
                    j <= dice.rolls@.len(),
                    color == self.color,
                    locs == board.locs(color),
                    pawn_id == kq,
                    0 <= kq < 4,
                    all_on_route(color, locs),
                    loc == locs[kq],
                    try_position(color, locs, kq, self.should_reverse_path) == t,
                    forall|kk: int, jj: int|
                        0 <= kk < 4 && 0 <= jj < dice.rolls@.len() && try_position(color, locs, kk, self.should_reverse_path) < t
                            ==> !#[trigger] candidate_valid(*board, *dice, color, kk, dice.rolls@[jj]),
                    forall|jj: int| 0 <= jj < j ==> !#[trigger] candidate_valid(*board, *dice, color, kq, dice.rolls@[jj]),
                decreases dice.rolls@.len() - j,
            {
                let mini_move = dice.rolls[j];
                let m_type = match loc {
                    Loc::Nest => Some(MoveType::EnterPiece),
                    Loc::Home => None,
                    Loc::Spot { index } => if Board::is_home_row(color, loc) {
                        Some(MoveType::MoveHome { start: index, distance: mini_move })
                    } else {
                        Some(MoveType::MoveMain { start: index, distance: mini_move })
                    },
                };
                match m_type {
                    Some(t_) => {
                        let m = Move { pawn: Pawn { color, id: pawn_id }, m_type: t_ };
                        if Board::is_valid_move(board, dice, &m) {
                            let mut moves: Vec<Move> = Vec::new();
                            moves.push(m);
                            assert(candidate_valid(*board, *dice, color, kq, dice.rolls@[j as int]));
                            return moves;
                        }
                    },
                    None => {},
                }
                j = j + 1;
            }
            proof {
                assert forall|kk: int, jj: int|
                    0 <= kk < 4 && 0 <= jj < dice.rolls@.len() && try_position(color, locs, kk, self.should_reverse_path) < t + 1
                        implies !#[trigger] candidate_valid(*board, *dice, color, kk, dice.rolls@[jj]) by {
                    if try_position(color, locs, kk, self.should_reverse_path) == t && kk != kq {
                        crate::board::lemma_route_rank_distinct(color, locs, kk, kq);
                    }
                }
            }
            t = t + 1;
        }
        Vec::new()
    }
}

impl Player for MoveEndPawnPlayer {
    fn start_game(&self) -> String {
        self.name.clone()
    }

    /// Moves the end pawn that can move (see `choose_move`).
    fn do_move(&self, board: Board, dice: Dice) -> Vec<Move> {
        self.choose_move(&board, &dice)
    }

    fn doubles_penalty(&self) {
    }
}

/// A policy that moves its most advanced pawn that can move.
pub fn move_first_pawn_player(name: String, color: Color) -> (r: MoveEndPawnPlayer)
    ensures
        r.color == color && r.name == name && r.should_reverse_path,
{
    MoveEndPawnPlayer::new(name, color, true)
}

/// A policy that moves its least advanced pawn that can move.
pub fn move_last_pawn_player(name: String, color: Color) -> (r: MoveEndPawnPlayer)
    ensures
        r.color == color && r.name == name && !r.should_reverse_path,
{
    MoveEndPawnPlayer::new(name, color, false)
}

/// The moves a player of `color` makes by always playing the first move the
/// search offers, against the board the turn started from, until none is left.
/// Each move is legal where it is played, so the sequence is finite.
pub fn search_moves(board: Board, dice: Dice, color: Color) -> (r: Vec<Move>)
    ensures
        exists|bs: Seq<Board>, ds: Seq<Dice>|
            #[trigger] plays(color, bs, ds, r@) && bs[0] == board && ds[0].rolls@ == dice.rolls@
                && (forall|i: int|
                0 <= i < r@.len() ==> Some(#[trigger] r@[i]) == first_offer(board, bs[i], ds[i], color))
                && first_offer(board, bs.last(), ds.last(), color) is None,
{
    let mut moves: Vec<Move> = Vec::new();
    let mut temp_board = board;
    let mut temp_dice = Dice { rolls: dice.rolls.clone() };
    let ghost mut boards: Seq<Board> = seq![temp_board];
    let ghost mut dices: Seq<Dice> = seq![temp_dice];
    loop
        invariant
            turn_measure(temp_board, temp_dice, color) >= 0,
            plays(color, boards, dices, moves@),
            boards[0] == board,
            dices[0].rolls@ == dice.rolls@,
            boards.last() == temp_board,
            dices.last() == temp_dice,
            forall|i: int|
                0 <= i < moves@.len() ==> Some(#[trigger] moves@[i]) == first_offer(board, boards[i], dices[i], color),
        decreases turn_measure(temp_board, temp_dice, color),
    {
        let snapshot = Dice { rolls: temp_dice.rolls.clone() };
        let ghost seen = snapshot;
        let mut options = GameTree::from(temp_board, snapshot, color, board);
        let offered = options.next();
        proof {
            lemma_first_offer_rolls(board, temp_board, seen, temp_dice, color);
            lemma_first_offer_valid(board, temp_board, temp_dice, color);
            assert(offered == first_offer(board, temp_board, temp_dice, color));
        }
        let chosen = match offered {
            Some(m) => m,
            None => {
                return moves;
            },
        };
        let (next_board, next_dice) = match Game::apply_chosen_move(&temp_board, &temp_dice, &chosen) {
            Ok(res) => res,
            Err(_) => {
                return moves;
            },
        };
        proof {
            lemma_move_lowers_measure(temp_board, temp_dice, chosen, next_board, next_dice);
            assert(plays_move(color, boards[moves@.len() as int], dices[moves@.len() as int], chosen, next_board, next_dice));
        }
        moves.push(chosen);
        proof {
            boards = boards.push(next_board);
            dices = dices.push(next_dice);
        }
        temp_board = next_board;
        temp_dice = next_dice;
    }
}

} // verus!
