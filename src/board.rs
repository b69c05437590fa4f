use vstd::prelude::*;

use crate::moves::{Move, MoveType};
use crate::geometry::{
    color_at, color_index, entrance_of, exit_of, home_row_of, is_entrance_loc, is_safety_loc, lemma_color_index,
    lemma_path_agrees_with_walk, lemma_walk_route, path_cells, route_index, step, walk, BOP_BONUS, HOME_BONUS, Color, Loc, PawnLocs, BLUE_ENTRANCE, BLUE_EXIT, BLUE_HOME_ROW, BOARD_SIZE,
    GREEN_ENTRANCE, GREEN_EXIT, GREEN_HOME_ROW, HOME_ROW_LENGTH, RED_ENTRANCE, RED_EXIT,
    RED_HOME_ROW, YELLOW_ENTRANCE, YELLOW_EXIT, YELLOW_HOME_ROW,
};

verus! {

/// One pawn: its color and its ordinal among that color's four pawns.
#[derive(Debug, Clone, Copy, PartialEq, Eq, Structural)]
pub struct Pawn {
    pub color: Color,
    pub id: usize,
}

impl Pawn {
    pub open spec fn wf(&self) -> bool {
        self.id < 4
    }

    pub fn new(id: usize, color: Color) -> (r: Pawn)
        requires
            id <= 3,
        ensures
            r.id == id,
            r.color == color,
            r.wf(),
    {
        Pawn { id, color }
    }
}

/// Where every pawn stands. `positions[i]` holds the pawns of the `i`-th color
/// (red, green, blue, yellow), indexed by ordinal.
#[derive(Debug, Clone, Copy, PartialEq, Eq)]
pub struct Board {
    pub positions: [PawnLocs; 4],
}

/// The board after a move, and the bonus distance the move earned, if any.
pub struct MoveResult(pub Board, pub Option<usize>);

/// Why a move could not be applied.
#[derive(Debug, Clone, Copy, PartialEq, Eq, Structural)]
pub enum MoveError {
    /// The travel goes past the last cell of the home row.
    Overshoot,
}

/// Where move `m` takes its pawn; `None` when it would go past home.
pub open spec fn move_dest(m: Move) -> Option<Loc> {
    match m.m_type {
        MoveType::EnterPiece => Some(Loc::Spot { index: entrance_of(m.pawn.color) }),
        MoveType::MoveMain { start, distance } | MoveType::MoveHome { start, distance } => walk(
            m.pawn.color,
            Loc::Spot { index: start },
            distance as nat,
        ),
    }
}

/// A route of one color, yielding one location per call of `next`.
#[derive(Debug, Clone, Copy)]
pub struct Path {
    color: Color,
    current_loc: Loc,
    has_started: bool,
}

impl View for Path {
    type V = (Color, Loc, bool);

    closed spec fn view(&self) -> (Color, Loc, bool) {
        (self.color, self.current_loc, self.has_started)
    }
}

/// The locations that `n` calls of `next` yield on a route in state `p`
/// (color, current location, started), stopping where the route ends: the nest
/// first on a route not yet started, then the cells after the current one.
pub open spec fn route_steps(p: (Color, Loc, bool), n: nat) -> Seq<Loc> {
    if p.2 {
        path_cells(p.0, p.1, n)
    } else if n == 0 {
        Seq::empty()
    } else {
        seq![Loc::Nest] + path_cells(p.0, p.1, (n - 1) as nat)
    }
}

impl Path {
    /// A route from the nest: its first location is the nest itself.
    pub fn new(color: Color) -> (r: Path)
        ensures
            r@ == (color, Loc::Nest, false),
    {
        Path { color, current_loc: Loc::Nest, has_started: false }
    }

    /// A route whose first location is the one after `start`.
    pub fn started(color: Color, start: Loc) -> (r: Path)
        ensures
            r@ == (color, start, true),
    {
        Path { color, current_loc: start, has_started: true }
    }

    /// The next location of the route, or `None` once it has ended.
    pub fn next(&mut self) -> (r: Option<Loc>)
        ensures
            !old(self)@.2 ==> r == Some(Loc::Nest) && final(self)@ == (old(self)@.0,
                old(self)@.1, true),
            old(self)@.2 ==> r == step(old(self)@.0, old(self)@.1) && final(self)@ == (
                old(self)@.0,
                match r {
                    Some(l) => l,
                    None => old(self)@.1,
                },
                true,
            ),
    {
        if !self.has_started {
            self.has_started = true;
            return Some(Loc::Nest);
        }
        let entrance = Board::get_entrance(&self.color);
        let home_row = Board::get_home_row(&self.color);
        let exit = Board::get_exit(&self.color);
        let result: Option<Loc> = match self.current_loc {
            Loc::Home => None,
            Loc::Nest => Some(Loc::Spot { index: entrance }),
            Loc::Spot { index } => {
                if index == exit {
                    Some(Loc::Spot { index: home_row })
                } else if index >= home_row {
                    let home: usize = home_row + HOME_ROW_LENGTH;
                    if index >= home {
                        None
                    } else if index + 1 == home {
                        Some(Loc::Home)
                    } else {
                        Some(Loc::Spot { index: index + 1 })
                    }
                } else {
                    Some(Loc::Spot { index: (index + 1) % BOARD_SIZE })
                }
            },
        };
        if let Some(next_loc) = result {
            self.current_loc = next_loc;
        }
        result
    }

    /// The locations of at most `n` further calls of `next`, stopping where the
    /// route ends.
    pub fn take_steps(&mut self, n: usize) -> (r: Vec<Loc>)
        ensures
            r@ == route_steps(old(self)@, n as nat),
    {
        let ghost c = old(self)@.0;
        let ghost start = old(self)@.1;
        let ghost target = route_steps(old(self)@, n as nat);
        let mut cells: Vec<Loc> = Vec::new();
        let mut i: usize = 0;
        if n > 0 && !self.has_started {
            self.next();
            cells.push(Loc::Nest);
            i = 1;
            assert(cells@ + path_cells(c, start, (n - 1) as nat) == target);
        } else {
            assert(cells@ + path_cells(c, start, n as nat) =~= target);
        }
        while i < n
            invariant
                c == old(self)@.0,
                target == route_steps(old(self)@, n as nat),
                self@.0 == c,
                self@.2 || i == n,
                i <= n,
                cells@ + path_cells(c, self@.1, (n - i) as nat) == target,
            decreases n - i,
        {
            let ghost before = self@.1;
            match self.next() {
                Some(l) => {
                    assert(path_cells(c, before, (n - i) as nat) == seq![l] + path_cells(
                        c,
                        l,
                        (n - i - 1) as nat,
                    ));
                    cells.push(l);
                },
                None => {
                    assert(path_cells(c, before, (n - i) as nat) == Seq::<Loc>::empty());
                    assert(cells@ + Seq::<Loc>::empty() == cells@);
                    return cells;
                },
            }
            i = i + 1;
        }
        assert(cells@ + Seq::<Loc>::empty() == cells@);
        cells
    }

}

/// How many of the four locations `s` are `l`.
pub open spec fn count_at(s: Seq<Loc>, l: Loc) -> int {
    (if s[0] == l { 1int } else { 0 }) + (if s[1] == l { 1int } else { 0 }) + (if s[2] == l {
        1int
    } else {
        0
    }) + (if s[3] == l { 1int } else { 0 })
}

/// How many of the four locations `s` are `l`.
fn count_locs_at(locs: &PawnLocs, l: Loc) -> (r: usize)
    ensures
        r == count_at(locs@, l),
{
    let mut n: usize = 0;
    if locs[0] == l {
        n = n + 1;
    }
    if locs[1] == l {
        n = n + 1;
    }
    if locs[2] == l {
        n = n + 1;
    }
    if locs[3] == l {
        n = n + 1;
    }
    n
}

/// Whether `v` holds `l`.
fn holds_loc(v: &Vec<Loc>, l: Loc) -> (r: bool)
    ensures
        r == v@.contains(l),
{
    let mut i: usize = 0;
    while i < v.len()
        invariant
            i <= v@.len(),
            forall|k: int| 0 <= k < i ==> v@[k] != l,
        decreases v@.len() - i,
    {
        if v[i] == l {
            return true;
        }
        i = i + 1;
    }
    false
}

impl Board {
    /// The locations of the pawns of the `ci`-th color.
    pub open spec fn locs_at(&self, ci: int) -> Seq<Loc> {
        self.positions@[ci]@
    }

    /// The locations of the pawns of color `c`.
    pub open spec fn locs(&self, c: Color) -> Seq<Loc> {
        self.locs_at(color_index(c))
    }

    /// A cell that two or more pawns of one color share.
    pub open spec fn is_blockade(&self, l: Loc) -> bool {
        &&& l is Spot
        &&& exists|ci: int| 0 <= ci < 4 && count_at(#[trigger] self.locs_at(ci), l) >= 2
    }

    /// How many pawns of colors other than `c` stand at `l`.
    pub open spec fn opponents_at(&self, c: Color, l: Loc) -> int {
        (if c != Color::Red { count_at(self.locs(Color::Red), l) } else { 0 }) + (if c
            != Color::Green {
            count_at(self.locs(Color::Green), l)
        } else {
            0
        }) + (if c != Color::Blue { count_at(self.locs(Color::Blue), l) } else { 0 }) + (if c
            != Color::Yellow {
            count_at(self.locs(Color::Yellow), l)
        } else {
            0
        })
    }

    /// Whether all four pawns of the `ci`-th color are home.
    pub open spec fn all_home_at(&self, ci: int) -> bool {
        forall|k: int| 0 <= k < 4 ==> self.locs_at(ci)[k] == Loc::Home
    }

    /// Whether a pawn may bop at `l` as far as the cell itself goes:
    /// a cell of the track that is not a safety cell, or is an entrance (the safety
    /// cells where pawns enter).
    pub open spec fn bop_cell(l: Loc) -> bool {
        &&& l is Spot
        &&& (!is_safety_loc(l) || is_entrance_loc(l))
    }

    /// Every cell where two or more pawns of one color stand, each listed once.
    pub fn get_blockades(&self) -> (r: Vec<Loc>)
        ensures
            r@.no_duplicates(),
            forall|l: Loc| r@.contains(l) <==> self.is_blockade(l),
    {
        let mut result: Vec<Loc> = Vec::new();
        let mut ci: usize = 0;
        while ci < 4
            invariant
                ci <= 4,
                result@.no_duplicates(),
                forall|l: Loc|
                    result@.contains(l) <==> (l is Spot && exists|cj: int|
                        0 <= cj < ci && count_at(#[trigger] self.locs_at(cj), l) >= 2),
            decreases 4 - ci,
        {
            let locs: PawnLocs = self.positions[ci];
            let mut k: usize = 0;
            while k < 4
                invariant
                    ci < 4,
                    k <= 4,
                    locs@ == self.locs_at(ci as int),
                    result@.no_duplicates(),
                    forall|l: Loc|
                        result@.contains(l) <==> (l is Spot && ((exists|cj: int|
                            0 <= cj < ci && count_at(#[trigger] self.locs_at(cj), l) >= 2)
                            || (exists|kk: int|
                            0 <= kk < k && locs@[kk] == l && count_at(locs@, l) >= 2))),
                decreases 4 - k,
            {
                let l = locs[k];
                let is_spot = match l {
                    Loc::Spot { .. } => true,
                    _ => false,
                };
                let ghost old_result = result@;
                let shared = is_spot && count_locs_at(&locs, l) >= 2;
                if shared && !holds_loc(&result, l) {
                    result.push(l);
                }
                assert forall|x: Loc|
                    result@.contains(x) <==> (x is Spot && ((exists|cj: int|
                        0 <= cj < ci && count_at(#[trigger] self.locs_at(cj), x) >= 2) || (exists|
                        kk: int,
                    |
                        0 <= kk < k + 1 && locs@[kk] == x && count_at(locs@, x) >= 2))) by {
                    if x == l && shared {
                    }
                    if result@.contains(x) && !old_result.contains(x) {
                        assert(result@.last() == l);
                    }
                    if old_result.contains(x) {
                        let j = choose|j: int| 0 <= j < old_result.len() && old_result[j] == x;
                        assert(result@[j] == x);
                    }
                }
                k = k + 1;
            }
            assert forall|l: Loc|
                (l is Spot && count_at(locs@, l) >= 2) implies exists|kk: int|
                0 <= kk < 4 && locs@[kk] == l by {
                if locs@[0] != l && locs@[1] != l && locs@[2] != l {
                }
            }
            ci = ci + 1;
        }
        result
    }

    /// Whether `l` is a cell where two or more pawns of one color stand.
    pub(crate) fn blockade_at(&self, l: Loc) -> (r: bool)
        ensures
            r == self.is_blockade(l),
    {
        let is_spot = match l {
            Loc::Spot { .. } => true,
            _ => false,
        };
        if !is_spot {
            return false;
        }
        let mut ci: usize = 0;
        while ci < 4
            invariant
                ci <= 4,
                l is Spot,
                forall|cj: int| 0 <= cj < ci ==> count_at(#[trigger] self.locs_at(cj), l) < 2,
            decreases 4 - ci,
        {
            if count_locs_at(&self.positions[ci], l) >= 2 {
                assert(count_at(self.locs_at(ci as int), l) >= 2);
                return true;
            }
            ci = ci + 1;
        }
        false
    }

    /// How many pawns of colors other than `color` stand at `l`.
    fn count_opponents_at(&self, color: Color, l: Loc) -> (r: usize)
        ensures
            r == self.opponents_at(color, l),
    {
        let mut n: usize = 0;
        if color != Color::Red {
            n = n + count_locs_at(&self.positions[0], l);
        }
        if color != Color::Green {
            n = n + count_locs_at(&self.positions[1], l);
        }
        if color != Color::Blue {
            n = n + count_locs_at(&self.positions[2], l);
        }
        if color != Color::Yellow {
            n = n + count_locs_at(&self.positions[3], l);
        }
        n
    }

    /// The pawn that a pawn of `bopper_color` landing on `dest_loc` sends back to
    /// its nest: the only opposing pawn there, when the cell allows a bop and is
    /// not a blockade.
    pub fn can_bop(&self, bopper_color: Color, dest_loc: Loc) -> (r: Option<Pawn>)
        ensures
            r is Some <==> (Board::bop_cell(dest_loc) && !self.is_blockade(dest_loc)
                && self.opponents_at(bopper_color, dest_loc) == 1),
            r matches Some(p) ==> p.color != bopper_color && p.wf() && self.locs(p.color)[p.id as int]
                == dest_loc,
    {
        let is_spot = match dest_loc {
            Loc::Spot { .. } => true,
            _ => false,
        };
        if !is_spot {
            return None;
        }
        if Board::is_safety(dest_loc) && !Board::is_entrance(dest_loc) {
            return None;
        }
        if self.blockade_at(dest_loc) {
            return None;
        }
        if self.count_opponents_at(bopper_color, dest_loc) != 1 {
            return None;
        }
        let mut ci: usize = 0;
        while ci < 4
            invariant
                ci <= 4,
                Board::bop_cell(dest_loc),
                !self.is_blockade(dest_loc),
                self.opponents_at(bopper_color, dest_loc) == 1,
                forall|cj: int|
                    0 <= cj < ci && color_at(cj) != bopper_color ==> count_at(
                        #[trigger] self.locs_at(cj),
                        dest_loc,
                    ) == 0,
            decreases 4 - ci,
        {
            let c = Board::color_of_index(ci);
            if c != bopper_color {
                let locs = self.positions[ci];
                let mut k: usize = 0;
                while k < 4
                    invariant
                        ci < 4,
                        k <= 4,
                        c != bopper_color,
                        color_index(c) == ci,
                        Board::bop_cell(dest_loc),
                        !self.is_blockade(dest_loc),
                        self.opponents_at(bopper_color, dest_loc) == 1,
                        locs@ == self.locs_at(ci as int),
                        forall|kk: int| 0 <= kk < k ==> locs@[kk] != dest_loc,
                    decreases 4 - k,
                {
                    if locs[k] == dest_loc {
                        return Some(Pawn { color: c, id: k });
                    }
                    k = k + 1;
                }
            }
            ci = ci + 1;
        }
        None
    }

    /// Whether a pawn of color `c` landing on `l` sends a pawn back to its nest.
    pub open spec fn bops(&self, c: Color, l: Loc) -> bool {
        Board::bop_cell(l) && !self.is_blockade(l) && self.opponents_at(c, l) == 1
    }

    /// The board that move `m` (assumed to go no further than home) leads to.
    pub open spec fn after_move(&self, m: Move, dest: Loc, next: Board) -> bool {
        let c = m.pawn.color;
        &&& next.locs(c) == self.locs(c).update(m.pawn.id as int, dest)
        &&& forall|o: Color, k: int|
            #![trigger next.locs(o)[k]]
            o != c && 0 <= k < 4 ==> next.locs(o)[k] == (if self.bops(c, dest) && self.locs(o)[k]
                == dest {
                Loc::Nest
            } else {
                self.locs(o)[k]
            })
    }

    /// The bonus that a pawn of color `c` earns by landing on `dest`.
    pub open spec fn bonus_for(&self, c: Color, dest: Loc) -> Option<usize> {
        if self.bops(c, dest) {
            Some(BOP_BONUS)
        } else if dest == Loc::Home {
            Some(HOME_BONUS)
        } else {
            None
        }
    }

    /// Applies move `m`: the pawn goes to its destination (the entrance for an
    /// entry, else `distance` steps along its route); a lone opposing pawn there
    /// goes back to its nest and earns the bop bonus; reaching home earns the home
    /// bonus. Fails when the travel would go past home.
    pub fn handle_move(&self, m: Move) -> (r: Result<MoveResult, MoveError>)
        requires
            m.pawn.wf(),
        ensures
            move_dest(m) is None <==> r is Err,
            r is Err ==> r == Err::<MoveResult, MoveError>(MoveError::Overshoot),
            r matches Ok(res) ==> self.after_move(m, move_dest(m).unwrap(), res.0) && res.1
                == self.bonus_for(m.pawn.color, move_dest(m).unwrap()),
    {
        let Move { pawn: Pawn { color, id }, m_type } = m;
        let dest: Loc = match m_type {
            MoveType::EnterPiece => Loc::Spot { index: Board::get_entrance(&color) },
            MoveType::MoveHome { start, distance } | MoveType::MoveMain { start, distance } => {
                let start_loc = Loc::Spot { index: start };
                let mut path = Path::started(color, start_loc);
                let cells = path.take_steps(distance);
                proof {
                    lemma_path_agrees_with_walk(color, start_loc, distance as nat);
                }
                if cells.len() < distance {
                    return Err(MoveError::Overshoot);
                }
                if distance == 0 {
                    start_loc
                } else {
                    cells[distance - 1]
                }
            },
        };
        let mut own: PawnLocs = self.get_pawns_by_color(&color);
        own[id] = dest;
        let mut next = self.with_locs(color, own);
        let mut bonus: Option<usize> = if dest == Loc::Home {
            Some(HOME_BONUS)
        } else {
            None
        };
        match self.can_bop(color, dest) {
            Some(bopped) => {
                let mut theirs: PawnLocs = self.get_pawns_by_color(&bopped.color);
                theirs[bopped.id] = Loc::Nest;
                next = next.with_locs(bopped.color, theirs);
                bonus = Some(BOP_BONUS);
                proof {
                    lemma_only_opponent(*self, color, dest, bopped);
                    assert forall|o: Color, k: int|
                        #![trigger next.locs(o)[k]]
                        o != color && 0 <= k < 4 implies next.locs(o)[k] == (if self.bops(color, dest)
                            && self.locs(o)[k] == dest {
                            Loc::Nest
                        } else {
                            self.locs(o)[k]
                        }) by {
                        if o != bopped.color {
                        }
                    }
                }
            },
            None => {},
        }
        Ok(MoveResult(next, bonus))
    }

    /// The pawns of `color` as (ordinal, location) pairs, ordered by how far along
    /// the route of `color` they stand, ties by ordinal.
    pub fn sort_player_locs(color: &Color, locs: PawnLocs) -> (r: Vec<(usize, Loc)>)
        requires
            forall|k: int| 0 <= k < 4 ==> route_index(*color, #[trigger] locs@[k]) is Some,
        ensures
            r@.len() == 4,
            forall|k: int|
                0 <= k < 4 ==> r@[#[trigger] route_rank(*color, locs@, k)] == (k as usize, locs@[k]),
    {
        let mut keys: Vec<usize> = Vec::new();
        let mut k: usize = 0;
        while k < 4
            invariant
                k <= 4,
                forall|kk: int| 0 <= kk < 4 ==> route_index(*color, #[trigger] locs@[kk]) is Some,
                keys@.len() == k,
                forall|kk: int|
                    0 <= kk < k ==> keys@[kk] == route_index(*color, #[trigger] locs@[kk]).unwrap(),
            decreases 4 - k,
        {
            keys.push(Board::route_position(color, locs[k]));
            k = k + 1;
        }
        let mut result: Vec<(usize, Loc)> = vec![(0, Loc::Nest), (0, Loc::Nest), (0, Loc::Nest), (0, Loc::Nest)];
        let mut k: usize = 0;
        while k < 4
            invariant
                k <= 4,
                result@.len() == 4,
                keys@.len() == 4,
                forall|kk: int|
                    0 <= kk < 4 ==> keys@[kk] == route_index(*color, #[trigger] locs@[kk]).unwrap(),
                forall|kk: int|
                    0 <= kk < k ==> result@[#[trigger] route_rank(*color, locs@, kk)] == (
                        kk as usize,
                        locs@[kk],
                    ),
            decreases 4 - k,
        {
            let mut rank: usize = 0;
            let mut x: usize = 0;
            while x < 4
                invariant
                    k < 4,
                    x <= 4,
                    rank <= x,
                    keys@.len() == 4,
                    forall|kk: int|
                        0 <= kk < 4 ==> keys@[kk] == route_index(*color, #[trigger] locs@[kk]).unwrap(),
                    rank == (if x > 0 && route_before(*color, locs@, 0, k as int) { 1int } else { 0 })
                        + (if x > 1 && route_before(*color, locs@, 1, k as int) { 1int } else { 0 })
                        + (if x > 2 && route_before(*color, locs@, 2, k as int) { 1int } else { 0 })
                        + (if x > 3 && route_before(*color, locs@, 3, k as int) { 1int } else { 0 }),
                decreases 4 - x,
            {
                if keys[x] < keys[k] || (keys[x] == keys[k] && x < k) {
                    rank = rank + 1;
                }
                x = x + 1;
            }
            proof {
                assert forall|kk: int| 0 <= kk < k implies route_rank(*color, locs@, kk) != rank by {
                    lemma_route_rank_distinct(*color, locs@, k as int, kk);
                }
                lemma_route_rank_distinct(*color, locs@, k as int, if k == 0 { 1 } else { 0 });
            }
            result.set(rank, (k, locs[k]));
            k = k + 1;
        }
        result
    }

    /// Whether `loc` lies on the route of `color`.
    pub fn on_route(color: &Color, loc: Loc) -> (r: bool)
        ensures
            r == route_index(*color, loc) is Some,
    {
        match loc {
            Loc::Nest => true,
            Loc::Home => true,
            Loc::Spot { index } => {
                if index < BOARD_SIZE {
                    (index + BOARD_SIZE - Board::get_entrance(color)) % BOARD_SIZE <= 63
                } else {
                    let home_row = Board::get_home_row(color);
                    home_row <= index && index < home_row + HOME_ROW_LENGTH
                }
            },
        }
    }

    /// The position of `loc` along the route of `color`.
    fn route_position(color: &Color, loc: Loc) -> (r: usize)
        requires
            route_index(*color, loc) is Some,
        ensures
            r == route_index(*color, loc).unwrap(),
    {
        match loc {
            Loc::Nest => 0,
            Loc::Home => 72,
            Loc::Spot { index } => {
                if index < BOARD_SIZE {
                    (index + BOARD_SIZE - Board::get_entrance(color)) % BOARD_SIZE + 1
                } else {
                    65 + index - Board::get_home_row(color)
                }
            },
        }
    }

    /// The color listed at position `ci` of a board.
    pub(crate) fn color_of_index(ci: usize) -> (r: Color)
        requires
            ci < 4,
        ensures
            r == color_at(ci as int),
            color_index(r) == ci,
    {
        if ci == 0 {
            Color::Red
        } else if ci == 1 {
            Color::Green
        } else if ci == 2 {
            Color::Blue
        } else {
            Color::Yellow
        }
    }

    /// Whether some pawn of a color other than `color` stands at `dest_loc`.
    pub fn full_safety_square(&self, dest_loc: Loc, color: Color) -> (r: bool)
        ensures
            r == (self.opponents_at(color, dest_loc) > 0),
    {
        self.count_opponents_at(color, dest_loc) > 0
    }

    /// The first color, in board order, whose four pawns are all home.
    pub fn has_winner(&self) -> (r: Option<Color>)
        ensures
            r is None <==> forall|ci: int| 0 <= ci < 4 ==> !#[trigger] self.all_home_at(ci),
            r matches Some(c) ==> self.all_home_at(color_index(c)) && forall|ci: int|
                0 <= ci < color_index(c) ==> !#[trigger] self.all_home_at(ci),
    {
        let mut ci: usize = 0;
        while ci < 4
            invariant
                ci <= 4,
                forall|cj: int| 0 <= cj < ci ==> !#[trigger] self.all_home_at(cj),
            decreases 4 - ci,
        {
            let locs = self.positions[ci];
            if locs[0] == Loc::Home && locs[1] == Loc::Home && locs[2] == Loc::Home && locs[3]
                == Loc::Home {
                let c = Board::color_of_index(ci);
                assert(self.all_home_at(ci as int));
                return Some(c);
            }
            ci = ci + 1;
        }
        None
    }

    /// A board with every pawn in its nest.
    pub fn new() -> (r: Board)
        ensures
            forall|c: Color, k: int| 0 <= k < 4 ==> #[trigger] r.locs(c)[k] == Loc::Nest,
    {
        let nest: PawnLocs = [Loc::Nest, Loc::Nest, Loc::Nest, Loc::Nest];
        Board { positions: [nest, nest, nest, nest] }
    }

    /// The starting board, with the pawns of each listed color replaced by the
    /// given locations (a later entry for a color wins over an earlier one).
    pub fn from(posns: Vec<(Color, PawnLocs)>) -> (r: Board)
        ensures
            forall|c: Color|
                #![trigger r.locs(c)]
                match last_entry_for(posns@, c) {
                    Some(locs) => r.locs(c) == locs@,
                    None => r.locs(c) == seq![Loc::Nest, Loc::Nest, Loc::Nest, Loc::Nest],
                },
    {
        let mut board = Board::new();
        let mut i: usize = 0;
        while i < posns.len()
            invariant
                i <= posns@.len(),
                forall|c: Color|
                    #![trigger board.locs(c)]
                    match last_entry_for(posns@.take(i as int), c) {
                        Some(locs) => board.locs(c) == locs@,
                        None => board.locs(c) == seq![Loc::Nest, Loc::Nest, Loc::Nest, Loc::Nest],
                    },
            decreases posns@.len() - i,
        {
            let (c, locs) = posns[i];
            board = board.with_locs(c, locs);
            let ghost pre = posns@.take(i as int);
            let ghost cur = posns@.take(i as int + 1);
            assert(cur.drop_last() == pre);
            assert forall|o: Color|
                #![trigger board.locs(o)]
                match last_entry_for(cur, o) {
                    Some(l) => board.locs(o) == l@,
                    None => board.locs(o) == seq![Loc::Nest, Loc::Nest, Loc::Nest, Loc::Nest],
                } by {
                if o != c {
                }
            }
            i = i + 1;
        }
        assert(posns@.take(posns@.len() as int) == posns@);
        board
    }

    /// This board with the pawns of color `c` at `locs`.
    pub(crate) fn with_locs(&self, c: Color, locs: PawnLocs) -> (r: Board)
        ensures
            r.locs(c) == locs@,
            forall|o: Color| o != c ==> #[trigger] r.locs(o) == self.locs(o),
    {
        let mut positions = self.positions;
        match c {
            Color::Red => positions[0] = locs,
            Color::Green => positions[1] = locs,
            Color::Blue => positions[2] = locs,
            Color::Yellow => positions[3] = locs,
        }
        let r = Board { positions };
        assert forall|o: Color| o != c implies #[trigger] r.locs(o) == self.locs(o) by {
            lemma_color_index(o);
            lemma_color_index(c);
        }
        r
    }

    /// The locations of the pawns of color `color`, by ordinal.
    pub fn get_pawns_by_color(&self, color: &Color) -> (r: PawnLocs)
        ensures
            r@ == self.locs(*color),
    {
        match color {
            Color::Red => self.positions[0],
            Color::Green => self.positions[1],
            Color::Blue => self.positions[2],
            Color::Yellow => self.positions[3],
        }
    }

    /// The location of pawn `id` of color `color`.
    pub fn get_pawn_loc(&self, color: &Color, id: usize) -> (r: Loc)
        requires
            id < 4,
        ensures
            r == self.locs(*color)[id as int],
    {
        let locs = self.get_pawns_by_color(color);
        locs[id]
    }

    /// Whether no pawn of color `color` is left in its nest.
    pub fn all_pawns_entered(&self, color: &Color) -> (r: bool)
        ensures
            r == forall|k: int| 0 <= k < 4 ==> self.locs(*color)[k] != Loc::Nest,
    {
        let locs = self.get_pawns_by_color(color);
        locs[0] != Loc::Nest && locs[1] != Loc::Nest && locs[2] != Loc::Nest && locs[3] != Loc::Nest
    }

    /// Whether `loc` is a cell at or beyond the start of the home row of `color`.
    pub fn is_home_row(color: Color, loc: Loc) -> (r: bool)
        ensures
            r == (loc matches Loc::Spot { index } && index >= home_row_of(color)),
    {
        match loc {
            Loc::Spot { index } => index >= Board::get_home_row(&color),
            _ => false,
        }
    }

    /// Whether `loc` is one of the safety cells.
    pub fn is_safety(loc: Loc) -> (r: bool)
        ensures
            r == is_safety_loc(loc),
    {
        match loc {
            Loc::Spot { index } => index == 4 || index == 11 || index == 16 || index == 21
                || index == 28 || index == 33 || index == 38 || index == 45 || index == 50
                || index == 55 || index == 62 || index == 67,
            _ => false,
        }
    }

    /// Whether `loc` is the entrance of some color.
    pub fn is_entrance(loc: Loc) -> (r: bool)
        ensures
            r == is_entrance_loc(loc),
    {
        match loc {
            Loc::Spot { index } => index == RED_ENTRANCE || index == BLUE_ENTRANCE || index
                == YELLOW_ENTRANCE || index == GREEN_ENTRANCE,
            _ => false,
        }
    }

    pub fn get_exit(color: &Color) -> (r: usize)
        ensures
            r == exit_of(*color),
    {
        match color {
            Color::Red => RED_EXIT,
            Color::Blue => BLUE_EXIT,
            Color::Yellow => YELLOW_EXIT,
            Color::Green => GREEN_EXIT,
        }
    }

    pub fn get_entrance(color: &Color) -> (r: usize)
        ensures
            r == entrance_of(*color),
    {
        match color {
            Color::Red => RED_ENTRANCE,
            Color::Blue => BLUE_ENTRANCE,
            Color::Yellow => YELLOW_ENTRANCE,
            Color::Green => GREEN_ENTRANCE,
        }
    }

    pub fn get_home_row(color: &Color) -> (r: usize)
        ensures
            r == home_row_of(*color),
    {
        match color {
            Color::Red => RED_HOME_ROW,
            Color::Blue => BLUE_HOME_ROW,
            Color::Yellow => YELLOW_HOME_ROW,
            Color::Green => GREEN_HOME_ROW,
        }
    }
}

/// A travel from a cell on the route of its color goes past home (and
/// `handle_move` fails with `Overshoot`) exactly when its route position plus its
/// distance exceeds home's; otherwise it lands exactly that many positions on,
/// never clipped.
pub proof fn lemma_move_overshoot(m: Move)
    requires
        !(m.m_type is EnterPiece),
        route_index(m.pawn.color, Loc::Spot { index: travel_start(m) }) is Some,
    ensures
        ({
            let from = route_index(m.pawn.color, Loc::Spot { index: travel_start(m) }).unwrap();
            &&& move_dest(m) is None <==> from + travel_distance(m) > 72
            &&& move_dest(m) matches Some(dest) ==> route_index(m.pawn.color, dest) == Some(
                from + travel_distance(m),
            )
        }),
{
    lemma_walk_route(m.pawn.color, Loc::Spot { index: travel_start(m) }, travel_distance(m) as nat);
}

/// The start cell of a travel.
pub open spec fn travel_start(m: Move) -> usize {
    match m.m_type {
        MoveType::MoveMain { start, .. } | MoveType::MoveHome { start, .. } => start,
        MoveType::EnterPiece => 0,
    }
}

/// The distance of a travel.
pub open spec fn travel_distance(m: Move) -> usize {
    match m.m_type {
        MoveType::MoveMain { distance, .. } | MoveType::MoveHome { distance, .. } => distance,
        MoveType::EnterPiece => 0,
    }
}

/// Whether pawn `x` comes before pawn `k` when `locs` are ordered along the route
/// of `c` (ties by ordinal).
pub open spec fn route_before(c: Color, locs: Seq<Loc>, x: int, k: int) -> bool {
    let kx = route_index(c, locs[x]).unwrap();
    let kk = route_index(c, locs[k]).unwrap();
    kx < kk || (kx == kk && x < k)
}

/// How many of the four pawns come before pawn `k` along the route of `c`.
pub open spec fn route_rank(c: Color, locs: Seq<Loc>, k: int) -> int {
    (if route_before(c, locs, 0, k) { 1int } else { 0 }) + (if route_before(c, locs, 1, k) {
        1int
    } else {
        0
    }) + (if route_before(c, locs, 2, k) { 1int } else { 0 }) + (if route_before(c, locs, 3, k) {
        1int
    } else {
        0
    })
}

pub proof fn lemma_route_rank_distinct(c: Color, locs: Seq<Loc>, k: int, j: int)
    requires
        0 <= k < 4,
        0 <= j < 4,
        k != j,
    ensures
        0 <= route_rank(c, locs, k) < 4,
        route_rank(c, locs, k) != route_rank(c, locs, j),
{
    if route_before(c, locs, k, j) {
    } else {
    }
}

/// A lone opposing pawn is the only opposing pawn at its cell.
proof fn lemma_only_opponent(b: Board, c: Color, l: Loc, p: Pawn)
    requires
        b.opponents_at(c, l) == 1,
        p.color != c,
        p.id < 4,
        b.locs(p.color)[p.id as int] == l,
    ensures
        forall|o: Color, k: int|
            o != c && 0 <= k < 4 && #[trigger] b.locs(o)[k] == l ==> o == p.color && k == p.id,
{
    assert forall|o: Color, k: int|
        o != c && 0 <= k < 4 && #[trigger] b.locs(o)[k] == l implies o == p.color && k == p.id by {
        if o != p.color {
        } else if k != p.id {
        }
    }
}

/// The locations given for color `c` by the last entry of `posns` that names it.
pub open spec fn last_entry_for(posns: Seq<(Color, PawnLocs)>, c: Color) -> Option<PawnLocs>
    decreases posns.len(),
{
    if posns.len() == 0 {
        None
    } else if posns.last().0 == c {
        Some(posns.last().1)
    } else {
        last_entry_for(posns.drop_last(), c)
    }
}

} // verus!
