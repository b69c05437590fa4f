use vstd::prelude::*;

verus! {

/// Number of cells on the shared main ring.
pub const BOARD_SIZE: usize = 68;

/// Number of cells in each color's home row.
pub const HOME_ROW_LENGTH: usize = 7;

/// Bonus distance awarded for sending an opposing pawn back to its nest.
pub const BOP_BONUS: usize = 20;

/// Bonus distance awarded for bringing a pawn home.
pub const HOME_BONUS: usize = 10;

pub const RED_ENTRANCE: usize = 4;
pub const BLUE_ENTRANCE: usize = 21;
pub const YELLOW_ENTRANCE: usize = 38;
pub const GREEN_ENTRANCE: usize = 55;

pub const RED_HOME_ROW: usize = 100;
pub const BLUE_HOME_ROW: usize = 200;
pub const YELLOW_HOME_ROW: usize = 300;
pub const GREEN_HOME_ROW: usize = 400;

pub const RED_EXIT: usize = 67;
pub const BLUE_EXIT: usize = 16;
pub const YELLOW_EXIT: usize = 33;
pub const GREEN_EXIT: usize = 50;

/// The four race identities, in the order in which a board lists them.
#[derive(Debug, Clone, Copy, PartialEq, Eq, Structural, PartialOrd, Ord, Hash)]
pub enum Color {
    Red,
    Green,
    Blue,
    Yellow,
}

/// Where a pawn stands: in its nest, on a numbered cell, or home.
#[derive(Debug, Clone, Copy, PartialEq, Eq, Structural)]
pub enum Loc {
    Spot { index: usize },
    Nest,
    Home,
}

/// The four locations of one color's pawns, indexed by pawn ordinal.
pub type PawnLocs = [Loc; 4];

/// Position of a color in a board's list of colors.
pub open spec fn color_index(c: Color) -> int {
    match c {
        Color::Red => 0,
        Color::Green => 1,
        Color::Blue => 2,
        Color::Yellow => 3,
    }
}

/// The color at a position of a board's list of colors.
pub open spec fn color_at(i: int) -> Color {
    if i == 0 {
        Color::Red
    } else if i == 1 {
        Color::Green
    } else if i == 2 {
        Color::Blue
    } else {
        Color::Yellow
    }
}

pub proof fn lemma_color_index(c: Color)
    ensures
        0 <= color_index(c) < 4,
        color_at(color_index(c)) == c,
{
}

pub open spec fn entrance_of(c: Color) -> usize {
    match c {
        Color::Red => RED_ENTRANCE,
        Color::Blue => BLUE_ENTRANCE,
        Color::Yellow => YELLOW_ENTRANCE,
        Color::Green => GREEN_ENTRANCE,
    }
}

pub open spec fn home_row_of(c: Color) -> usize {
    match c {
        Color::Red => RED_HOME_ROW,
        Color::Blue => BLUE_HOME_ROW,
        Color::Yellow => YELLOW_HOME_ROW,
        Color::Green => GREEN_HOME_ROW,
    }
}

/// The last main-ring cell a color visits: five cells before its entrance.
pub open spec fn exit_of(c: Color) -> usize {
    match c {
        Color::Red => RED_EXIT,
        Color::Blue => BLUE_EXIT,
        Color::Yellow => YELLOW_EXIT,
        Color::Green => GREEN_EXIT,
    }
}

pub proof fn lemma_exit_is_five_before_entrance(c: Color)
    ensures
        exit_of(c) == (entrance_of(c) + BOARD_SIZE - 5) % (BOARD_SIZE as int),
{
}

/// The twelve safety cells of the main ring.
pub open spec fn is_safety_index(i: int) -> bool {
    i == 4 || i == 11 || i == 16 || i == 21 || i == 28 || i == 33 || i == 38 || i == 45
        || i == 50 || i == 55 || i == 62 || i == 67
}

pub open spec fn is_safety_loc(l: Loc) -> bool {
    match l {
        Loc::Spot { index } => is_safety_index(index as int),
        _ => false,
    }
}

/// Whether `l` is the entrance of some color.
pub open spec fn is_entrance_loc(l: Loc) -> bool {
    ||| l == Loc::Spot { index: entrance_of(Color::Red) }
    ||| l == Loc::Spot { index: entrance_of(Color::Green) }
    ||| l == Loc::Spot { index: entrance_of(Color::Blue) }
    ||| l == Loc::Spot { index: entrance_of(Color::Yellow) }
}

/// The cell that follows `loc` on the route of color `c`, or `None` when the route
/// ends there (at home, or past the last home-row cell).
pub open spec fn step(c: Color, loc: Loc) -> Option<Loc> {
    match loc {
        Loc::Home => None,
        Loc::Nest => Some(Loc::Spot { index: entrance_of(c) }),
        Loc::Spot { index } => {
            if index == exit_of(c) {
                Some(Loc::Spot { index: home_row_of(c) })
            } else if index >= home_row_of(c) {
                if index + 1 > home_row_of(c) + HOME_ROW_LENGTH {
                    None
                } else if index + 1 == home_row_of(c) + HOME_ROW_LENGTH {
                    Some(Loc::Home)
                } else {
                    Some(Loc::Spot { index: (index + 1) as usize })
                }
            } else {
                Some(Loc::Spot { index: ((index + 1) % (BOARD_SIZE as int)) as usize })
            }
        },
    }
}

/// Where `n` steps along the route of `c` lead from `loc`; `None` if the route
/// ends first.
pub open spec fn walk(c: Color, loc: Loc, n: nat) -> Option<Loc>
    decreases n,
{
    if n == 0 {
        Some(loc)
    } else {
        match step(c, loc) {
            None => None,
            Some(next) => walk(c, next, (n - 1) as nat),
        }
    }
}

/// The cells passed through by at most `n` steps from `loc` (the start excluded,
/// the last cell reached included), stopping where the route ends.
pub open spec fn path_cells(c: Color, loc: Loc, n: nat) -> Seq<Loc>
    decreases n,
{
    if n == 0 {
        Seq::empty()
    } else {
        match step(c, loc) {
            None => Seq::empty(),
            Some(next) => seq![next] + path_cells(c, next, (n - 1) as nat),
        }
    }
}

/// From a home-row cell, a travel of `n` reaches home exactly when it ends on the
/// cell after the last one, and goes past home (fails) whenever `start + n`
/// exceeds that; short of it, it lands on cell `start + n`.
pub proof fn lemma_no_overshoot(c: Color, start: usize, n: nat)
    requires
        home_row_of(c) <= start < home_row_of(c) + HOME_ROW_LENGTH,
    ensures
        start + n > home_row_of(c) + HOME_ROW_LENGTH <==> walk(c, Loc::Spot { index: start }, n) is None,
        start + n == home_row_of(c) + HOME_ROW_LENGTH ==> walk(c, Loc::Spot { index: start }, n)
            == Some(Loc::Home),
        start + n < home_row_of(c) + HOME_ROW_LENGTH ==> walk(c, Loc::Spot { index: start }, n)
            == Some(Loc::Spot { index: (start + n) as usize }),
    decreases n,
{
    if n > 0 {
        if start + 1 < home_row_of(c) + HOME_ROW_LENGTH {
            lemma_no_overshoot(c, (start + 1) as usize, (n - 1) as nat);
        } else {
            if n > 1 {
                assert(walk(c, Loc::Home, (n - 1) as nat) is None);
            }
        }
    }
}

/// The position of `l` along the route of `c`: the nest first, then the main
/// ring from the entrance to the exit, the home row, and home last; `None` for a
/// location off the route.
pub open spec fn route_index(c: Color, l: Loc) -> Option<int> {
    match l {
        Loc::Nest => Some(0),
        Loc::Home => Some(72),
        Loc::Spot { index } => if index < BOARD_SIZE {
            let rel = (index + BOARD_SIZE - entrance_of(c)) % (BOARD_SIZE as int);
            if rel <= 63 {
                Some(rel + 1)
            } else {
                None
            }
        } else if home_row_of(c) <= index < home_row_of(c) + HOME_ROW_LENGTH {
            Some(65 + index - home_row_of(c))
        } else {
            None
        },
    }
}

/// One step along the route of `c` moves one position further, and only home
/// has no next cell.
pub proof fn lemma_step_route(c: Color, loc: Loc)
    requires
        route_index(c, loc) is Some,
    ensures
        route_index(c, loc).unwrap() == 72 <==> step(c, loc) is None,
        route_index(c, loc).unwrap() < 72 ==> (step(c, loc) matches Some(next) && route_index(c, next)
            == Some(route_index(c, loc).unwrap() + 1)),
{
    match loc {
        Loc::Spot { index } => {
            if index < BOARD_SIZE {
                match c {
                    Color::Red => {},
                    Color::Green => {},
                    Color::Blue => {},
                    Color::Yellow => {},
                }
            }
        },
        _ => {},
    }
}

/// From any location on the route of `c`, a travel of `n` lands exactly `n`
/// positions further along, and fails (never stops short) exactly when that
/// would be past home.
pub proof fn lemma_walk_route(c: Color, loc: Loc, n: nat)
    requires
        route_index(c, loc) is Some,
    ensures
        route_index(c, loc).unwrap() + n > 72 <==> walk(c, loc, n) is None,
        route_index(c, loc).unwrap() + n <= 72 ==> (walk(c, loc, n) matches Some(dest) && route_index(
            c,
            dest,
        ) == Some(route_index(c, loc).unwrap() + n)),
    decreases n,
{
    lemma_step_route(c, loc);
    if n > 0 {
        match step(c, loc) {
            Some(next) => {
                lemma_walk_route(c, next, (n - 1) as nat);
            },
            None => {},
        }
    }
}

/// Stepping a route one cell at a time and walking it in one go agree: the walk
/// reaches a cell exactly when `n` cells were passed, and that cell is the last
/// one passed.
pub proof fn lemma_path_agrees_with_walk(c: Color, loc: Loc, n: nat)
    ensures
        path_cells(c, loc, n).len() <= n,
        walk(c, loc, n) is Some <==> path_cells(c, loc, n).len() == n,
        n > 0 && walk(c, loc, n) is Some ==> path_cells(c, loc, n).last() == walk(c, loc, n).unwrap(),
    decreases n,
{
    if n > 0 {
        match step(c, loc) {
            None => {},
            Some(next) => {
                lemma_path_agrees_with_walk(c, next, (n - 1) as nat);
                let rest = path_cells(c, next, (n - 1) as nat);
                if n > 1 && walk(c, loc, n) is Some {
                }
            },
        }
    }
}

} // verus!
