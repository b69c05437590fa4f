use vstd::prelude::*;

use crate::board::{Board, Pawn};
use crate::geometry::Color;
use crate::xml::{decimal, decimal_string};

verus! {

/// Width of the inside of a drawn cell.
pub const CELL_WIDTH: usize = 8;

/// The one-letter name of a color.
pub open spec fn color_letter(c: Color) -> Seq<char> {
    match c {
        Color::Red => "R"@,
        Color::Blue => "B"@,
        Color::Green => "G"@,
        Color::Yellow => "Y"@,
    }
}

/// A pawn as drawn: its color letter and ordinal, as `G3`.
pub open spec fn pawn_label(p: Pawn) -> Seq<char> {
    color_letter(p.color) + decimal(p.id as nat)
}

/// The labels of the first `n` pawns, separated by single spaces.
pub open spec fn pawn_labels(ps: Seq<Pawn>, n: int) -> Seq<char>
    decreases n,
{
    if n <= 0 {
        Seq::empty()
    } else if n == 1 {
        pawn_label(ps[0])
    } else {
        pawn_labels(ps, n - 1) + " "@ + pawn_label(ps[n - 1])
    }
}

/// `n` copies of character `c`.
pub open spec fn fill(c: char, n: nat) -> Seq<char> {
    Seq::new(n, |i: int| c)
}

/// `s` centered in `CELL_WIDTH` characters with `c` around it, the odd one on
/// the right; as is when it is that wide already.
pub open spec fn centered(s: Seq<char>, c: char) -> Seq<char> {
    if s.len() >= CELL_WIDTH {
        s
    } else {
        let pad = CELL_WIDTH - s.len();
        fill(c, (pad / 2) as nat) + s + fill(c, (pad - pad / 2) as nat)
    }
}

/// A drawn cell: a frame around the pawns' labels, filled with `/` on a safety
/// cell.
pub open spec fn cell_drawing(is_safety: bool, ps: Seq<Pawn>) -> Seq<char> {
    "+--------+\n|"@ + centered(pawn_labels(ps, ps.len() as int), if is_safety { '/' } else { ' ' })
        + "|\n+--------+"@
}

/// Appends `n` copies of `c` (given as a one-character text) to `s`.
fn push_fill(s: &mut String, c: &str, n: usize)
    requires
        c@.len() == 1,
    ensures
        final(s)@ == old(s)@ + fill(c@[0], n as nat),
{
    let mut i: usize = 0;
    while i < n
        invariant
            i <= n,
            c@.len() == 1,
            s@ == old(s)@ + fill(c@[0], i as nat),
        decreases n - i,
    {
        s.append(c);
        i = i + 1;
    }
}

impl Board {
    /// Draws one cell holding `pawns`, as three lines.
    pub fn draw_cell(is_safety: bool, pawns: &Vec<Pawn>) -> (r: String)
        ensures
            r@ == cell_drawing(is_safety, pawns@),
    {
        let mut labels = String::from_str("");
        proof {
            reveal_strlit("");
        }
        let mut k: usize = 0;
        while k < pawns.len()
            invariant
                k <= pawns@.len(),
                labels@ == pawn_labels(pawns@, k as int),
            decreases pawns@.len() - k,
        {
            if k > 0 {
                labels.append(" ");
            }
            let p = pawns[k];
            let letter = match p.color {
                Color::Red => "R",
                Color::Blue => "B",
                Color::Green => "G",
                Color::Yellow => "Y",
            };
            labels.append(letter);
            labels.append(decimal_string(p.id).as_str());
            k = k + 1;
        }
        let fill_char = if is_safety {
            "/"
        } else {
            " "
        };
        proof {
            reveal_strlit("/");
            reveal_strlit(" ");
        }
        let len = labels.as_str().unicode_len();
        let mut body = String::from_str("");
        if len >= CELL_WIDTH {
            body.append(labels.as_str());
        } else {
            let pad = CELL_WIDTH - len;
            push_fill(&mut body, fill_char, pad / 2);
            body.append(labels.as_str());
            push_fill(&mut body, fill_char, pad - pad / 2);
        }
        let mut s = String::from_str("+--------+\n|");
        s.append(body.as_str());
        s.append("|\n+--------+");
        s
    }
}

} // verus!
