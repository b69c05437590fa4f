use vstd::prelude::*;

use rand::Rng;

use crate::moves::{Move, MoveType};

verus! {

/// The distances left to move in a turn, in order.
#[derive(Debug, Clone, PartialEq, Eq)]
pub struct Dice {
    pub rolls: Vec<usize>,
}

/// How the remaining distances allow a pawn to enter.
#[derive(Debug, Clone, Copy, PartialEq, Eq, Structural)]
pub enum EntryMove {
    /// One distance is a five.
    WithFive,
    /// Two distances (at different positions) sum to five.
    WithSum(usize, usize),
    /// Neither.
    NoEntry,
}

/// Why distances could not be consumed.
#[derive(Debug, Clone, Copy, PartialEq, Eq, Structural)]
pub enum DiceError {
    /// The distance is not among the remaining ones.
    InvalidConsumption,
    /// The remaining distances do not allow an entry.
    NoEntry,
}

/// The first position at or after `i` where `d` stands in `s`, or `s.len()`.
pub open spec fn index_from(s: Seq<usize>, d: usize, i: int) -> int
    decreases s.len() - i,
{
    if i < 0 || i >= s.len() {
        s.len() as int
    } else if s[i] == d {
        i
    } else {
        index_from(s, d, i + 1)
    }
}

/// `s` without the first occurrence of `d`; `None` if `d` is not in `s`.
pub open spec fn consumed(s: Seq<usize>, d: usize) -> Option<Seq<usize>> {
    if s.contains(d) {
        Some(s.remove(index_from(s, d, 0)))
    } else {
        None
    }
}

/// The first position `j >= from` other than `i` whose distance sums to five with
/// the one at `i`.
pub open spec fn partner_from(s: Seq<usize>, i: int, from: int) -> Option<int>
    decreases s.len() - from,
{
    if from < 0 || from >= s.len() {
        None
    } else if from != i && s[i] + s[from] == 5 {
        Some(from)
    } else {
        partner_from(s, i, from + 1)
    }
}

/// How `s` allows an entry, looking at positions from `i` on: a five at a
/// position wins over a sum that starts at a later position.
pub open spec fn entry_from(s: Seq<usize>, i: int) -> EntryMove
    decreases s.len() - i,
{
    if i < 0 || i >= s.len() {
        EntryMove::NoEntry
    } else if s[i] == 5 {
        EntryMove::WithFive
    } else {
        match partner_from(s, i, 0) {
            Some(j) => EntryMove::WithSum(s[i], s[j]),
            None => entry_from(s, i + 1),
        }
    }
}

pub proof fn lemma_index_from(s: Seq<usize>, d: usize, i: int)
    requires
        0 <= i <= s.len(),
    ensures
        i <= index_from(s, d, i) <= s.len(),
        index_from(s, d, i) < s.len() ==> s[index_from(s, d, i)] == d,
        forall|k: int| i <= k < index_from(s, d, i) ==> s[k] != d,
    decreases s.len() - i,
{
    if i < s.len() && s[i] != d {
        lemma_index_from(s, d, i + 1);
    }
}

pub proof fn lemma_consumed(s: Seq<usize>, d: usize)
    ensures
        consumed(s, d) matches Some(r) ==> r.len() == s.len() - 1 && r.to_multiset() == s.to_multiset().remove(d),
        consumed(s, d) is Some <==> s.contains(d),
{
    lemma_index_from(s, d, 0);
    if s.contains(d) {
        let i = index_from(s, d, 0);
        let w = choose|w: int| 0 <= w < s.len() && s[w] == d;
        assert(i < s.len()) by {
            if i >= s.len() {
            }
        }
        s.to_multiset_ensures();
    }
}

/// The distances that faces `d1` and `d2` give, and whether they are a double. A
/// double with the bonus applied gives the face twice and its mirror `6 - d`
/// twice; anything else gives the two faces.
pub open spec fn roll_outcome(d1: usize, d2: usize, apply_doubles_bonus: bool) -> (Seq<usize>, bool) {
    if d1 == d2 && apply_doubles_bonus {
        let mirror = (6 - d1) as usize;
        (seq![d1, d1, mirror, mirror], true)
    } else {
        (seq![d1, d2], d1 == d2)
    }
}

impl Dice {
    /// No distances at all.
    pub fn new() -> (r: Dice)
        ensures
            r.rolls@ == Seq::<usize>::empty(),
    {
        Dice { rolls: Vec::new() }
    }

    /// Rolls two six-sided dice; see `from_roll` for what the faces give.
    pub fn roll(apply_doubles_bonus: bool) -> (r: (Dice, bool))
        ensures
            exists|d1: usize, d2: usize|
                1 <= d1 <= 6 && 1 <= d2 <= 6 && (r.0.rolls@, r.1) == roll_outcome(
                    d1,
                    d2,
                    apply_doubles_bonus,
                ),
    {
        let d1 = roll_die();
        let d2 = roll_die();
        Dice::from_roll(d1, d2, apply_doubles_bonus)
    }

    /// The distances of a roll that showed faces `d1` and `d2`, and whether it
    /// was a double.
    pub fn from_roll(d1: usize, d2: usize, apply_doubles_bonus: bool) -> (r: (Dice, bool))
        requires
            1 <= d1 <= 6,
            1 <= d2 <= 6,
        ensures
            (r.0.rolls@, r.1) == roll_outcome(d1, d2, apply_doubles_bonus),
    {
        let is_doubles = d1 == d2;
        let rolls: Vec<usize> = if is_doubles && apply_doubles_bonus {
            let mirror: usize = 6 - d1;
            vec![d1, d1, mirror, mirror]
        } else {
            vec![d1, d2]
        };
        (Dice { rolls }, is_doubles)
    }

    /// How the remaining distances allow a pawn to enter: scanning positions in
    /// order, a five, or else a partner at another position that sums to five.
    pub fn can_enter(&self) -> (r: EntryMove)
        ensures
            r == entry_from(self.rolls@, 0),
    {
        let ghost s = self.rolls@;
        let n = self.rolls.len();
        let mut i: usize = 0;
        while i < n
            invariant
                s == self.rolls@,
                n == s.len(),
                i <= n,
                entry_from(s, 0) == entry_from(s, i as int),
            decreases n - i,
        {
            let d1 = self.rolls[i];
            if d1 == 5 {
                return EntryMove::WithFive;
            }
            let mut j: usize = 0;
            while j < n
                invariant
                    s == self.rolls@,
                    n == s.len(),
                    i < n,
                    j <= n,
                    d1 == s[i as int],
                    d1 != 5,
                    entry_from(s, 0) == entry_from(s, i as int),
                    partner_from(s, i as int, 0) == partner_from(s, i as int, j as int),
                decreases n - j,
            {
                let d2 = self.rolls[j];
                if i != j && d1 <= 5 && d2 == 5 - d1 {
                    return EntryMove::WithSum(d1, d2);
                }
                j = j + 1;
            }
            i = i + 1;
        }
        EntryMove::NoEntry
    }

    /// Removes the first occurrence of `distance`.
    pub fn consume_normal_move(&self, distance: usize) -> (r: Result<Dice, DiceError>)
        ensures
            match consumed(self.rolls@, distance) {
                Some(s) => r matches Ok(d) && d.rolls@ == s,
                None => r == Err::<Dice, DiceError>(DiceError::InvalidConsumption),
            },
    {
        let ghost s = self.rolls@;
        let mut i: usize = 0;
        while i < self.rolls.len()
            invariant
                s == self.rolls@,
                i <= s.len(),
                index_from(s, distance, 0) == index_from(s, distance, i as int),
            decreases s.len() - i,
        {
            if self.rolls[i] == distance {
                let mut next_rolls = self.rolls.clone();
                next_rolls.remove(i);
                assert(s.contains(distance)) by {
                }
                return Ok(Dice { rolls: next_rolls });
            }
            i = i + 1;
        }
        proof {
            lemma_index_from(s, distance, 0);
            if s.contains(distance) {
                let w = choose|w: int| 0 <= w < s.len() && s[w] == distance;
            }
        }
        Err(DiceError::InvalidConsumption)
    }

    /// Consumes what `can_enter` names: the five, or the two distances that sum
    /// to five.
    pub fn consume_entry_move(&self) -> (r: Result<Dice, DiceError>)
        ensures
            match entry_from(self.rolls@, 0) {
                EntryMove::WithFive => r matches Ok(d) && Some(d.rolls@) == consumed(self.rolls@, 5),
                EntryMove::WithSum(x, y) => r matches Ok(d) && consumed(self.rolls@, x) matches Some(
                    s1,
                ) && Some(d.rolls@) == consumed(s1, y),
                EntryMove::NoEntry => r == Err::<Dice, DiceError>(DiceError::NoEntry),
            },
    {
        proof {
            lemma_entry_from(self.rolls@, 0);
        }
        match self.can_enter() {
            EntryMove::WithFive => self.consume_normal_move(5),
            EntryMove::WithSum(x, y) => {
                let ghost s = self.rolls@;
                proof {
                    lemma_index_from(s, x, 0);
                    let i = index_from(s, x, 0);
                    let wy = choose|w: int| 0 <= w < s.len() && s[w] == y;
                    if wy < i {
                        assert(s.remove(i)[wy] == y);
                    } else {
                        assert(s.remove(i)[wy - 1] == y);
                    }
                }
                match self.consume_normal_move(x) {
                    Ok(d) => d.consume_normal_move(y),
                    Err(e) => Err(e),
                }
            },
            EntryMove::NoEntry => Err(DiceError::NoEntry),
        }
    }

    /// Consumes the distance(s) that `mv` uses.
    pub fn consume_move(&self, mv: &Move) -> (r: Result<Dice, DiceError>)
        ensures
            match mv.m_type {
                MoveType::EnterPiece => match entry_from(self.rolls@, 0) {
                    EntryMove::WithFive => r matches Ok(d) && Some(d.rolls@) == consumed(self.rolls@, 5),
                    EntryMove::WithSum(x, y) => r matches Ok(d) && consumed(self.rolls@, x) matches Some(
                        s1,
                    ) && Some(d.rolls@) == consumed(s1, y),
                    EntryMove::NoEntry => r == Err::<Dice, DiceError>(DiceError::NoEntry),
                },
                MoveType::MoveMain { distance, .. } | MoveType::MoveHome { distance, .. } => match consumed(
                    self.rolls@,
                    distance,
                ) {
                    Some(s) => r matches Ok(d) && d.rolls@ == s,
                    None => r == Err::<Dice, DiceError>(DiceError::InvalidConsumption),
                },
            },
    {
        match mv.m_type {
            MoveType::EnterPiece => self.consume_entry_move(),
            MoveType::MoveHome { distance, .. } | MoveType::MoveMain { distance, .. } => {
                self.consume_normal_move(distance)
            },
        }
    }

    /// Whether no distances remain.
    pub fn all_used(&self) -> (r: bool)
        ensures
            r == (self.rolls@.len() == 0),
    {
        self.rolls.len() == 0
    }

    /// Whether `d` is among the remaining distances.
    pub fn contains(&self, d: &usize) -> (r: bool)
        ensures
            r == self.rolls@.contains(*d),
    {
        let mut i: usize = 0;
        while i < self.rolls.len()
            invariant
                i <= self.rolls@.len(),
                forall|k: int| 0 <= k < i ==> self.rolls@[k] != *d,
            decreases self.rolls@.len() - i,
        {
            if self.rolls[i] == *d {
                return true;
            }
            i = i + 1;
        }
        false
    }

    /// The same distances with `bonus` added at the end.
    pub fn give_bonus(&self, bonus: usize) -> (r: Dice)
        ensures
            r.rolls@ == self.rolls@.push(bonus),
    {
        let mut next_rolls = self.rolls.clone();
        next_rolls.push(bonus);
        Dice { rolls: next_rolls }
    }
}

/// Adding a bonus and then consuming that distance gives back the same
/// distances as a multiset, the untouched ones in their order: the very same
/// sequence when the distance was not there before, else the sequence with its
/// first such distance moved to the end.
pub proof fn lemma_bonus_round_trip(d: Dice, n: usize)
    ensures
        consumed(d.rolls@.push(n), n) matches Some(r) && r.to_multiset() == d.rolls@.to_multiset() && (
        !d.rolls@.contains(n) ==> r == d.rolls@) && (d.rolls@.contains(n) ==> r == d.rolls@.remove(
            index_from(d.rolls@, n, 0),
        ).push(n)),
{
    let s = d.rolls@;
    let t = s.push(n);
    assert(t[s.len() as int] == n);
    lemma_consumed(t, n);
    s.to_multiset_ensures();
    if s.contains(n) {
        lemma_index_from(s, n, 0);
        lemma_index_from(t, n, 0);
        let i = index_from(s, n, 0);
        let w = choose|w: int| 0 <= w < s.len() && s[w] == n;
        assert(i < s.len()) by {
            if i >= s.len() {
            }
        }
        assert(index_from(t, n, 0) == i) by {
            lemma_index_from_prefix(s, t, n, 0, i);
        }
    }
    if !s.contains(n) {
        lemma_index_from(t, n, 0);
        let i = index_from(t, n, 0);
        assert(i == s.len()) by {
            if i < s.len() {
            }
        }
    }
}

/// Extending a sequence does not move the first occurrence of a value that
/// already occurs.
proof fn lemma_index_from_prefix(s: Seq<usize>, t: Seq<usize>, d: usize, from: int, i: int)
    requires
        0 <= from <= i < s.len(),
        s.len() <= t.len(),
        forall|k: int| 0 <= k < s.len() ==> t[k] == s[k],
        i == index_from(s, d, from),
    ensures
        index_from(t, d, from) == i,
    decreases i - from,
{
    lemma_index_from(s, d, from + 1);
    if s[from] == d {
    } else {
        lemma_index_from_prefix(s, t, d, from + 1, i);
    }
}

/// What `entry_from` names is really there.
pub proof fn lemma_entry_from(s: Seq<usize>, i: int)
    requires
        0 <= i,
    ensures
        entry_from(s, i) == EntryMove::WithFive ==> s.contains(5),
        entry_from(s, i) matches EntryMove::WithSum(x, y) ==> x + y == 5 && exists|a: int, b: int|
            0 <= a < s.len() && 0 <= b < s.len() && a != b && s[a] == x && s[b] == y,
    decreases s.len() - i,
{
    if 0 <= i < s.len() {
        if s[i] == 5 {
        } else {
            match partner_from(s, i, 0) {
                Some(j) => {
                    lemma_partner_from(s, i, 0);
                },
                None => {
                    lemma_entry_from(s, i + 1);
                },
            }
        }
    }
}

proof fn lemma_partner_from(s: Seq<usize>, i: int, from: int)
    requires
        0 <= from,
    ensures
        partner_from(s, i, from) matches Some(j) ==> 0 <= j < s.len() && j != i && s[i] + s[j] == 5,
    decreases s.len() - from,
{
    if 0 <= from < s.len() && !(from != i && s[i] + s[from] == 5) {
        lemma_partner_from(s, i, from + 1);
    }
}

/// Relies on rand's `gen_range(1, 7)` on the thread-local generator: a value in
/// `[1, 7)`.
#[verifier::external_body]
fn roll_die() -> (r: usize)
    ensures
        1 <= r <= 6,
{
    rand::thread_rng().gen_range(1, 7)
}

} // verus!
