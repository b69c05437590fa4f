use vstd::prelude::*;

use crate::board::Pawn;

verus! {

/// What a move does: travel from a main-ring cell, travel from a home-row cell,
/// or bring a pawn out of its nest.
#[derive(Debug, Clone, Copy, PartialEq, Eq, Structural)]
pub enum MoveType {
    /// Travel whose origin is on the main ring (the destination may be in the
    /// home row).
    MoveMain { start: usize, distance: usize },
    /// Travel whose origin is in a home row.
    MoveHome { start: usize, distance: usize },
    /// Entry of a pawn from its nest onto its color's entrance.
    EnterPiece,
}

/// A move of one pawn.
#[derive(Debug, Clone, Copy, PartialEq, Eq, Structural)]
pub struct Move {
    pub m_type: MoveType,
    pub pawn: Pawn,
}

} // verus!
