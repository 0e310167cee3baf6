//! How turns alternate during a placement phase.

use vstd::prelude::*;

use crate::piece_limit::{piece_limits_view, PieceLimit, PieceLimitView};

verus! {

/// The alternation of turns during placement.
#[derive(Copy, Clone, Debug, PartialEq, Eq, Structural)]
pub enum AlternationType {
    /// Players alternate placing a fixed count of pieces per turn.
    TurnsCount {
        /// Must be positive.
        per_turn_count: usize,
    },
    /// Players alternate placing a fixed budget of points per turn. Requires
    /// the piece limits to contain a point limit.
    TurnsPoints { per_turn_points: usize, hard_limit: bool },
    /// The player with the lowest total points places; the first seat places
    /// on ties. Requires the piece limits to contain a point limit.
    Points,
    /// Players place their whole side on their turn.
    WholePlacement,
    /// Players place their pieces hidden from each other.
    Hidden,
}

/// Whether a list of piece limits holds a point limit.
pub open spec fn has_point_limit(limits: Seq<PieceLimitView>) -> bool {
    exists|i: int| 0 <= i < limits.len() && limits[i] is PointLimit
}

/// The first inconsistency of an alternation type against the declared piece
/// limits: counts and point budgets must be positive, and the points-based
/// modes need a point limit to exist.
pub open spec fn spec_verify_alternation(
    alternation: AlternationType,
    limits: Seq<PieceLimitView>,
) -> Option<AlterationTypeError> {
    match alternation {
        AlternationType::TurnsCount { per_turn_count } => if per_turn_count == 0 {
            Some(AlterationTypeError::CountIs0)
        } else {
            None
        },
        AlternationType::TurnsPoints { per_turn_points, .. } => if per_turn_points == 0 {
            Some(AlterationTypeError::PerTurnPointsIs0)
        } else if !has_point_limit(limits) {
            Some(AlterationTypeError::NoPointLimitForTurnsPoints)
        } else {
            None
        },
        AlternationType::Points => if !has_point_limit(limits) {
            Some(AlterationTypeError::NoPointLimitForTurnsPoints)
        } else {
            None
        },
        AlternationType::WholePlacement | AlternationType::Hidden => None,
    }
}

impl AlternationType {
    /// Checks the alternation against the declared piece limits.
    pub fn verify(&self, piece_limits: &Vec<PieceLimit>) -> (result: AlterationTypeResult<()>)
        ensures
            match result {
                Ok(_) => spec_verify_alternation(*self, piece_limits_view(piece_limits@)) is None,
                Err(e) => Some(e) == spec_verify_alternation(
                    *self,
                    piece_limits_view(piece_limits@),
                ),
            },
    {
        match self {
            AlternationType::TurnsCount { per_turn_count } => {
                if *per_turn_count == 0 {
                    return Err(AlterationTypeError::CountIs0);
                }
            },
            AlternationType::TurnsPoints { per_turn_points, .. } => {
                if *per_turn_points == 0 {
                    return Err(AlterationTypeError::PerTurnPointsIs0);
                }
                if !contains_point_limit(piece_limits) {
                    return Err(AlterationTypeError::NoPointLimitForTurnsPoints);
                }
            },
            AlternationType::Points => {
                if !contains_point_limit(piece_limits) {
                    return Err(AlterationTypeError::NoPointLimitForTurnsPoints);
                }
            },
            AlternationType::WholePlacement | AlternationType::Hidden => {},
        }
        Ok(())
    }
}

/// Whether a list of piece limits holds a point limit.
#[verifier::loop_isolation(false)]
fn contains_point_limit(piece_limits: &Vec<PieceLimit>) -> (r: bool)
    ensures
        r == has_point_limit(piece_limits_view(piece_limits@)),
{
    let ghost all = piece_limits_view(piece_limits@);
    let mut k: usize = 0;
    while k < piece_limits.len()
        invariant
            k <= piece_limits@.len(),
            all == piece_limits_view(piece_limits@),
            forall|j: int| 0 <= j < k ==> !(#[trigger] all[j] is PointLimit),
        decreases piece_limits@.len() - k,
    {
        if let PieceLimit::PointLimit { .. } = &piece_limits[k] {
            proof {
                assert(all[k as int] is PointLimit);
            }
            return true;
        }
        k = k + 1;
    }
    false
}

pub type AlterationTypeResult<T> = Result<T, AlterationTypeError>;

/// A failed alternation check.
#[derive(Copy, Clone, Debug, PartialEq, Eq, Structural)]
pub enum AlterationTypeError {
    CountIs0,
    PerTurnPointsIs0,
    NoPointLimitForTurnsPoints,
}

} // verus!
