//! The declared ways a game can be won, each checked against the pieces and
//! the board. Conditions are compared by kind alone.

use vstd::prelude::*;

use crate::board_type::{board_wf, spec_has_goal};
use crate::ruleset::Ruleset;

verus! {

/// How the game is won.
///
/// Equality is defined over the kind of condition alone.
#[derive(Debug)]
pub enum VictoryCondition {
    /// Victory by having a certain number of goals occupied by qualifying
    /// pieces.
    GoalCount {
        /// Goals that need to be occupied; must be positive.
        amount: usize,
        /// Piece indexes that count for occupying goals; non-empty, each a
        /// defined piece.
        valid_pieces: Vec<usize>,
    },
    /// Victory by capturing all of the opponents' pieces.
    AllCaptured,
    /// Victory by a non-captured point difference; must be positive.
    PointDifference(usize),
}

/// The abstract value of a victory condition.
#[verifier::ext_equal]
pub enum VictoryConditionView {
    GoalCount { amount: usize, valid_pieces: Seq<usize> },
    AllCaptured,
    PointDifference(usize),
}

impl View for VictoryCondition {
    type V = VictoryConditionView;

    open spec fn view(&self) -> VictoryConditionView {
        match self {
            VictoryCondition::GoalCount { amount, valid_pieces } => VictoryConditionView::GoalCount {
                amount: *amount,
                valid_pieces: valid_pieces@,
            },
            VictoryCondition::AllCaptured => VictoryConditionView::AllCaptured,
            VictoryCondition::PointDifference(d) => VictoryConditionView::PointDifference(*d),
        }
    }
}

impl PartialEq for VictoryCondition {
    /// Victory conditions compare by kind alone.
    fn eq(&self, other: &Self) -> (r: bool) {
        match (self, other) {
            (VictoryCondition::GoalCount { .. }, VictoryCondition::GoalCount { .. }) => true,
            (VictoryCondition::AllCaptured, VictoryCondition::AllCaptured) => true,
            (VictoryCondition::PointDifference(_), VictoryCondition::PointDifference(_)) => true,
            _ => false,
        }
    }
}

impl vstd::std_specs::cmp::PartialEqSpecImpl for VictoryCondition {
    open spec fn obeys_eq_spec() -> bool {
        true
    }

    open spec fn eq_spec(&self, other: &Self) -> bool {
        (self is GoalCount && other is GoalCount) || (self is AllCaptured && other is AllCaptured)
            || (self is PointDifference && other is PointDifference)
    }
}

impl Eq for VictoryCondition {

}

/// The first piece index of the list that is not a defined piece, or `None`
/// when all are.
pub open spec fn first_unknown_piece(indexes: Seq<usize>, piece_count: int) -> Option<usize>
    decreases indexes.len(),
{
    if indexes.len() == 0 {
        None
    } else if indexes[0] >= piece_count {
        Some(indexes[0])
    } else {
        first_unknown_piece(indexes.drop_first(), piece_count)
    }
}

/// The first inconsistency of a victory condition against a ruleset: a goal
/// count must be positive and name at least one qualifying piece, every named
/// piece must be defined, and the board must have a goal to occupy; a point
/// difference must be positive.
pub open spec fn spec_verify_victory(
    condition: VictoryConditionView,
    ruleset: crate::ruleset::RulesetView,
) -> Option<VictoryConditionError> {
    match condition {
        VictoryConditionView::GoalCount { amount, valid_pieces } => {
            if amount == 0 {
                Some(VictoryConditionError::AmountIs0)
            } else if valid_pieces.len() == 0 {
                Some(VictoryConditionError::NoValidPieces)
            } else if first_unknown_piece(valid_pieces, ruleset.pieces.len() as int) is Some {
                Some(
                    VictoryConditionError::PieceNotFound(
                        first_unknown_piece(valid_pieces, ruleset.pieces.len() as int)->Some_0,
                    ),
                )
            } else if !spec_has_goal(ruleset.board_type) {
                Some(VictoryConditionError::BoardHasNoGoal)
            } else {
                None
            }
        },
        VictoryConditionView::AllCaptured => None,
        VictoryConditionView::PointDifference(difference) => if difference == 0 {
            Some(VictoryConditionError::PointDifferenceIs0)
        } else {
            None
        },
    }
}

impl VictoryCondition {
    /// Checks the victory condition against the ruleset.
    #[verifier::loop_isolation(false)]
    pub fn verify(&self, ruleset: &Ruleset) -> (result: VictoryConditionResult<()>)
        requires
            board_wf(ruleset.board_type@),
        ensures
            match result {
                Ok(_) => spec_verify_victory(self@, ruleset@) is None,
                Err(e) => Some(e) == spec_verify_victory(self@, ruleset@),
            },
    {
        match self {
            VictoryCondition::GoalCount { amount, valid_pieces } => {
                if *amount == 0 {
                    return Err(VictoryConditionError::AmountIs0);
                }
                if valid_pieces.len() == 0 {
                    return Err(VictoryConditionError::NoValidPieces);
                }
                let mut k: usize = 0;
                while k < valid_pieces.len()
                    invariant
                        k <= valid_pieces@.len(),
                        forall|j: int| 0 <= j < k ==> valid_pieces@[j] < ruleset@.pieces.len(),
                    decreases valid_pieces@.len() - k,
                {
                    if valid_pieces[k] >= ruleset.pieces.len() {
                        proof {
                            lemma_first_unknown_at(
                                valid_pieces@,
                                ruleset@.pieces.len() as int,
                                k as int,
                            );
                        }
                        return Err(VictoryConditionError::PieceNotFound(valid_pieces[k]));
                    }
                    k = k + 1;
                }
                proof {
                    lemma_first_unknown_none(valid_pieces@, ruleset@.pieces.len() as int);
                }
                if !ruleset.board_type.has_goal() {
                    return Err(VictoryConditionError::BoardHasNoGoal);
                }
                Ok(())
            },
            VictoryCondition::AllCaptured => Ok(()),
            VictoryCondition::PointDifference(difference) => {
                if *difference == 0 {
                    return Err(VictoryConditionError::PointDifferenceIs0);
                }
                Ok(())
            },
        }
    }
}

/// The first unknown piece stands where the scan finds it.
proof fn lemma_first_unknown_at(indexes: Seq<usize>, piece_count: int, k: int)
    requires
        0 <= k < indexes.len(),
        indexes[k] >= piece_count,
        forall|j: int| 0 <= j < k ==> indexes[j] < piece_count,
    ensures
        first_unknown_piece(indexes, piece_count) == Some(indexes[k]),
    decreases indexes.len(),
{
    if k > 0 {
        lemma_first_unknown_at(indexes.drop_first(), piece_count, k - 1);
    }
}

/// A list of defined pieces has no unknown piece.
proof fn lemma_first_unknown_none(indexes: Seq<usize>, piece_count: int)
    requires
        forall|j: int| 0 <= j < indexes.len() ==> indexes[j] < piece_count,
    ensures
        first_unknown_piece(indexes, piece_count) is None,
    decreases indexes.len(),
{
    if indexes.len() > 0 {
        lemma_first_unknown_none(indexes.drop_first(), piece_count);
    }
}

pub type VictoryConditionResult<T> = Result<T, VictoryConditionError>;

/// A failed victory-condition check.
#[derive(Copy, Clone, Debug, PartialEq, Eq, Structural)]
pub enum VictoryConditionError {
    AmountIs0,
    NoValidPieces,
    BoardHasNoGoal,
    PieceNotFound(usize),
    PointDifferenceIs0,
}

} // verus!
