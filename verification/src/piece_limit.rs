//! Limits on piece placement during a placement phase. Limits are compared
//! by kind alone: at most one limit of each kind is meaningful in a set.

use vstd::prelude::*;

use crate::piece_definition::{PieceDefinition, PieceDefinitionView};
use crate::ruleset::Ruleset;

verus! {

/// A limit for piece placement.
///
/// Equality is defined over the kind of limit alone.
#[derive(Debug)]
pub enum PieceLimit {
    /// A limit on the total count of pieces.
    TotalLimit {
        /// Must be positive.
        limit: usize,
    },
    /// A limit for each type of piece.
    TypeCountLimit {
        /// Maps a piece index to its limit; one entry per defined piece, each
        /// positive.
        limits: Vec<usize>,
    },
    /// A limit by point count and total points available.
    PointLimit {
        /// Maps a piece index to its point value; one entry per defined
        /// piece, each positive.
        point_values: Vec<usize>,
        /// The total point budget of each side; must afford the cheapest
        /// piece.
        point_limit: usize,
    },
}

/// The abstract value of a piece limit.
#[verifier::ext_equal]
pub enum PieceLimitView {
    TotalLimit { limit: usize },
    TypeCountLimit { limits: Seq<usize> },
    PointLimit { point_values: Seq<usize>, point_limit: usize },
}

impl View for PieceLimit {
    type V = PieceLimitView;

    open spec fn view(&self) -> PieceLimitView {
        match self {
            PieceLimit::TotalLimit { limit } => PieceLimitView::TotalLimit { limit: *limit },
            PieceLimit::TypeCountLimit { limits } => PieceLimitView::TypeCountLimit {
                limits: limits@,
            },
            PieceLimit::PointLimit { point_values, point_limit } => PieceLimitView::PointLimit {
                point_values: point_values@,
                point_limit: *point_limit,
            },
        }
    }
}

/// The abstract values of a list of piece limits.
pub open spec fn piece_limits_view(limits: Seq<PieceLimit>) -> Seq<PieceLimitView> {
    limits.map_values(|l: PieceLimit| l@)
}

impl PartialEq for PieceLimit {
    /// Piece limits compare by kind alone.
    fn eq(&self, other: &Self) -> (r: bool) {
        match (self, other) {
            (PieceLimit::TotalLimit { .. }, PieceLimit::TotalLimit { .. }) => true,
            (PieceLimit::TypeCountLimit { .. }, PieceLimit::TypeCountLimit { .. }) => true,
            (PieceLimit::PointLimit { .. }, PieceLimit::PointLimit { .. }) => true,
            _ => false,
        }
    }
}

impl vstd::std_specs::cmp::PartialEqSpecImpl for PieceLimit {
    open spec fn obeys_eq_spec() -> bool {
        true
    }

    open spec fn eq_spec(&self, other: &Self) -> bool {
        (self is TotalLimit && other is TotalLimit) || (self is TypeCountLimit
            && other is TypeCountLimit) || (self is PointLimit && other is PointLimit)
    }
}

impl Eq for PieceLimit {

}

/// The index of the first zero of a sequence, or `None` when it has none.
pub open spec fn first_zero(values: Seq<usize>) -> Option<int>
    decreases values.len(),
{
    if values.len() == 0 {
        None
    } else if values[0] == 0 {
        Some(0)
    } else {
        match first_zero(values.drop_first()) {
            None => None,
            Some(i) => Some(i + 1),
        }
    }
}

/// The first zero stands where the scan finds it: at the first index whose
/// value is zero.
pub proof fn lemma_first_zero_at(values: Seq<usize>, k: int)
    requires
        0 <= k < values.len(),
        values[k] == 0,
        forall|j: int| 0 <= j < k ==> values[j] != 0,
    ensures
        first_zero(values) == Some(k),
    decreases values.len(),
{
    if k > 0 {
        lemma_first_zero_at(values.drop_first(), k - 1);
    }
}

/// A sequence without zeroes has no first zero.
pub proof fn lemma_first_zero_none(values: Seq<usize>)
    requires
        forall|j: int| 0 <= j < values.len() ==> values[j] != 0,
    ensures
        first_zero(values) is None,
    decreases values.len(),
{
    if values.len() > 0 {
        lemma_first_zero_none(values.drop_first());
    }
}

/// The least value of a non-empty sequence; 0 for an empty one.
pub open spec fn seq_min(values: Seq<usize>) -> usize
    decreases values.len(),
{
    if values.len() == 0 {
        0
    } else if values.len() == 1 {
        values[0]
    } else {
        let rest = seq_min(values.drop_last());
        if values.last() < rest {
            values.last()
        } else {
            rest
        }
    }
}

/// The first inconsistency of one piece limit against the defined pieces.
pub open spec fn spec_verify_one_limit(
    limit: PieceLimitView,
    pieces: Seq<PieceDefinitionView>,
) -> Option<PieceLimitErrorView> {
    match limit {
        PieceLimitView::TotalLimit { limit } => if limit == 0 {
            Some(PieceLimitErrorView::LimitIs0)
        } else {
            None
        },
        PieceLimitView::TypeCountLimit { limits } => if limits.len() != pieces.len() {
            Some(PieceLimitErrorView::PieceIndexMismatch(limits.len() as usize))
        } else {
            match first_zero(limits) {
                Some(i) => Some(PieceLimitErrorView::LimitIs0ForPiece(pieces[i])),
                None => None,
            }
        },
        PieceLimitView::PointLimit { point_values, point_limit } => if point_limit == 0 {
            Some(PieceLimitErrorView::PointLimitIs0)
        } else if point_values.len() != pieces.len() {
            Some(PieceLimitErrorView::PieceIndexMismatch(point_values.len() as usize))
        } else if point_values.len() > 0 && seq_min(point_values) == 0 {
            Some(PieceLimitErrorView::PointsIs0ForPiece)
        } else if point_values.len() > 0 && seq_min(point_values) > point_limit {
            Some(PieceLimitErrorView::NoPieceFitsInPointLimit)
        } else {
            None
        },
    }
}

/// The first inconsistency of a list of piece limits, in list order.
pub open spec fn spec_verify_piece_limits(
    limits: Seq<PieceLimitView>,
    pieces: Seq<PieceDefinitionView>,
) -> Option<PieceLimitErrorView>
    decreases limits.len(),
{
    if limits.len() == 0 {
        None
    } else {
        match spec_verify_one_limit(limits[0], pieces) {
            Some(e) => Some(e),
            None => spec_verify_piece_limits(limits.drop_first(), pieces),
        }
    }
}

impl PieceLimit {
    /// Checks a whole set of placement limits against the ruleset's pieces: a
    /// total limit must be positive, per-piece entries must exist for exactly
    /// the defined pieces and be positive, and a point budget must afford the
    /// cheapest piece.
    #[verifier::loop_isolation(false)]
    pub fn verify(self_set: &Vec<PieceLimit>, ruleset: &Ruleset) -> (result: PieceLimitResult<()>)
        ensures
            result is Ok <==> forall|k: int|
                0 <= k < piece_limits_view(self_set@).len() ==> spec_verify_one_limit(
                    #[trigger] piece_limits_view(self_set@)[k],
                    ruleset@.pieces,
                ) is None,
            match result {
                Ok(_) => spec_verify_piece_limits(piece_limits_view(self_set@), ruleset@.pieces)
                    is None,
                Err(e) => Some(e@) == spec_verify_piece_limits(
                    piece_limits_view(self_set@),
                    ruleset@.pieces,
                ),
            },
    {
        let ghost all = piece_limits_view(self_set@);
        proof {
            assert(all.skip(0) =~= all);
            lemma_piece_limits_valid(all, ruleset@.pieces);
        }
        let mut k: usize = 0;
        while k < self_set.len()
            invariant
                k <= self_set@.len(),
                all == piece_limits_view(self_set@),
                spec_verify_piece_limits(all, ruleset@.pieces) == spec_verify_piece_limits(
                    all.skip(k as int),
                    ruleset@.pieces,
                ),
            decreases self_set@.len() - k,
        {
            proof {
                assert(all.skip(k as int)[0] == self_set@[k as int]@);
                assert(all.skip(k as int).drop_first() =~= all.skip(k + 1));
            }
            match Self::verify_one(&self_set[k], ruleset) {
                Err(e) => {
                    return Err(e);
                },
                Ok(_) => {},
            }
            k = k + 1;
        }
        Ok(())
    }

    /// Checks one placement limit against the ruleset's pieces.
    #[verifier::loop_isolation(false)]
    fn verify_one(&self, ruleset: &Ruleset) -> (result: PieceLimitResult<()>)
        ensures
            match result {
                Ok(_) => spec_verify_one_limit(self@, ruleset@.pieces) is None,
                Err(e) => Some(e@) == spec_verify_one_limit(self@, ruleset@.pieces),
            },
    {
        match self {
            PieceLimit::TotalLimit { limit } => {
                if *limit == 0 {
                    return Err(PieceLimitError::LimitIs0);
                }
            },
            PieceLimit::TypeCountLimit { limits } => {
                if limits.len() != ruleset.pieces.len() {
                    return Err(PieceLimitError::PieceIndexMismatch(limits.len()));
                }
                let mut index: usize = 0;
                while index < limits.len()
                    invariant
                        index <= limits@.len(),
                        limits@.len() == ruleset@.pieces.len(),
                        forall|j: int| 0 <= j < index ==> limits@[j] != 0,
                    decreases limits@.len() - index,
                {
                    if limits[index] == 0 {
                        proof {
                            lemma_first_zero_at(limits@, index as int);
                        }
                        return Err(
                            PieceLimitError::LimitIs0ForPiece(ruleset.pieces[index].duplicate()),
                        );
                    }
                    index = index + 1;
                }
                proof {
                    lemma_first_zero_none(limits@);
                }
            },
            PieceLimit::PointLimit { point_values, point_limit } => {
                if *point_limit == 0 {
                    return Err(PieceLimitError::PointLimitIs0);
                }
                if point_values.len() != ruleset.pieces.len() {
                    return Err(PieceLimitError::PieceIndexMismatch(point_values.len()));
                }
                if point_values.len() > 0 {
                    let min_value = vec_min(point_values);
                    if min_value == 0 {
                        return Err(PieceLimitError::PointsIs0ForPiece);
                    }
                    if min_value > *point_limit {
                        return Err(PieceLimitError::NoPieceFitsInPointLimit);
                    }
                }
            },
        }
        Ok(())
    }
}

/// The least value of a non-empty vector.
#[verifier::loop_isolation(false)]
pub fn vec_min(values: &Vec<usize>) -> (r: usize)
    requires
        values@.len() > 0,
    ensures
        r == seq_min(values@),
{
    let mut min_value: usize = values[0];
    let mut k: usize = 1;
    while k < values.len()
        invariant
            1 <= k <= values@.len(),
            min_value == seq_min(values@.take(k as int)),
        decreases values@.len() - k,
    {
        proof {
            assert(values@.take(k + 1).drop_last() =~= values@.take(k as int));
            assert(values@.take(k + 1).last() == values@[k as int]);
        }
        if values[k] < min_value {
            min_value = values[k];
        }
        k = k + 1;
    }
    proof {
        assert(values@.take(values@.len() as int) =~= values@);
    }
    min_value
}

/// The limit scan succeeds exactly when every limit of the suffix is
/// consistent on its own.
pub proof fn lemma_piece_limits_valid(
    limits: Seq<PieceLimitView>,
    pieces: Seq<PieceDefinitionView>,
)
    ensures
        spec_verify_piece_limits(limits, pieces) is None <==> forall|k: int|
            0 <= k < limits.len() ==> spec_verify_one_limit(#[trigger] limits[k], pieces) is None,
    decreases limits.len(),
{
    if limits.len() > 0 {
        lemma_piece_limits_valid(limits.drop_first(), pieces);
        assert(forall|k: int|
            0 < k < limits.len() ==> limits[k] == limits.drop_first()[k - 1]);
    }
}

pub type PieceLimitResult<T> = Result<T, PieceLimitError>;

/// A failed piece-limit check.
#[derive(Debug)]
pub enum PieceLimitError {
    LimitIs0,
    PieceIndexMismatch(usize),
    LimitIs0ForPiece(PieceDefinition),
    PointsIs0ForPiece,
    PointLimitIs0,
    NoPieceFitsInPointLimit,
}

/// The abstract value of a failed piece-limit check.
#[verifier::ext_equal]
pub enum PieceLimitErrorView {
    LimitIs0,
    PieceIndexMismatch(usize),
    LimitIs0ForPiece(PieceDefinitionView),
    PointsIs0ForPiece,
    PointLimitIs0,
    NoPieceFitsInPointLimit,
}

impl View for PieceLimitError {
    type V = PieceLimitErrorView;

    open spec fn view(&self) -> PieceLimitErrorView {
        match self {
            PieceLimitError::LimitIs0 => PieceLimitErrorView::LimitIs0,
            PieceLimitError::PieceIndexMismatch(n) => PieceLimitErrorView::PieceIndexMismatch(*n),
            PieceLimitError::LimitIs0ForPiece(p) => PieceLimitErrorView::LimitIs0ForPiece(p@),
            PieceLimitError::PointsIs0ForPiece => PieceLimitErrorView::PointsIs0ForPiece,
            PieceLimitError::PointLimitIs0 => PieceLimitErrorView::PointLimitIs0,
            PieceLimitError::NoPieceFitsInPointLimit => PieceLimitErrorView::NoPieceFitsInPointLimit,
        }
    }
}

} // verus!
