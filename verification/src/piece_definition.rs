//! Per-piece rules for capture, jumping, movement and goal behavior, and the
//! validation of their internal consistency. Pieces are identified by name
//! alone: two pieces with equal names are the same piece for uniqueness
//! purposes, whatever their other fields hold.

use vstd::prelude::*;

use crate::color::Color;
use crate::direction::Directions;

verus! {

/// Defines a piece.
///
/// Equality is defined over `name` alone.
#[derive(Debug)]
pub struct PieceDefinition {
    /// The name of the piece type; the unique key of the piece.
    pub name: String,
    /// How this piece can capture and whom that captures. A mapping, whose
    /// invariant [`capture_rules_unique`] states: at most one target per
    /// capture rule. Construction keeps it; validation does not read the
    /// field.
    pub capture_rules: Vec<(CaptureRule, CaptureTarget)>,
    /// The rule for how jumps can happen for this piece.
    pub jump_rule: JumpRule,
    /// The rule for when pieces are captured by this piece.
    pub capture_timing_rule: CaptureTimingRule,
    /// The rule for whether this piece is forced to capture if possible.
    pub capture_requirement: CaptureRequirement,
    /// The rule for how many jumps this piece can make.
    pub jump_limit: JumpLimit,
    /// The rule for how this piece can move.
    pub move_rule: MoveRule,
    /// The rule for how this piece moves within a goal.
    pub goal_move_rule: GoalMovementRule,
    /// Cosmetic shape of the piece.
    pub shape: Shape,
    /// Cosmetic display size, in thousandths of a space.
    pub size: u64,
    /// Cosmetic outline color.
    pub outline_color: Color,
}

/// The abstract value of a piece definition.
#[verifier::ext_equal]
pub struct PieceDefinitionView {
    pub name: Seq<char>,
    pub capture_rules: Seq<(CaptureRule, CaptureTarget)>,
    pub jump_rule: JumpRule,
    pub capture_timing_rule: CaptureTimingRule,
    pub capture_requirement: CaptureRequirement,
    pub jump_limit: JumpLimit,
    pub move_rule: MoveRule,
    pub goal_move_rule: GoalMovementRule,
    pub shape: Shape,
    pub size: u64,
    pub outline_color: Seq<char>,
}

impl View for PieceDefinition {
    type V = PieceDefinitionView;

    open spec fn view(&self) -> PieceDefinitionView {
        PieceDefinitionView {
            name: self.name@,
            capture_rules: self.capture_rules@,
            jump_rule: self.jump_rule,
            capture_timing_rule: self.capture_timing_rule,
            capture_requirement: self.capture_requirement,
            jump_limit: self.jump_limit,
            move_rule: self.move_rule,
            goal_move_rule: self.goal_move_rule,
            shape: self.shape,
            size: self.size,
            outline_color: self.outline_color@,
        }
    }
}

/// The capture-rules table is a mapping: no capture rule appears twice as a
/// key. Two entries with one rule would leave the applying target ambiguous.
pub open spec fn capture_rules_unique(rules: Seq<(CaptureRule, CaptureTarget)>) -> bool {
    forall|i: int, j: int| 0 <= i < j < rules.len() ==> (#[trigger] rules[i]).0 != (#[trigger] rules[j]).0
}

/// The first inconsistency of a piece definition: an empty name, then its
/// jump limit, then its move rule.
pub open spec fn spec_verify_piece(piece: PieceDefinitionView) -> Option<
    PieceDefinitionErrorView,
> {
    if piece.name.len() == 0 {
        Some(PieceDefinitionErrorView::NameInvalid(piece.name))
    } else if spec_verify_jump_limit(piece.jump_limit) is Some {
        Some(
            PieceDefinitionErrorView::JumpLimitError(
                spec_verify_jump_limit(piece.jump_limit)->Some_0,
            ),
        )
    } else if spec_verify_move_rule(piece.move_rule) is Some {
        Some(
            PieceDefinitionErrorView::MoveRuleError(spec_verify_move_rule(piece.move_rule)->Some_0),
        )
    } else {
        None
    }
}

impl PieceDefinition {
    /// Checks the internal consistency of the piece: the name must be
    /// non-empty and the jump limit and move rule must be well-formed.
    pub fn verify(&self) -> (result: PieceDefinitionResult<()>)
        ensures
            match result {
                Ok(_) => spec_verify_piece(self@) is None,
                Err(e) => Some(e@) == spec_verify_piece(self@),
            },
    {
        if self.name.as_str().is_empty() {
            return Err(PieceDefinitionError::NameInvalid(self.name.clone()));
        }
        match self.jump_limit.verify() {
            Err(e) => {
                return Err(PieceDefinitionError::JumpLimitError(e));
            },
            Ok(_) => {},
        }
        match self.move_rule.verify() {
            Err(e) => {
                return Err(PieceDefinitionError::MoveRuleError(e));
            },
            Ok(_) => {},
        }
        Ok(())
    }

    /// A copy of the piece with the same abstract value.
    pub fn duplicate(&self) -> (r: PieceDefinition)
        ensures
            r@ == self@,
    {
        PieceDefinition {
            name: self.name.clone(),
            capture_rules: copy_capture_rules(&self.capture_rules),
            jump_rule: self.jump_rule,
            capture_timing_rule: self.capture_timing_rule,
            capture_requirement: self.capture_requirement,
            jump_limit: self.jump_limit,
            move_rule: self.move_rule,
            goal_move_rule: self.goal_move_rule,
            shape: self.shape,
            size: self.size,
            outline_color: self.outline_color.duplicate(),
        }
    }
}

/// A copy of a capture-rule table.
#[verifier::loop_isolation(false)]
pub fn copy_capture_rules(rules: &Vec<(CaptureRule, CaptureTarget)>) -> (r: Vec<
    (CaptureRule, CaptureTarget),
>)
    ensures
        r@ == rules@,
{
    let mut out: Vec<(CaptureRule, CaptureTarget)> = Vec::new();
    let mut k: usize = 0;
    while k < rules.len()
        invariant
            k <= rules@.len(),
            out@ == rules@.subrange(0, k as int),
        decreases rules@.len() - k,
    {
        out.push(rules[k]);
        k = k + 1;
    }
    assert(out@ =~= rules@);
    out
}

impl PartialEq for PieceDefinition {
    /// Pieces compare by name alone.
    fn eq(&self, other: &Self) -> (r: bool) {
        self.name == other.name
    }
}

impl vstd::std_specs::cmp::PartialEqSpecImpl for PieceDefinition {
    open spec fn obeys_eq_spec() -> bool {
        true
    }

    open spec fn eq_spec(&self, other: &Self) -> bool {
        self.name@ == other.name@
    }
}

impl Eq for PieceDefinition {

}

pub type PieceDefinitionResult<T> = Result<T, PieceDefinitionError>;

/// A failed piece check.
#[derive(Debug)]
pub enum PieceDefinitionError {
    NameInvalid(String),
    JumpLimitError(JumpLimitError),
    MoveRuleError(MoveRuleError),
}

/// The abstract value of a failed piece check.
#[verifier::ext_equal]
pub enum PieceDefinitionErrorView {
    NameInvalid(Seq<char>),
    JumpLimitError(JumpLimitError),
    MoveRuleError(MoveRuleError),
}

impl View for PieceDefinitionError {
    type V = PieceDefinitionErrorView;

    open spec fn view(&self) -> PieceDefinitionErrorView {
        match self {
            PieceDefinitionError::NameInvalid(name) => PieceDefinitionErrorView::NameInvalid(name@),
            PieceDefinitionError::JumpLimitError(e) => PieceDefinitionErrorView::JumpLimitError(*e),
            PieceDefinitionError::MoveRuleError(e) => PieceDefinitionErrorView::MoveRuleError(*e),
        }
    }
}

/// The rule for how jumps can happen.
#[derive(Copy, Clone, Debug, Hash, PartialEq, Eq, Structural)]
pub enum JumpRule {
    /// A piece may not go to any previous space within the same jump.
    NoBacktracking,
    /// A piece cannot end up in the same starting location.
    NoSameStart,
    /// All non-repetitive jumps are legal.
    Open,
}

/// The rule for how captures can happen.
#[derive(Copy, Clone, Debug, Hash, PartialEq, Eq, Structural)]
pub enum CaptureRule {
    /// Can capture by jumping over.
    JumpOver,
    /// Can capture by jumping on.
    JumpOn,
    /// Can capture by moving onto.
    Move,
}

/// The rule for when captures happen.
#[derive(Copy, Clone, Debug, Hash, PartialEq, Eq, Structural)]
pub enum CaptureTimingRule {
    /// Pieces are removed after they are jumped over; an enemy piece cannot
    /// be jumped twice.
    AfterJump,
    /// Pieces are removed at the end of the turn.
    AfterTurn,
}

/// The rule for what can get captured.
#[derive(Copy, Clone, Debug, Hash, PartialEq, Eq, Structural)]
pub enum CaptureTarget {
    /// Captures only enemy pieces.
    EnemyOnly,
    /// Captures only own pieces.
    OwnOnly,
    /// Captures all seat pieces.
    All,
}

/// The rule for when this piece is forced to capture.
#[derive(Copy, Clone, Debug, Hash, PartialEq, Eq, Structural)]
pub enum CaptureRequirement {
    /// Must capture if possible; higher values mean this piece is forced
    /// before others.
    Forced(isize),
    /// No forced capture.
    Unforced,
}

/// The rule for how a piece jumps.
#[derive(Copy, Clone, Debug, Hash, PartialEq, Eq, Structural)]
pub enum JumpLimit {
    /// The piece can jump an unlimited number of times.
    Unlimited { directions: Directions },
    /// The piece can jump a limited number of times.
    Limited { limit: usize, directions: Directions },
    /// The piece cannot jump.
    Cannot,
}

/// The first inconsistency of a jump limit: a rule that names directions must
/// name at least one, and an explicit count must be positive.
pub open spec fn spec_verify_jump_limit(limit: JumpLimit) -> Option<JumpLimitError> {
    match limit {
        JumpLimit::Cannot => None,
        JumpLimit::Unlimited { directions } => if directions.bits == 0 {
            Some(JumpLimitError::NoDirectionsSet)
        } else {
            None
        },
        JumpLimit::Limited { limit, directions } => if directions.bits == 0 {
            Some(JumpLimitError::NoDirectionsSet)
        } else if limit == 0 {
            Some(JumpLimitError::LimitedTo0)
        } else {
            None
        },
    }
}

impl JumpLimit {
    /// Checks the internal consistency of the jump limit.
    pub fn verify(&self) -> (result: JumpLimitResult<()>)
        ensures
            match result {
                Ok(_) => spec_verify_jump_limit(*self) is None,
                Err(e) => Some(e) == spec_verify_jump_limit(*self),
            },
    {
        let (directions, limit) = match self {
            Self::Unlimited { directions } => (*directions, None),
            Self::Limited { limit, directions } => (*directions, Some(*limit)),
            Self::Cannot => {
                return Ok(());
            },
        };
        if directions.is_empty() {
            return Err(JumpLimitError::NoDirectionsSet);
        }
        if let Some(limit) = limit {
            if limit == 0 {
                return Err(JumpLimitError::LimitedTo0);
            }
        }
        Ok(())
    }
}

pub type JumpLimitResult<T> = Result<T, JumpLimitError>;

/// A failed jump-limit check.
#[derive(Copy, Clone, Debug, Hash, PartialEq, Eq, Structural)]
pub enum JumpLimitError {
    NoDirectionsSet,
    LimitedTo0,
}

/// The rule for how this piece moves.
#[derive(Copy, Clone, Debug, Hash, PartialEq, Eq, Structural)]
pub enum MoveRule {
    /// The piece can move in any one direction of the set, up to the limit.
    SameDirection { limit: usize, directions: Directions },
    /// The piece can move in any directions of the set, up to the limit.
    AnyDirection { limit: usize, directions: Directions },
    /// The piece cannot move without jumping.
    NoMovement,
}

/// The first inconsistency of a move rule: a rule that names directions must
/// name at least one, and its limit must be positive.
pub open spec fn spec_verify_move_rule(rule: MoveRule) -> Option<MoveRuleError> {
    match rule {
        MoveRule::NoMovement => None,
        MoveRule::SameDirection { limit, directions } => if directions.bits == 0 {
            Some(MoveRuleError::NoDirectionsSet)
        } else if limit == 0 {
            Some(MoveRuleError::LimitedTo0)
        } else {
            None
        },
        MoveRule::AnyDirection { limit, directions } => if directions.bits == 0 {
            Some(MoveRuleError::NoDirectionsSet)
        } else if limit == 0 {
            Some(MoveRuleError::LimitedTo0)
        } else {
            None
        },
    }
}

impl MoveRule {
    /// Checks the internal consistency of the move rule.
    pub fn verify(&self) -> (result: MoveRuleResult<()>)
        ensures
            match result {
                Ok(_) => spec_verify_move_rule(*self) is None,
                Err(e) => Some(e) == spec_verify_move_rule(*self),
            },
    {
        let (directions, limit) = match self {
            Self::SameDirection { limit, directions } => (*directions, *limit),
            Self::AnyDirection { limit, directions } => (*directions, *limit),
            Self::NoMovement => {
                return Ok(());
            },
        };
        if directions.is_empty() {
            return Err(MoveRuleError::NoDirectionsSet);
        }
        if limit == 0 {
            return Err(MoveRuleError::LimitedTo0);
        }
        Ok(())
    }
}

pub type MoveRuleResult<T> = Result<T, MoveRuleError>;

/// A failed move-rule check.
#[derive(Copy, Clone, Debug, Hash, PartialEq, Eq, Structural)]
pub enum MoveRuleError {
    NoDirectionsSet,
    LimitedTo0,
}

/// The rule for what movement is allowed while in a goal.
#[derive(Copy, Clone, Debug, Hash, PartialEq, Eq, Structural)]
pub enum GoalMovementRule {
    /// The piece is locked in place once it gets to the goal.
    Locked,
    /// The piece can only move to other goals.
    OnlyToGoal,
    /// The piece is free to move from the goal.
    Free,
}

/// The cosmetic shape of a piece. Ratios are in thousandths.
#[derive(Copy, Clone, Debug, Hash, PartialEq, Eq, Structural)]
pub enum Shape {
    Square,
    Circle,
    /// Bar girth is size times the ratio.
    Plus { ratio: u64 },
    /// Width is height times the ratio.
    VerticalBar { ratio: u64 },
    /// Height is width times the ratio.
    HorizontalBar { ratio: u64 },
}

} // verus!
