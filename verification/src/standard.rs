//! The built-in standard ruleset: a two-seat game on a 10 by 10 rectangular
//! board with two goal columns, two piece types, and explicit starting
//! positions.

use vstd::prelude::*;

use crate::board_type::{BoardType, BoardTypeView};
use crate::color::{spec_builtin, Color, ColorBuiltIn};
use crate::coordinate::Coordinate;
use crate::direction::Directions;
use crate::piece_definition::{
    capture_rules_unique,
    CaptureRequirement,
    CaptureRule,
    CaptureTarget,
    CaptureTimingRule,
    GoalMovementRule,
    JumpLimit,
    JumpRule,
    MoveRule,
    PieceDefinition,
    PieceDefinitionView,
    Shape,
};
use crate::ruleset::{Ruleset, RulesetView};
use crate::starting_positions::{StartingPositions, StartingPositionsView};
use crate::victory_condition::{VictoryCondition, VictoryConditionView};

verus! {

/// The abstract value of the standard ruleset's big piece.
pub open spec fn spec_big_piece() -> PieceDefinitionView {
    PieceDefinitionView {
        name: "Big"@,
        capture_rules: seq![(CaptureRule::JumpOver, CaptureTarget::EnemyOnly)],
        jump_rule: JumpRule::NoSameStart,
        capture_timing_rule: CaptureTimingRule::AfterTurn,
        capture_requirement: CaptureRequirement::Forced(10),
        jump_limit: JumpLimit::Unlimited { directions: Directions { bits: 0xff } },
        move_rule: MoveRule::AnyDirection { limit: 1, directions: Directions { bits: 0xff } },
        goal_move_rule: GoalMovementRule::Free,
        shape: Shape::Circle,
        size: 900,
        outline_color: spec_builtin(ColorBuiltIn::Black),
    }
}

/// The abstract value of the standard ruleset's little piece.
pub open spec fn spec_little_piece() -> PieceDefinitionView {
    PieceDefinitionView {
        name: "Little"@,
        capture_rules: seq![(CaptureRule::JumpOver, CaptureTarget::EnemyOnly)],
        jump_rule: JumpRule::NoSameStart,
        capture_timing_rule: CaptureTimingRule::AfterTurn,
        capture_requirement: CaptureRequirement::Unforced,
        jump_limit: JumpLimit::Limited { limit: 1, directions: Directions { bits: 0xff } },
        move_rule: MoveRule::AnyDirection { limit: 1, directions: Directions { bits: 0xff } },
        goal_move_rule: GoalMovementRule::Free,
        shape: Shape::Square,
        size: 600,
        outline_color: spec_builtin(ColorBuiltIn::Black),
    }
}

/// The abstract value of the standard ruleset.
pub open spec fn spec_standard_rules() -> RulesetView {
    RulesetView {
        name: "Standard"@,
        seats: 2,
        allies: seq![seq![0u64, 1u64]],
        seat_colors: seq![
            spec_builtin(ColorBuiltIn::Red),
            spec_builtin(ColorBuiltIn::Blue),
        ],
        pieces: seq![spec_big_piece(), spec_little_piece()],
        board_type: BoardTypeView::Rectangular {
            rows: 10,
            columns: 10,
            goal_locations: seq![4u8, 5u8],
        },
        starting_positions: StartingPositionsView::NotMirrored(
            seq![
                seq![
                    seq![
                        Coordinate { row: 1i16, column: 1i16 },
                        Coordinate { row: 2i16, column: 2i16 },
                        Coordinate { row: 7i16, column: 2i16 },
                        Coordinate { row: 8i16, column: 1i16 },
                    ],
                    Seq::empty(),
                ],
                seq![
                    Seq::empty(),
                    seq![
                        Coordinate { row: 2i16, column: 1i16 },
                        Coordinate { row: 3i16, column: 2i16 },
                        Coordinate { row: 3i16, column: 3i16 },
                        Coordinate { row: 3i16, column: 4i16 },
                        Coordinate { row: 4i16, column: 4i16 },
                        Coordinate { row: 4i16, column: 5i16 },
                        Coordinate { row: 3i16, column: 5i16 },
                        Coordinate { row: 3i16, column: 6i16 },
                        Coordinate { row: 3i16, column: 7i16 },
                        Coordinate { row: 2i16, column: 8i16 },
                    ],
                ],
            ],
        ),
        victory_conditions: seq![
            VictoryConditionView::AllCaptured,
            VictoryConditionView::GoalCount { amount: 2, valid_pieces: seq![0usize, 1usize] },
        ],
    }
}

/// Every standard piece keeps its capture-rules table a mapping.
pub proof fn lemma_standard_capture_rules_unique()
    ensures
        forall|k: int|
            0 <= k < spec_standard_rules().pieces.len() ==> capture_rules_unique(
                (#[trigger] spec_standard_rules().pieces[k]).capture_rules,
            ),
{
    assert(capture_rules_unique(spec_big_piece().capture_rules));
    assert(capture_rules_unique(spec_little_piece().capture_rules));
    assert forall|k: int|
        0 <= k < spec_standard_rules().pieces.len() implies capture_rules_unique(
        (#[trigger] spec_standard_rules().pieces[k]).capture_rules,
    ) by {
        if k == 0 {
            assert(spec_standard_rules().pieces[k] == spec_big_piece());
        } else {
            assert(spec_standard_rules().pieces[k] == spec_little_piece());
        }
    }
}

/// The standard ruleset.
pub fn standard_rules() -> (r: Ruleset)
    ensures
        r@ == spec_standard_rules(),
{
    let mut allies: Vec<Vec<u64>> = Vec::new();
    let mut allied: Vec<u64> = Vec::new();
    allied.push(0);
    allied.push(1);
    allies.push(allied);

    let mut seat_colors: Vec<Color> = Vec::new();
    seat_colors.push(Color::from_builtin(ColorBuiltIn::Red));
    seat_colors.push(Color::from_builtin(ColorBuiltIn::Blue));

    let mut goal_locations: Vec<u8> = Vec::new();
    goal_locations.push(4);
    goal_locations.push(5);

    let mut victory_conditions: Vec<VictoryCondition> = Vec::new();
    victory_conditions.push(VictoryCondition::AllCaptured);
    let mut valid_pieces: Vec<usize> = Vec::new();
    valid_pieces.push(0);
    valid_pieces.push(1);
    victory_conditions.push(VictoryCondition::GoalCount { amount: 2, valid_pieces });

    let r = Ruleset {
        name: String::from_str("Standard"),
        seats: 2,
        allies,
        seat_colors,
        pieces: get_pieces(),
        board_type: BoardType::Rectangular { rows: 10, columns: 10, goal_locations },
        starting_positions: get_starting_positions(),
        victory_conditions,
    };
    assert(r@ =~~= spec_standard_rules());
    r
}

/// The two standard piece types.
fn get_pieces() -> (r: Vec<PieceDefinition>)
    ensures
        r@.map_values(|p: PieceDefinition| p@) =~= seq![spec_big_piece(), spec_little_piece()],
{
    let mut capture_rules: Vec<(CaptureRule, CaptureTarget)> = Vec::new();
    capture_rules.push((CaptureRule::JumpOver, CaptureTarget::EnemyOnly));

    let big = PieceDefinition {
        name: String::from_str("Big"),
        capture_rules: crate::piece_definition::copy_capture_rules(&capture_rules),
        jump_rule: JumpRule::NoSameStart,
        capture_timing_rule: CaptureTimingRule::AfterTurn,
        capture_requirement: CaptureRequirement::Forced(10),
        jump_limit: JumpLimit::Unlimited { directions: Directions::all() },
        move_rule: MoveRule::AnyDirection { limit: 1, directions: Directions::all() },
        goal_move_rule: GoalMovementRule::Free,
        shape: Shape::Circle,
        size: 900,
        outline_color: Color::from_builtin(ColorBuiltIn::Black),
    };
    assert(big@ =~~= spec_big_piece());

    let little = PieceDefinition {
        name: String::from_str("Little"),
        capture_rules,
        jump_rule: JumpRule::NoSameStart,
        capture_timing_rule: CaptureTimingRule::AfterTurn,
        capture_requirement: CaptureRequirement::Unforced,
        jump_limit: JumpLimit::Limited { limit: 1, directions: Directions::all() },
        move_rule: MoveRule::AnyDirection { limit: 1, directions: Directions::all() },
        goal_move_rule: GoalMovementRule::Free,
        shape: Shape::Square,
        size: 600,
        outline_color: Color::from_builtin(ColorBuiltIn::Black),
    };
    assert(little@ =~~= spec_little_piece());

    let mut out: Vec<PieceDefinition> = Vec::new();
    out.push(big);
    out.push(little);
    out
}

/// The standard starting positions: explicit per-seat layouts.
fn get_starting_positions() -> (r: StartingPositions)
    ensures
        r@ == spec_standard_rules().starting_positions,
{
    let mut big_side_0: Vec<Coordinate> = Vec::new();
    big_side_0.push(Coordinate::new(1, 1));
    big_side_0.push(Coordinate::new(2, 2));
    big_side_0.push(Coordinate::new(7, 2));
    big_side_0.push(Coordinate::new(8, 1));

    let mut little_side_1: Vec<Coordinate> = Vec::new();
    little_side_1.push(Coordinate::new(2, 1));
    little_side_1.push(Coordinate::new(3, 2));
    little_side_1.push(Coordinate::new(3, 3));
    little_side_1.push(Coordinate::new(3, 4));
    little_side_1.push(Coordinate::new(4, 4));
    little_side_1.push(Coordinate::new(4, 5));
    little_side_1.push(Coordinate::new(3, 5));
    little_side_1.push(Coordinate::new(3, 6));
    little_side_1.push(Coordinate::new(3, 7));
    little_side_1.push(Coordinate::new(2, 8));

    let mut seat_0: Vec<Vec<Coordinate>> = Vec::new();
    seat_0.push(big_side_0);
    seat_0.push(Vec::new());
    let mut seat_1: Vec<Vec<Coordinate>> = Vec::new();
    seat_1.push(Vec::new());
    seat_1.push(little_side_1);

    let mut positions: Vec<Vec<Vec<Coordinate>>> = Vec::new();
    positions.push(seat_0);
    positions.push(seat_1);

    let r = StartingPositions::NotMirrored(positions);
    assert(r@ =~~= spec_standard_rules().starting_positions);
    r
}

} // verus!
