use kapto_rules::alteration_type::{AlterationTypeError, AlternationType};
use kapto_rules::board_type::{BoardType, SpaceGrid};
use kapto_rules::color::Color;
use kapto_rules::coordinate::Coordinate;
use kapto_rules::direction::Directions;
use kapto_rules::piece_definition::{
    CaptureRequirement, CaptureRule, CaptureTarget, CaptureTimingRule, GoalMovementRule, JumpLimit,
    JumpRule, MoveRule, PieceDefinition, Shape,
};
use kapto_rules::placement_area::PlacementArea;
use kapto_rules::ruleset::{Ruleset, RulesetError};
use kapto_rules::space::Space;
use kapto_rules::starting_positions::{StartingPositions, StartingPositionsError};
use kapto_rules::victory_condition::VictoryCondition;

fn simple_piece(name: &str) -> PieceDefinition {
    PieceDefinition {
        name: name.to_string(),
        capture_rules: vec![(CaptureRule::JumpOver, CaptureTarget::EnemyOnly)],
        jump_rule: JumpRule::Open,
        capture_timing_rule: CaptureTimingRule::AfterTurn,
        capture_requirement: CaptureRequirement::Unforced,
        jump_limit: JumpLimit::Cannot,
        move_rule: MoveRule::AnyDirection {
            limit: 1,
            directions: Directions::all(),
        },
        goal_move_rule: GoalMovementRule::Free,
        shape: Shape::Circle,
        size: 500,
        outline_color: Color::new(0, 0, 0, 255),
    }
}

fn two_seat_ruleset(starting_positions: StartingPositions) -> Ruleset {
    Ruleset {
        name: "Scenario".to_string(),
        seats: 2,
        allies: vec![],
        seat_colors: vec![Color::new(255, 0, 0, 255), Color::new(0, 0, 255, 255)],
        pieces: vec![simple_piece("Runner")],
        board_type: BoardType::Rectangular {
            rows: 1,
            columns: 2,
            goal_locations: vec![0],
        },
        starting_positions,
        victory_conditions: vec![VictoryCondition::AllCaptured],
    }
}

#[test]
fn scenario_minimal_ruleset_verifies() {
    let rules = two_seat_ruleset(StartingPositions::NotMirrored(vec![
        vec![vec![Coordinate::new(1, 0)]],
        vec![vec![]],
    ]));
    assert!(rules.verify().is_ok());
}

#[test]
fn scenario_goal_row_start_rejected() {
    let rules = two_seat_ruleset(StartingPositions::NotMirrored(vec![
        vec![vec![Coordinate::new(0, 0)]],
        vec![vec![]],
    ]));
    let error = rules.verify().unwrap_err();
    assert!(matches!(
        error,
        RulesetError::StartingPositionsError(StartingPositionsError::InvalidPositionForBoard {
            ..
        })
    ));
}

#[test]
fn scenario_color_count_checked_before_board() {
    let mut rules = two_seat_ruleset(StartingPositions::NotMirrored(vec![
        vec![vec![Coordinate::new(1, 0)]],
        vec![vec![]],
    ]));
    // Three seats would also fail the rectangular-board seat check and the
    // per-seat layout count, but the color count mismatch must win.
    rules.seats = 3;
    let error = rules.verify().unwrap_err();
    assert!(matches!(error, RulesetError::NotEnoughColorsSet(2)));
}

#[test]
fn scenario_mirrored_position_lands_on_goal() {
    // A six-row, four-column custom board: (2, 3) is normal, its flip image
    // (3, 3) is a goal. The position itself is fine; its mirror is not.
    let mut cells = vec![Space::Normal; 24];
    cells[3 * 4 + 3] = Space::Goal(0);
    let rules = Ruleset {
        name: "Mirrored".to_string(),
        seats: 2,
        allies: vec![],
        seat_colors: vec![Color::new(255, 0, 0, 255), Color::new(0, 0, 255, 255)],
        pieces: vec![simple_piece("Runner")],
        board_type: BoardType::Custom(SpaceGrid::from_flat(6, 4, cells)),
        starting_positions: StartingPositions::MirroredFlipped(vec![vec![Coordinate::new(2, 3)]]),
        victory_conditions: vec![VictoryCondition::AllCaptured],
    };
    let error = rules.verify().unwrap_err();
    match error {
        RulesetError::StartingPositionsError(StartingPositionsError::InvalidPositionForBoard {
            space,
            position,
            ..
        }) => {
            assert_eq!(space, Space::Goal(0));
            assert_eq!(position, Coordinate::new(2, 3));
        }
        other => panic!("unexpected failure: {:?}", other),
    }
}

#[test]
fn scenario_points_alternation_needs_point_limit() {
    let rules = two_seat_ruleset(StartingPositions::Placement {
        first_seat: 0,
        alternation_type: AlternationType::Points,
        placement_area: PlacementArea::Half,
        piece_limits: vec![],
    });
    let error = rules.verify().unwrap_err();
    assert!(matches!(
        error,
        RulesetError::StartingPositionsError(StartingPositionsError::AlterationTypeError(
            AlterationTypeError::NoPointLimitForTurnsPoints
        ))
    ));
}
