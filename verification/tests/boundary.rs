use kapto_rules::board_type::{BoardType, BoardTypeVerifyError, SpaceGrid};
use kapto_rules::color::Color;
use kapto_rules::coordinate::Coordinate;
use kapto_rules::direction::Directions;
use kapto_rules::piece_definition::{
    CaptureRequirement, CaptureRule, CaptureTarget, CaptureTimingRule, GoalMovementRule, JumpLimit,
    JumpRule, MoveRule, PieceDefinition, Shape,
};
use kapto_rules::ruleset::{Ruleset, RulesetError};
use kapto_rules::space::Space;
use kapto_rules::starting_positions::StartingPositions;
use kapto_rules::victory_condition::VictoryCondition;

fn piece(name: &str) -> PieceDefinition {
    PieceDefinition {
        name: name.to_string(),
        capture_rules: vec![(CaptureRule::Move, CaptureTarget::All)],
        jump_rule: JumpRule::NoBacktracking,
        capture_timing_rule: CaptureTimingRule::AfterJump,
        capture_requirement: CaptureRequirement::Forced(3),
        jump_limit: JumpLimit::Unlimited {
            directions: Directions::cardinal(),
        },
        move_rule: MoveRule::SameDirection {
            limit: 2,
            directions: Directions::diagonal(),
        },
        goal_move_rule: GoalMovementRule::Locked,
        shape: Shape::Square,
        size: 800,
        outline_color: Color::new(9, 9, 9, 9),
    }
}

fn ruleset_with_board(board_type: BoardType) -> Ruleset {
    Ruleset {
        name: "Boundary".to_string(),
        seats: 2,
        allies: vec![],
        seat_colors: vec![Color::new(255, 0, 0, 255), Color::new(0, 0, 255, 255)],
        pieces: vec![piece("Edge")],
        board_type,
        starting_positions: StartingPositions::NotMirrored(vec![vec![], vec![]]),
        victory_conditions: vec![VictoryCondition::AllCaptured],
    }
}

#[test]
fn zero_rows_fails() {
    let rules = ruleset_with_board(BoardType::Rectangular {
        rows: 0,
        columns: 2,
        goal_locations: vec![],
    });
    let error = rules.verify().unwrap_err();
    assert!(matches!(
        error,
        RulesetError::BoardTypeVerifyError(BoardTypeVerifyError::InvalidRows(0))
    ));
}

#[test]
fn largest_rows_passes() {
    let rules = ruleset_with_board(BoardType::Rectangular {
        rows: 253,
        columns: 2,
        goal_locations: vec![],
    });
    assert!(rules.verify().is_ok());
}

#[test]
fn one_row_too_many_fails() {
    let rules = ruleset_with_board(BoardType::Rectangular {
        rows: 254,
        columns: 2,
        goal_locations: vec![],
    });
    let error = rules.verify().unwrap_err();
    assert!(matches!(
        error,
        RulesetError::BoardTypeVerifyError(BoardTypeVerifyError::InvalidRows(254))
    ));
}

#[test]
fn one_column_fails() {
    let rules = ruleset_with_board(BoardType::Rectangular {
        rows: 3,
        columns: 1,
        goal_locations: vec![],
    });
    let error = rules.verify().unwrap_err();
    assert!(matches!(
        error,
        RulesetError::BoardTypeVerifyError(BoardTypeVerifyError::InvalidColumns(1))
    ));
}

#[test]
fn goal_location_beyond_columns_fails() {
    let rules = ruleset_with_board(BoardType::Rectangular {
        rows: 3,
        columns: 4,
        goal_locations: vec![4],
    });
    let error = rules.verify().unwrap_err();
    assert!(matches!(
        error,
        RulesetError::BoardTypeVerifyError(BoardTypeVerifyError::InvalidGoalLocation(4))
    ));
}

#[test]
fn rectangular_board_needs_two_seats() {
    let mut rules = ruleset_with_board(BoardType::Rectangular {
        rows: 3,
        columns: 4,
        goal_locations: vec![],
    });
    rules.seats = 3;
    rules.seat_colors.push(Color::new(0, 255, 0, 255));
    rules.starting_positions = StartingPositions::NotMirrored(vec![vec![], vec![], vec![]]);
    let error = rules.verify().unwrap_err();
    assert!(matches!(
        error,
        RulesetError::BoardTypeVerifyError(BoardTypeVerifyError::InvalidSeatCount(3))
    ));
}

#[test]
fn custom_board_goal_seat_checked() {
    let cells = vec![Space::Normal, Space::Goal(5), Space::Normal, Space::Normal];
    let rules = ruleset_with_board(BoardType::Custom(SpaceGrid::from_flat(2, 2, cells)));
    let error = rules.verify().unwrap_err();
    assert!(matches!(
        error,
        RulesetError::BoardTypeVerifyError(BoardTypeVerifyError::InvalidGoalSeat(Space::Goal(5)))
    ));
}

#[test]
fn custom_board_spaces_read_back() {
    let cells = vec![
        Space::Invalid,
        Space::Normal,
        Space::Goal(1),
        Space::Normal,
        Space::Invalid,
        Space::Goal(0),
    ];
    let board = BoardType::Custom(SpaceGrid::from_flat(2, 3, cells));
    assert_eq!(board.rows(), 2);
    assert_eq!(board.columns(), 3);
    assert_eq!(board.get_space(Coordinate::new(0, 0)), Space::Invalid);
    assert_eq!(board.get_space(Coordinate::new(0, 1)), Space::Normal);
    assert_eq!(board.get_space(Coordinate::new(0, 2)), Space::Goal(1));
    assert_eq!(board.get_space(Coordinate::new(1, 2)), Space::Goal(0));
    assert_eq!(board.get_space(Coordinate::new(2, 0)), Space::Invalid);
    assert_eq!(board.get_space(Coordinate::new(-1, 0)), Space::Invalid);
    assert!(board.has_goal());
}

#[test]
fn custom_board_without_goal() {
    let cells = vec![Space::Normal; 4];
    let board = BoardType::Custom(SpaceGrid::from_flat(2, 2, cells));
    assert!(!board.has_goal());
}

#[test]
fn rectangular_goal_rows_synthesized() {
    let board = BoardType::Rectangular {
        rows: 2,
        columns: 3,
        goal_locations: vec![1],
    };
    assert_eq!(board.rows(), 4);
    assert_eq!(board.columns(), 3);
    assert_eq!(board.get_space(Coordinate::new(0, 1)), Space::Goal(1));
    assert_eq!(board.get_space(Coordinate::new(3, 1)), Space::Goal(0));
    assert_eq!(board.get_space(Coordinate::new(0, 0)), Space::Invalid);
    assert_eq!(board.get_space(Coordinate::new(1, 0)), Space::Normal);
    assert_eq!(board.get_space(Coordinate::new(2, 2)), Space::Normal);
    assert_eq!(board.get_space(Coordinate::new(4, 1)), Space::Invalid);
    assert!(board.has_goal());
}
