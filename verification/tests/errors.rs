use kapto_rules::alteration_type::{AlterationTypeError, AlternationType};
use kapto_rules::board_type::BoardType;
use kapto_rules::color::Color;
use kapto_rules::coordinate::Coordinate;
use kapto_rules::direction::Directions;
use kapto_rules::piece_definition::{
    CaptureRequirement, CaptureRule, CaptureTarget, CaptureTimingRule, GoalMovementRule, JumpLimit,
    JumpLimitError, JumpRule, MoveRule, MoveRuleError, PieceDefinition, PieceDefinitionError,
    Shape,
};
use kapto_rules::piece_limit::{PieceLimit, PieceLimitError};
use kapto_rules::placement_area::{PlacementArea, PlacementAreaError};
use kapto_rules::ruleset::{Ruleset, RulesetError};
use kapto_rules::space::Space;
use kapto_rules::starting_positions::{StartingPositions, StartingPositionsError};
use kapto_rules::victory_condition::{VictoryCondition, VictoryConditionError};

fn piece(name: &str) -> PieceDefinition {
    PieceDefinition {
        name: name.to_string(),
        capture_rules: vec![(CaptureRule::JumpOver, CaptureTarget::EnemyOnly)],
        jump_rule: JumpRule::Open,
        capture_timing_rule: CaptureTimingRule::AfterTurn,
        capture_requirement: CaptureRequirement::Unforced,
        jump_limit: JumpLimit::Cannot,
        move_rule: MoveRule::AnyDirection {
            limit: 1,
            directions: Directions::all(),
        },
        goal_move_rule: GoalMovementRule::Free,
        shape: Shape::Circle,
        size: 500,
        outline_color: Color::new(0, 0, 0, 255),
    }
}

fn base() -> Ruleset {
    Ruleset {
        name: "Errors".to_string(),
        seats: 2,
        allies: vec![],
        seat_colors: vec![Color::new(255, 0, 0, 255), Color::new(0, 0, 255, 255)],
        pieces: vec![piece("Solo")],
        board_type: BoardType::Rectangular {
            rows: 4,
            columns: 4,
            goal_locations: vec![1],
        },
        starting_positions: StartingPositions::NotMirrored(vec![vec![], vec![]]),
        victory_conditions: vec![VictoryCondition::AllCaptured],
    }
}

#[test]
fn one_seat_rejected() {
    let mut rules = base();
    rules.seats = 1;
    assert!(matches!(
        rules.verify().unwrap_err(),
        RulesetError::SeatsCountInvalid(1)
    ));
}

#[test]
fn seat_in_two_allied_sets_rejected() {
    let mut rules = base();
    rules.allies = vec![vec![0], vec![1, 0]];
    assert!(matches!(
        rules.verify().unwrap_err(),
        RulesetError::DuplicateSeatInAllies(0)
    ));
}

#[test]
fn duplicate_color_rejected() {
    let mut rules = base();
    rules.seat_colors = vec![Color::new(1, 2, 3, 4), Color::new(1, 2, 3, 4)];
    match rules.verify().unwrap_err() {
        RulesetError::DuplicateColor(color) => {
            assert_eq!(color, Color::new(1, 2, 3, 4));
        }
        other => panic!("unexpected failure: {:?}", other),
    }
}

#[test]
fn duplicate_piece_name_rejected() {
    let mut rules = base();
    let mut other = piece("Solo");
    other.shape = Shape::Square;
    other.size = 100;
    rules.pieces.push(other);
    match rules.verify().unwrap_err() {
        RulesetError::PieceDuplicated(duplicated) => {
            assert_eq!(duplicated.name, "Solo");
        }
        unexpected => panic!("unexpected failure: {:?}", unexpected),
    }
}

#[test]
fn empty_piece_name_rejected() {
    let mut rules = base();
    rules.pieces[0].name = "".to_string();
    assert!(matches!(
        rules.verify().unwrap_err(),
        RulesetError::PieceDefinitionError(PieceDefinitionError::NameInvalid(_))
    ));
}

#[test]
fn jump_and_move_rule_checks() {
    assert!(matches!(
        JumpLimit::Unlimited {
            directions: Directions::none()
        }
        .verify()
        .unwrap_err(),
        JumpLimitError::NoDirectionsSet
    ));
    assert!(matches!(
        JumpLimit::Limited {
            limit: 0,
            directions: Directions::cardinal()
        }
        .verify()
        .unwrap_err(),
        JumpLimitError::LimitedTo0
    ));
    assert!(JumpLimit::Cannot.verify().is_ok());
    assert!(matches!(
        MoveRule::SameDirection {
            limit: 1,
            directions: Directions::none()
        }
        .verify()
        .unwrap_err(),
        MoveRuleError::NoDirectionsSet
    ));
    assert!(matches!(
        MoveRule::AnyDirection {
            limit: 0,
            directions: Directions::all()
        }
        .verify()
        .unwrap_err(),
        MoveRuleError::LimitedTo0
    ));
    assert!(MoveRule::NoMovement.verify().is_ok());
}

#[test]
fn starting_position_errors() {
    let mut rules = base();
    rules.starting_positions = StartingPositions::NotMirrored(vec![vec![]]);
    assert!(matches!(
        rules.verify().unwrap_err(),
        RulesetError::StartingPositionsError(StartingPositionsError::SeatNumberDoesNotMatch(1))
    ));

    rules.starting_positions = StartingPositions::NotMirrored(vec![
        vec![vec![], vec![Coordinate::new(1, 1)]],
        vec![],
    ]);
    assert!(matches!(
        rules.verify().unwrap_err(),
        RulesetError::StartingPositionsError(StartingPositionsError::PieceIndexNotFound(1))
    ));

    rules.starting_positions = StartingPositions::NotMirrored(vec![
        vec![vec![Coordinate::new(1, 1), Coordinate::new(1, 1)]],
        vec![],
    ]);
    match rules.verify().unwrap_err() {
        RulesetError::StartingPositionsError(StartingPositionsError::DuplicatePosition {
            position,
            ..
        }) => assert_eq!(position, Coordinate::new(1, 1)),
        other => panic!("unexpected failure: {:?}", other),
    }
}

#[test]
fn mirrored_positions_track_listed_coordinates_only() {
    // (1, 1) flips to (4, 1) on a six-row board. Starting positions track
    // the listed coordinates alone, so listing a coordinate and the mirror
    // image of an earlier one is accepted; only a repeated coordinate
    // collides.
    let mut rules = base();
    rules.starting_positions =
        StartingPositions::MirroredFlipped(vec![vec![Coordinate::new(1, 1), Coordinate::new(4, 1)]]);
    assert!(rules.verify().is_ok());
    rules.starting_positions =
        StartingPositions::MirroredFlipped(vec![vec![Coordinate::new(1, 1), Coordinate::new(1, 1)]]);
    assert!(matches!(
        rules.verify().unwrap_err(),
        RulesetError::StartingPositionsError(StartingPositionsError::DuplicatePosition { .. })
    ));
}

#[test]
fn placement_area_errors() {
    let mut rules = base();
    rules.starting_positions = StartingPositions::Placement {
        first_seat: 0,
        alternation_type: AlternationType::WholePlacement,
        placement_area: PlacementArea::MirroredFlipped(vec![Coordinate::new(9, 0)]),
        piece_limits: vec![],
    };
    assert!(matches!(
        rules.verify().unwrap_err(),
        RulesetError::StartingPositionsError(StartingPositionsError::PlacementAreaError(
            PlacementAreaError::PositionCannotPlace(Space::Invalid, _)
        ))
    ));

    // A placement area tracks the mirror images too: a coordinate that is
    // the image of an earlier one collides.
    rules.starting_positions = StartingPositions::Placement {
        first_seat: 0,
        alternation_type: AlternationType::WholePlacement,
        placement_area: PlacementArea::MirroredFlipped(vec![
            Coordinate::new(1, 1),
            Coordinate::new(4, 1),
        ]),
        piece_limits: vec![],
    };
    assert!(matches!(
        rules.verify().unwrap_err(),
        RulesetError::StartingPositionsError(StartingPositionsError::PlacementAreaError(
            PlacementAreaError::PositionCollision(_)
        ))
    ));

    rules.starting_positions = StartingPositions::Placement {
        first_seat: 0,
        alternation_type: AlternationType::WholePlacement,
        placement_area: PlacementArea::NonMirrored(vec![vec![Coordinate::new(1, 1)]]),
        piece_limits: vec![],
    };
    assert!(matches!(
        rules.verify().unwrap_err(),
        RulesetError::StartingPositionsError(StartingPositionsError::PlacementAreaError(
            PlacementAreaError::InvalidSeatNumber(1)
        ))
    ));
}

#[test]
fn alternation_errors() {
    assert!(matches!(
        AlternationType::TurnsCount { per_turn_count: 0 }
            .verify(&vec![])
            .unwrap_err(),
        AlterationTypeError::CountIs0
    ));
    assert!(matches!(
        AlternationType::TurnsPoints {
            per_turn_points: 0,
            hard_limit: false
        }
        .verify(&vec![])
        .unwrap_err(),
        AlterationTypeError::PerTurnPointsIs0
    ));
    let limits = vec![PieceLimit::PointLimit {
        point_values: vec![1],
        point_limit: 2,
    }];
    assert!(AlternationType::Points.verify(&limits).is_ok());
    assert!(AlternationType::Hidden.verify(&vec![]).is_ok());
}

#[test]
fn piece_limit_errors() {
    let mut rules = base();
    let placement = |limits: Vec<PieceLimit>| StartingPositions::Placement {
        first_seat: 0,
        alternation_type: AlternationType::WholePlacement,
        placement_area: PlacementArea::Half,
        piece_limits: limits,
    };

    rules.starting_positions = placement(vec![PieceLimit::TotalLimit { limit: 0 }]);
    assert!(matches!(
        rules.verify().unwrap_err(),
        RulesetError::StartingPositionsError(StartingPositionsError::PieceLimitError(
            PieceLimitError::LimitIs0
        ))
    ));

    rules.starting_positions = placement(vec![PieceLimit::TypeCountLimit {
        limits: vec![1, 2],
    }]);
    assert!(matches!(
        rules.verify().unwrap_err(),
        RulesetError::StartingPositionsError(StartingPositionsError::PieceLimitError(
            PieceLimitError::PieceIndexMismatch(2)
        ))
    ));

    rules.starting_positions = placement(vec![PieceLimit::TypeCountLimit { limits: vec![0] }]);
    assert!(matches!(
        rules.verify().unwrap_err(),
        RulesetError::StartingPositionsError(StartingPositionsError::PieceLimitError(
            PieceLimitError::LimitIs0ForPiece(_)
        ))
    ));

    rules.starting_positions = placement(vec![PieceLimit::PointLimit {
        point_values: vec![1],
        point_limit: 0,
    }]);
    assert!(matches!(
        rules.verify().unwrap_err(),
        RulesetError::StartingPositionsError(StartingPositionsError::PieceLimitError(
            PieceLimitError::PointLimitIs0
        ))
    ));

    rules.starting_positions = placement(vec![PieceLimit::PointLimit {
        point_values: vec![0],
        point_limit: 5,
    }]);
    assert!(matches!(
        rules.verify().unwrap_err(),
        RulesetError::StartingPositionsError(StartingPositionsError::PieceLimitError(
            PieceLimitError::PointsIs0ForPiece
        ))
    ));

    rules.starting_positions = placement(vec![PieceLimit::PointLimit {
        point_values: vec![7],
        point_limit: 5,
    }]);
    assert!(matches!(
        rules.verify().unwrap_err(),
        RulesetError::StartingPositionsError(StartingPositionsError::PieceLimitError(
            PieceLimitError::NoPieceFitsInPointLimit
        ))
    ));

    rules.starting_positions = placement(vec![PieceLimit::PointLimit {
        point_values: vec![5],
        point_limit: 5,
    }]);
    assert!(rules.verify().is_ok());
}

#[test]
fn empty_victory_condition_set_rejected() {
    let mut rules = base();
    rules.victory_conditions = vec![];
    assert!(matches!(
        rules.verify().unwrap_err(),
        RulesetError::NoVictoryConditionSet
    ));
}

#[test]
fn victory_condition_errors() {
    let mut rules = base();
    rules.victory_conditions = vec![VictoryCondition::GoalCount {
        amount: 0,
        valid_pieces: vec![0],
    }];
    assert!(matches!(
        rules.verify().unwrap_err(),
        RulesetError::VictoryConditionError(VictoryConditionError::AmountIs0)
    ));

    rules.victory_conditions = vec![VictoryCondition::GoalCount {
        amount: 1,
        valid_pieces: vec![],
    }];
    assert!(matches!(
        rules.verify().unwrap_err(),
        RulesetError::VictoryConditionError(VictoryConditionError::NoValidPieces)
    ));

    rules.victory_conditions = vec![VictoryCondition::GoalCount {
        amount: 1,
        valid_pieces: vec![3],
    }];
    assert!(matches!(
        rules.verify().unwrap_err(),
        RulesetError::VictoryConditionError(VictoryConditionError::PieceNotFound(3))
    ));

    rules.victory_conditions = vec![VictoryCondition::PointDifference(0)];
    assert!(matches!(
        rules.verify().unwrap_err(),
        RulesetError::VictoryConditionError(VictoryConditionError::PointDifferenceIs0)
    ));

    rules.board_type = BoardType::Rectangular {
        rows: 4,
        columns: 4,
        goal_locations: vec![],
    };
    rules.victory_conditions = vec![VictoryCondition::GoalCount {
        amount: 1,
        valid_pieces: vec![0],
    }];
    assert!(matches!(
        rules.verify().unwrap_err(),
        RulesetError::VictoryConditionError(VictoryConditionError::BoardHasNoGoal)
    ));
}

#[test]
fn kind_only_equality() {
    assert_eq!(
        PieceLimit::TotalLimit { limit: 1 },
        PieceLimit::TotalLimit { limit: 9 }
    );
    assert_ne!(
        PieceLimit::TotalLimit { limit: 1 },
        PieceLimit::TypeCountLimit { limits: vec![] }
    );
    assert_eq!(
        VictoryCondition::PointDifference(1),
        VictoryCondition::PointDifference(2)
    );
    assert_ne!(
        VictoryCondition::AllCaptured,
        VictoryCondition::PointDifference(2)
    );
    assert_eq!(piece("Twin"), piece("Twin"));
    let mut renamed = piece("Twin");
    renamed.name = "Other".to_string();
    assert_ne!(piece("Twin"), renamed);
}
