use kapto_rules::board_type::{BoardType, SpaceGrid};
use kapto_rules::codec::{decode_ruleset, encode_ruleset};
use kapto_rules::color::Color;
use kapto_rules::coordinate::Coordinate;
use kapto_rules::direction::Directions;
use kapto_rules::piece_definition::{
    CaptureRequirement, CaptureRule, CaptureTarget, CaptureTimingRule, GoalMovementRule, JumpLimit,
    JumpRule, MoveRule, PieceDefinition, Shape,
};
use kapto_rules::piece_limit::PieceLimit;
use kapto_rules::placement_area::PlacementArea;
use kapto_rules::ruleset::Ruleset;
use kapto_rules::space::Space;
use kapto_rules::standard::standard_rules;
use kapto_rules::starting_positions::StartingPositions;
use kapto_rules::alteration_type::AlternationType;
use kapto_rules::victory_condition::VictoryCondition;

#[test]
fn standard_rules_round_trip() {
    let rules = standard_rules();
    let text = encode_ruleset(&rules);
    let decoded = decode_ruleset(&text).expect("decoding the crate's own text must succeed");
    // Encoding is a function of the abstract value alone, so equal re-encoded
    // text means the decoded value equals the original, field for field.
    assert_eq!(encode_ruleset(&decoded), text);
    assert_eq!(decoded.name, "Standard");
    assert_eq!(decoded.seats, 2);
    assert_eq!(decoded.pieces.len(), 2);
    assert_eq!(decoded.pieces[0].name, "Big");
    assert!(decoded.verify().is_ok());
}

#[test]
fn placement_ruleset_round_trip() {
    let rules = Ruleset {
        name: "Every variant".to_string(),
        seats: 3,
        allies: vec![vec![0, 2], vec![1]],
        seat_colors: vec![
            Color::new(1, 2, 3, 4),
            Color::new(255, 254, 253, 252),
            Color::new(0, 0, 0, 0),
        ],
        pieces: vec![PieceDefinition {
            name: "Jumper".to_string(),
            capture_rules: vec![
                (CaptureRule::JumpOver, CaptureTarget::EnemyOnly),
                (CaptureRule::JumpOn, CaptureTarget::OwnOnly),
            ],
            jump_rule: JumpRule::NoSameStart,
            capture_timing_rule: CaptureTimingRule::AfterJump,
            capture_requirement: CaptureRequirement::Forced(-7),
            jump_limit: JumpLimit::Limited {
                limit: 4,
                directions: Directions::diagonal(),
            },
            move_rule: MoveRule::SameDirection {
                limit: 2,
                directions: Directions::cardinal(),
            },
            goal_move_rule: GoalMovementRule::OnlyToGoal,
            shape: Shape::Plus { ratio: 250 },
            size: 750,
            outline_color: Color::new(10, 20, 30, 40),
        }],
        board_type: BoardType::Custom(SpaceGrid::from_flat(
            2,
            3,
            vec![
                Space::Normal,
                Space::Invalid,
                Space::Goal(2),
                Space::Goal(0),
                Space::Normal,
                Space::Normal,
            ],
        )),
        starting_positions: StartingPositions::Placement {
            first_seat: 1,
            alternation_type: AlternationType::TurnsPoints {
                per_turn_points: 5,
                hard_limit: true,
            },
            placement_area: PlacementArea::NonMirrored(vec![
                vec![Coordinate::new(0, 0)],
                vec![Coordinate::new(1, 1)],
                vec![Coordinate::new(1, 2)],
            ]),
            piece_limits: vec![
                PieceLimit::TotalLimit { limit: 9 },
                PieceLimit::PointLimit {
                    point_values: vec![3],
                    point_limit: 12,
                },
            ],
        },
        victory_conditions: vec![
            VictoryCondition::GoalCount {
                amount: 1,
                valid_pieces: vec![0],
            },
            VictoryCondition::PointDifference(4),
        ],
    };
    let text = encode_ruleset(&rules);
    let decoded = decode_ruleset(&text).expect("decoding the crate's own text must succeed");
    assert_eq!(encode_ruleset(&decoded), text);
    assert_eq!(decoded.seats, 3);
    assert_eq!(decoded.allies, vec![vec![0, 2], vec![1]]);
    assert_eq!(decoded.pieces[0].name, "Jumper");
    assert_eq!(decoded.pieces[0].size, 750);
    // The custom grid decodes to the same spaces.
    assert_eq!(
        decoded.board_type.get_space(Coordinate::new(0, 2)),
        Space::Goal(2)
    );
    assert_eq!(
        decoded.board_type.get_space(Coordinate::new(1, 0)),
        Space::Goal(0)
    );
}

#[test]
fn mirrored_rotated_round_trip() {
    let rules = Ruleset {
        name: "".to_string(),
        seats: 2,
        allies: vec![],
        seat_colors: vec![Color::new(1, 1, 1, 1), Color::new(2, 2, 2, 2)],
        pieces: vec![],
        board_type: BoardType::Rectangular {
            rows: 10,
            columns: 10,
            goal_locations: vec![],
        },
        starting_positions: StartingPositions::MirroredRotated(vec![vec![
            Coordinate::new(1, 1),
            Coordinate::new(-3, 7),
        ]]),
        victory_conditions: vec![],
    };
    let text = encode_ruleset(&rules);
    let decoded = decode_ruleset(&text).expect("decoding the crate's own text must succeed");
    assert_eq!(encode_ruleset(&decoded), text);
    match decoded.starting_positions {
        StartingPositions::MirroredRotated(positions) => {
            assert_eq!(
                positions,
                vec![vec![Coordinate::new(1, 1), Coordinate::new(-3, 7)]]
            );
        }
        _ => panic!("variant changed across the round trip"),
    }
}

#[test]
fn malformed_payloads_fail_distinctly() {
    assert!(decode_ruleset("").is_err());
    assert!(decode_ruleset("not a ruleset").is_err());
    let text = encode_ruleset(&standard_rules());
    // Truncation is malformed.
    assert!(decode_ruleset(&text[..text.len() - 1]).is_err());
    // Trailing characters are malformed.
    let mut extended = text.clone();
    extended.push('0');
    assert!(decode_ruleset(&extended).is_err());
    // A non-digit where a number is expected is malformed.
    let mut non_digit = text.clone();
    non_digit.replace_range(0..1, "x");
    assert!(decode_ruleset(&non_digit).is_err());
    // A wildly overstated text length is malformed.
    let mut huge = text.clone();
    huge.replace_range(0..1, "9");
    assert!(decode_ruleset(&huge).is_err());
}

#[test]
fn color_text_form() {
    let color = Color::new(1, 22, 255, 0);
    assert_eq!(color.text().as_str(), "rgba(1, 22, 255, 0)");
    assert_eq!(color, Color::new(1, 22, 255, 0));
    assert_ne!(color, Color::new(1, 22, 255, 1));
}

#[test]
fn color_channels_recovered() {
    assert_eq!(Color::new(1, 22, 255, 0).channels(), Some((1, 22, 255, 0)));
    assert_eq!(Color::new(0, 0, 0, 0).channels(), Some((0, 0, 0, 0)));
    assert_eq!(Color::new(255, 255, 255, 255).channels(), Some((255, 255, 255, 255)));
    assert_eq!(Color::new(9, 10, 99, 100).channels(), Some((9, 10, 99, 100)));
    assert_eq!(
        Color::from_text("rgba(12, 0, 255, 7)".to_string()).channels(),
        Some((12, 0, 255, 7))
    );
}

#[test]
fn color_channels_reject_non_renderings() {
    assert_eq!(Color::from_text("".to_string()).channels(), None);
    assert_eq!(Color::from_text("junk".to_string()).channels(), None);
    // A leading zero is not how the renderer writes a channel.
    assert_eq!(Color::from_text("rgba(01, 2, 3, 4)".to_string()).channels(), None);
    // A channel value above a byte is never rendered.
    assert_eq!(Color::from_text("rgba(256, 0, 0, 0)".to_string()).channels(), None);
    // Trailing text is not a rendering.
    assert_eq!(Color::from_text("rgba(1, 2, 3, 4) ".to_string()).channels(), None);
    // A missing channel is not a rendering.
    assert_eq!(Color::from_text("rgba(1, 2, 3)".to_string()).channels(), None);
}

#[test]
fn extreme_values_round_trip() {
    let rules = Ruleset {
        name: "Dáma ♛ — žluté".to_string(),
        seats: u64::MAX,
        allies: vec![vec![u64::MAX, 0]],
        seat_colors: vec![Color::new(0, 0, 0, 0)],
        pieces: vec![PieceDefinition {
            name: "".to_string(),
            capture_rules: vec![],
            jump_rule: JumpRule::NoBacktracking,
            capture_timing_rule: CaptureTimingRule::AfterTurn,
            capture_requirement: CaptureRequirement::Forced(isize::MIN),
            jump_limit: JumpLimit::Limited {
                limit: usize::MAX,
                directions: Directions::none(),
            },
            move_rule: MoveRule::NoMovement,
            goal_move_rule: GoalMovementRule::Locked,
            shape: Shape::HorizontalBar { ratio: u64::MAX },
            size: 0,
            outline_color: Color::new(255, 255, 255, 255),
        }],
        board_type: BoardType::Rectangular {
            rows: 255,
            columns: 0,
            goal_locations: vec![0, 255],
        },
        starting_positions: StartingPositions::MirroredFlipped(vec![vec![
            Coordinate::new(i16::MIN, i16::MAX),
            Coordinate::new(i16::MAX, i16::MIN),
            Coordinate::new(0, -1),
        ]]),
        victory_conditions: vec![VictoryCondition::PointDifference(usize::MAX)],
    };
    let text = encode_ruleset(&rules);
    let decoded = decode_ruleset(&text).expect("decoding the crate's own text must succeed");
    assert_eq!(encode_ruleset(&decoded), text);
    assert_eq!(decoded.name, "Dáma ♛ — žluté");
    assert_eq!(decoded.seats, u64::MAX);
    assert_eq!(
        decoded.pieces[0].capture_requirement,
        CaptureRequirement::Forced(isize::MIN)
    );
    match &decoded.starting_positions {
        StartingPositions::MirroredFlipped(positions) => {
            assert_eq!(positions[0][0], Coordinate::new(i16::MIN, i16::MAX));
            assert_eq!(positions[0][1], Coordinate::new(i16::MAX, i16::MIN));
        }
        _ => panic!("variant changed across the round trip"),
    }
}

#[test]
fn default_space_is_normal() {
    assert_eq!(Space::default(), Space::Normal);
}
