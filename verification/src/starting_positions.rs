//! The four strategies for initial piece placement: two mirrored variants
//! (one side given, the other derived by flip or rotation), an explicit
//! per-seat variant, and a deferred placement phase.

use vstd::prelude::*;

use crate::alteration_type::{spec_verify_alternation, AlterationTypeError, AlternationType};
use crate::board_type::{board_wf, spec_get_space, BoardTypeView};
use crate::coordinate::{flip_coordinate, rotate_coordinate, Coordinate};
use crate::piece_definition::{PieceDefinition, PieceDefinitionView};
use crate::piece_limit::{
    piece_limits_view,
    spec_verify_piece_limits,
    PieceLimit,
    PieceLimitError,
    PieceLimitErrorView,
    PieceLimitView,
};
use crate::placement_area::{
    contains_coordinate,
    mirror_image,
    spec_verify_area,
    PlacementArea,
    PlacementAreaError,
    PlacementAreaView,
};
use crate::ruleset::{Ruleset, RulesetView};
use crate::space::Space;

verus! {

/// Defines the starting positions.
pub enum StartingPositions {
    /// Mirrored start positions; only one side is given, and the other is
    /// derived by flipping about the horizontal center. Indexed by piece,
    /// then a list of positions.
    MirroredFlipped(Vec<Vec<Coordinate>>),
    /// Mirrored start positions; only one side is given, and the other is
    /// derived by 180-degree rotation. Indexed by piece, then a list of
    /// positions.
    MirroredRotated(Vec<Vec<Coordinate>>),
    /// Start positions for all seats; one entry per seat must be given.
    /// Indexed by seat, then piece, then a list of positions.
    NotMirrored(Vec<Vec<Vec<Coordinate>>>),
    /// Players alternate placing pieces in a placement phase.
    Placement {
        /// The seat to go first.
        first_seat: u64,
        /// The way turns alternate.
        alternation_type: AlternationType,
        /// The valid placement area.
        placement_area: PlacementArea,
        /// The limits on piece placement. A set compared by kind: at most one
        /// limit of each kind is meaningful.
        piece_limits: Vec<PieceLimit>,
    },
}

/// The abstract value of a starting-position strategy.
#[verifier::ext_equal]
pub enum StartingPositionsView {
    MirroredFlipped(Seq<Seq<Coordinate>>),
    MirroredRotated(Seq<Seq<Coordinate>>),
    NotMirrored(Seq<Seq<Seq<Coordinate>>>),
    Placement {
        first_seat: u64,
        alternation_type: AlternationType,
        placement_area: PlacementAreaView,
        piece_limits: Seq<PieceLimitView>,
    },
}

impl View for StartingPositions {
    type V = StartingPositionsView;

    open spec fn view(&self) -> StartingPositionsView {
        match self {
            StartingPositions::MirroredFlipped(positions) => StartingPositionsView::MirroredFlipped(
                positions@.map_values(|v: Vec<Coordinate>| v@),
            ),
            StartingPositions::MirroredRotated(positions) => StartingPositionsView::MirroredRotated(
                positions@.map_values(|v: Vec<Coordinate>| v@),
            ),
            StartingPositions::NotMirrored(positions) => StartingPositionsView::NotMirrored(
                positions@.map_values(
                    |seat: Vec<Vec<Coordinate>>| seat@.map_values(|v: Vec<Coordinate>| v@),
                ),
            ),
            StartingPositions::Placement {
                first_seat,
                alternation_type,
                placement_area,
                piece_limits,
            } => StartingPositionsView::Placement {
                first_seat: *first_seat,
                alternation_type: *alternation_type,
                placement_area: placement_area@,
                piece_limits: piece_limits_view(piece_limits@),
            },
        }
    }
}

/// One piece's position list of a mirrored layout, scanned from position `j`
/// with the coordinates of `found` already taken: a coordinate must not be
/// reused, it must resolve to a normal space, and so must its mirror image.
/// On success the updated tracking set is handed back.
pub open spec fn scan_mirrored_row(
    positions: Seq<Coordinate>,
    j: int,
    piece: PieceDefinitionView,
    board: BoardTypeView,
    rotated: bool,
    found: Seq<Coordinate>,
) -> Result<Seq<Coordinate>, StartingPositionsErrorView>
    decreases positions.len() - j,
{
    if j < 0 || j >= positions.len() {
        Ok(found)
    } else {
        let position = positions[j];
        if found.contains(position) {
            Err(StartingPositionsErrorView::DuplicatePosition { piece, position })
        } else {
            let space = spec_get_space(board, position);
            if !(space is Normal) {
                Err(StartingPositionsErrorView::InvalidPositionForBoard { space, piece, position })
            } else {
                let image_space = spec_get_space(board, mirror_image(board, position, rotated));
                if !(image_space is Normal) {
                    Err(
                        StartingPositionsErrorView::InvalidPositionForBoard {
                            space: image_space,
                            piece,
                            position,
                        },
                    )
                } else {
                    scan_mirrored_row(positions, j + 1, piece, board, rotated, found.push(position))
                }
            }
        }
    }
}

/// A mirrored layout, scanned from piece index `k`: every position list must
/// belong to a defined piece, and its rows must pass [`scan_mirrored_row`]
/// under one shared tracking set.
pub open spec fn scan_mirrored(
    positions: Seq<Seq<Coordinate>>,
    k: int,
    pieces: Seq<PieceDefinitionView>,
    board: BoardTypeView,
    rotated: bool,
    found: Seq<Coordinate>,
) -> Option<StartingPositionsErrorView>
    decreases positions.len() - k,
{
    if k < 0 || k >= positions.len() {
        None
    } else if k >= pieces.len() {
        Some(StartingPositionsErrorView::PieceIndexNotFound(k as usize))
    } else {
        match scan_mirrored_row(positions[k], 0, pieces[k], board, rotated, found) {
            Err(e) => Some(e),
            Ok(taken) => scan_mirrored(positions, k + 1, pieces, board, rotated, taken),
        }
    }
}

/// One piece's position list of an explicit layout, scanned from position
/// `j`: a coordinate must not be reused and must resolve to a normal space.
pub open spec fn scan_plain_row(
    positions: Seq<Coordinate>,
    j: int,
    piece: PieceDefinitionView,
    board: BoardTypeView,
    found: Seq<Coordinate>,
) -> Result<Seq<Coordinate>, StartingPositionsErrorView>
    decreases positions.len() - j,
{
    if j < 0 || j >= positions.len() {
        Ok(found)
    } else {
        let position = positions[j];
        if found.contains(position) {
            Err(StartingPositionsErrorView::DuplicatePosition { piece, position })
        } else {
            let space = spec_get_space(board, position);
            if !(space is Normal) {
                Err(StartingPositionsErrorView::InvalidPositionForBoard { space, piece, position })
            } else {
                scan_plain_row(positions, j + 1, piece, board, found.push(position))
            }
        }
    }
}

/// One seat of an explicit layout, scanned from piece index `k`.
pub open spec fn scan_seat(
    piece_positions: Seq<Seq<Coordinate>>,
    k: int,
    pieces: Seq<PieceDefinitionView>,
    board: BoardTypeView,
    found: Seq<Coordinate>,
) -> Result<Seq<Coordinate>, StartingPositionsErrorView>
    decreases piece_positions.len() - k,
{
    if k < 0 || k >= piece_positions.len() {
        Ok(found)
    } else if k >= pieces.len() {
        Err(StartingPositionsErrorView::PieceIndexNotFound(k as usize))
    } else {
        match scan_plain_row(piece_positions[k], 0, pieces[k], board, found) {
            Err(e) => Err(e),
            Ok(taken) => scan_seat(piece_positions, k + 1, pieces, board, taken),
        }
    }
}

/// An explicit layout, scanned from seat `t` under one shared tracking set.
pub open spec fn scan_seats(
    seat_positions: Seq<Seq<Seq<Coordinate>>>,
    t: int,
    pieces: Seq<PieceDefinitionView>,
    board: BoardTypeView,
    found: Seq<Coordinate>,
) -> Option<StartingPositionsErrorView>
    decreases seat_positions.len() - t,
{
    if t < 0 || t >= seat_positions.len() {
        None
    } else {
        match scan_seat(seat_positions[t], 0, pieces, board, found) {
            Err(e) => Some(e),
            Ok(taken) => scan_seats(seat_positions, t + 1, pieces, board, taken),
        }
    }
}

/// The first failure of a starting-position strategy against a ruleset. The
/// mirrored variants check their one side and its mirror image; the explicit
/// variant requires exactly one entry per seat and checks every coordinate;
/// the placement variant delegates to its alternation type, placement area
/// and piece limits, in that order.
pub open spec fn spec_verify_starting_positions(
    positions: StartingPositionsView,
    ruleset: RulesetView,
) -> Option<StartingPositionsErrorView> {
    match positions {
        StartingPositionsView::MirroredFlipped(p) => scan_mirrored(
            p,
            0,
            ruleset.pieces,
            ruleset.board_type,
            false,
            Seq::empty(),
        ),
        StartingPositionsView::MirroredRotated(p) => scan_mirrored(
            p,
            0,
            ruleset.pieces,
            ruleset.board_type,
            true,
            Seq::empty(),
        ),
        StartingPositionsView::NotMirrored(p) => if p.len() != ruleset.seats {
            Some(StartingPositionsErrorView::SeatNumberDoesNotMatch(p.len() as usize))
        } else {
            scan_seats(p, 0, ruleset.pieces, ruleset.board_type, Seq::empty())
        },
        StartingPositionsView::Placement {
            first_seat: _,
            alternation_type,
            placement_area,
            piece_limits,
        } => {
            match spec_verify_alternation(alternation_type, piece_limits) {
                Some(e) => Some(StartingPositionsErrorView::AlterationTypeError(e)),
                None => match spec_verify_area(placement_area, ruleset.seats, ruleset.board_type) {
                    Some(e) => Some(StartingPositionsErrorView::PlacementAreaError(e)),
                    None => match spec_verify_piece_limits(piece_limits, ruleset.pieces) {
                        Some(e) => Some(StartingPositionsErrorView::PieceLimitError(e)),
                        None => None,
                    },
                },
            }
        },
    }
}

impl StartingPositions {
    /// Checks the starting positions against the ruleset's board and pieces.
    pub fn verify(&self, ruleset: &Ruleset) -> (result: StartingPositionsResult<()>)
        requires
            board_wf(ruleset.board_type@),
        ensures
            result is Ok <==> starting_positions_valid(self@, ruleset@),
            match result {
                Ok(_) => spec_verify_starting_positions(self@, ruleset@) is None,
                Err(e) => Some(e@) == spec_verify_starting_positions(self@, ruleset@),
            },
    {
        proof {
            lemma_starting_positions_valid(self@, ruleset@);
        }
        match self {
            StartingPositions::MirroredFlipped(positions) => Self::verify_mirrored(
                positions,
                false,
                ruleset,
            ),
            StartingPositions::MirroredRotated(positions) => Self::verify_mirrored(
                positions,
                true,
                ruleset,
            ),
            StartingPositions::NotMirrored(positions) => Self::verify_not_mirrored(
                positions,
                ruleset,
            ),
            StartingPositions::Placement {
                first_seat: _,
                alternation_type,
                placement_area,
                piece_limits,
            } => {
                match alternation_type.verify(piece_limits) {
                    Err(e) => {
                        return Err(StartingPositionsError::AlterationTypeError(e));
                    },
                    Ok(_) => {},
                }
                match placement_area.verify(ruleset) {
                    Err(e) => {
                        return Err(StartingPositionsError::PlacementAreaError(e));
                    },
                    Ok(_) => {},
                }
                match PieceLimit::verify(piece_limits, ruleset) {
                    Err(e) => {
                        return Err(StartingPositionsError::PieceLimitError(e));
                    },
                    Ok(_) => {},
                }
                Ok(())
            },
        }
    }

    /// Checks one mirrored layout: positions indexed by piece, with one
    /// tracking set over the listed coordinates of all pieces.
    #[verifier::loop_isolation(false)]
    fn verify_mirrored(positions: &Vec<Vec<Coordinate>>, rotated: bool, ruleset: &Ruleset) -> (result:
        StartingPositionsResult<()>)
        requires
            board_wf(ruleset.board_type@),
        ensures
            match result {
                Ok(_) => scan_mirrored(
                    positions@.map_values(|v: Vec<Coordinate>| v@),
                    0,
                    ruleset@.pieces,
                    ruleset.board_type@,
                    rotated,
                    Seq::empty(),
                ) is None,
                Err(e) => Some(e@) == scan_mirrored(
                    positions@.map_values(|v: Vec<Coordinate>| v@),
                    0,
                    ruleset@.pieces,
                    ruleset.board_type@,
                    rotated,
                    Seq::empty(),
                ),
            },
    {
        let ghost all = positions@.map_values(|v: Vec<Coordinate>| v@);
        let ghost pieces = ruleset@.pieces;
        let ghost board = ruleset.board_type@;
        let mut found: Vec<Coordinate> = Vec::new();
        let mut k: usize = 0;
        while k < positions.len()
            invariant
                k <= positions@.len(),
                all == positions@.map_values(|v: Vec<Coordinate>| v@),
                pieces == ruleset@.pieces,
                board == ruleset.board_type@,
                board_wf(board),
                scan_mirrored(all, 0, pieces, board, rotated, Seq::empty()) == scan_mirrored(
                    all,
                    k as int,
                    pieces,
                    board,
                    rotated,
                    found@,
                ),
            decreases positions@.len() - k,
        {
            if k >= ruleset.pieces.len() {
                return Err(StartingPositionsError::PieceIndexNotFound(k));
            }
            let piece = &ruleset.pieces[k];
            let row = &positions[k];
            let mut j: usize = 0;
            while j < row.len()
                invariant
                    k < positions@.len(),
                    (k as int) < pieces.len(),
                    j <= row@.len(),
                    row@ == all[k as int],
                    piece@ == pieces[k as int],
                    all == positions@.map_values(|v: Vec<Coordinate>| v@),
                    pieces == ruleset@.pieces,
                    board == ruleset.board_type@,
                    board_wf(board),
                    scan_mirrored(all, 0, pieces, board, rotated, Seq::empty()) == (
                    match scan_mirrored_row(all[k as int], j as int, pieces[k as int], board, rotated, found@) {
                        Err(e) => Some(e),
                        Ok(taken) => scan_mirrored(all, k + 1, pieces, board, rotated, taken),
                    }),
                decreases row@.len() - j,
            {
                let position = row[j];
                if contains_coordinate(&found, position) {
                    return Err(
                        StartingPositionsError::DuplicatePosition {
                            piece: piece.duplicate(),
                            position,
                        },
                    );
                }
                let space = ruleset.board_type.get_space(position);
                match space {
                    Space::Normal => {},
                    _ => {
                        return Err(
                            StartingPositionsError::InvalidPositionForBoard {
                                space,
                                piece: piece.duplicate(),
                                position,
                            },
                        );
                    },
                }
                let image = if rotated {
                    rotate_coordinate(&ruleset.board_type, position)
                } else {
                    flip_coordinate(&ruleset.board_type, position)
                };
                assert(image == mirror_image(board, position, rotated));
                let image_space = ruleset.board_type.get_space(image);
                match image_space {
                    Space::Normal => {},
                    _ => {
                        return Err(
                            StartingPositionsError::InvalidPositionForBoard {
                                space: image_space,
                                piece: piece.duplicate(),
                                position,
                            },
                        );
                    },
                }
                found.push(position);
                j = j + 1;
            }
            k = k + 1;
        }
        Ok(())
    }

    /// Checks one explicit layout: positions indexed by seat and piece, one
    /// shared tracking set over all seats.
    #[verifier::loop_isolation(false)]
    fn verify_not_mirrored(positions: &Vec<Vec<Vec<Coordinate>>>, ruleset: &Ruleset) -> (result:
        StartingPositionsResult<()>)
        requires
            board_wf(ruleset.board_type@),
        ensures
            match result {
                Ok(_) => (positions@.len() == ruleset.seats && scan_seats(
                    positions@.map_values(
                        |seat: Vec<Vec<Coordinate>>| seat@.map_values(|v: Vec<Coordinate>| v@),
                    ),
                    0,
                    ruleset@.pieces,
                    ruleset.board_type@,
                    Seq::empty(),
                ) is None),
                Err(e) => Some(e@) == (if positions@.len() != ruleset.seats {
                    Some(
                        StartingPositionsErrorView::SeatNumberDoesNotMatch(
                            positions@.len() as usize,
                        ),
                    )
                } else {
                    scan_seats(
                        positions@.map_values(
                            |seat: Vec<Vec<Coordinate>>| seat@.map_values(|v: Vec<Coordinate>| v@),
                        ),
                        0,
                        ruleset@.pieces,
                        ruleset.board_type@,
                        Seq::empty(),
                    )
                }),
            },
    {
        if positions.len() as u64 != ruleset.seats {
            return Err(StartingPositionsError::SeatNumberDoesNotMatch(positions.len()));
        }
        let ghost all = positions@.map_values(
            |seat: Vec<Vec<Coordinate>>| seat@.map_values(|v: Vec<Coordinate>| v@),
        );
        let ghost pieces = ruleset@.pieces;
        let ghost board = ruleset.board_type@;
        let mut found: Vec<Coordinate> = Vec::new();
        let mut t: usize = 0;
        while t < positions.len()
            invariant
                t <= positions@.len(),
                all == positions@.map_values(
                    |seat: Vec<Vec<Coordinate>>| seat@.map_values(|v: Vec<Coordinate>| v@),
                ),
                pieces == ruleset@.pieces,
                board == ruleset.board_type@,
                board_wf(board),
                scan_seats(all, 0, pieces, board, Seq::empty()) == scan_seats(
                    all,
                    t as int,
                    pieces,
                    board,
                    found@,
                ),
            decreases positions@.len() - t,
        {
            let seat = &positions[t];
            let mut k: usize = 0;
            while k < seat.len()
                invariant
                    t < positions@.len(),
                    k <= seat@.len(),
                    seat@.map_values(|v: Vec<Coordinate>| v@) == all[t as int],
                    all == positions@.map_values(
                        |s: Vec<Vec<Coordinate>>| s@.map_values(|v: Vec<Coordinate>| v@),
                    ),
                    pieces == ruleset@.pieces,
                    board == ruleset.board_type@,
                    board_wf(board),
                    scan_seats(all, 0, pieces, board, Seq::empty()) == (
                    match scan_seat(all[t as int], k as int, pieces, board, found@) {
                        Err(e) => Some(e),
                        Ok(taken) => scan_seats(all, t + 1, pieces, board, taken),
                    }),
                decreases seat@.len() - k,
            {
                if k >= ruleset.pieces.len() {
                    return Err(StartingPositionsError::PieceIndexNotFound(k));
                }
                let piece = &ruleset.pieces[k];
                let row = &seat[k];
                let mut j: usize = 0;
                while j < row.len()
                    invariant
                        t < positions@.len(),
                        k < seat@.len(),
                        (k as int) < pieces.len(),
                        j <= row@.len(),
                        row@ == all[t as int][k as int],
                        piece@ == pieces[k as int],
                        seat@.map_values(|v: Vec<Coordinate>| v@) == all[t as int],
                        all == positions@.map_values(
                            |s: Vec<Vec<Coordinate>>| s@.map_values(|v: Vec<Coordinate>| v@),
                        ),
                        pieces == ruleset@.pieces,
                        board == ruleset.board_type@,
                        board_wf(board),
                        scan_seats(all, 0, pieces, board, Seq::empty()) == (
                        match scan_plain_row(
                            all[t as int][k as int],
                            j as int,
                            pieces[k as int],
                            board,
                            found@,
                        ) {
                            Err(e) => Some(e),
                            Ok(taken) => (
                            match scan_seat(all[t as int], k + 1, pieces, board, taken) {
                                Err(e) => Some(e),
                                Ok(taken2) => scan_seats(all, t + 1, pieces, board, taken2),
                            }),
                        }),
                    decreases row@.len() - j,
                {
                    let position = row[j];
                    if contains_coordinate(&found, position) {
                        return Err(
                            StartingPositionsError::DuplicatePosition {
                                piece: piece.duplicate(),
                                position,
                            },
                        );
                    }
                    let space = ruleset.board_type.get_space(position);
                    match space {
                        Space::Normal => {},
                        _ => {
                            return Err(
                                StartingPositionsError::InvalidPositionForBoard {
                                    space,
                                    piece: piece.duplicate(),
                                    position,
                                },
                            );
                        },
                    }
                    found.push(position);
                    j = j + 1;
                }
                k = k + 1;
            }
            t = t + 1;
        }
        Ok(())
    }
}

/// Membership in a pushed tracking set.
proof fn lemma_contains_push(s: Seq<Coordinate>, x: Coordinate, y: Coordinate)
    ensures
        s.push(x).contains(y) <==> s.contains(y) || y == x,
{
    if s.push(x).contains(y) {
        let n = choose|n: int| 0 <= n < s.push(x).len() && s.push(x)[n] == y;
        if n < s.len() {
            assert(s[n] == y);
        }
    }
    if s.contains(y) {
        let n = choose|n: int| 0 <= n < s.len() && s[n] == y;
        assert(s.push(x)[n] == y);
    }
    if y == x {
        assert(s.push(x)[s.len() as int] == y);
    }
}

/// Whether every coordinate of the row suffix is fresh, pairwise distinct,
/// and resolves to a normal space together with its mirror image.
pub open spec fn mirrored_row_fits(
    positions: Seq<Coordinate>,
    j: int,
    board: BoardTypeView,
    rotated: bool,
    found: Seq<Coordinate>,
) -> bool {
    (forall|b: int| j <= b < positions.len() ==> !found.contains(#[trigger] positions[b]))
        && (forall|b1: int, b2: int|
        j <= b1 < b2 < positions.len() ==> positions[b1] != positions[b2]) && (forall|b: int|
        j <= b < positions.len() ==> spec_get_space(board, #[trigger] positions[b]) is Normal
            && spec_get_space(board, mirror_image(board, positions[b], rotated)) is Normal)
}

/// The row scan succeeds exactly when the row fits, and then hands back the
/// tracking set extended by the row's coordinates.
proof fn lemma_mirrored_row_valid(
    positions: Seq<Coordinate>,
    j: int,
    piece: PieceDefinitionView,
    board: BoardTypeView,
    rotated: bool,
    found: Seq<Coordinate>,
)
    requires
        0 <= j <= positions.len(),
    ensures
        scan_mirrored_row(positions, j, piece, board, rotated, found) is Ok <==> mirrored_row_fits(
            positions,
            j,
            board,
            rotated,
            found,
        ),
        scan_mirrored_row(positions, j, piece, board, rotated, found) matches Ok(taken) ==> taken
            == found + positions.skip(j),
    decreases positions.len() - j,
{
    if j == positions.len() {
        assert(found + positions.skip(j) =~= found);
    } else {
        let position = positions[j];
        if !found.contains(position) && spec_get_space(board, position) is Normal
            && spec_get_space(board, mirror_image(board, position, rotated)) is Normal {
            lemma_mirrored_row_valid(positions, j + 1, piece, board, rotated, found.push(position));
            assert(forall|y: Coordinate|
                #[trigger] found.push(position).contains(y) <==> found.contains(y) || y
                    == position) by {
                assert forall|y: Coordinate|
                    found.push(position).contains(y) <==> found.contains(y) || y == position by {
                    lemma_contains_push(found, position, y);
                }
            }
            assert(found.push(position) + positions.skip(j + 1) =~= found + positions.skip(j));
            if scan_mirrored_row(positions, j, piece, board, rotated, found) is Ok {
                assert forall|b1: int, b2: int|
                    j <= b1 < b2 < positions.len() implies positions[b1] != positions[b2] by {
                    if b1 == j {
                        assert(!found.push(position).contains(positions[b2]));
                    }
                }
            }
        }
    }
}

/// What a valid mirrored layout satisfies: every listed piece is defined,
/// every coordinate and its mirror image resolve to a normal space, and no
/// coordinate is listed twice, within a piece's list or across lists.
pub open spec fn mirrored_layout_valid(
    positions: Seq<Seq<Coordinate>>,
    pieces: Seq<PieceDefinitionView>,
    board: BoardTypeView,
    rotated: bool,
) -> bool {
    positions.len() <= pieces.len() && (forall|a: int, b: int|
        0 <= a < positions.len() && 0 <= b < positions[a].len() ==> spec_get_space(
            board,
            #[trigger] positions[a][b],
        ) is Normal && spec_get_space(
            board,
            mirror_image(board, positions[a][b], rotated),
        ) is Normal) && (forall|a1: int, b1: int, a2: int, b2: int|
        0 <= a1 < positions.len() && 0 <= b1 < positions[a1].len() && 0 <= a2 < positions.len()
            && 0 <= b2 < positions[a2].len() && (a1 != a2 || b1 != b2)
            ==> #[trigger] positions[a1][b1] != #[trigger] positions[a2][b2])
}

/// A mirrored layout verifies exactly when it is valid.
pub proof fn lemma_mirrored_positions_valid(
    positions: Seq<Seq<Coordinate>>,
    pieces: Seq<PieceDefinitionView>,
    board: BoardTypeView,
    rotated: bool,
)
    ensures
        scan_mirrored(positions, 0, pieces, board, rotated, Seq::empty()) is None
            <==> mirrored_layout_valid(positions, pieces, board, rotated),
{
    lemma_scan_mirrored_valid(positions, 0, pieces, board, rotated, Seq::empty());
    assert(flattened_before(positions, 0) =~= Seq::<Coordinate>::empty());
}

/// The coordinates of the rows before row `k`, flattened in listing order.
pub open spec fn flattened_before(positions: Seq<Seq<Coordinate>>, k: int) -> Seq<Coordinate>
    decreases k,
{
    if k <= 0 || k > positions.len() {
        Seq::empty()
    } else {
        flattened_before(positions, k - 1) + positions[k - 1]
    }
}

proof fn lemma_scan_mirrored_valid(
    positions: Seq<Seq<Coordinate>>,
    k: int,
    pieces: Seq<PieceDefinitionView>,
    board: BoardTypeView,
    rotated: bool,
    found: Seq<Coordinate>,
)
    requires
        0 <= k <= positions.len(),
        found == flattened_before(positions, k),
    ensures
        scan_mirrored(positions, k, pieces, board, rotated, found) is None <==> (positions.len()
            <= pieces.len() || positions.len() <= k) && (forall|a: int, b: int|
            k <= a < positions.len() && 0 <= b < positions[a].len() ==> spec_get_space(
                board,
                #[trigger] positions[a][b],
            ) is Normal && spec_get_space(
                board,
                mirror_image(board, positions[a][b], rotated),
            ) is Normal) && (forall|a1: int, b1: int, a2: int, b2: int|
            0 <= a1 < positions.len() && 0 <= b1 < positions[a1].len() && k <= a2 < positions.len()
                && 0 <= b2 < positions[a2].len() && (a1 != a2 || b1 != b2) && a1 <= a2
                ==> #[trigger] positions[a1][b1] != #[trigger] positions[a2][b2]),
    decreases positions.len() - k,
{
    if k < positions.len() {
        if k >= pieces.len() {
            // The scan stops on an unknown piece index, and the right side's
            // first clause fails too.
        } else {
            lemma_mirrored_row_valid(positions[k], 0, pieces[k], board, rotated, found);
            lemma_flattened_membership(positions, k);
            assert(positions[k].skip(0) =~= positions[k]);
            match scan_mirrored_row(positions[k], 0, pieces[k], board, rotated, found) {
                Err(_) => {
                    // The row itself does not fit: a space fails, or a
                    // coordinate repeats one of this row or of an earlier row.
                },
                Ok(taken) => {
                    assert(taken =~= flattened_before(positions, k + 1));
                    lemma_scan_mirrored_valid(positions, k + 1, pieces, board, rotated, taken);
                    lemma_flattened_membership(positions, k + 1);
                },
            }
        }
    }
}

/// A coordinate stands in the flattened prefix exactly when some earlier row
/// lists it.
proof fn lemma_flattened_membership(positions: Seq<Seq<Coordinate>>, k: int)
    requires
        0 <= k <= positions.len(),
    ensures
        forall|y: Coordinate|
            #[trigger] flattened_before(positions, k).contains(y) <==> exists|a: int, b: int|
                0 <= a < k && 0 <= b < positions[a].len() && #[trigger] positions[a][b] == y,
    decreases k,
{
    if k > 0 {
        lemma_flattened_membership(positions, k - 1);
        assert forall|y: Coordinate| #[trigger]
            flattened_before(positions, k).contains(y) implies exists|a: int, b: int|
            0 <= a < k && 0 <= b < positions[a].len() && #[trigger] positions[a][b] == y by {
            let flat = flattened_before(positions, k);
            let prev = flattened_before(positions, k - 1);
            let n = choose|n: int| 0 <= n < flat.len() && flat[n] == y;
            if n < prev.len() {
                assert(prev[n] == y);
                assert(prev.contains(y));
            } else {
                assert(positions[k - 1][n - prev.len()] == y);
            }
        }
        assert forall|y: Coordinate|
            (exists|a: int, b: int|
                0 <= a < k && 0 <= b < positions[a].len() && #[trigger] positions[a][b]
                    == y) implies #[trigger] flattened_before(positions, k).contains(y) by {
            let (a, b) = choose|a: int, b: int|
                0 <= a < k && 0 <= b < positions[a].len() && #[trigger] positions[a][b] == y;
            let prev = flattened_before(positions, k - 1);
            if a < k - 1 {
                assert(prev.contains(y));
                let n = choose|n: int| 0 <= n < prev.len() && prev[n] == y;
                assert(flattened_before(positions, k)[n] == y);
            } else {
                assert(flattened_before(positions, k)[prev.len() + b] == y);
            }
        }
    }
}

/// Membership in a concatenated tracking set.
proof fn lemma_contains_concat(s: Seq<Coordinate>, t: Seq<Coordinate>, y: Coordinate)
    ensures
        (s + t).contains(y) <==> s.contains(y) || t.contains(y),
{
    if (s + t).contains(y) {
        let n = choose|n: int| 0 <= n < (s + t).len() && (s + t)[n] == y;
        if n < s.len() {
            assert(s[n] == y);
        } else {
            assert(t[n - s.len()] == y);
        }
    }
    if s.contains(y) {
        let n = choose|n: int| 0 <= n < s.len() && s[n] == y;
        assert((s + t)[n] == y);
    }
    if t.contains(y) {
        let n = choose|n: int| 0 <= n < t.len() && t[n] == y;
        assert((s + t)[s.len() + n] == y);
    }
}

/// Whether every coordinate of the row suffix is fresh, pairwise distinct,
/// and resolves to a normal space.
pub open spec fn plain_row_fits(
    positions: Seq<Coordinate>,
    j: int,
    board: BoardTypeView,
    found: Seq<Coordinate>,
) -> bool {
    (forall|b: int| j <= b < positions.len() ==> !found.contains(#[trigger] positions[b]))
        && (forall|b1: int, b2: int|
        j <= b1 < b2 < positions.len() ==> positions[b1] != positions[b2]) && (forall|b: int|
        j <= b < positions.len() ==> spec_get_space(board, #[trigger] positions[b]) is Normal)
}

/// The plain row scan succeeds exactly when the row fits, and then hands back
/// the tracking set extended by the row's coordinates.
proof fn lemma_plain_row_valid(
    positions: Seq<Coordinate>,
    j: int,
    piece: PieceDefinitionView,
    board: BoardTypeView,
    found: Seq<Coordinate>,
)
    requires
        0 <= j <= positions.len(),
    ensures
        scan_plain_row(positions, j, piece, board, found) is Ok <==> plain_row_fits(
            positions,
            j,
            board,
            found,
        ),
        scan_plain_row(positions, j, piece, board, found) matches Ok(taken) ==> taken == found
            + positions.skip(j),
    decreases positions.len() - j,
{
    if j == positions.len() {
        assert(found + positions.skip(j) =~= found);
    } else {
        let position = positions[j];
        if !found.contains(position) && spec_get_space(board, position) is Normal {
            lemma_plain_row_valid(positions, j + 1, piece, board, found.push(position));
            assert(forall|y: Coordinate|
                #[trigger] found.push(position).contains(y) <==> found.contains(y) || y
                    == position) by {
                assert forall|y: Coordinate|
                    found.push(position).contains(y) <==> found.contains(y) || y == position by {
                    lemma_contains_push(found, position, y);
                }
            }
            assert(found.push(position) + positions.skip(j + 1) =~= found + positions.skip(j));
            if scan_plain_row(positions, j, piece, board, found) is Ok {
                assert forall|b1: int, b2: int|
                    j <= b1 < b2 < positions.len() implies positions[b1] != positions[b2] by {
                    if b1 == j {
                        assert(!found.push(position).contains(positions[b2]));
                    }
                }
            }
        }
    }
}

/// Whether every coordinate a seat lists from piece list `k` on is fresh,
/// pairwise distinct across its lists, and resolves to a normal space, with
/// every list belonging to a defined piece.
pub open spec fn seat_fits(
    piece_positions: Seq<Seq<Coordinate>>,
    k: int,
    pieces: Seq<PieceDefinitionView>,
    board: BoardTypeView,
    found: Seq<Coordinate>,
) -> bool {
    (piece_positions.len() <= pieces.len() || piece_positions.len() <= k) && (forall|a: int, b: int|
        k <= a < piece_positions.len() && 0 <= b < piece_positions[a].len() ==> !found.contains(
            #[trigger] piece_positions[a][b],
        ) && spec_get_space(board, piece_positions[a][b]) is Normal) && (forall|
        a1: int,
        b1: int,
        a2: int,
        b2: int,
    |
        k <= a1 < piece_positions.len() && 0 <= b1 < piece_positions[a1].len() && a1 <= a2
            < piece_positions.len() && 0 <= b2 < piece_positions[a2].len() && (a1 != a2 || b1 != b2)
            ==> #[trigger] piece_positions[a1][b1] != #[trigger] piece_positions[a2][b2])
}

/// The coordinates a seat lists from piece list `k` on, in listing order.
pub open spec fn seat_coordinates_from(piece_positions: Seq<Seq<Coordinate>>, k: int) -> Seq<
    Coordinate,
>
    decreases piece_positions.len() - k,
{
    if k < 0 || k >= piece_positions.len() {
        Seq::empty()
    } else {
        piece_positions[k] + seat_coordinates_from(piece_positions, k + 1)
    }
}

/// The seat scan succeeds exactly when the seat fits, and then hands back the
/// tracking set extended by the seat's coordinates.
proof fn lemma_scan_seat_valid(
    piece_positions: Seq<Seq<Coordinate>>,
    k: int,
    pieces: Seq<PieceDefinitionView>,
    board: BoardTypeView,
    found: Seq<Coordinate>,
)
    requires
        0 <= k <= piece_positions.len(),
    ensures
        scan_seat(piece_positions, k, pieces, board, found) is Ok <==> seat_fits(
            piece_positions,
            k,
            pieces,
            board,
            found,
        ),
        scan_seat(piece_positions, k, pieces, board, found) matches Ok(taken) ==> taken == found
            + seat_coordinates_from(piece_positions, k),
    decreases piece_positions.len() - k,
{
    if k == piece_positions.len() {
        assert(found + seat_coordinates_from(piece_positions, k) =~= found);
    } else if k < pieces.len() {
        let row = piece_positions[k];
        lemma_plain_row_valid(row, 0, pieces[k], board, found);
        assert(row.skip(0) =~= row);
        match scan_plain_row(row, 0, pieces[k], board, found) {
            Err(_) => {},
            Ok(taken) => {
                lemma_scan_seat_valid(piece_positions, k + 1, pieces, board, taken);
                assert(forall|y: Coordinate|
                    #[trigger] taken.contains(y) <==> found.contains(y) || row.contains(y)) by {
                    assert forall|y: Coordinate|
                        taken.contains(y) <==> found.contains(y) || row.contains(y) by {
                        lemma_contains_concat(found, row, y);
                    }
                }
                assert((found + row) + seat_coordinates_from(piece_positions, k + 1) =~= found
                    + seat_coordinates_from(piece_positions, k));
                if scan_seat(piece_positions, k, pieces, board, found) is Ok {
                    assert forall|a1: int, b1: int, a2: int, b2: int|
                        k <= a1 < piece_positions.len() && 0 <= b1 < piece_positions[a1].len() && a1
                            <= a2 < piece_positions.len() && 0 <= b2 < piece_positions[a2].len() && (
                        a1 != a2 || b1 != b2) implies #[trigger] piece_positions[a1][b1]
                        != #[trigger] piece_positions[a2][b2] by {
                        if a1 == k && a2 > k {
                            assert(row.contains(piece_positions[a1][b1]));
                            assert(!taken.contains(piece_positions[a2][b2]));
                        }
                    }
                } else {
                    if seat_fits(piece_positions, k, pieces, board, found) {
                        assert(!seat_fits(piece_positions, k + 1, pieces, board, taken));
                        assert(false) by {
                            assert forall|a: int, b: int|
                                k + 1 <= a < piece_positions.len() && 0 <= b
                                    < piece_positions[a].len() implies !taken.contains(
                                #[trigger] piece_positions[a][b],
                            ) && spec_get_space(board, piece_positions[a][b]) is Normal by {
                                assert(!found.contains(piece_positions[a][b]));
                                assert(!row.contains(piece_positions[a][b])) by {
                                    if row.contains(piece_positions[a][b]) {
                                        let b1 = choose|b1: int|
                                            0 <= b1 < row.len() && row[b1]
                                                == piece_positions[a][b];
                                        assert(piece_positions[k][b1] == piece_positions[a][b]);
                                    }
                                }
                            }
                        }
                    }
                }
            },
        }
    }
}

/// The coordinates the seats list from seat `t` on, in listing order.
pub open spec fn seats_coordinates_from(seat_positions: Seq<Seq<Seq<Coordinate>>>, t: int) -> Seq<
    Coordinate,
>
    decreases seat_positions.len() - t,
{
    if t < 0 || t >= seat_positions.len() {
        Seq::empty()
    } else {
        seat_coordinates_from(seat_positions[t], 0) + seats_coordinates_from(seat_positions, t + 1)
    }
}

/// An explicit layout verifies exactly when it lists one entry per seat,
/// every listed piece is defined, every coordinate resolves to a normal
/// space, and no coordinate is listed twice anywhere.
pub proof fn lemma_not_mirrored_valid(
    seat_positions: Seq<Seq<Seq<Coordinate>>>,
    pieces: Seq<PieceDefinitionView>,
    board: BoardTypeView,
)
    ensures
        scan_seats(seat_positions, 0, pieces, board, Seq::empty()) is None <==> forall|t: int|
            0 <= t < seat_positions.len() ==> seat_fits(
                #[trigger] seat_positions[t],
                0,
                pieces,
                board,
                seats_coordinates_before(seat_positions, t),
            ),
{
    lemma_scan_seats_valid(seat_positions, 0, pieces, board, Seq::empty());
}

/// The coordinates the seats before seat `t` list, in listing order.
pub open spec fn seats_coordinates_before(seat_positions: Seq<Seq<Seq<Coordinate>>>, t: int) -> Seq<
    Coordinate,
>
    decreases t,
{
    if t <= 0 || t > seat_positions.len() {
        Seq::empty()
    } else {
        seats_coordinates_before(seat_positions, t - 1) + seat_coordinates_from(
            seat_positions[t - 1],
            0,
        )
    }
}

proof fn lemma_scan_seats_valid(
    seat_positions: Seq<Seq<Seq<Coordinate>>>,
    t: int,
    pieces: Seq<PieceDefinitionView>,
    board: BoardTypeView,
    found: Seq<Coordinate>,
)
    requires
        0 <= t <= seat_positions.len(),
        found == seats_coordinates_before(seat_positions, t),
    ensures
        scan_seats(seat_positions, t, pieces, board, found) is None <==> forall|t2: int|
            t <= t2 < seat_positions.len() ==> seat_fits(
                #[trigger] seat_positions[t2],
                0,
                pieces,
                board,
                seats_coordinates_before(seat_positions, t2),
            ),
    decreases seat_positions.len() - t,
{
    if t < seat_positions.len() {
        lemma_scan_seat_valid(seat_positions[t], 0, pieces, board, found);
        match scan_seat(seat_positions[t], 0, pieces, board, found) {
            Err(_) => {},
            Ok(taken) => {
                assert(taken =~= seats_coordinates_before(seat_positions, t + 1));
                lemma_scan_seats_valid(seat_positions, t + 1, pieces, board, taken);
            },
        }
    }
}

/// What a valid starting-position strategy satisfies, stated directly: the
/// mirrored variants place one side and its mirror image on normal spaces
/// without reuse; the explicit variant lists one entry per seat, each fitting
/// beside the seats before it; the placement variant's alternation, area and
/// limits each hold on their own.
pub open spec fn starting_positions_valid(
    positions: StartingPositionsView,
    ruleset: RulesetView,
) -> bool {
    match positions {
        StartingPositionsView::MirroredFlipped(p) => mirrored_layout_valid(
            p,
            ruleset.pieces,
            ruleset.board_type,
            false,
        ),
        StartingPositionsView::MirroredRotated(p) => mirrored_layout_valid(
            p,
            ruleset.pieces,
            ruleset.board_type,
            true,
        ),
        StartingPositionsView::NotMirrored(p) => p.len() == ruleset.seats && forall|t: int|
            0 <= t < p.len() ==> seat_fits(
                #[trigger] p[t],
                0,
                ruleset.pieces,
                ruleset.board_type,
                seats_coordinates_before(p, t),
            ),
        StartingPositionsView::Placement {
            first_seat: _,
            alternation_type,
            placement_area,
            piece_limits,
        } => spec_verify_alternation(alternation_type, piece_limits) is None
            && crate::placement_area::area_valid(
            placement_area,
            ruleset.seats,
            ruleset.board_type,
        ) && (forall|k: int|
            0 <= k < piece_limits.len() ==> crate::piece_limit::spec_verify_one_limit(
                #[trigger] piece_limits[k],
                ruleset.pieces,
            ) is None),
    }
}

/// Starting-position verification succeeds exactly on valid strategies.
pub proof fn lemma_starting_positions_valid(
    positions: StartingPositionsView,
    ruleset: RulesetView,
)
    ensures
        spec_verify_starting_positions(positions, ruleset) is None <==> starting_positions_valid(
            positions,
            ruleset,
        ),
{
    match positions {
        StartingPositionsView::MirroredFlipped(p) => {
            lemma_mirrored_positions_valid(p, ruleset.pieces, ruleset.board_type, false);
        },
        StartingPositionsView::MirroredRotated(p) => {
            lemma_mirrored_positions_valid(p, ruleset.pieces, ruleset.board_type, true);
        },
        StartingPositionsView::NotMirrored(p) => {
            if p.len() == ruleset.seats {
                lemma_not_mirrored_valid(p, ruleset.pieces, ruleset.board_type);
            }
        },
        StartingPositionsView::Placement {
            first_seat: _,
            alternation_type,
            placement_area,
            piece_limits,
        } => {
            crate::placement_area::lemma_area_valid(
                placement_area,
                ruleset.seats,
                ruleset.board_type,
            );
            crate::piece_limit::lemma_piece_limits_valid(piece_limits, ruleset.pieces);
        },
    }
}

pub type StartingPositionsResult<T> = Result<T, StartingPositionsError>;

/// A failed starting-positions check.
#[derive(Debug)]
pub enum StartingPositionsError {
    /// The explicit layout does not list exactly one entry per seat.
    SeatNumberDoesNotMatch(usize),
    /// A position list index does not name a defined piece.
    PieceIndexNotFound(usize),
    /// A position, or its mirror image, was used twice.
    DuplicatePosition { piece: PieceDefinition, position: Coordinate },
    /// A position, or its mirror image, does not resolve to a normal space.
    InvalidPositionForBoard { space: Space, piece: PieceDefinition, position: Coordinate },
    AlterationTypeError(AlterationTypeError),
    PlacementAreaError(PlacementAreaError),
    PieceLimitError(PieceLimitError),
}

/// The abstract value of a failed starting-positions check.
#[verifier::ext_equal]
pub enum StartingPositionsErrorView {
    SeatNumberDoesNotMatch(usize),
    PieceIndexNotFound(usize),
    DuplicatePosition { piece: PieceDefinitionView, position: Coordinate },
    InvalidPositionForBoard { space: Space, piece: PieceDefinitionView, position: Coordinate },
    AlterationTypeError(AlterationTypeError),
    PlacementAreaError(PlacementAreaError),
    PieceLimitError(PieceLimitErrorView),
}

impl View for StartingPositionsError {
    type V = StartingPositionsErrorView;

    open spec fn view(&self) -> StartingPositionsErrorView {
        match self {
            StartingPositionsError::SeatNumberDoesNotMatch(n) =>
                StartingPositionsErrorView::SeatNumberDoesNotMatch(*n),
            StartingPositionsError::PieceIndexNotFound(n) =>
                StartingPositionsErrorView::PieceIndexNotFound(*n),
            StartingPositionsError::DuplicatePosition { piece, position } =>
                StartingPositionsErrorView::DuplicatePosition { piece: piece@, position: *position },
            StartingPositionsError::InvalidPositionForBoard { space, piece, position } =>
                StartingPositionsErrorView::InvalidPositionForBoard {
                space: *space,
                piece: piece@,
                position: *position,
            },
            StartingPositionsError::AlterationTypeError(e) =>
                StartingPositionsErrorView::AlterationTypeError(*e),
            StartingPositionsError::PlacementAreaError(e) =>
                StartingPositionsErrorView::PlacementAreaError(*e),
            StartingPositionsError::PieceLimitError(e) =>
                StartingPositionsErrorView::PieceLimitError(e@),
        }
    }
}

} // verus!
