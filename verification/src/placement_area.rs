//! Where pieces may be placed during a placement phase.

use vstd::prelude::*;

use crate::board_type::{board_columns, board_rows, board_wf, BoardTypeView};
use crate::coordinate::{
    flip_coordinate,
    rotate_coordinate,
    spec_flip,
    spec_rotate,
    Coordinate,
};
use crate::ruleset::Ruleset;
use crate::space::Space;

verus! {

/// A placement-area definition.
pub enum PlacementArea {
    /// Players can place on their half of the board.
    Half,
    /// Players can place on a mirrored set of places; mirroring flips. The
    /// set must not overlap its own mirror image.
    MirroredFlipped(Vec<Coordinate>),
    /// Players can place on a mirrored set of places; mirroring rotates. The
    /// set must not overlap its own mirror image.
    MirroredRotated(Vec<Coordinate>),
    /// Players can place on a given set of places based on seat; one set per
    /// seat, globally non-overlapping.
    NonMirrored(Vec<Vec<Coordinate>>),
}

/// The abstract value of a placement area.
#[verifier::ext_equal]
pub enum PlacementAreaView {
    Half,
    MirroredFlipped(Seq<Coordinate>),
    MirroredRotated(Seq<Coordinate>),
    NonMirrored(Seq<Seq<Coordinate>>),
}

impl View for PlacementArea {
    type V = PlacementAreaView;

    open spec fn view(&self) -> PlacementAreaView {
        match self {
            PlacementArea::Half => PlacementAreaView::Half,
            PlacementArea::MirroredFlipped(positions) => PlacementAreaView::MirroredFlipped(
                positions@,
            ),
            PlacementArea::MirroredRotated(positions) => PlacementAreaView::MirroredRotated(
                positions@,
            ),
            PlacementArea::NonMirrored(seat_map) => PlacementAreaView::NonMirrored(
                seat_map@.map_values(|v: Vec<Coordinate>| v@),
            ),
        }
    }
}

/// The mirror image of a coordinate on a board: the flip image, or the
/// rotation image when `rotated` holds.
pub open spec fn mirror_image(board: BoardTypeView, c: Coordinate, rotated: bool) -> Coordinate {
    if rotated {
        spec_rotate(board_rows(board), board_columns(board), c)
    } else {
        spec_flip(board_rows(board), c)
    }
}

/// The first failure of a mirrored placement area, scanned from position `j`
/// with the coordinates of `found` already taken: every coordinate must be in
/// bounds, and inserting each coordinate and then its mirror image into the
/// shared tracking set must never find the element already present. A
/// coordinate equal to its own image collides with itself.
pub open spec fn spec_scan_mirrored_area(
    positions: Seq<Coordinate>,
    j: int,
    board: BoardTypeView,
    rotated: bool,
    found: Seq<Coordinate>,
) -> Option<PlacementAreaError>
    decreases positions.len() - j,
{
    if j < 0 || j >= positions.len() {
        None
    } else {
        let c = positions[j];
        if c.row < 0 || c.row >= board_rows(board) || c.column < 0 || c.column >= board_columns(
            board,
        ) {
            Some(PlacementAreaError::PositionCannotPlace(Space::Invalid, c))
        } else {
            let image = mirror_image(board, c, rotated);
            if found.contains(c) {
                Some(PlacementAreaError::PositionCollision(c))
            } else if found.push(c).contains(image) {
                Some(PlacementAreaError::PositionCollision(c))
            } else {
                spec_scan_mirrored_area(positions, j + 1, board, rotated, found.push(c).push(image))
            }
        }
    }
}

/// The first collision among per-seat coordinate sets, scanned from seat `t`,
/// position `j`, with the coordinates of `found` already taken.
pub open spec fn spec_scan_seat_areas(
    seat_map: Seq<Seq<Coordinate>>,
    t: int,
    j: int,
    found: Seq<Coordinate>,
) -> Option<PlacementAreaError>
    decreases seat_map.len() - t, seat_map[t].len() - j + 1,
{
    if t < 0 || t >= seat_map.len() {
        None
    } else if j < 0 || j >= seat_map[t].len() {
        spec_scan_seat_areas(seat_map, t + 1, 0, found)
    } else {
        let c = seat_map[t][j];
        if found.contains(c) {
            Some(PlacementAreaError::PositionCollision(c))
        } else {
            spec_scan_seat_areas(seat_map, t, j + 1, found.push(c))
        }
    }
}

/// The first failure of a placement area against a ruleset: a half-board area
/// always passes; a mirrored area must be in bounds and collision-free
/// together with its mirror image; per-seat areas must exist for exactly the
/// declared seats and must not overlap.
pub open spec fn spec_verify_area(
    area: PlacementAreaView,
    seats: u64,
    board: BoardTypeView,
) -> Option<PlacementAreaError> {
    match area {
        PlacementAreaView::Half => None,
        PlacementAreaView::MirroredFlipped(positions) => spec_scan_mirrored_area(
            positions,
            0,
            board,
            false,
            Seq::empty(),
        ),
        PlacementAreaView::MirroredRotated(positions) => spec_scan_mirrored_area(
            positions,
            0,
            board,
            true,
            Seq::empty(),
        ),
        PlacementAreaView::NonMirrored(seat_map) => if seat_map.len() != seats {
            Some(PlacementAreaError::InvalidSeatNumber(seat_map.len() as usize))
        } else {
            spec_scan_seat_areas(seat_map, 0, 0, Seq::empty())
        },
    }
}

/// The points a mirrored area occupies, interleaved in insertion order: the
/// coordinate at an even index, its mirror image at the following odd one.
pub open spec fn area_point(
    positions: Seq<Coordinate>,
    board: BoardTypeView,
    rotated: bool,
    n: int,
) -> Coordinate {
    if n % 2 == 0 {
        positions[n / 2]
    } else {
        mirror_image(board, positions[n / 2], rotated)
    }
}

/// Membership in a pushed tracking set.
proof fn lemma_contains_push(s: Seq<Coordinate>, x: Coordinate, y: Coordinate)
    ensures
        s.push(x).contains(y) <==> s.contains(y) || y == x,
{
    if s.push(x).contains(y) {
        let n = choose|n: int| 0 <= n < s.push(x).len() && s.push(x)[n] == y;
        if n < s.len() {
            assert(s[n] == y);
        }
    }
    if s.contains(y) {
        let n = choose|n: int| 0 <= n < s.len() && s[n] == y;
        assert(s.push(x)[n] == y);
    }
    if y == x {
        assert(s.push(x)[s.len() as int] == y);
    }
}

/// A mirrored placement area verifies exactly when every coordinate is in
/// bounds and the coordinates together with their mirror images are pairwise
/// distinct; a coordinate equal to its own image collides with itself.
pub proof fn lemma_mirrored_area_valid(
    positions: Seq<Coordinate>,
    board: BoardTypeView,
    rotated: bool,
)
    ensures
        spec_scan_mirrored_area(positions, 0, board, rotated, Seq::empty()) is None <==> ((forall|
            j: int,
        |
            0 <= j < positions.len() ==> 0 <= (#[trigger] positions[j]).row < board_rows(board) && 0
                <= positions[j].column < board_columns(board)) && (forall|n1: int, n2: int|
            0 <= n1 < n2 < 2 * positions.len() ==> area_point(positions, board, rotated, n1)
                != area_point(positions, board, rotated, n2))),
{
    lemma_scan_mirrored_area_valid(positions, 0, board, rotated, Seq::empty());
}

proof fn lemma_scan_mirrored_area_valid(
    positions: Seq<Coordinate>,
    j: int,
    board: BoardTypeView,
    rotated: bool,
    found: Seq<Coordinate>,
)
    requires
        0 <= j <= positions.len(),
    ensures
        spec_scan_mirrored_area(positions, j, board, rotated, found) is None <==> ((forall|b: int|
            j <= b < positions.len() ==> 0 <= (#[trigger] positions[b]).row < board_rows(board) && 0
                <= positions[b].column < board_columns(board)) && (forall|n: int|
            2 * j <= n < 2 * positions.len() ==> !found.contains(
                #[trigger] area_point(positions, board, rotated, n),
            )) && (forall|n1: int, n2: int|
            2 * j <= n1 < n2 < 2 * positions.len() ==> area_point(positions, board, rotated, n1)
                != area_point(positions, board, rotated, n2))),
    decreases positions.len() - j,
{
    if j < positions.len() {
        let c = positions[j];
        let image = mirror_image(board, c, rotated);
        assert(area_point(positions, board, rotated, 2 * j) == c);
        assert(area_point(positions, board, rotated, 2 * j + 1) == image);
        if 0 <= c.row < board_rows(board) && 0 <= c.column < board_columns(board)
            && !found.contains(c) && !found.push(c).contains(image) {
            lemma_contains_push(found, c, image);
            lemma_scan_mirrored_area_valid(
                positions,
                j + 1,
                board,
                rotated,
                found.push(c).push(image),
            );
            assert(forall|y: Coordinate|
                #[trigger] found.push(c).push(image).contains(y) <==> found.contains(y) || y == c
                    || y == image) by {
                assert forall|y: Coordinate|
                    found.push(c).push(image).contains(y) <==> found.contains(y) || y == c || y
                        == image by {
                    lemma_contains_push(found.push(c), image, y);
                    lemma_contains_push(found, c, y);
                }
            }
            if spec_scan_mirrored_area(positions, j, board, rotated, found) is None {
                assert forall|n1: int, n2: int|
                    2 * j <= n1 < n2 < 2 * positions.len() implies area_point(
                    positions,
                    board,
                    rotated,
                    n1,
                ) != area_point(positions, board, rotated, n2) by {
                    if n1 == 2 * j || n1 == 2 * j + 1 {
                        if n2 >= 2 * (j + 1) {
                            assert(!found.push(c).push(image).contains(
                                area_point(positions, board, rotated, n2),
                            ));
                        }
                    }
                }
            } else {
                if (forall|b: int|
                    j <= b < positions.len() ==> 0 <= (#[trigger] positions[b]).row < board_rows(
                        board,
                    ) && 0 <= positions[b].column < board_columns(board)) && (forall|n: int|
                    2 * j <= n < 2 * positions.len() ==> !found.contains(
                        #[trigger] area_point(positions, board, rotated, n),
                    )) && (forall|n1: int, n2: int|
                    2 * j <= n1 < n2 < 2 * positions.len() ==> area_point(
                        positions,
                        board,
                        rotated,
                        n1,
                    ) != area_point(positions, board, rotated, n2)) {
                    assert forall|n: int|
                        2 * (j + 1) <= n < 2 * positions.len() implies !found.push(c).push(
                        image,
                    ).contains(#[trigger] area_point(positions, board, rotated, n)) by {
                        assert(area_point(positions, board, rotated, n) != area_point(
                            positions,
                            board,
                            rotated,
                            2 * j,
                        ));
                        assert(area_point(positions, board, rotated, n) != area_point(
                            positions,
                            board,
                            rotated,
                            2 * j + 1,
                        ));
                    }
                    assert(false);
                }
            }
        } else {
            if !(0 <= c.row < board_rows(board) && 0 <= c.column < board_columns(board)) {
            } else if found.contains(c) {
            } else {
                lemma_contains_push(found, c, image);
                if image == c {
                    assert(area_point(positions, board, rotated, 2 * j) == area_point(
                        positions,
                        board,
                        rotated,
                        2 * j + 1,
                    ));
                } else {
                    assert(found.contains(image));
                }
            }
        }
    }
}

/// Whether `(t, j)` names a coordinate entry at or after seat `t0`,
/// position `j0`.
pub open spec fn seat_area_pos_in_suffix(
    seat_map: Seq<Seq<Coordinate>>,
    t0: int,
    j0: int,
    t: int,
    j: int,
) -> bool {
    0 <= t < seat_map.len() && 0 <= j < seat_map[t].len() && (t > t0 || (t == t0 && j >= j0))
}

/// Per-seat placement areas verify exactly when no coordinate is listed
/// twice, within one seat or across seats.
pub proof fn lemma_seat_areas_valid(seat_map: Seq<Seq<Coordinate>>)
    ensures
        spec_scan_seat_areas(seat_map, 0, 0, Seq::empty()) is None <==> forall|
            t1: int,
            j1: int,
            t2: int,
            j2: int,
        |
            seat_area_pos_in_suffix(seat_map, 0, 0, t1, j1) && seat_area_pos_in_suffix(
                seat_map,
                0,
                0,
                t2,
                j2,
            ) && (t1 != t2 || j1 != j2) ==> #[trigger] seat_map[t1][j1]
                != #[trigger] seat_map[t2][j2],
{
    lemma_scan_seat_areas_valid(seat_map, 0, 0, Seq::empty());
}

proof fn lemma_scan_seat_areas_valid(
    seat_map: Seq<Seq<Coordinate>>,
    t: int,
    j: int,
    found: Seq<Coordinate>,
)
    requires
        0 <= t <= seat_map.len(),
        0 <= j,
    ensures
        spec_scan_seat_areas(seat_map, t, j, found) is None <==> ((forall|a: int, b: int|
            seat_area_pos_in_suffix(seat_map, t, j, a, b) ==> !found.contains(
                #[trigger] seat_map[a][b],
            )) && (forall|t1: int, j1: int, t2: int, j2: int|
            seat_area_pos_in_suffix(seat_map, t, j, t1, j1) && seat_area_pos_in_suffix(
                seat_map,
                t,
                j,
                t2,
                j2,
            ) && (t1 != t2 || j1 != j2) ==> #[trigger] seat_map[t1][j1]
                != #[trigger] seat_map[t2][j2])),
    decreases seat_map.len() - t, seat_map[t].len() - j + 1,
{
    if t == seat_map.len() {
    } else if j >= seat_map[t].len() {
        lemma_scan_seat_areas_valid(seat_map, t + 1, 0, found);
        assert(forall|a: int, b: int|
            seat_area_pos_in_suffix(seat_map, t, j, a, b) <==> seat_area_pos_in_suffix(
                seat_map,
                t + 1,
                0,
                a,
                b,
            ));
    } else {
        let c = seat_map[t][j];
        if found.contains(c) {
            assert(seat_area_pos_in_suffix(seat_map, t, j, t, j));
        } else {
            lemma_scan_seat_areas_valid(seat_map, t, j + 1, found.push(c));
            assert(forall|y: Coordinate|
                #[trigger] found.push(c).contains(y) <==> found.contains(y) || y == c) by {
                assert forall|y: Coordinate|
                    found.push(c).contains(y) <==> found.contains(y) || y == c by {
                    lemma_contains_push(found, c, y);
                }
            }
            assert(seat_area_pos_in_suffix(seat_map, t, j, t, j));
            if spec_scan_seat_areas(seat_map, t, j, found) is None {
                assert forall|t1: int, j1: int, t2: int, j2: int|
                    seat_area_pos_in_suffix(seat_map, t, j, t1, j1) && seat_area_pos_in_suffix(
                        seat_map,
                        t,
                        j,
                        t2,
                        j2,
                    ) && (t1 != t2 || j1 != j2) implies #[trigger] seat_map[t1][j1]
                    != #[trigger] seat_map[t2][j2] by {
                    if t1 == t && j1 == j {
                        assert(seat_area_pos_in_suffix(seat_map, t, j + 1, t2, j2));
                        assert(!found.push(c).contains(seat_map[t2][j2]));
                    } else if t2 == t && j2 == j {
                        assert(seat_area_pos_in_suffix(seat_map, t, j + 1, t1, j1));
                        assert(!found.push(c).contains(seat_map[t1][j1]));
                    } else {
                        assert(seat_area_pos_in_suffix(seat_map, t, j + 1, t1, j1));
                        assert(seat_area_pos_in_suffix(seat_map, t, j + 1, t2, j2));
                    }
                }
            }
        }
    }
}

/// A placement area verifies exactly when its own rule holds: a half-board
/// area always, a mirrored area when in bounds and collision-free with its
/// mirror image, per-seat areas when one exists per seat and none overlap.
pub open spec fn area_valid(area: PlacementAreaView, seats: u64, board: BoardTypeView) -> bool {
    match area {
        PlacementAreaView::Half => true,
        PlacementAreaView::MirroredFlipped(positions) => mirrored_area_valid(
            positions,
            board,
            false,
        ),
        PlacementAreaView::MirroredRotated(positions) => mirrored_area_valid(
            positions,
            board,
            true,
        ),
        PlacementAreaView::NonMirrored(seat_map) => seat_map.len() == seats && forall|
            t1: int,
            j1: int,
            t2: int,
            j2: int,
        |
            seat_area_pos_in_suffix(seat_map, 0, 0, t1, j1) && seat_area_pos_in_suffix(
                seat_map,
                0,
                0,
                t2,
                j2,
            ) && (t1 != t2 || j1 != j2) ==> #[trigger] seat_map[t1][j1]
                != #[trigger] seat_map[t2][j2],
    }
}

/// What a valid mirrored area satisfies: every coordinate in bounds, and the
/// coordinates together with their mirror images pairwise distinct.
pub open spec fn mirrored_area_valid(
    positions: Seq<Coordinate>,
    board: BoardTypeView,
    rotated: bool,
) -> bool {
    (forall|j: int|
        0 <= j < positions.len() ==> 0 <= (#[trigger] positions[j]).row < board_rows(board) && 0
            <= positions[j].column < board_columns(board)) && (forall|n1: int, n2: int|
        0 <= n1 < n2 < 2 * positions.len() ==> area_point(positions, board, rotated, n1)
            != area_point(positions, board, rotated, n2))
}

/// Area verification succeeds exactly on valid areas.
pub proof fn lemma_area_valid(area: PlacementAreaView, seats: u64, board: BoardTypeView)
    ensures
        spec_verify_area(area, seats, board) is None <==> area_valid(area, seats, board),
{
    match area {
        PlacementAreaView::Half => {},
        PlacementAreaView::MirroredFlipped(positions) => {
            lemma_mirrored_area_valid(positions, board, false);
        },
        PlacementAreaView::MirroredRotated(positions) => {
            lemma_mirrored_area_valid(positions, board, true);
        },
        PlacementAreaView::NonMirrored(seat_map) => {
            if seat_map.len() == seats {
                lemma_seat_areas_valid(seat_map);
            }
        },
    }
}

impl PlacementArea {
    /// Checks the placement area against the ruleset's board and seat count.
    #[verifier::loop_isolation(false)]
    pub fn verify(&self, ruleset: &Ruleset) -> (result: PlacementAreaResult<()>)
        requires
            board_wf(ruleset.board_type@),
        ensures
            result is Ok <==> area_valid(self@, ruleset.seats, ruleset.board_type@),
            match result {
                Ok(_) => spec_verify_area(self@, ruleset.seats, ruleset.board_type@) is None,
                Err(e) => Some(e) == spec_verify_area(self@, ruleset.seats, ruleset.board_type@),
            },
    {
        proof {
            lemma_area_valid(self@, ruleset.seats, ruleset.board_type@);
        }
        match self {
            Self::Half => Ok(()),
            Self::MirroredFlipped(positions) => Self::verify_mirrored(
                positions,
                false,
                ruleset,
            ),
            Self::MirroredRotated(positions) => Self::verify_mirrored(positions, true, ruleset),
            Self::NonMirrored(seat_map) => {
                if seat_map.len() as u64 != ruleset.seats {
                    return Err(PlacementAreaError::InvalidSeatNumber(seat_map.len()));
                }
                let ghost map = seat_map@.map_values(|v: Vec<Coordinate>| v@);
                let mut found: Vec<Coordinate> = Vec::new();
                let mut t: usize = 0;
                while t < seat_map.len()
                    invariant
                        t <= seat_map@.len(),
                        map == seat_map@.map_values(|v: Vec<Coordinate>| v@),
                        spec_scan_seat_areas(map, 0, 0, Seq::empty()) == spec_scan_seat_areas(
                            map,
                            t as int,
                            0,
                            found@,
                        ),
                    decreases seat_map@.len() - t,
                {
                    let row = &seat_map[t];
                    let mut j: usize = 0;
                    while j < row.len()
                        invariant
                            t < seat_map@.len(),
                            j <= row@.len(),
                            row@ == map[t as int],
                            map == seat_map@.map_values(|v: Vec<Coordinate>| v@),
                            spec_scan_seat_areas(map, 0, 0, Seq::empty()) == spec_scan_seat_areas(
                                map,
                                t as int,
                                j as int,
                                found@,
                            ),
                        decreases row@.len() - j,
                    {
                        let c = row[j];
                        if contains_coordinate(&found, c) {
                            return Err(PlacementAreaError::PositionCollision(c));
                        }
                        found.push(c);
                        j = j + 1;
                    }
                    t = t + 1;
                }
                Ok(())
            },
        }
    }

    /// Checks a mirrored placement area: bounds, then collisions of the set
    /// together with its own mirror image.
    #[verifier::loop_isolation(false)]
    fn verify_mirrored(positions: &Vec<Coordinate>, rotated: bool, ruleset: &Ruleset) -> (result:
        PlacementAreaResult<()>)
        requires
            board_wf(ruleset.board_type@),
        ensures
            match result {
                Ok(_) => spec_scan_mirrored_area(
                    positions@,
                    0,
                    ruleset.board_type@,
                    rotated,
                    Seq::empty(),
                ) is None,
                Err(e) => Some(e) == spec_scan_mirrored_area(
                    positions@,
                    0,
                    ruleset.board_type@,
                    rotated,
                    Seq::empty(),
                ),
            },
    {
        let mut found: Vec<Coordinate> = Vec::new();
        let mut j: usize = 0;
        while j < positions.len()
            invariant
                j <= positions@.len(),
                board_wf(ruleset.board_type@),
                spec_scan_mirrored_area(positions@, 0, ruleset.board_type@, rotated, Seq::empty())
                    == spec_scan_mirrored_area(
                    positions@,
                    j as int,
                    ruleset.board_type@,
                    rotated,
                    found@,
                ),
            decreases positions@.len() - j,
        {
            let c = positions[j];
            if c.row < 0 || c.row >= ruleset.board_type.rows() as i16 || c.column < 0 || c.column
                >= ruleset.board_type.columns() as i16 {
                return Err(PlacementAreaError::PositionCannotPlace(Space::Invalid, c));
            }
            let image = if rotated {
                rotate_coordinate(&ruleset.board_type, c)
            } else {
                flip_coordinate(&ruleset.board_type, c)
            };
            assert(image == mirror_image(ruleset.board_type@, c, rotated));
            if contains_coordinate(&found, c) {
                return Err(PlacementAreaError::PositionCollision(c));
            }
            found.push(c);
            if contains_coordinate(&found, image) {
                return Err(PlacementAreaError::PositionCollision(c));
            }
            found.push(image);
            j = j + 1;
        }
        Ok(())
    }
}

/// Whether a coordinate vector holds a given coordinate.
#[verifier::loop_isolation(false)]
pub fn contains_coordinate(values: &Vec<Coordinate>, value: Coordinate) -> (r: bool)
    ensures
        r == values@.contains(value),
{
    let mut k: usize = 0;
    while k < values.len()
        invariant
            k <= values@.len(),
            forall|i: int| 0 <= i < k ==> values@[i] != value,
        decreases values@.len() - k,
    {
        if values[k] == value {
            return true;
        }
        k = k + 1;
    }
    false
}

pub type PlacementAreaResult<T> = Result<T, PlacementAreaError>;

/// A failed placement-area check.
#[derive(Copy, Clone, Debug, PartialEq, Eq, Structural)]
pub enum PlacementAreaError {
    PositionCannotPlace(Space, Coordinate),
    PositionCollision(Coordinate),
    InvalidSeatNumber(usize),
}

} // verus!
