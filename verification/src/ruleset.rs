//! The aggregate root: one complete game declaration, and the single `verify`
//! entry point that checks its internal consistency in a fixed order,
//! stopping at the first failure.

use vstd::prelude::*;

use crate::board_type::{board_wf, BoardType, BoardTypeVerifyError, BoardTypeView, spec_verify_board};
use crate::color::Color;
use crate::piece_definition::{
    spec_verify_piece,
    PieceDefinition,
    PieceDefinitionError,
    PieceDefinitionErrorView,
    PieceDefinitionView,
};
use crate::starting_positions::{
    spec_verify_starting_positions,
    StartingPositions,
    StartingPositionsError,
    StartingPositionsErrorView,
    StartingPositionsView,
};
use crate::victory_condition::{
    spec_verify_victory,
    VictoryCondition,
    VictoryConditionError,
    VictoryConditionView,
};

verus! {

/// The ruleset for a game of Kapto.
pub struct Ruleset {
    /// The name of the ruleset.
    pub name: String,
    /// Number of seats in the game; at least 2.
    pub seats: u64,
    /// Allied seats; a single seat may not appear in more than one set.
    pub allies: Vec<Vec<u64>>,
    /// Colors for each seat; one per seat, all distinct.
    pub seat_colors: Vec<Color>,
    /// All possible pieces; names all distinct.
    pub pieces: Vec<PieceDefinition>,
    /// The type of board to use.
    pub board_type: BoardType,
    /// The starting-position strategy to use.
    pub starting_positions: StartingPositions,
    /// How to win the game. A set compared by kind; at least one must be
    /// set.
    pub victory_conditions: Vec<VictoryCondition>,
}

/// The abstract value of a ruleset.
#[verifier::ext_equal]
pub struct RulesetView {
    pub name: Seq<char>,
    pub seats: u64,
    pub allies: Seq<Seq<u64>>,
    pub seat_colors: Seq<Seq<char>>,
    pub pieces: Seq<PieceDefinitionView>,
    pub board_type: BoardTypeView,
    pub starting_positions: StartingPositionsView,
    pub victory_conditions: Seq<VictoryConditionView>,
}

impl View for Ruleset {
    type V = RulesetView;

    open spec fn view(&self) -> RulesetView {
        RulesetView {
            name: self.name@,
            seats: self.seats,
            allies: self.allies@.map_values(|v: Vec<u64>| v@),
            seat_colors: self.seat_colors@.map_values(|c: Color| c@),
            pieces: self.pieces@.map_values(|p: PieceDefinition| p@),
            board_type: self.board_type@,
            starting_positions: self.starting_positions@,
            victory_conditions: self.victory_conditions@.map_values(|v: VictoryCondition| v@),
        }
    }
}

/// The first seat that appears twice over the allied sets, scanned from set
/// `k`, position `j`, with the seats of `found` already seen.
pub open spec fn scan_allies(
    allies: Seq<Seq<u64>>,
    k: int,
    j: int,
    found: Seq<u64>,
) -> Option<u64>
    decreases allies.len() - k, allies[k].len() - j + 1,
{
    if k < 0 || k >= allies.len() {
        None
    } else if j < 0 || j >= allies[k].len() {
        scan_allies(allies, k + 1, 0, found)
    } else {
        let seat = allies[k][j];
        if found.contains(seat) {
            Some(seat)
        } else {
            scan_allies(allies, k, j + 1, found.push(seat))
        }
    }
}

/// The first color that equals an earlier color of the list, scanned from
/// position `j`.
pub open spec fn scan_colors(colors: Seq<Seq<char>>, j: int) -> Option<Seq<char>>
    decreases colors.len() - j,
{
    if j < 0 || j >= colors.len() {
        None
    } else if exists|i: int| 0 <= i < j && colors[i] == colors[j] {
        Some(colors[j])
    } else {
        scan_colors(colors, j + 1)
    }
}

/// The first failure among the pieces, scanned from index `k`: each piece
/// must verify on its own, and no piece may repeat the name of an earlier
/// one.
pub open spec fn scan_pieces(pieces: Seq<PieceDefinitionView>, k: int) -> Option<RulesetErrorView>
    decreases pieces.len() - k,
{
    if k < 0 || k >= pieces.len() {
        None
    } else if spec_verify_piece(pieces[k]) is Some {
        Some(RulesetErrorView::PieceDefinitionError(spec_verify_piece(pieces[k])->Some_0))
    } else if exists|i: int| 0 <= i < k && pieces[i].name == pieces[k].name {
        Some(RulesetErrorView::PieceDuplicated(pieces[k]))
    } else {
        scan_pieces(pieces, k + 1)
    }
}

/// The first victory condition that fails against the ruleset, scanned from
/// index `j`.
pub open spec fn scan_victory_conditions(
    conditions: Seq<VictoryConditionView>,
    j: int,
    ruleset: RulesetView,
) -> Option<VictoryConditionError>
    decreases conditions.len() - j,
{
    if j < 0 || j >= conditions.len() {
        None
    } else {
        match spec_verify_victory(conditions[j], ruleset) {
            Some(e) => Some(e),
            None => scan_victory_conditions(conditions, j + 1, ruleset),
        }
    }
}

/// Whether `(a, b)` names a seat entry at or after set `k`, position `j`.
pub open spec fn ally_pos_in_suffix(allies: Seq<Seq<u64>>, k: int, j: int, a: int, b: int) -> bool {
    0 <= a < allies.len() && 0 <= b < allies[a].len() && (a > k || (a == k && b >= j))
}

/// The ally scan succeeds exactly when no seat appears twice: no seat of the
/// allied sets was already seen, and no two entries hold the same seat.
pub proof fn lemma_allies_valid(allies: Seq<Seq<u64>>)
    ensures
        scan_allies(allies, 0, 0, Seq::empty()) is None <==> forall|a1: int, b1: int, a2: int, b2: int|
            ally_pos_in_suffix(allies, 0, 0, a1, b1) && ally_pos_in_suffix(allies, 0, 0, a2, b2)
                && (a1 != a2 || b1 != b2) ==> #[trigger] allies[a1][b1] != #[trigger] allies[a2][b2],
{
    lemma_allies_valid_from(allies, 0, 0, Seq::empty());
}

proof fn lemma_allies_valid_from(allies: Seq<Seq<u64>>, k: int, j: int, found: Seq<u64>)
    requires
        0 <= k <= allies.len(),
        0 <= j,
    ensures
        scan_allies(allies, k, j, found) is None <==> ((forall|a: int, b: int|
            ally_pos_in_suffix(allies, k, j, a, b) ==> !found.contains(#[trigger] allies[a][b]))
            && (forall|a1: int, b1: int, a2: int, b2: int|
            ally_pos_in_suffix(allies, k, j, a1, b1) && ally_pos_in_suffix(allies, k, j, a2, b2)
                && (a1 != a2 || b1 != b2) ==> #[trigger] allies[a1][b1] != #[trigger] allies[a2][b2])),
    decreases allies.len() - k, allies[k].len() - j + 1,
{
    if k == allies.len() {
        // No position lies in the suffix.
    } else if j >= allies[k].len() {
        lemma_allies_valid_from(allies, k + 1, 0, found);
        assert(forall|a: int, b: int|
            ally_pos_in_suffix(allies, k, j, a, b) <==> ally_pos_in_suffix(allies, k + 1, 0, a, b));
    } else {
        let seat = allies[k][j];
        if found.contains(seat) {
            assert(ally_pos_in_suffix(allies, k, j, k, j));
        } else {
            lemma_allies_valid_from(allies, k, j + 1, found.push(seat));
            assert(forall|x: u64|
                found.push(seat).contains(x) <==> found.contains(x) || x == seat) by {
                assert forall|x: u64| #[trigger] found.push(seat).contains(x) implies found.contains(
                    x,
                ) || x == seat by {
                    let n = choose|n: int|
                        0 <= n < found.push(seat).len() && found.push(seat)[n] == x;
                    if n < found.len() {
                        assert(found[n] == x);
                    }
                }
                assert forall|x: u64| found.contains(x) || x == seat implies #[trigger] found.push(
                    seat,
                ).contains(x) by {
                    if found.contains(x) {
                        let n = choose|n: int| 0 <= n < found.len() && found[n] == x;
                        assert(found.push(seat)[n] == x);
                    } else {
                        assert(found.push(seat)[found.len() as int] == x);
                    }
                }
            }
            assert(ally_pos_in_suffix(allies, k, j, k, j));
            if scan_allies(allies, k, j, found) is None {
                assert forall|a1: int, b1: int, a2: int, b2: int|
                    ally_pos_in_suffix(allies, k, j, a1, b1) && ally_pos_in_suffix(
                        allies,
                        k,
                        j,
                        a2,
                        b2,
                    ) && (a1 != a2 || b1 != b2) implies #[trigger] allies[a1][b1]
                    != #[trigger] allies[a2][b2] by {
                    if a1 == k && b1 == j {
                        assert(ally_pos_in_suffix(allies, k, j + 1, a2, b2));
                        assert(!found.push(seat).contains(allies[a2][b2]));
                    } else if a2 == k && b2 == j {
                        assert(ally_pos_in_suffix(allies, k, j + 1, a1, b1));
                        assert(!found.push(seat).contains(allies[a1][b1]));
                    } else {
                        assert(ally_pos_in_suffix(allies, k, j + 1, a1, b1));
                        assert(ally_pos_in_suffix(allies, k, j + 1, a2, b2));
                    }
                }
            }
        }
    }
}

/// The color scan succeeds exactly when the colors of the suffix repeat
/// neither an earlier color nor each other.
pub proof fn lemma_colors_valid(colors: Seq<Seq<char>>)
    ensures
        scan_colors(colors, 0) is None <==> forall|i: int, j: int|
            0 <= i < j < colors.len() ==> colors[i] != colors[j],
{
    lemma_colors_valid_from(colors, 0);
}

proof fn lemma_colors_valid_from(colors: Seq<Seq<char>>, j: int)
    requires
        0 <= j <= colors.len(),
    ensures
        scan_colors(colors, j) is None <==> forall|a: int, b: int|
            0 <= a < b < colors.len() && j <= b ==> colors[a] != colors[b],
    decreases colors.len() - j,
{
    if j < colors.len() {
        lemma_colors_valid_from(colors, j + 1);
    }
}

/// The piece scan succeeds exactly when every piece of the list is valid on
/// its own and no two pieces share a name.
pub proof fn lemma_pieces_valid(pieces: Seq<PieceDefinitionView>)
    ensures
        scan_pieces(pieces, 0) is None <==> ((forall|k: int|
            0 <= k < pieces.len() ==> spec_verify_piece(#[trigger] pieces[k]) is None) && (forall|
            i: int,
            j: int,
        |
            0 <= i < j < pieces.len() ==> pieces[i].name != pieces[j].name)),
{
    lemma_pieces_valid_from(pieces, 0);
}

proof fn lemma_pieces_valid_from(pieces: Seq<PieceDefinitionView>, k: int)
    requires
        0 <= k <= pieces.len(),
    ensures
        scan_pieces(pieces, k) is None <==> ((forall|n: int|
            k <= n < pieces.len() ==> spec_verify_piece(#[trigger] pieces[n]) is None) && (forall|
            i: int,
            j: int,
        |
            0 <= i < j < pieces.len() && k <= j ==> pieces[i].name != pieces[j].name)),
    decreases pieces.len() - k,
{
    if k < pieces.len() {
        lemma_pieces_valid_from(pieces, k + 1);
    }
}

/// The victory-condition scan succeeds exactly when every declared condition
/// is consistent against the ruleset.
pub proof fn lemma_victory_conditions_valid(
    conditions: Seq<VictoryConditionView>,
    ruleset: RulesetView,
)
    ensures
        scan_victory_conditions(conditions, 0, ruleset) is None <==> forall|k: int|
            0 <= k < conditions.len() ==> spec_verify_victory(#[trigger] conditions[k], ruleset)
                is None,
{
    lemma_victory_conditions_valid_from(conditions, 0, ruleset);
}

proof fn lemma_victory_conditions_valid_from(
    conditions: Seq<VictoryConditionView>,
    j: int,
    ruleset: RulesetView,
)
    requires
        0 <= j <= conditions.len(),
    ensures
        scan_victory_conditions(conditions, j, ruleset) is None <==> forall|k: int|
            j <= k < conditions.len() ==> spec_verify_victory(#[trigger] conditions[k], ruleset)
                is None,
    decreases conditions.len() - j,
{
    if j < conditions.len() {
        lemma_victory_conditions_valid_from(conditions, j + 1, ruleset);
    }
}

/// The first failure of a whole ruleset, in the fixed verification order:
/// seat count, allied-seat uniqueness, color count and uniqueness, the pieces
/// with their name uniqueness, the board, the starting positions, the
/// presence of at least one victory condition, and each victory condition.
pub open spec fn spec_ruleset_verify(r: RulesetView) -> Option<RulesetErrorView> {
    if r.seats < 2 {
        Some(RulesetErrorView::SeatsCountInvalid(r.seats))
    } else if scan_allies(r.allies, 0, 0, Seq::empty()) is Some {
        Some(
            RulesetErrorView::DuplicateSeatInAllies(scan_allies(r.allies, 0, 0, Seq::empty())->Some_0),
        )
    } else if r.seat_colors.len() != r.seats {
        Some(RulesetErrorView::NotEnoughColorsSet(r.seat_colors.len() as usize))
    } else if scan_colors(r.seat_colors, 0) is Some {
        Some(RulesetErrorView::DuplicateColor(scan_colors(r.seat_colors, 0)->Some_0))
    } else if scan_pieces(r.pieces, 0) is Some {
        scan_pieces(r.pieces, 0)
    } else if spec_verify_board(r.board_type, r.seats) is Some {
        Some(RulesetErrorView::BoardTypeVerifyError(spec_verify_board(r.board_type, r.seats)->Some_0))
    } else if spec_verify_starting_positions(r.starting_positions, r) is Some {
        Some(
            RulesetErrorView::StartingPositionsError(
                spec_verify_starting_positions(r.starting_positions, r)->Some_0,
            ),
        )
    } else if r.victory_conditions.len() == 0 {
        Some(RulesetErrorView::NoVictoryConditionSet)
    } else if scan_victory_conditions(r.victory_conditions, 0, r) is Some {
        Some(
            RulesetErrorView::VictoryConditionError(
                scan_victory_conditions(r.victory_conditions, 0, r)->Some_0,
            ),
        )
    } else {
        None
    }
}

/// What a valid ruleset satisfies, stated directly: at least two seats, no
/// seat in two allied sets, one distinct color per seat, individually valid
/// pieces with distinct names, a valid board, valid starting positions, and
/// at least one victory condition, each individually valid.
pub open spec fn ruleset_valid(r: RulesetView) -> bool {
    r.seats >= 2 && (forall|a1: int, b1: int, a2: int, b2: int|
        ally_pos_in_suffix(r.allies, 0, 0, a1, b1) && ally_pos_in_suffix(r.allies, 0, 0, a2, b2)
            && (a1 != a2 || b1 != b2) ==> #[trigger] r.allies[a1][b1]
            != #[trigger] r.allies[a2][b2]) && r.seat_colors.len() == r.seats && (forall|
        i: int,
        j: int,
    |
        0 <= i < j < r.seat_colors.len() ==> r.seat_colors[i] != r.seat_colors[j]) && (forall|
        k: int,
    |
        0 <= k < r.pieces.len() ==> spec_verify_piece(#[trigger] r.pieces[k]) is None) && (forall|
        i: int,
        j: int,
    |
        0 <= i < j < r.pieces.len() ==> r.pieces[i].name != r.pieces[j].name)
        && crate::board_type::board_valid(r.board_type, r.seats)
        && crate::starting_positions::starting_positions_valid(r.starting_positions, r)
        && r.victory_conditions.len() > 0 && (forall|k: int|
        0 <= k < r.victory_conditions.len() ==> spec_verify_victory(
            #[trigger] r.victory_conditions[k],
            r,
        ) is None)
}

/// Ruleset verification succeeds exactly on valid rulesets.
pub proof fn lemma_ruleset_valid(r: RulesetView)
    ensures
        spec_ruleset_verify(r) is None <==> ruleset_valid(r),
{
    lemma_allies_valid(r.allies);
    lemma_colors_valid(r.seat_colors);
    lemma_pieces_valid(r.pieces);
    crate::board_type::lemma_board_valid(r.board_type, r.seats);
    crate::starting_positions::lemma_starting_positions_valid(r.starting_positions, r);
    lemma_victory_conditions_valid(r.victory_conditions, r);
}

impl Ruleset {
    /// Checks the whole ruleset, stopping at the first failure; the result is
    /// a function of the ruleset's value alone, so repeated calls on the same
    /// value give the same result.
    #[verifier::loop_isolation(false)]
    pub fn verify(&self) -> (result: RulesetResult<()>)
        ensures
            result is Ok <==> ruleset_valid(self@),
            match result {
                Ok(_) => spec_ruleset_verify(self@) is None,
                Err(e) => Some(e@) == spec_ruleset_verify(self@),
            },
    {
        proof {
            lemma_ruleset_valid(self@);
        }
        // Verify seats
        if self.seats < 2 {
            return Err(RulesetError::SeatsCountInvalid(self.seats));
        }
        // Verify allies
        match self.check_allies() {
            Err(e) => {
                return Err(e);
            },
            Ok(_) => {},
        }
        // Verify seat_colors
        if self.seat_colors.len() as u64 != self.seats {
            return Err(RulesetError::NotEnoughColorsSet(self.seat_colors.len()));
        }
        match self.check_colors() {
            Err(e) => {
                return Err(e);
            },
            Ok(_) => {},
        }
        // Verify pieces
        match self.check_pieces() {
            Err(e) => {
                return Err(e);
            },
            Ok(_) => {},
        }
        // Verify board_type
        match self.board_type.verify(self) {
            Err(e) => {
                return Err(RulesetError::BoardTypeVerifyError(e));
            },
            Ok(_) => {},
        }
        // Verify starting_positions
        match self.starting_positions.verify(self) {
            Err(e) => {
                return Err(RulesetError::StartingPositionsError(e));
            },
            Ok(_) => {},
        }
        // Verify victory_conditions
        if self.victory_conditions.len() == 0 {
            return Err(RulesetError::NoVictoryConditionSet);
        }
        let ghost r = self@;
        let mut j: usize = 0;
        while j < self.victory_conditions.len()
            invariant
                j <= self.victory_conditions@.len(),
                r == self@,
                board_wf(self.board_type@),
                scan_victory_conditions(r.victory_conditions, 0, r) == scan_victory_conditions(
                    r.victory_conditions,
                    j as int,
                    r,
                ),
            decreases self.victory_conditions@.len() - j,
        {
            match self.victory_conditions[j].verify(self) {
                Err(e) => {
                    return Err(RulesetError::VictoryConditionError(e));
                },
                Ok(_) => {},
            }
            j = j + 1;
        }
        Ok(())
    }

    /// The piece at the given index, or `None` when the index names no piece.
    pub fn get_piece(&self, index: usize) -> (r: Option<&PieceDefinition>)
        ensures
            match r {
                Some(piece) => index < self@.pieces.len() && piece@ == self@.pieces[index as int],
                None => index >= self@.pieces.len(),
            },
    {
        if index < self.pieces.len() {
            Some(&self.pieces[index])
        } else {
            None
        }
    }

    /// Scans the allied sets for a seat that appears twice.
    #[verifier::loop_isolation(false)]
    fn check_allies(&self) -> (result: RulesetResult<()>)
        ensures
            match result {
                Ok(_) => scan_allies(self@.allies, 0, 0, Seq::empty()) is None,
                Err(e) => scan_allies(self@.allies, 0, 0, Seq::empty()) is Some && e@
                    == RulesetErrorView::DuplicateSeatInAllies(
                    scan_allies(self@.allies, 0, 0, Seq::empty())->Some_0,
                ),
            },
    {
        let ghost all = self@.allies;
        let mut found: Vec<u64> = Vec::new();
        let mut k: usize = 0;
        while k < self.allies.len()
            invariant
                k <= self.allies@.len(),
                all == self@.allies,
                scan_allies(all, 0, 0, Seq::empty()) == scan_allies(all, k as int, 0, found@),
            decreases self.allies@.len() - k,
        {
            let set = &self.allies[k];
            let mut j: usize = 0;
            while j < set.len()
                invariant
                    k < self.allies@.len(),
                    j <= set@.len(),
                    set@ == all[k as int],
                    all == self@.allies,
                    scan_allies(all, 0, 0, Seq::empty()) == scan_allies(
                        all,
                        k as int,
                        j as int,
                        found@,
                    ),
                decreases set@.len() - j,
            {
                let seat = set[j];
                if contains_u64(&found, seat) {
                    return Err(RulesetError::DuplicateSeatInAllies(seat));
                }
                found.push(seat);
                j = j + 1;
            }
            k = k + 1;
        }
        Ok(())
    }

    /// Scans the seat colors for one that repeats an earlier color.
    #[verifier::loop_isolation(false)]
    fn check_colors(&self) -> (result: RulesetResult<()>)
        ensures
            match result {
                Ok(_) => scan_colors(self@.seat_colors, 0) is None,
                Err(e) => scan_colors(self@.seat_colors, 0) is Some && e@
                    == RulesetErrorView::DuplicateColor(scan_colors(self@.seat_colors, 0)->Some_0),
            },
    {
        let ghost all = self@.seat_colors;
        let mut j: usize = 0;
        while j < self.seat_colors.len()
            invariant
                j <= self.seat_colors@.len(),
                all == self@.seat_colors,
                scan_colors(all, 0) == scan_colors(all, j as int),
            decreases self.seat_colors@.len() - j,
        {
            let mut i: usize = 0;
            while i < j
                invariant
                    i <= j,
                    j < self.seat_colors@.len(),
                    all == self@.seat_colors,
                    forall|n: int| 0 <= n < i ==> all[n] != all[j as int],
                decreases j - i,
            {
                if self.seat_colors[i] == self.seat_colors[j] {
                    proof {
                        assert(all[i as int] == all[j as int]);
                        assert(exists|n: int| 0 <= n < j && all[n] == all[j as int]);
                    }
                    return Err(RulesetError::DuplicateColor(self.seat_colors[j].duplicate()));
                }
                i = i + 1;
            }
            j = j + 1;
        }
        Ok(())
    }

    /// Verifies each piece and scans the pieces for a repeated name.
    #[verifier::loop_isolation(false)]
    fn check_pieces(&self) -> (result: RulesetResult<()>)
        ensures
            match result {
                Ok(_) => scan_pieces(self@.pieces, 0) is None,
                Err(e) => Some(e@) == scan_pieces(self@.pieces, 0),
            },
    {
        let ghost all = self@.pieces;
        let mut k: usize = 0;
        while k < self.pieces.len()
            invariant
                k <= self.pieces@.len(),
                all == self@.pieces,
                scan_pieces(all, 0) == scan_pieces(all, k as int),
            decreases self.pieces@.len() - k,
        {
            let piece = &self.pieces[k];
            match piece.verify() {
                Err(e) => {
                    return Err(RulesetError::PieceDefinitionError(e));
                },
                Ok(_) => {},
            }
            let mut i: usize = 0;
            while i < k
                invariant
                    i <= k,
                    k < self.pieces@.len(),
                    all == self@.pieces,
                    forall|n: int| 0 <= n < i ==> all[n].name != all[k as int].name,
                decreases k - i,
            {
                if self.pieces[i].name == self.pieces[k].name {
                    proof {
                        assert(all[i as int].name == all[k as int].name);
                        assert(exists|n: int| 0 <= n < k && all[n].name == all[k as int].name);
                    }
                    return Err(RulesetError::PieceDuplicated(self.pieces[k].duplicate()));
                }
                i = i + 1;
            }
            k = k + 1;
        }
        Ok(())
    }
}

/// The piece scan fails whenever two pieces share a name: from any start
/// index at or before the later of the two.
proof fn lemma_scan_pieces_finds_dup(pieces: Seq<PieceDefinitionView>, k: int, i: int, j: int)
    requires
        0 <= k <= j,
        0 <= i < j < pieces.len(),
        pieces[i].name == pieces[j].name,
    ensures
        scan_pieces(pieces, k) is Some,
    decreases j - k,
{
    if scan_pieces(pieces, k) is None {
        lemma_scan_pieces_finds_dup(pieces, k + 1, i, j);
    }
}

/// When every piece is individually valid, the piece scan can only report a
/// duplicated piece.
proof fn lemma_scan_pieces_dup_kind(pieces: Seq<PieceDefinitionView>, k: int)
    requires
        forall|n: int| 0 <= n < pieces.len() ==> spec_verify_piece(#[trigger] pieces[n]) is None,
    ensures
        match scan_pieces(pieces, k) {
            None => true,
            Some(e) => e is PieceDuplicated,
        },
    decreases pieces.len() - k,
{
    if 0 <= k < pieces.len() {
        lemma_scan_pieces_dup_kind(pieces, k + 1);
    }
}

/// Uniqueness enforcement: a ruleset whose piece list holds two pieces with
/// the same name never verifies, whatever their other fields hold.
pub proof fn lemma_duplicate_piece_name_rejected(r: RulesetView, i: int, j: int)
    requires
        0 <= i < j < r.pieces.len(),
        r.pieces[i].name == r.pieces[j].name,
    ensures
        spec_ruleset_verify(r) is Some,
{
    lemma_scan_pieces_finds_dup(r.pieces, 0, i, j);
}

/// Uniqueness enforcement, sharpened: when the seat, ally and color stages
/// pass and every piece is individually valid, a repeated name is reported as
/// the piece-duplicate failure.
pub proof fn lemma_duplicate_piece_name_condition(r: RulesetView, i: int, j: int)
    requires
        0 <= i < j < r.pieces.len(),
        r.pieces[i].name == r.pieces[j].name,
        r.seats >= 2,
        scan_allies(r.allies, 0, 0, Seq::empty()) is None,
        r.seat_colors.len() == r.seats,
        scan_colors(r.seat_colors, 0) is None,
        forall|n: int| 0 <= n < r.pieces.len() ==> spec_verify_piece(#[trigger] r.pieces[n]) is None,
    ensures
        spec_ruleset_verify(r) matches Some(e) && e is PieceDuplicated,
{
    lemma_scan_pieces_finds_dup(r.pieces, 0, i, j);
    lemma_scan_pieces_dup_kind(r.pieces, 0);
}

/// Whether a seat vector holds a given seat.
#[verifier::loop_isolation(false)]
fn contains_u64(values: &Vec<u64>, value: u64) -> (r: bool)
    ensures
        r == values@.contains(value),
{
    let mut k: usize = 0;
    while k < values.len()
        invariant
            k <= values@.len(),
            forall|i: int| 0 <= i < k ==> values@[i] != value,
        decreases values@.len() - k,
    {
        if values[k] == value {
            return true;
        }
        k = k + 1;
    }
    false
}

pub type RulesetResult<T> = Result<T, RulesetError>;

/// A failed ruleset check.
#[derive(Debug)]
pub enum RulesetError {
    SeatsCountInvalid(u64),
    DuplicateSeatInAllies(u64),
    NotEnoughColorsSet(usize),
    DuplicateColor(Color),
    PieceDuplicated(PieceDefinition),
    PieceDefinitionError(PieceDefinitionError),
    BoardTypeVerifyError(BoardTypeVerifyError),
    StartingPositionsError(StartingPositionsError),
    NoVictoryConditionSet,
    VictoryConditionError(VictoryConditionError),
}

/// The abstract value of a failed ruleset check.
#[verifier::ext_equal]
pub enum RulesetErrorView {
    SeatsCountInvalid(u64),
    DuplicateSeatInAllies(u64),
    NotEnoughColorsSet(usize),
    DuplicateColor(Seq<char>),
    PieceDuplicated(PieceDefinitionView),
    PieceDefinitionError(PieceDefinitionErrorView),
    BoardTypeVerifyError(BoardTypeVerifyError),
    StartingPositionsError(StartingPositionsErrorView),
    NoVictoryConditionSet,
    VictoryConditionError(VictoryConditionError),
}

impl View for RulesetError {
    type V = RulesetErrorView;

    open spec fn view(&self) -> RulesetErrorView {
        match self {
            RulesetError::SeatsCountInvalid(n) => RulesetErrorView::SeatsCountInvalid(*n),
            RulesetError::DuplicateSeatInAllies(n) => RulesetErrorView::DuplicateSeatInAllies(*n),
            RulesetError::NotEnoughColorsSet(n) => RulesetErrorView::NotEnoughColorsSet(*n),
            RulesetError::DuplicateColor(c) => RulesetErrorView::DuplicateColor(c@),
            RulesetError::PieceDuplicated(p) => RulesetErrorView::PieceDuplicated(p@),
            RulesetError::PieceDefinitionError(e) => RulesetErrorView::PieceDefinitionError(e@),
            RulesetError::BoardTypeVerifyError(e) => RulesetErrorView::BoardTypeVerifyError(*e),
            RulesetError::StartingPositionsError(e) => RulesetErrorView::StartingPositionsError(e@),
            RulesetError::NoVictoryConditionSet => RulesetErrorView::NoVictoryConditionSet,
            RulesetError::VictoryConditionError(e) => RulesetErrorView::VictoryConditionError(*e),
        }
    }
}

} // verus!
