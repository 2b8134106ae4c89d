//! Structural rules for placements, boards and levels, checked before a
//! proof is attempted.

use vstd::prelude::*;
use crate::board::{in_box, occupied_in, within, BoardState};
use crate::level::{GoalCondition, Level};
use crate::pieces::{same_position, LogicPiece, Position};
use crate::text::{alphanumeric, is_alphanumeric, pair_text, push_pair};

verus! {

/// What is wrong with a placement or a board.
#[derive(Debug, PartialEq, Eq)]
pub enum ValidationError {
    /// A piece lies outside the board.
    OutOfBounds { x: u32, y: u32, max_x: u32, max_y: u32 },
    /// Two pieces share a position.
    OverlappingPieces { position: Position },
    /// A wire loops onto itself or leaves the board.
    InvalidWire { from: Position, to: Position, reason: String },
    /// The board has no goal.
    NoGoals,
    /// The board has no assumption.
    NoAssumptions,
    /// A gate has no input connected.
    DisconnectedGate { position: Position },
    /// A goal cannot be reached from the assumptions.
    UnreachableGoal { formula: String },
    /// A formula is malformed.
    InvalidFormula { formula: String, reason: String },
}

/// The mathematical value of a `ValidationError`: text as character sequences.
pub enum ErrorView {
    OutOfBounds { x: u32, y: u32, max_x: u32, max_y: u32 },
    OverlappingPieces { position: Position },
    InvalidWire { from: Position, to: Position, reason: Seq<char> },
    NoGoals,
    NoAssumptions,
    DisconnectedGate { position: Position },
    UnreachableGoal { formula: Seq<char> },
    InvalidFormula { formula: Seq<char>, reason: Seq<char> },
}

impl View for ValidationError {
    type V = ErrorView;

    open spec fn view(&self) -> ErrorView {
        match self {
            ValidationError::OutOfBounds { x, y, max_x, max_y } => ErrorView::OutOfBounds {
                x: *x,
                y: *y,
                max_x: *max_x,
                max_y: *max_y,
            },
            ValidationError::OverlappingPieces { position } => ErrorView::OverlappingPieces {
                position: *position,
            },
            ValidationError::InvalidWire { from, to, reason } => ErrorView::InvalidWire {
                from: *from,
                to: *to,
                reason: reason@,
            },
            ValidationError::NoGoals => ErrorView::NoGoals,
            ValidationError::NoAssumptions => ErrorView::NoAssumptions,
            ValidationError::DisconnectedGate { position } => ErrorView::DisconnectedGate {
                position: *position,
            },
            ValidationError::UnreachableGoal { formula } => ErrorView::UnreachableGoal {
                formula: formula@,
            },
            ValidationError::InvalidFormula { formula, reason } => ErrorView::InvalidFormula {
                formula: formula@,
                reason: reason@,
            },
        }
    }
}

impl Clone for ValidationError {
    fn clone(&self) -> (r: Self)
        ensures
            r == *self,
    {
        match self {
            ValidationError::OutOfBounds { x, y, max_x, max_y } => ValidationError::OutOfBounds {
                x: *x,
                y: *y,
                max_x: *max_x,
                max_y: *max_y,
            },
            ValidationError::OverlappingPieces { position } => ValidationError::OverlappingPieces {
                position: *position,
            },
            ValidationError::InvalidWire { from, to, reason } => ValidationError::InvalidWire {
                from: *from,
                to: *to,
                reason: reason.clone(),
            },
            ValidationError::NoGoals => ValidationError::NoGoals,
            ValidationError::NoAssumptions => ValidationError::NoAssumptions,
            ValidationError::DisconnectedGate { position } => ValidationError::DisconnectedGate {
                position: *position,
            },
            ValidationError::UnreachableGoal { formula } => ValidationError::UnreachableGoal {
                formula: formula.clone(),
            },
            ValidationError::InvalidFormula { formula, reason } => ValidationError::InvalidFormula {
                formula: formula.clone(),
                reason: reason.clone(),
            },
        }
    }
}

/// The outcome of validating a board or a level.
#[derive(Debug, Clone)]
pub struct ValidationResult {
    pub is_valid: bool,
    pub errors: Vec<ValidationError>,
    pub warnings: Vec<String>,
}

impl ValidationResult {
    pub open spec fn error_views(&self) -> Seq<ErrorView> {
        self.errors@.map_values(|e: ValidationError| e@)
    }

    pub open spec fn warning_texts(&self) -> Seq<Seq<char>> {
        self.warnings@.map_values(|w: String| w@)
    }

    /// A valid result with no errors and no warnings.
    pub fn valid() -> (r: Self)
        ensures
            r.is_valid,
            r.errors@.len() == 0,
            r.warnings@.len() == 0,
    {
        ValidationResult { is_valid: true, errors: Vec::new(), warnings: Vec::new() }
    }

    /// An invalid result carrying `errors` and no warnings.
    pub fn invalid(errors: Vec<ValidationError>) -> (r: Self)
        ensures
            !r.is_valid,
            r.errors@ == errors@,
            r.warnings@.len() == 0,
    {
        ValidationResult { is_valid: false, errors, warnings: Vec::new() }
    }

    /// The same result with `warning` added after the others.
    pub fn with_warning(self, warning: String) -> (r: Self)
        ensures
            r.is_valid == self.is_valid,
            r.errors@ == self.errors@,
            r.warnings@ == self.warnings@.push(warning),
    {
        let mut r = self;
        r.warnings.push(warning);
        r
    }
}

/// The error for a piece at `p` off a `w` by `h` board.
pub open spec fn out_of_bounds(w: u32, h: u32, p: Position) -> ErrorView {
    ErrorView::OutOfBounds { x: p.0, y: p.1, max_x: (w - 1) as u32, max_y: (h - 1) as u32 }
}

/// The formula that an assumption or a goal carries.
pub open spec fn formula_of(q: LogicPiece) -> Option<Seq<char>> {
    match q {
        LogicPiece::Assumption { formula, .. } => Some(formula@),
        LogicPiece::Goal { formula, .. } => Some(formula@),
        _ => None,
    }
}

/// A formula must be non-empty and start with an alphanumeric character or `(`.
pub open spec fn formula_error(f: Seq<char>) -> Option<ErrorView> {
    if f.len() == 0 {
        Some(ErrorView::InvalidFormula { formula: f, reason: "Formula cannot be empty"@ })
    } else if !(alphanumeric(f[0]) || f[0] == '(') {
        Some(
            ErrorView::InvalidFormula {
                formula: f,
                reason: "Formula must start with identifier or parenthesis"@,
            },
        )
    } else {
        None
    }
}

/// The wire rules, in order: distinct endpoints, start on the board, end on the board.
pub open spec fn wire_error(w: u32, h: u32, from: Position, to: Position) -> Option<ErrorView> {
    if from == to {
        Some(
            ErrorView::InvalidWire {
                from,
                to,
                reason: "Wire cannot connect a position to itself"@,
            },
        )
    } else if !within(w, h, from) {
        Some(ErrorView::InvalidWire { from, to, reason: "Wire start position out of bounds"@ })
    } else if !within(w, h, to) {
        Some(ErrorView::InvalidWire { from, to, reason: "Wire end position out of bounds"@ })
    } else {
        None
    }
}

/// The first rule that placing `q` on `b` breaks, checking bounds, occupancy,
/// the wire rules and the formula rule in that order.
pub open spec fn placement_error(b: BoardState, q: LogicPiece) -> Option<ErrorView> {
    let p = q.spec_position();
    if !within(b.width, b.height, p) {
        Some(out_of_bounds(b.width, b.height, p))
    } else if occupied_in(b.pieces@, p) {
        Some(ErrorView::OverlappingPieces { position: p })
    } else if q is Wire && wire_error(b.width, b.height, q->from, q->to) is Some {
        wire_error(b.width, b.height, q->from, q->to)
    } else if formula_of(q) is Some {
        formula_error(formula_of(q)->0)
    } else {
        None
    }
}

/// One out-of-bounds error per piece off the board, in board order.
pub open spec fn bounds_errors(s: Seq<LogicPiece>, w: u32, h: u32) -> Seq<ErrorView>
    decreases s.len(),
{
    if s.len() == 0 {
        Seq::empty()
    } else {
        let rest = bounds_errors(s.drop_last(), w, h);
        if within(w, h, s.last().spec_position()) {
            rest
        } else {
            rest.push(out_of_bounds(w, h, s.last().spec_position()))
        }
    }
}

/// One overlap error per piece whose position an earlier piece already holds.
pub open spec fn overlap_errors(s: Seq<LogicPiece>) -> Seq<ErrorView>
    decreases s.len(),
{
    if s.len() == 0 {
        Seq::empty()
    } else {
        let rest = overlap_errors(s.drop_last());
        if occupied_in(s.drop_last(), s.last().spec_position()) {
            rest.push(ErrorView::OverlappingPieces { position: s.last().spec_position() })
        } else {
            rest
        }
    }
}

pub open spec fn has_assumption(s: Seq<LogicPiece>) -> bool {
    exists|i: int| 0 <= i < s.len() && (#[trigger] s[i]) is Assumption
}

pub open spec fn has_goal(s: Seq<LogicPiece>) -> bool {
    exists|i: int| 0 <= i < s.len() && (#[trigger] s[i]) is Goal
}

/// `NoAssumptions` and `NoGoals`, each where it applies.
pub open spec fn presence_errors(s: Seq<LogicPiece>) -> Seq<ErrorView> {
    (if has_assumption(s) {
        Seq::empty()
    } else {
        seq![ErrorView::NoAssumptions]
    }) + (if has_goal(s) {
        Seq::empty()
    } else {
        seq![ErrorView::NoGoals]
    })
}

/// Every error that `validate_board` reports, in order.
pub open spec fn board_errors(b: BoardState) -> Seq<ErrorView> {
    bounds_errors(b.pieces@, b.width, b.height) + overlap_errors(b.pieces@) + presence_errors(
        b.pieces@,
    )
}

/// A piece that can feed a gate: an assumption, an AND or an OR gate.
pub open spec fn feeds_gate(q: LogicPiece) -> bool {
    q is Assumption || q is AndIntro || q is OrIntro
}

/// Some piece of `s` that can feed a gate lies within two cells of `c`.
pub open spec fn has_input_near(s: Seq<LogicPiece>, c: Position) -> bool {
    exists|i: int| 0 <= i < s.len() && feeds_gate(#[trigger] s[i]) && in_box(s[i].spec_position(), c, 2)
}

pub open spec fn disconnected_text(p: Position) -> Seq<char> {
    "Gate at "@ + pair_text(p) + " has no nearby input pieces"@
}

/// One warning per gate of `s` with no input near it among `all`, in order.
pub open spec fn gate_warnings(all: Seq<LogicPiece>, s: Seq<LogicPiece>) -> Seq<Seq<char>>
    decreases s.len(),
{
    if s.len() == 0 {
        Seq::empty()
    } else {
        let rest = gate_warnings(all, s.drop_last());
        if s.last().is_gate() && !has_input_near(all, s.last().spec_position()) {
            rest.push(disconnected_text(s.last().spec_position()))
        } else {
            rest
        }
    }
}

pub open spec fn board_warnings(b: BoardState) -> Seq<Seq<char>> {
    gate_warnings(b.pieces@, b.pieces@)
}

/// The board's dimensions are positive.
pub open spec fn has_area(b: BoardState) -> bool {
    b.width > 0 && b.height > 0
}

fn formula_check(formula: &String) -> (r: Result<(), ValidationError>)
    ensures
        formula_error(formula@) is None <==> r is Ok,
        r matches Err(e) ==> formula_error(formula@) == Some(e@),
{
    if formula.as_str().is_empty() {
        return Err(
            ValidationError::InvalidFormula {
                formula: formula.clone(),
                reason: String::from_str("Formula cannot be empty"),
            },
        );
    }
    let c = formula.as_str().get_char(0);
    if !(is_alphanumeric(c) || c == '(') {
        return Err(
            ValidationError::InvalidFormula {
                formula: formula.clone(),
                reason: String::from_str("Formula must start with identifier or parenthesis"),
            },
        );
    }
    Ok(())
}

/// Checks that `piece` may be placed on `board`; reports the first rule broken.
pub fn validate_piece_placement(board: &BoardState, piece: &LogicPiece) -> (r: Result<
    (),
    ValidationError,
>)
    requires
        has_area(*board),
    ensures
        r is Ok <==> placement_error(*board, *piece) is None,
        r matches Err(e) ==> placement_error(*board, *piece) == Some(e@),
{
    let (x, y) = piece.position();
    if x >= board.width || y >= board.height {
        return Err(
            ValidationError::OutOfBounds {
                x,
                y,
                max_x: board.width - 1,
                max_y: board.height - 1,
            },
        );
    }
    if board.is_occupied(x, y) {
        return Err(ValidationError::OverlappingPieces { position: (x, y) });
    }
    if let LogicPiece::Wire { from, to } = piece {
        if same_position(*from, *to) {
            return Err(
                ValidationError::InvalidWire {
                    from: *from,
                    to: *to,
                    reason: String::from_str("Wire cannot connect a position to itself"),
                },
            );
        }
        if from.0 >= board.width || from.1 >= board.height {
            return Err(
                ValidationError::InvalidWire {
                    from: *from,
                    to: *to,
                    reason: String::from_str("Wire start position out of bounds"),
                },
            );
        }
        if to.0 >= board.width || to.1 >= board.height {
            return Err(
                ValidationError::InvalidWire {
                    from: *from,
                    to: *to,
                    reason: String::from_str("Wire end position out of bounds"),
                },
            );
        }
    }
    match piece {
        LogicPiece::Assumption { formula, .. } => formula_check(formula),
        LogicPiece::Goal { formula, .. } => formula_check(formula),
        _ => Ok(()),
    }
}

/// Whether a piece of `s` before index `end` stands at `p`.
fn occupied_before(s: &Vec<LogicPiece>, end: usize, p: Position) -> (r: bool)
    requires
        end <= s@.len(),
    ensures
        r == occupied_in(s@.subrange(0, end as int), p),
{
    let mut j: usize = 0;
    while j < end
        invariant
            end <= s@.len(),
            j <= end,
            forall|k: int| 0 <= k < j ==> (#[trigger] s@[k]).spec_position() != p,
        decreases end - j,
    {
        if same_position(s[j].position(), p) {
            assert(s@.subrange(0, end as int)[j as int] == s@[j as int]);
            return true;
        }
        j = j + 1;
    }
    proof {
        let t = s@.subrange(0, end as int);
        assert forall|k: int| 0 <= k < t.len() implies (#[trigger] t[k]).spec_position() != p by {
            assert(t[k] == s@[k]);
        }
    }
    false
}

fn any_assumption(s: &Vec<LogicPiece>) -> (r: bool)
    ensures
        r == has_assumption(s@),
{
    let mut i: usize = 0;
    while i < s.len()
        invariant
            i <= s@.len(),
            forall|k: int| 0 <= k < i ==> !((#[trigger] s@[k]) is Assumption),
        decreases s@.len() - i,
    {
        if let LogicPiece::Assumption { .. } = &s[i] {
            return true;
        }
        i = i + 1;
    }
    false
}

fn any_goal(s: &Vec<LogicPiece>) -> (r: bool)
    ensures
        r == has_goal(s@),
{
    let mut i: usize = 0;
    while i < s.len()
        invariant
            i <= s@.len(),
            forall|k: int| 0 <= k < i ==> !((#[trigger] s@[k]) is Goal),
        decreases s@.len() - i,
    {
        if let LogicPiece::Goal { .. } = &s[i] {
            return true;
        }
        i = i + 1;
    }
    false
}

fn input_near(s: &Vec<LogicPiece>, c: Position) -> (r: bool)
    ensures
        r == has_input_near(s@, c),
{
    let mut i: usize = 0;
    while i < s.len()
        invariant
            i <= s@.len(),
            forall|k: int|
                0 <= k < i ==> !(feeds_gate(#[trigger] s@[k]) && in_box(s@[k].spec_position(), c, 2)),
        decreases s@.len() - i,
    {
        let q = &s[i];
        let feeds = match q {
            LogicPiece::Assumption { .. } => true,
            LogicPiece::AndIntro { .. } => true,
            LogicPiece::OrIntro { .. } => true,
            _ => false,
        };
        let (px, py) = q.position();
        let (px, py, cx, cy) = (px as u64, py as u64, c.0 as u64, c.1 as u64);
        if feeds && px <= cx + 2 && cx <= px + 2 && py <= cy + 2 && cy <= py + 2 {
            return true;
        }
        i = i + 1;
    }
    false
}

/// The warning for a gate at `p` with no input near it.
fn disconnected_warning(p: Position) -> (r: String)
    ensures
        r@ == disconnected_text(p),
{
    let mut w = String::from_str("Gate at ");
    push_pair(&mut w, p);
    w.append(" has no nearby input pieces");
    w
}

proof fn lemma_push_view<A, B>(s: Seq<A>, x: A, f: spec_fn(A) -> B)
    ensures
        s.push(x).map_values(f) == s.map_values(f).push(f(x)),
{
    assert(s.push(x).map_values(f) =~= s.map_values(f).push(f(x)));
}

/// Checks the whole board: every piece off the grid, every repeated position,
/// a missing assumption and a missing goal are errors; a gate with no input
/// within two cells is a warning, which never affects validity.
pub fn validate_board(board: &BoardState) -> (r: ValidationResult)
    requires
        has_area(*board),
    ensures
        r.error_views() == board_errors(*board),
        r.warning_texts() == board_warnings(*board),
        r.is_valid == (board_errors(*board).len() == 0),
{
    let ghost ps = board.pieces@;
    let ghost w = board.width;
    let ghost h = board.height;
    let mut errors: Vec<ValidationError> = Vec::new();
    let mut warnings: Vec<String> = Vec::new();
    let mut i: usize = 0;
    while i < board.pieces.len()
        invariant
            i <= ps.len(),
            ps == board.pieces@,
            w == board.width,
            h == board.height,
            has_area(*board),
            errors@.map_values(|e: ValidationError| e@) == bounds_errors(
                ps.subrange(0, i as int),
                w,
                h,
            ),
        decreases ps.len() - i,
    {
        let (x, y) = board.pieces[i].position();
        let ghost before = errors@;
        if x >= board.width || y >= board.height {
            errors.push(
                ValidationError::OutOfBounds {
                    x,
                    y,
                    max_x: board.width - 1,
                    max_y: board.height - 1,
                },
            );
            proof {
                lemma_push_view(before, errors@.last(), |e: ValidationError| e@);
                assert(errors@.last()@ == out_of_bounds(w, h, (x, y)));
            }
        }
        proof {
            let t = ps.subrange(0, i as int + 1);
            assert(t.drop_last() =~= ps.subrange(0, i as int));
            assert(t.last() == ps[i as int]);
            assert(t.last().spec_position() == (x, y));
            assert(bounds_errors(t, w, h) == (if within(w, h, (x, y)) {
                bounds_errors(ps.subrange(0, i as int), w, h)
            } else {
                bounds_errors(ps.subrange(0, i as int), w, h).push(out_of_bounds(w, h, (x, y)))
            }));
        }
        i = i + 1;
    }
    assert(ps.subrange(0, ps.len() as int) =~= ps);
    let ghost bounds = errors@.map_values(|e: ValidationError| e@);
    let mut i: usize = 0;
    while i < board.pieces.len()
        invariant
            i <= ps.len(),
            ps == board.pieces@,
            bounds == bounds_errors(ps, w, h),
            errors@.map_values(|e: ValidationError| e@) == bounds + overlap_errors(
                ps.subrange(0, i as int),
            ),
        decreases ps.len() - i,
    {
        let pos = board.pieces[i].position();
        let ghost before = errors@;
        proof {
            let t = ps.subrange(0, i as int + 1);
            assert(t.drop_last() =~= ps.subrange(0, i as int));
            assert(t.last() == ps[i as int]);
        }
        if occupied_before(&board.pieces, i, pos) {
            errors.push(ValidationError::OverlappingPieces { position: pos });
            proof {
                lemma_push_view(before, errors@.last(), |e: ValidationError| e@);
                let t = ps.subrange(0, i as int + 1);
                assert(bounds + overlap_errors(t) =~= (bounds + overlap_errors(
                    ps.subrange(0, i as int),
                )).push(ErrorView::OverlappingPieces { position: pos }));
            }
        }
        i = i + 1;
    }
    assert(ps.subrange(0, ps.len() as int) =~= ps);
    let ghost found = errors@;
    let has_assumptions = any_assumption(&board.pieces);
    let has_goals = any_goal(&board.pieces);
    if !has_assumptions {
        errors.push(ValidationError::NoAssumptions);
        proof {
            lemma_push_view(found, errors@.last(), |e: ValidationError| e@);
        }
    }
    let ghost found2 = errors@;
    if !has_goals {
        errors.push(ValidationError::NoGoals);
        proof {
            lemma_push_view(found2, errors@.last(), |e: ValidationError| e@);
        }
    }
    assert(errors@.map_values(|e: ValidationError| e@) =~= board_errors(*board));
    let mut i: usize = 0;
    while i < board.pieces.len()
        invariant
            i <= ps.len(),
            ps == board.pieces@,
            warnings@.map_values(|t: String| t@) == gate_warnings(ps, ps.subrange(0, i as int)),
        decreases ps.len() - i,
    {
        let q = &board.pieces[i];
        let gate = match q {
            LogicPiece::AndIntro { .. } => true,
            LogicPiece::OrIntro { .. } => true,
            LogicPiece::ImpliesIntro { .. } => true,
            LogicPiece::NotIntro { .. } => true,
            _ => false,
        };
        let ghost before = warnings@;
        proof {
            let t = ps.subrange(0, i as int + 1);
            assert(t.drop_last() =~= ps.subrange(0, i as int));
            assert(t.last() == ps[i as int]);
        }
        if gate {
            let position = q.position();
            if !input_near(&board.pieces, position) {
                warnings.push(disconnected_warning(position));
                proof {
                    lemma_push_view(before, warnings@.last(), |t: String| t@);
                }
            }
        }
        i = i + 1;
    }
    assert(ps.subrange(0, ps.len() as int) =~= ps);
    if errors.len() == 0 {
        let mut result = ValidationResult::valid();
        result.warnings = warnings;
        assert(errors@.map_values(|e: ValidationError| e@).len() == 0);
        assert(result.errors@.map_values(|e: ValidationError| e@) =~= board_errors(*board));
        result
    } else {
        let mut result = ValidationResult::invalid(errors);
        result.warnings = warnings;
        result
    }
}

pub open spec fn start_text(p: Position) -> Seq<char> {
    "Goal start node "@ + pair_text(p) + " is outside board bounds"@
}

pub open spec fn end_text(p: Position) -> Seq<char> {
    "Goal end node "@ + pair_text(p) + " is outside board bounds"@
}

/// Errors of the goal condition: only an empty formula to prove.
pub open spec fn goal_errors(l: Level) -> Seq<ErrorView> {
    match l.goal_state {
        GoalCondition::ProveFormula { formula } => if formula@.len() == 0 {
            seq![ErrorView::InvalidFormula { formula: formula@, reason: "Goal formula cannot be empty"@ }]
        } else {
            Seq::empty()
        },
        _ => Seq::empty(),
    }
}

/// Warnings of the goal condition: endpoints off the board, a proof tree of depth zero.
pub open spec fn goal_warnings(l: Level) -> Seq<Seq<char>> {
    let b = l.initial_state;
    match l.goal_state {
        GoalCondition::ConnectNodes { start, end } => (if within(b.width, b.height, start) {
            Seq::empty()
        } else {
            seq![start_text(start)]
        }) + (if within(b.width, b.height, end) {
            Seq::empty()
        } else {
            seq![end_text(end)]
        }),
        GoalCondition::BuildProofTree { depth } => if depth == 0 {
            seq!["Proof tree depth of 0 is trivially satisfied"@]
        } else {
            Seq::empty()
        },
        _ => Seq::empty(),
    }
}

pub open spec fn level_errors(l: Level) -> Seq<ErrorView> {
    board_errors(l.initial_state) + goal_errors(l)
}

pub open spec fn level_warnings(l: Level) -> Seq<Seq<char>> {
    board_warnings(l.initial_state) + goal_warnings(l)
}

fn node_warning(prefix: &str, p: Position) -> (r: String)
    ensures
        r@ == prefix@ + pair_text(p) + " is outside board bounds"@,
{
    let mut w = String::from_str(prefix);
    push_pair(&mut w, p);
    w.append(" is outside board bounds");
    w
}

/// Checks a level: its initial board, then its goal condition.
pub fn validate_level(level: &Level) -> (r: ValidationResult)
    requires
        has_area(level.initial_state),
    ensures
        r.error_views() == level_errors(*level),
        r.warning_texts() == level_warnings(*level),
        r.is_valid == (level_errors(*level).len() == 0),
{
    let board_result = validate_board(&level.initial_state);
    let mut errors = board_result.errors;
    let mut warnings = board_result.warnings;
    let ghost e0 = errors@;
    let ghost w0 = warnings@;
    let width = level.initial_state.width;
    let height = level.initial_state.height;
    match &level.goal_state {
        GoalCondition::ConnectNodes { start, end } => {
            if start.0 >= width || start.1 >= height {
                warnings.push(node_warning("Goal start node ", *start));
                proof {
                    lemma_push_view(w0, warnings@.last(), |t: String| t@);
                }
            }
            let ghost w1 = warnings@;
            if end.0 >= width || end.1 >= height {
                warnings.push(node_warning("Goal end node ", *end));
                proof {
                    lemma_push_view(w1, warnings@.last(), |t: String| t@);
                }
            }
            assert(warnings@.map_values(|t: String| t@) =~= level_warnings(*level));
            assert(errors@.map_values(|e: ValidationError| e@) =~= level_errors(*level));
        },
        GoalCondition::ProveFormula { formula } => {
            if formula.as_str().is_empty() {
                errors.push(
                    ValidationError::InvalidFormula {
                        formula: formula.clone(),
                        reason: String::from_str("Goal formula cannot be empty"),
                    },
                );
                proof {
                    lemma_push_view(e0, errors@.last(), |e: ValidationError| e@);
                }
            }
            assert(warnings@.map_values(|t: String| t@) =~= level_warnings(*level));
            assert(errors@.map_values(|e: ValidationError| e@) =~= level_errors(*level));
        },
        GoalCondition::BuildProofTree { depth } => {
            if *depth == 0 {
                warnings.push(String::from_str("Proof tree depth of 0 is trivially satisfied"));
                proof {
                    lemma_push_view(w0, warnings@.last(), |t: String| t@);
                }
            }
            assert(warnings@.map_values(|t: String| t@) =~= level_warnings(*level));
            assert(errors@.map_values(|e: ValidationError| e@) =~= level_errors(*level));
        },
    }
    if errors.len() == 0 {
        let mut result = ValidationResult::valid();
        result.warnings = warnings;
        assert(result.errors@.map_values(|e: ValidationError| e@) =~= level_errors(*level));
        result
    } else {
        let mut result = ValidationResult::invalid(errors);
        result.warnings = warnings;
        result
    }
}

/// A board is ready when it validates and holds at least three pieces
/// (an assumption, a gate and a goal at the least).
pub fn is_ready_for_verification(board: &BoardState) -> (r: bool)
    requires
        has_area(*board),
    ensures
        r == (board_errors(*board).len() == 0 && board.pieces@.len() >= 3),
{
    let result = validate_board(board);
    result.is_valid && board.piece_count() >= 3
}

/// A board without assumptions is reported as such, and is not valid.
pub proof fn lemma_no_assumptions_reported(b: BoardState)
    requires
        !has_assumption(b.pieces@),
    ensures
        board_errors(b).contains(ErrorView::NoAssumptions),
        board_errors(b).len() != 0,
{
    let pre = bounds_errors(b.pieces@, b.width, b.height) + overlap_errors(b.pieces@);
    let rest = presence_errors(b.pieces@);
    assert(rest[0] == ErrorView::NoAssumptions);
    assert(board_errors(b) =~= pre + rest);
    assert(board_errors(b)[pre.len() as int] == ErrorView::NoAssumptions);
}

proof fn lemma_bounds_clean(s: Seq<LogicPiece>, w: u32, h: u32)
    requires
        forall|i: int| 0 <= i < s.len() ==> within(w, h, (#[trigger] s[i]).spec_position()),
    ensures
        bounds_errors(s, w, h).len() == 0,
    decreases s.len(),
{
    if s.len() > 0 {
        let t = s.drop_last();
        assert forall|i: int| 0 <= i < t.len() implies within(w, h, (#[trigger] t[i]).spec_position()) by {
            assert(t[i] == s[i]);
        }
        lemma_bounds_clean(t, w, h);
        assert(within(w, h, s[s.len() - 1].spec_position()));
    }
}

proof fn lemma_overlaps_clean(s: Seq<LogicPiece>)
    requires
        forall|i: int, j: int|
            0 <= i < j < s.len() ==> (#[trigger] s[i]).spec_position() != (#[trigger] s[j]).spec_position(),
    ensures
        overlap_errors(s).len() == 0,
    decreases s.len(),
{
    if s.len() > 0 {
        let t = s.drop_last();
        assert forall|i: int, j: int| 0 <= i < j < t.len() implies
            (#[trigger] t[i]).spec_position() != (#[trigger] t[j]).spec_position() by {
            assert(t[i] == s[i] && t[j] == s[j]);
        }
        lemma_overlaps_clean(t);
        if occupied_in(t, s.last().spec_position()) {
            let k = choose|k: int| 0 <= k < t.len() && (#[trigger] t[k]).spec_position() == s.last().spec_position();
            assert(s[k] == t[k]);
            assert(s[s.len() - 1] == s.last());
        }
    }
}

/// A board whose pieces are all on the grid at distinct positions, with an
/// assumption and a goal among them, is valid.
pub proof fn lemma_well_formed_board_is_valid(b: BoardState)
    requires
        b.wf(),
        has_assumption(b.pieces@),
        has_goal(b.pieces@),
    ensures
        board_errors(b).len() == 0,
{
    lemma_bounds_clean(b.pieces@, b.width, b.height);
    lemma_overlaps_clean(b.pieces@);
}

} // verus!
