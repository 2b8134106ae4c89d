//! The level editor's state: the level being edited, the tool in hand, and
//! the edits that change the level's board.

use vstd::prelude::*;
use crate::board::{occupied_in, within, BoardState};
use crate::level::{GoalCondition, Level};
use crate::levels::LevelPack;
use crate::pieces::{same_position, LogicPiece, Position};
use crate::text::{
    alphanumeric, is_alphanumeric, is_whitespace, lower_of, lowercase, pair_text, push_pair,
    whitespace,
};
use crate::validation::has_assumption;

verus! {

/// Editor tools.
#[derive(Debug, Clone, Copy, PartialEq, Eq, Structural, Default)]
pub enum EditorTool {
    #[default]
    Select,
    Place,
    Delete,
    Move,
}

/// Piece kinds that the editor can place.
#[derive(Debug, Clone, Copy, PartialEq, Eq, Structural)]
pub enum EditorPieceType {
    Assumption,
    Goal,
    AndIntro,
    OrIntro,
    ImpliesIntro,
    NotIntro,
    ForallIntro,
    ExistsIntro,
}

/// The state of the level being edited.
#[derive(Debug)]
pub struct EditorState {
    /// The level being edited.
    pub level: Level,
    /// The pack the level belongs to, if any.
    pub pack_id: Option<String>,
    /// Whether the level is new rather than loaded.
    pub is_new_level: bool,
    pub tool: EditorTool,
    pub grid_width: u32,
    pub grid_height: u32,
    pub show_grid: bool,
    /// The piece kind to place next.
    pub selected_piece: Option<EditorPieceType>,
    /// Formula typed for an assumption or a goal.
    pub formula_input: String,
    /// Variable typed for a quantifier.
    pub variable_input: String,
    pub status_message: String,
    /// Whether the level has unsaved changes.
    pub dirty: bool,
}

/// The pieces of `s` that do not stand at `p`, in order.
pub open spec fn without_position(s: Seq<LogicPiece>, p: Position) -> Seq<LogicPiece> {
    s.filter(|q: LogicPiece| q.spec_position() != p)
}

/// The pieces of `s` that lie on a `w` by `h` grid, in order.
pub open spec fn within_grid(s: Seq<LogicPiece>, w: u32, h: u32) -> Seq<LogicPiece> {
    s.filter(|q: LogicPiece| within(w, h, q.spec_position()))
}

/// The number of goals in `s`.
pub open spec fn goal_count(s: Seq<LogicPiece>) -> nat {
    s.filter(|q: LogicPiece| q is Goal).len()
}

/// `s` is empty once leading and trailing white space is trimmed.
pub open spec fn blank(s: Seq<char>) -> bool {
    forall|i: int| 0 <= i < s.len() ==> whitespace(#[trigger] s[i])
}

/// What keeps a level from being playable, in the order it is reported.
pub open spec fn editor_problems(l: Level) -> Seq<Seq<char>> {
    let s = l.initial_state.pieces@;
    (if has_assumption(s) {
        Seq::empty()
    } else {
        seq!["Level needs at least one assumption"@]
    }) + (if goal_count(s) == 0 {
        seq!["Level needs a goal"@]
    } else if goal_count(s) > 1 {
        seq!["Level should have exactly one goal"@]
    } else {
        Seq::empty()
    }) + (if blank(l.name@) {
        seq!["Level needs a name"@]
    } else {
        Seq::empty()
    })
}

/// A character that may stand in a pack id.
pub open spec fn id_char(c: char) -> bool {
    alphanumeric(c) || c == '-' || c == '_'
}

/// Clones of the pieces of `s`, in order: those not at `p` when
/// `by_position`, else those on the `w` by `h` grid.
fn retain_pieces(s: &Vec<LogicPiece>, p: Position, by_position: bool, w: u32, h: u32) -> (r: Vec<
    LogicPiece,
>)
    ensures
        by_position ==> r@ == without_position(s@, p),
        !by_position ==> r@ == within_grid(s@, w, h),
{
    let ghost pred = if by_position {
        |q: LogicPiece| q.spec_position() != p
    } else {
        |q: LogicPiece| within(w, h, q.spec_position())
    };
    let mut out: Vec<LogicPiece> = Vec::new();
    let mut i: usize = 0;
    while i < s.len()
        invariant
            i <= s@.len(),
            pred == (if by_position {
                |q: LogicPiece| q.spec_position() != p
            } else {
                |q: LogicPiece| within(w, h, q.spec_position())
            }),
            out@ == s@.subrange(0, i as int).filter(pred),
        decreases s@.len() - i,
    {
        let (x, y) = s[i].position();
        let keep = if by_position {
            !same_position((x, y), p)
        } else {
            x < w && y < h
        };
        proof {
            let t = s@.subrange(0, i as int + 1);
            assert(t.drop_last() =~= s@.subrange(0, i as int));
            assert(t.last() == s@[i as int]);
            reveal(Seq::filter);
            assert(pred(s@[i as int]) == keep);
        }
        if keep {
            out.push(s[i].clone());
        }
        i = i + 1;
    }
    assert(s@.subrange(0, s@.len() as int) =~= s@);
    out
}

fn count_goals(s: &Vec<LogicPiece>) -> (r: usize)
    ensures
        r == goal_count(s@),
{
    let ghost pred = |q: LogicPiece| q is Goal;
    let mut n: usize = 0;
    let mut i: usize = 0;
    while i < s.len()
        invariant
            i <= s@.len(),
            pred == (|q: LogicPiece| q is Goal),
            n == s@.subrange(0, i as int).filter(pred).len(),
            n <= i,
        decreases s@.len() - i,
    {
        proof {
            let t = s@.subrange(0, i as int + 1);
            assert(t.drop_last() =~= s@.subrange(0, i as int));
            assert(t.last() == s@[i as int]);
            reveal(Seq::filter);
        }
        if let LogicPiece::Goal { .. } = &s[i] {
            n = n + 1;
        }
        i = i + 1;
    }
    assert(s@.subrange(0, s@.len() as int) =~= s@);
    n
}

fn any_assumption_in(s: &Vec<LogicPiece>) -> (r: bool)
    ensures
        r == has_assumption(s@),
{
    let mut i: usize = 0;
    while i < s.len()
        invariant
            i <= s@.len(),
            forall|k: int| 0 <= k < i ==> !((#[trigger] s@[k]) is Assumption),
        decreases s@.len() - i,
    {
        if let LogicPiece::Assumption { .. } = &s[i] {
            return true;
        }
        i = i + 1;
    }
    false
}

fn is_blank(s: &str) -> (r: bool)
    ensures
        r == blank(s@),
{
    let n = s.unicode_len();
    let mut i: usize = 0;
    while i < n
        invariant
            n == s@.len(),
            i <= n,
            forall|k: int| 0 <= k < i ==> whitespace(#[trigger] s@[k]),
        decreases n - i,
    {
        if !is_whitespace(s.get_char(i)) {
            return false;
        }
        i = i + 1;
    }
    true
}

/// The characters of `lowered` that may stand in a pack id, in order.
pub fn pack_id_from(lowered: &str) -> (r: String)
    ensures
        r@ == lowered@.filter(|c: char| id_char(c)),
{
    let n = lowered.unicode_len();
    let mut out = String::new();
    let mut i: usize = 0;
    while i < n
        invariant
            n == lowered@.len(),
            i <= n,
            out@ == lowered@.subrange(0, i as int).filter(|c: char| id_char(c)),
        decreases n - i,
    {
        let c = lowered.get_char(i);
        proof {
            let t = lowered@.subrange(0, i as int + 1);
            assert(t.drop_last() =~= lowered@.subrange(0, i as int));
            assert(t.last() == c);
            reveal(Seq::filter);
        }
        if is_alphanumeric(c) || c == '-' || c == '_' {
            let piece = lowered.substring_char(i, i + 1);
            out.append(piece);
            assert(piece@ =~= seq![c]);
        }
        i = i + 1;
    }
    assert(lowered@.subrange(0, n as int) =~= lowered@);
    out
}

/// A pack for levels made by a user; its id is the name in lower case,
/// keeping letters, digits, `-` and `_`.
pub fn create_user_pack(name: &str, author: &str) -> (r: LevelPack)
    ensures
        r.id@ == lower_of(name@).filter(|c: char| id_char(c)),
        r.name@ == name@,
        r.author@ == author@,
        r.levels@.len() == 0,
{
    let lowered = lowercase(name);
    let id = pack_id_from(lowered.as_str());
    LevelPack::new(id.as_str(), name, author)
}

impl EditorPieceType {
    /// The display name.
    pub fn name(&self) -> (r: &'static str)
        ensures
            r@ == self.name_text(),
    {
        match self {
            EditorPieceType::Assumption => "Assumption",
            EditorPieceType::Goal => "Goal",
            EditorPieceType::AndIntro => "AND Gate",
            EditorPieceType::OrIntro => "OR Gate",
            EditorPieceType::ImpliesIntro => "Implies",
            EditorPieceType::NotIntro => "NOT",
            EditorPieceType::ForallIntro => "For All",
            EditorPieceType::ExistsIntro => "Exists",
        }
    }

    pub open spec fn name_text(&self) -> Seq<char> {
        match self {
            EditorPieceType::Assumption => "Assumption"@,
            EditorPieceType::Goal => "Goal"@,
            EditorPieceType::AndIntro => "AND Gate"@,
            EditorPieceType::OrIntro => "OR Gate"@,
            EditorPieceType::ImpliesIntro => "Implies"@,
            EditorPieceType::NotIntro => "NOT"@,
            EditorPieceType::ForallIntro => "For All"@,
            EditorPieceType::ExistsIntro => "Exists"@,
        }
    }

    /// Whether the kind carries a formula.
    pub fn needs_formula(&self) -> (r: bool)
        ensures
            r == (*self == EditorPieceType::Assumption || *self == EditorPieceType::Goal),
    {
        matches!(self, EditorPieceType::Assumption | EditorPieceType::Goal)
    }

    /// Whether the kind carries a bound variable.
    pub fn needs_variable(&self) -> (r: bool)
        ensures
            r == (*self == EditorPieceType::ForallIntro || *self == EditorPieceType::ExistsIntro),
    {
        matches!(self, EditorPieceType::ForallIntro | EditorPieceType::ExistsIntro)
    }

    /// The piece of this kind at `pos`, with `formula` or `variable` where the kind has one.
    pub fn to_logic_piece(&self, pos: Position, formula: &str, variable: &str) -> (r: LogicPiece)
        ensures
            r.spec_position() == pos,
            match (*self, r) {
                (EditorPieceType::Assumption, LogicPiece::Assumption { formula: f, .. }) => f@
                    == formula@,
                (EditorPieceType::Goal, LogicPiece::Goal { formula: f, .. }) => f@ == formula@,
                (EditorPieceType::AndIntro, LogicPiece::AndIntro { .. }) => true,
                (EditorPieceType::OrIntro, LogicPiece::OrIntro { .. }) => true,
                (EditorPieceType::ImpliesIntro, LogicPiece::ImpliesIntro { .. }) => true,
                (EditorPieceType::NotIntro, LogicPiece::NotIntro { .. }) => true,
                (EditorPieceType::ForallIntro, LogicPiece::ForallIntro { variable: v, .. }) => v@
                    == variable@,
                (EditorPieceType::ExistsIntro, LogicPiece::ExistsIntro { variable: v, .. }) => v@
                    == variable@,
                _ => false,
            },
    {
        match self {
            EditorPieceType::Assumption => LogicPiece::Assumption {
                formula: String::from_str(formula),
                position: pos,
            },
            EditorPieceType::Goal => LogicPiece::Goal {
                formula: String::from_str(formula),
                position: pos,
            },
            EditorPieceType::AndIntro => LogicPiece::AndIntro { position: pos },
            EditorPieceType::OrIntro => LogicPiece::OrIntro { position: pos },
            EditorPieceType::ImpliesIntro => LogicPiece::ImpliesIntro { position: pos },
            EditorPieceType::NotIntro => LogicPiece::NotIntro { position: pos },
            EditorPieceType::ForallIntro => LogicPiece::ForallIntro {
                position: pos,
                variable: String::from_str(variable),
            },
            EditorPieceType::ExistsIntro => LogicPiece::ExistsIntro {
                position: pos,
                variable: String::from_str(variable),
            },
        }
    }
}

impl Default for EditorState {
    fn default() -> (r: Self)
        ensures
            r.level.id == 1,
            r.level.name@ == "New Level"@,
            r.level.initial_state.width == 10,
            r.level.initial_state.height == 10,
            r.level.initial_state.pieces@.len() == 0,
            r.level.goal_state is ProveFormula,
            r.pack_id is None,
            r.is_new_level,
            r.tool == EditorTool::Select,
            r.grid_width == 10,
            r.grid_height == 10,
            r.show_grid,
            r.selected_piece is None,
            r.formula_input@.len() == 0,
            r.variable_input@ == "x"@,
            r.status_message@ == "Ready"@,
            !r.dirty,
    {
        EditorState {
            level: Level {
                id: 1,
                name: String::from_str("New Level"),
                description: String::from_str("Enter description here"),
                theorem: String::new(),
                initial_state: BoardState { width: 10, height: 10, pieces: Vec::new() },
                goal_state: GoalCondition::ProveFormula { formula: String::from_str("Goal") },
            },
            pack_id: None,
            is_new_level: true,
            tool: EditorTool::Select,
            grid_width: 10,
            grid_height: 10,
            show_grid: true,
            selected_piece: None,
            formula_input: String::new(),
            variable_input: String::from_str("x"),
            status_message: String::from_str("Ready"),
            dirty: false,
        }
    }
}

impl EditorState {
    pub open spec fn pieces(&self) -> Seq<LogicPiece> {
        self.level.initial_state.pieces@
    }

    /// A fresh editor on a blank level.
    pub fn new() -> (r: Self)
        ensures
            r.is_new_level,
            r.pieces().len() == 0,
            !r.dirty,
            r.grid_width == 10,
            r.grid_height == 10,
    {
        EditorState::default()
    }

    /// An editor on an existing level, with the grid of its board.
    pub fn from_level(level: Level, pack_id: Option<String>) -> (r: Self)
        ensures
            r.level == level,
            r.pack_id == pack_id,
            !r.is_new_level,
            r.grid_width == level.initial_state.width,
            r.grid_height == level.initial_state.height,
            r.tool == EditorTool::Select,
            !r.dirty,
    {
        let grid_width = level.initial_state.width;
        let grid_height = level.initial_state.height;
        let base = EditorState::default();
        EditorState { level, pack_id, is_new_level: false, grid_width, grid_height, ..base }
    }

    /// Adds `piece` unless its position is taken; reports either outcome.
    pub fn add_piece(&mut self, piece: LogicPiece)
        ensures
            !occupied_in(old(self).pieces(), piece.spec_position()) ==> {
                &&& final(self).pieces() == old(self).pieces().push(piece)
                &&& final(self).dirty
                &&& final(self).status_message@ == "Added piece at "@ + pair_text(piece.spec_position())
            },
            occupied_in(old(self).pieces(), piece.spec_position()) ==> {
                &&& final(self).pieces() == old(self).pieces()
                &&& final(self).dirty == old(self).dirty
                &&& final(self).status_message@ == "Position "@ + pair_text(piece.spec_position())
                    + " is occupied"@
            },
            final(self).level.initial_state.width == old(self).level.initial_state.width,
            final(self).level.initial_state.height == old(self).level.initial_state.height,
    {
        let pos = piece.position();
        if !self.is_position_occupied(pos) {
            self.level.initial_state.pieces.push(piece);
            self.dirty = true;
            let mut m = String::from_str("Added piece at ");
            push_pair(&mut m, pos);
            self.status_message = m;
        } else {
            let mut m = String::from_str("Position ");
            push_pair(&mut m, pos);
            m.append(" is occupied");
            self.status_message = m;
        }
    }

    /// Removes every piece at `pos`; true when there was one.
    pub fn remove_piece_at(&mut self, pos: Position) -> (r: bool)
        ensures
            r == occupied_in(old(self).pieces(), pos),
            final(self).pieces() == without_position(old(self).pieces(), pos),
            !occupied_in(final(self).pieces(), pos),
            r ==> final(self).dirty && final(self).status_message@ == "Removed piece at "@
                + pair_text(pos),
            !r ==> final(self).dirty == old(self).dirty && final(self).status_message@
                == "No piece at "@ + pair_text(pos),
    {
        let ghost s = self.pieces();
        let was = self.is_position_occupied(pos);
        let kept = retain_pieces(&self.level.initial_state.pieces, pos, true, 0, 0);
        self.level.initial_state.pieces = kept;
        proof {
            lemma_without_position(s, pos);
        }
        if was {
            self.dirty = true;
            let mut m = String::from_str("Removed piece at ");
            push_pair(&mut m, pos);
            self.status_message = m;
        } else {
            let mut m = String::from_str("No piece at ");
            push_pair(&mut m, pos);
            self.status_message = m;
        }
        was
    }

    pub fn is_position_occupied(&self, pos: Position) -> (r: bool)
        ensures
            r == occupied_in(self.pieces(), pos),
    {
        self.level.initial_state.is_occupied(pos.0, pos.1)
    }

    /// The first piece at `pos`.
    pub fn get_piece_at(&self, pos: Position) -> (r: Option<&LogicPiece>)
        ensures
            r is None <==> !occupied_in(self.pieces(), pos),
            r matches Some(q) ==> q.spec_position() == pos,
    {
        let r = self.level.initial_state.piece_at(pos.0, pos.1);
        r
    }

    /// Resizes the grid and drops the pieces that no longer fit.
    pub fn set_grid_size(&mut self, width: u32, height: u32)
        ensures
            final(self).grid_width == width,
            final(self).grid_height == height,
            final(self).level.initial_state.width == width,
            final(self).level.initial_state.height == height,
            final(self).dirty,
            final(self).pieces() == within_grid(old(self).pieces(), width, height),
    {
        self.grid_width = width;
        self.grid_height = height;
        self.level.initial_state.width = width;
        self.level.initial_state.height = height;
        self.dirty = true;
        let kept = retain_pieces(&self.level.initial_state.pieces, (0, 0), false, width, height);
        self.level.initial_state.pieces = kept;
    }

    /// Checks that the level is playable: an assumption, exactly one goal, a name.
    pub fn validate(&self) -> (r: Result<(), Vec<String>>)
        ensures
            r is Ok <==> editor_problems(self.level).len() == 0,
            r matches Err(es) ==> es@.map_values(|e: String| e@) == editor_problems(self.level),
    {
        let mut errors: Vec<String> = Vec::new();
        let pieces = &self.level.initial_state.pieces;
        if !any_assumption_in(pieces) {
            errors.push(String::from_str("Level needs at least one assumption"));
        }
        let goals = count_goals(pieces);
        if goals == 0 {
            errors.push(String::from_str("Level needs a goal"));
        } else if goals > 1 {
            errors.push(String::from_str("Level should have exactly one goal"));
        }
        if is_blank(self.level.name.as_str()) {
            errors.push(String::from_str("Level needs a name"));
        }
        assert(errors@.map_values(|e: String| e@) =~= editor_problems(self.level));
        if errors.len() == 0 {
            Ok(())
        } else {
            Err(errors)
        }
    }

    /// The level as edited.
    pub fn build_level(&self) -> (r: Level)
        ensures
            r.id == self.level.id,
            r.name@ == self.level.name@,
            r.initial_state.pieces@ == self.pieces(),
            r.goal_state == self.level.goal_state,
    {
        self.level.clone()
    }
}

/// After removing every piece at `p`, nothing stands there.
proof fn lemma_without_position(s: Seq<LogicPiece>, p: Position)
    ensures
        !occupied_in(without_position(s, p), p),
        occupied_in(s, p) ==> without_position(s, p).len() < s.len(),
        !occupied_in(s, p) ==> without_position(s, p) == s,
    decreases s.len(),
{
    reveal(Seq::filter);
    if s.len() > 0 {
        lemma_without_position(s.drop_last(), p);
        let f = |q: LogicPiece| q.spec_position() != p;
        let t = s.drop_last().filter(f);
        if f(s.last()) {
            assert(s.filter(f) == t.push(s.last()));
            if occupied_in(t.push(s.last()), p) {
                let k = choose|k: int| 0 <= k < t.len() + 1 && (#[trigger] t.push(s.last())[k]).spec_position() == p;
                assert(t.push(s.last())[k] == t[k]);
            }
            if occupied_in(s, p) {
                let k = choose|k: int| 0 <= k < s.len() && (#[trigger] s[k]).spec_position() == p;
                assert(s.drop_last()[k] == s[k]);
            }
            if !occupied_in(s, p) {
                assert forall|k: int| 0 <= k < s.drop_last().len() implies (#[trigger] s.drop_last()[k]).spec_position() != p by {
                    assert(s.drop_last()[k] == s[k]);
                }
                assert(s.drop_last().push(s.last()) =~= s);
            }
        } else {
            s.drop_last().lemma_filter_len(f);
            assert(occupied_in(s, p)) by {
                assert(s[s.len() - 1].spec_position() == p);
            }
        }
    }
}

} // verus!
