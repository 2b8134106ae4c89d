//! Proof checking: the SMT-LIB2 rendering of a board, the adjacency rule,
//! and the decision whether a placement proves the level's goal.

use vstd::prelude::*;
use crate::board::BoardState;
use crate::level::Level;
use crate::pieces::{LogicPiece, Position};

verus! {

/// A proof handed to the submission service.
#[derive(Debug, Clone)]
pub struct ExportedProof {
    pub level_id: u32,
    pub player_id: String,
    pub proof_smt2: String,
    pub proof_isabelle: Option<String>,
    pub solution_steps: Vec<String>,
    pub time_taken_secs: u64,
}

/// What a satisfiability check answered.
#[derive(Debug, Clone, Copy, PartialEq, Eq, Structural)]
pub enum SolverVerdict {
    Sat,
    Unsat,
    Unknown,
}

/// The formula that an assumption or a goal carries.
pub open spec fn carried_formula(q: LogicPiece) -> Option<Seq<char>> {
    match q {
        LogicPiece::Assumption { formula, .. } => Some(formula@),
        LogicPiece::Goal { formula, .. } => Some(formula@),
        _ => None,
    }
}

/// The distinct formulas of the assumptions and goals of `s`, first seen first.
pub open spec fn formulas_seen(s: Seq<LogicPiece>) -> Seq<Seq<char>>
    decreases s.len(),
{
    if s.len() == 0 {
        Seq::empty()
    } else {
        let rest = formulas_seen(s.drop_last());
        match carried_formula(s.last()) {
            Some(f) => if rest.contains(f) {
                rest
            } else {
                rest.push(f)
            },
            None => rest,
        }
    }
}

pub open spec fn declare_line(f: Seq<char>) -> Seq<char> {
    "(declare-const "@ + f + " Bool)\n"@
}

pub open spec fn assert_line(f: Seq<char>) -> Seq<char> {
    "(assert "@ + f + ")\n"@
}

/// One declaration per formula, in order.
pub open spec fn declarations(fs: Seq<Seq<char>>) -> Seq<char>
    decreases fs.len(),
{
    if fs.len() == 0 {
        Seq::empty()
    } else {
        declarations(fs.drop_last()) + declare_line(fs.last())
    }
}

/// One assertion per assumption of `s`, in board order.
pub open spec fn assertions(s: Seq<LogicPiece>) -> Seq<char>
    decreases s.len(),
{
    if s.len() == 0 {
        Seq::empty()
    } else {
        match s.last() {
            LogicPiece::Assumption { formula, .. } => assertions(s.drop_last()) + assert_line(
                formula@,
            ),
            _ => assertions(s.drop_last()),
        }
    }
}

pub open spec fn smt_header() -> Seq<char> {
    "; Proof of Work - Generated Proof\n"@ + "(set-logic QF_UF)\n"@
}

/// The script for a board: header, declarations, assumptions, `(check-sat)`.
/// The goal is declared but not asserted.
pub open spec fn smt_script(s: Seq<LogicPiece>) -> Seq<char> {
    smt_header() + declarations(formulas_seen(s)) + assertions(s) + "(check-sat)\n"@
}

/// Whether `fs` holds `f`, comparing text.
fn holds_formula(fs: &Vec<String>, f: &String) -> (r: bool)
    ensures
        r == fs@.map_values(|t: String| t@).contains(f@),
{
    let ghost v = fs@.map_values(|t: String| t@);
    let mut i: usize = 0;
    while i < fs.len()
        invariant
            i <= fs@.len(),
            v == fs@.map_values(|t: String| t@),
            forall|k: int| 0 <= k < i ==> v[k] != f@,
        decreases fs@.len() - i,
    {
        if fs[i] == *f {
            assert(v[i as int] == f@);
            return true;
        }
        i = i + 1;
    }
    false
}

/// Renders `board` as an SMT-LIB2 script: a comment, `(set-logic QF_UF)`, one
/// `declare-const` per distinct assumption or goal formula in first-seen
/// order, one `assert` per assumption, and `(check-sat)`.
pub fn board_to_smt(board: &BoardState) -> (r: String)
    ensures
        r@ == smt_script(board.pieces@),
{
    let ghost ps = board.pieces@;
    let mut smt = String::from_str("; Proof of Work - Generated Proof\n");
    smt.append("(set-logic QF_UF)\n");
    let mut formulas: Vec<String> = Vec::new();
    let mut i: usize = 0;
    while i < board.pieces.len()
        invariant
            i <= ps.len(),
            ps == board.pieces@,
            formulas@.map_values(|t: String| t@) == formulas_seen(ps.subrange(0, i as int)),
            smt@ == smt_header() + declarations(formulas_seen(ps.subrange(0, i as int))),
        decreases ps.len() - i,
    {
        let ghost before = formulas@.map_values(|t: String| t@);
        proof {
            let t = ps.subrange(0, i as int + 1);
            assert(t.drop_last() =~= ps.subrange(0, i as int));
            assert(t.last() == ps[i as int]);
        }
        let f: Option<&String> = match &board.pieces[i] {
            LogicPiece::Assumption { formula, .. } => Some(formula),
            LogicPiece::Goal { formula, .. } => Some(formula),
            _ => None,
        };
        if let Some(formula) = f {
            if !holds_formula(&formulas, formula) {
                smt.append("(declare-const ");
                smt.append(formula.as_str());
                smt.append(" Bool)\n");
                formulas.push(formula.clone());
                proof {
                    assert(formulas@.map_values(|t: String| t@) =~= before.push(formula@));
                    assert(declarations(before.push(formula@)) == declarations(before)
                        + declare_line(formula@)) by {
                        assert(before.push(formula@).drop_last() =~= before);
                    }
                }
            }
        }
        i = i + 1;
    }
    assert(ps.subrange(0, ps.len() as int) =~= ps);
    let ghost decl = smt@;
    let mut i: usize = 0;
    while i < board.pieces.len()
        invariant
            i <= ps.len(),
            ps == board.pieces@,
            smt@ == decl + assertions(ps.subrange(0, i as int)),
        decreases ps.len() - i,
    {
        proof {
            let t = ps.subrange(0, i as int + 1);
            assert(t.drop_last() =~= ps.subrange(0, i as int));
            assert(t.last() == ps[i as int]);
        }
        if let LogicPiece::Assumption { formula, .. } = &board.pieces[i] {
            smt.append("(assert ");
            smt.append(formula.as_str());
            smt.append(")\n");
        }
        i = i + 1;
    }
    assert(ps.subrange(0, ps.len() as int) =~= ps);
    smt.append("(check-sat)\n");
    smt
}

/// Distinct positions at most two cells apart on each axis.
pub open spec fn adjacent(a: Position, b: Position) -> bool {
    &&& a.0 as int - b.0 as int <= 2
    &&& b.0 as int - a.0 as int <= 2
    &&& a.1 as int - b.1 as int <= 2
    &&& b.1 as int - a.1 as int <= 2
    &&& a != b
}

/// Whether `a` and `b` are adjacent: within two cells on both axes, and not the same cell.
pub fn is_adjacent(a: Position, b: Position) -> (r: bool)
    ensures
        r == adjacent(a, b),
{
    let (ax, ay, bx, by) = (a.0 as u64, a.1 as u64, b.0 as u64, b.1 as u64);
    ax <= bx + 2 && bx <= ax + 2 && ay <= by + 2 && by <= ay + 2 && (ax != bx || ay != by)
}

/// An assumption whose formula is the single character `name` stands next to `g`.
pub open spec fn named_assumption_near(s: Seq<LogicPiece>, g: Position, name: char) -> bool {
    exists|i: int|
        0 <= i < s.len() && (#[trigger] s[i]) is Assumption && carried_formula(s[i]) == Some(
            seq![name],
        ) && adjacent(s[i].spec_position(), g)
}

/// Some goal stands next to `g`.
pub open spec fn goal_near(s: Seq<LogicPiece>, g: Position) -> bool {
    exists|i: int| 0 <= i < s.len() && (#[trigger] s[i]) is Goal && adjacent(g, s[i].spec_position())
}

/// An AND gate at `g` joins the assumptions `P` and `Q` to a goal.
pub open spec fn gate_completes(s: Seq<LogicPiece>, g: Position) -> bool {
    named_assumption_near(s, g, 'P') && named_assumption_near(s, g, 'Q') && goal_near(s, g)
}

/// The positions of the AND gates of `s` that join `P` and `Q` to a goal, in order.
pub open spec fn completing_positions(s: Seq<LogicPiece>) -> Seq<Position> {
    s.filter(|q: LogicPiece| q is AndIntro && gate_completes(s, q.spec_position())).map_values(
        |q: LogicPiece| q.spec_position(),
    )
}

/// Some AND gate of `s` joins `P` and `Q` to a goal.
pub open spec fn connected_proof(s: Seq<LogicPiece>) -> bool {
    exists|i: int|
        0 <= i < s.len() && (#[trigger] s[i]) is AndIntro && gate_completes(s, s[i].spec_position())
}

fn is_single(f: &String, c: char) -> (r: bool)
    ensures
        r == (f@ == seq![c]),
{
    let s = f.as_str();
    if s.unicode_len() != 1 {
        return false;
    }
    let r = s.get_char(0) == c;
    assert(r ==> s@ =~= seq![c]);
    r
}

fn assumption_near(pieces: &[LogicPiece], g: Position, name: char) -> (r: bool)
    ensures
        r == named_assumption_near(pieces@, g, name),
{
    let mut i: usize = 0;
    while i < pieces.len()
        invariant
            i <= pieces@.len(),
            forall|k: int|
                0 <= k < i ==> !((#[trigger] pieces@[k]) is Assumption && carried_formula(
                    pieces@[k],
                ) == Some(seq![name]) && adjacent(pieces@[k].spec_position(), g)),
        decreases pieces@.len() - i,
    {
        if let LogicPiece::Assumption { formula, position } = &pieces[i] {
            if is_adjacent(*position, g) && is_single(formula, name) {
                return true;
            }
        }
        i = i + 1;
    }
    false
}

fn any_goal_near(pieces: &[LogicPiece], g: Position) -> (r: bool)
    ensures
        r == goal_near(pieces@, g),
{
    let mut i: usize = 0;
    while i < pieces.len()
        invariant
            i <= pieces@.len(),
            forall|k: int|
                0 <= k < i ==> !((#[trigger] pieces@[k]) is Goal && adjacent(
                    g,
                    pieces@[k].spec_position(),
                )),
        decreases pieces@.len() - i,
    {
        if let LogicPiece::Goal { position, .. } = &pieces[i] {
            if is_adjacent(g, *position) {
                return true;
            }
        }
        i = i + 1;
    }
    false
}

fn completes(pieces: &[LogicPiece], g: Position) -> (r: bool)
    ensures
        r == gate_completes(pieces@, g),
{
    assumption_near(pieces, g, 'P') && assumption_near(pieces, g, 'Q') && any_goal_near(pieces, g)
}

/// The AND gates that stand next to an assumption `P`, an assumption `Q` and
/// a goal, in the order of `pieces`.
pub fn completing_gates(pieces: &[LogicPiece]) -> (r: Vec<Position>)
    ensures
        r@ == completing_positions(pieces@),
{
    let ghost ps = pieces@;
    let ghost pred = |q: LogicPiece| q is AndIntro && gate_completes(ps, q.spec_position());
    let ghost pos = |q: LogicPiece| q.spec_position();
    let mut out: Vec<Position> = Vec::new();
    let mut i: usize = 0;
    while i < pieces.len()
        invariant
            i <= ps.len(),
            ps == pieces@,
            pred == (|q: LogicPiece| q is AndIntro && gate_completes(ps, q.spec_position())),
            pos == (|q: LogicPiece| q.spec_position()),
            out@ == ps.subrange(0, i as int).filter(pred).map_values(pos),
        decreases ps.len() - i,
    {
        let ghost before = out@;
        proof {
            let t = ps.subrange(0, i as int + 1);
            assert(t.drop_last() =~= ps.subrange(0, i as int));
            assert(t.last() == ps[i as int]);
            reveal(Seq::filter);
        }
        if let LogicPiece::AndIntro { position } = &pieces[i] {
            if completes(pieces, *position) {
                out.push(*position);
                proof {
                    let t = ps.subrange(0, i as int + 1);
                    assert(t.filter(pred) == ps.subrange(0, i as int).filter(pred).push(ps[i as int]));
                    assert(out@ =~= t.filter(pred).map_values(pos));
                }
            } else {
                proof {
                    let t = ps.subrange(0, i as int + 1);
                    assert(t.filter(pred) == ps.subrange(0, i as int).filter(pred));
                }
            }
        } else {
            proof {
                let t = ps.subrange(0, i as int + 1);
                assert(t.filter(pred) == ps.subrange(0, i as int).filter(pred));
            }
        }
        i = i + 1;
    }
    assert(ps.subrange(0, ps.len() as int) =~= ps);
    out
}

/// Decides by connectivity alone whether `pieces` prove the level: true when
/// some AND gate stands next to an assumption `P`, an assumption `Q` and a
/// goal. The level itself is not consulted.
pub fn verify_level_solution(level: &Level, pieces: &[LogicPiece]) -> (r: bool)
    ensures
        r == connected_proof(pieces@),
{
    let mut i: usize = 0;
    while i < pieces.len()
        invariant
            i <= pieces@.len(),
            forall|k: int|
                0 <= k < i ==> !((#[trigger] pieces@[k]) is AndIntro && gate_completes(
                    pieces@,
                    pieces@[k].spec_position(),
                )),
        decreases pieces@.len() - i,
    {
        if let LogicPiece::AndIntro { position } = &pieces[i] {
            if completes(pieces, *position) {
                return true;
            }
        }
        i = i + 1;
    }
    false
}

/// Checking the same pieces twice gives the same answer: the decision is a
/// function of the pieces alone.
pub proof fn lemma_verification_repeatable(s: Seq<LogicPiece>, first: bool, second: bool)
    requires
        first == connected_proof(s),
        second == connected_proof(s),
    ensures
        first == second,
{
}

/// No position is adjacent to itself.
pub proof fn lemma_not_self_adjacent(p: Position)
    ensures
        !adjacent(p, p),
{
}

/// Adjacency does not depend on the order of its arguments.
pub proof fn lemma_adjacent_symmetric(a: Position, b: Position)
    ensures
        adjacent(a, b) == adjacent(b, a),
{
}

/// The refutation query for "`left` and `right` entail `goal`": declares the
/// three constants, asserts `left`, `right` and `(=> (and left right) goal)`,
/// asserts the negated goal and asks for satisfiability. Unsatisfiable means
/// the goal follows.
pub open spec fn entailment_script(left: Seq<char>, right: Seq<char>, goal: Seq<char>) -> Seq<
    char,
> {
    declare_line(left) + declare_line(right) + declare_line(goal) + assert_line(left)
        + assert_line(right) + "(assert (=> (and "@ + left + " "@ + right + ") "@ + goal + "))\n"@
        + "(assert (not "@ + goal + "))\n"@ + "(check-sat)\n"@
}

/// Builds the refutation query of `entailment_script`.
pub fn and_entailment_query(left: &str, right: &str, goal: &str) -> (r: String)
    ensures
        r@ == entailment_script(left@, right@, goal@),
{
    let mut q = String::new();
    q.append("(declare-const ");
    q.append(left);
    q.append(" Bool)\n");
    q.append("(declare-const ");
    q.append(right);
    q.append(" Bool)\n");
    q.append("(declare-const ");
    q.append(goal);
    q.append(" Bool)\n");
    q.append("(assert ");
    q.append(left);
    q.append(")\n");
    q.append("(assert ");
    q.append(right);
    q.append(")\n");
    q.append("(assert (=> (and ");
    q.append(left);
    q.append(" ");
    q.append(right);
    q.append(") ");
    q.append(goal);
    q.append("))\n");
    q.append("(assert (not ");
    q.append(goal);
    q.append("))\n");
    q.append("(check-sat)\n");
    assert(q@ =~= entailment_script(left@, right@, goal@));
    q
}

/// The query that certifies a completing AND gate: `P` and `Q` entail `R`.
pub fn gate_query() -> (r: String)
    ensures
        r@ == entailment_script(seq!['P'], seq!['Q'], seq!['R']),
{
    proof {
        reveal_strlit("P");
        reveal_strlit("Q");
        reveal_strlit("R");
    }
    and_entailment_query("P", "Q", "R")
}

/// Some verdict among the first `n` is `Unsat`.
pub open spec fn refuted_within(verdicts: Seq<SolverVerdict>, n: int) -> bool {
    exists|k: int| 0 <= k < n && k < verdicts.len() && verdicts[k] == SolverVerdict::Unsat
}

/// Decides with a solver's answers: `verdicts[k]` is the answer to `gate_query`
/// asked for the `k`-th completing AND gate. The pieces prove the goal when
/// one of those answers is `Unsat`; `Sat` and `Unknown` never prove it.
pub fn verify_with_verdicts(level: &Level, pieces: &[LogicPiece], verdicts: &[SolverVerdict]) -> (r:
    bool)
    ensures
        r == refuted_within(verdicts@, completing_positions(pieces@).len() as int),
        r ==> connected_proof(pieces@),
{
    let gates = completing_gates(pieces);
    let mut k: usize = 0;
    while k < gates.len() && k < verdicts.len()
        invariant
            gates@ == completing_positions(pieces@),
            k <= verdicts@.len(),
            k <= gates@.len(),
            forall|j: int| 0 <= j < k ==> verdicts@[j] != SolverVerdict::Unsat,
        decreases verdicts@.len() - k,
    {
        if verdicts[k] == SolverVerdict::Unsat {
            proof {
                lemma_completing_is_connected(pieces@);
            }
            return true;
        }
        k = k + 1;
    }
    false
}

/// Whenever a completing gate exists the pieces are connected, and back.
proof fn lemma_completing_is_connected(s: Seq<LogicPiece>)
    ensures
        completing_positions(s).len() > 0 <==> connected_proof(s),
{
    let pred = |q: LogicPiece| q is AndIntro && gate_completes(s, q.spec_position());
    let f = s.filter(pred);
    if f.len() > 0 {
        s.lemma_filter_pred(pred, 0);
        s.lemma_filter_contains_rev(pred, f[0]);
        let i = choose|i: int| 0 <= i < s.len() && s[i] == f[0];
        assert(s[i] is AndIntro && gate_completes(s, s[i].spec_position()));
    }
    if connected_proof(s) {
        let i = choose|i: int|
            0 <= i < s.len() && (#[trigger] s[i]) is AndIntro && gate_completes(s, s[i].spec_position());
        s.lemma_filter_contains(pred, i);
    }
}

/// A solver can only confirm what connectivity already found: whatever it
/// answers, verification with its verdicts succeeds only on connected pieces.
pub proof fn lemma_solver_needs_connection(s: Seq<LogicPiece>, verdicts: Seq<SolverVerdict>)
    requires
        refuted_within(verdicts, completing_positions(s).len() as int),
    ensures
        connected_proof(s),
{
    lemma_completing_is_connected(s);
}

impl ExportedProof {
    /// The export of a solved level: the SMT-LIB2 script of its initial
    /// board, the local player, and the time taken.
    pub fn from_level(level: &Level, solution_time: u64) -> (r: Self)
        ensures
            r.level_id == level.id,
            r.player_id@ == "local"@,
            r.proof_smt2@ == smt_script(level.initial_state.pieces@),
            r.proof_isabelle is None,
            r.solution_steps@.len() == 0,
            r.time_taken_secs == solution_time,
    {
        ExportedProof {
            level_id: level.id,
            player_id: String::from_str("local"),
            proof_smt2: board_to_smt(&level.initial_state),
            proof_isabelle: None,
            solution_steps: Vec::new(),
            time_taken_secs: solution_time,
        }
    }
}

} // verus!
