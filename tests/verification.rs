use proof_of_work::verification::{
    and_entailment_query, board_to_smt, completing_gates, gate_query, is_adjacent, verify_level_solution,
    verify_with_verdicts, SolverVerdict,
};
use proof_of_work::{BoardState, ExportedProof, GoalCondition, Level, LogicPiece};

fn test_level() -> Level {
    Level {
        id: 1,
        name: "Test".to_string(),
        description: "Test level".to_string(),
        theorem: "(assert (=> (and P Q) R))".to_string(),
        initial_state: BoardState { width: 10, height: 10, pieces: vec![] },
        goal_state: GoalCondition::ProveFormula { formula: "R".to_string() },
    }
}

fn scenario(goal: (u32, u32), gate: (u32, u32)) -> Vec<LogicPiece> {
    vec![
        LogicPiece::Assumption { formula: "P".to_string(), position: (2, 5) },
        LogicPiece::Assumption { formula: "Q".to_string(), position: (2, 3) },
        LogicPiece::Goal { formula: "R".to_string(), position: goal },
        LogicPiece::AndIntro { position: gate },
    ]
}

#[test]
fn test_adjacency() {
    assert!(is_adjacent((2, 5), (3, 5)));
    assert!(is_adjacent((2, 5), (4, 5)));
    assert!(!is_adjacent((2, 5), (5, 5)));
    assert!(is_adjacent((2, 5), (3, 6)));
}

#[test]
fn test_mock_verification() {
    let level = test_level();
    let pieces = scenario((8, 4), (4, 4));
    assert!(!verify_level_solution(&level, &pieces));
    let pieces_valid = scenario((5, 4), (3, 4));
    assert!(verify_level_solution(&level, &pieces_valid));
}

#[test]
fn adjacency_is_irreflexive_and_symmetric() {
    for p in [(0u32, 0u32), (2, 5), (9, 9)] {
        assert!(!is_adjacent(p, p));
    }
    assert!(is_adjacent((0, 0), (2, 2)));
    assert!(is_adjacent((2, 2), (0, 0)));
    assert!(!is_adjacent((0, 0), (3, 0)));
    assert!(!is_adjacent((0, 3), (0, 0)));
    assert!(is_adjacent((u32::MAX, 0), (u32::MAX - 2, 1)));
}

#[test]
fn scenario_a_gate_far_from_goal() {
    assert!(!verify_level_solution(&test_level(), &scenario((8, 4), (4, 4))));
}

#[test]
fn scenario_b_gate_next_to_all() {
    assert!(verify_level_solution(&test_level(), &scenario((5, 4), (3, 4))));
}

#[test]
fn verification_is_repeatable_and_pure() {
    let level = test_level();
    let pieces = scenario((5, 4), (3, 4));
    let first = verify_level_solution(&level, &pieces);
    let second = verify_level_solution(&level, &pieces);
    assert_eq!(first, second);
    assert_eq!(pieces.len(), 4);
    let other = scenario((8, 4), (4, 4));
    assert_eq!(verify_level_solution(&level, &other), verify_level_solution(&level, &other));
}

#[test]
fn verification_needs_p_q_and_and_gate() {
    let level = test_level();
    let mut wrong_name = scenario((5, 4), (3, 4));
    wrong_name[0] = LogicPiece::Assumption { formula: "PP".to_string(), position: (2, 5) };
    assert!(!verify_level_solution(&level, &wrong_name));
    let mut or_gate = scenario((5, 4), (3, 4));
    or_gate[3] = LogicPiece::OrIntro { position: (3, 4) };
    assert!(!verify_level_solution(&level, &or_gate));
    let mut goal_name = scenario((5, 4), (3, 4));
    goal_name[2] = LogicPiece::Goal { formula: "Anything".to_string(), position: (5, 4) };
    assert!(verify_level_solution(&level, &goal_name));
}

#[test]
fn completing_gates_in_order() {
    let mut pieces = scenario((5, 4), (3, 4));
    pieces.push(LogicPiece::AndIntro { position: (9, 9) });
    pieces.push(LogicPiece::AndIntro { position: (3, 5) });
    assert_eq!(completing_gates(&pieces), vec![(3, 4), (3, 5)]);
    assert!(completing_gates(&scenario((8, 4), (4, 4))).is_empty());
}

#[test]
fn solver_verdicts_decide() {
    let level = test_level();
    let good = scenario((5, 4), (3, 4));
    assert!(verify_with_verdicts(&level, &good, &[SolverVerdict::Unsat]));
    assert!(!verify_with_verdicts(&level, &good, &[SolverVerdict::Sat]));
    assert!(!verify_with_verdicts(&level, &good, &[SolverVerdict::Unknown]));
    assert!(!verify_with_verdicts(&level, &good, &[]));
    assert!(!verify_with_verdicts(&level, &good, &[SolverVerdict::Sat, SolverVerdict::Unsat]));
    let bad = scenario((8, 4), (4, 4));
    assert!(!verify_with_verdicts(&level, &bad, &[SolverVerdict::Unsat]));
}

#[test]
fn entailment_query_text() {
    let expected = "(declare-const P Bool)\n(declare-const Q Bool)\n(declare-const R Bool)\n\
(assert P)\n(assert Q)\n(assert (=> (and P Q) R))\n(assert (not R))\n(check-sat)\n";
    assert_eq!(gate_query(), expected);
    assert_eq!(and_entailment_query("P", "Q", "R"), expected);
    assert!(and_entailment_query("A", "B", "C").contains("(assert (=> (and A B) C))\n"));
}

#[test]
fn smt_script_for_one_assumption_and_one_goal() {
    let board = BoardState::with_pieces(
        10,
        10,
        vec![
            LogicPiece::Assumption { formula: "P".to_string(), position: (0, 0) },
            LogicPiece::Goal { formula: "Q".to_string(), position: (1, 0) },
        ],
    );
    let smt = board_to_smt(&board);
    let declares: Vec<&str> = smt.lines().filter(|l| l.starts_with("(declare-const")).collect();
    assert_eq!(declares, vec!["(declare-const P Bool)", "(declare-const Q Bool)"]);
    assert_eq!(smt.lines().filter(|l| l.starts_with("(assert")).collect::<Vec<_>>(), vec!["(assert P)"]);
    assert!(smt.ends_with("(check-sat)\n"));
    assert_eq!(
        smt,
        "; Proof of Work - Generated Proof\n(set-logic QF_UF)\n(declare-const P Bool)\n(declare-const Q Bool)\n(assert P)\n(check-sat)\n"
    );
}

#[test]
fn smt_script_declares_each_formula_once() {
    let board = BoardState::with_pieces(
        10,
        10,
        vec![
            LogicPiece::Goal { formula: "R".to_string(), position: (0, 0) },
            LogicPiece::Assumption { formula: "P".to_string(), position: (1, 0) },
            LogicPiece::AndIntro { position: (2, 0) },
            LogicPiece::Assumption { formula: "R".to_string(), position: (3, 0) },
            LogicPiece::Assumption { formula: "P".to_string(), position: (4, 0) },
        ],
    );
    assert_eq!(
        board_to_smt(&board),
        "; Proof of Work - Generated Proof\n(set-logic QF_UF)\n(declare-const R Bool)\n(declare-const P Bool)\n(assert P)\n(assert R)\n(assert P)\n(check-sat)\n"
    );
    assert_eq!(
        board_to_smt(&BoardState::new(3, 3)),
        "; Proof of Work - Generated Proof\n(set-logic QF_UF)\n(check-sat)\n"
    );
}

#[test]
fn export_from_level() {
    let mut level = test_level();
    level.initial_state.pieces.push(LogicPiece::Assumption { formula: "P".to_string(), position: (0, 0) });
    let e = ExportedProof::from_level(&level, 42);
    assert_eq!(e.level_id, 1);
    assert_eq!(e.player_id, "local");
    assert_eq!(e.proof_smt2, board_to_smt(&level.initial_state));
    assert!(e.proof_isabelle.is_none());
    assert!(e.solution_steps.is_empty());
    assert_eq!(e.time_taken_secs, 42);
}
