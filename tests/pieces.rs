use proof_of_work::LogicPiece;

#[test]
fn smt_fragments_per_kind() {
    let a = LogicPiece::Assumption { formula: "P".to_string(), position: (0, 0) };
    let g = LogicPiece::Goal { formula: "R".to_string(), position: (0, 0) };
    assert_eq!(a.to_smt(), "(assert P)");
    assert_eq!(g.to_smt(), "(assert (not R))");
    assert_eq!(LogicPiece::AndIntro { position: (0, 0) }.to_smt(), "(and _ _)");
    assert_eq!(LogicPiece::OrIntro { position: (0, 0) }.to_smt(), "(or _ _)");
    assert_eq!(LogicPiece::ImpliesIntro { position: (0, 0) }.to_smt(), "(=> _ _)");
    assert_eq!(LogicPiece::NotIntro { position: (0, 0) }.to_smt(), "(not _)");
    let f = LogicPiece::ForallIntro { position: (0, 0), variable: "x".to_string() };
    let e = LogicPiece::ExistsIntro { position: (0, 0), variable: "y".to_string() };
    assert_eq!(f.to_smt(), "(forall ((x Int)) _)");
    assert_eq!(e.to_smt(), "(exists ((y Int)) _)");
    assert_eq!(LogicPiece::Wire { from: (0, 0), to: (1, 0) }.to_smt(), "");
}

#[test]
fn labels_per_kind() {
    let a = LogicPiece::Assumption { formula: "P".to_string(), position: (0, 0) };
    assert_eq!(a.label(), "P");
    assert_eq!(LogicPiece::AndIntro { position: (0, 0) }.label(), "AND");
    assert_eq!(LogicPiece::OrIntro { position: (0, 0) }.label(), "OR");
    assert_eq!(LogicPiece::ImpliesIntro { position: (0, 0) }.label(), "=>");
    assert_eq!(LogicPiece::NotIntro { position: (0, 0) }.label(), "NOT");
    let f = LogicPiece::ForallIntro { position: (0, 0), variable: "x".to_string() };
    assert_eq!(f.label(), "∀x");
    let e = LogicPiece::ExistsIntro { position: (0, 0), variable: "x".to_string() };
    assert_eq!(e.label(), "∃x");
    assert_eq!(LogicPiece::Wire { from: (0, 0), to: (1, 0) }.label(), "-");
}

#[test]
fn wire_position_is_its_start() {
    let mut w = LogicPiece::Wire { from: (2, 3), to: (4, 5) };
    assert_eq!(w.position(), (2, 3));
    w.set_position((7, 8));
    assert!(matches!(w, LogicPiece::Wire { from: (7, 8), to: (4, 5) }));
    let mut q = LogicPiece::ForallIntro { position: (1, 1), variable: "v".to_string() };
    q.set_position((2, 2));
    assert_eq!(q.position(), (2, 2));
    assert_eq!(q.label(), "∀v");
}
