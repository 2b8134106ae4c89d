use proof_of_work::{BoardState, LogicPiece};

fn and_at(x: u32, y: u32) -> LogicPiece {
    LogicPiece::AndIntro { position: (x, y) }
}

#[test]
fn test_new_board() {
    let board = BoardState::new(10, 10);
    assert_eq!(board.width, 10);
    assert_eq!(board.height, 10);
    assert!(board.pieces.is_empty());
}

#[test]
fn test_bounds_check() {
    let board = BoardState::new(10, 10);
    assert!(board.in_bounds(0, 0));
    assert!(board.in_bounds(9, 9));
    assert!(!board.in_bounds(10, 0));
    assert!(!board.in_bounds(0, 10));
}

#[test]
fn test_place_piece() {
    let mut board = BoardState::new(10, 10);
    let piece = LogicPiece::AndIntro { position: (5, 5) };

    assert!(board.place_piece(piece.clone()));
    assert!(board.is_occupied(5, 5));
    assert!(!board.is_occupied(6, 6));

    let piece2 = LogicPiece::OrIntro { position: (5, 5) };
    assert!(!board.place_piece(piece2));
}

#[test]
fn test_remove_piece() {
    let mut board = BoardState::new(10, 10);
    let piece = LogicPiece::AndIntro { position: (5, 5) };
    board.place_piece(piece);

    assert!(board.is_occupied(5, 5));
    let removed = board.remove_piece(5, 5);
    assert!(removed.is_some());
    assert!(!board.is_occupied(5, 5));
}

#[test]
fn test_move_piece() {
    let mut board = BoardState::new(10, 10);
    let piece = LogicPiece::AndIntro { position: (5, 5) };
    board.place_piece(piece);

    assert!(board.move_piece((5, 5), (7, 7)));
    assert!(!board.is_occupied(5, 5));
    assert!(board.is_occupied(7, 7));
}

#[test]
fn test_pieces_near() {
    let mut board = BoardState::new(10, 10);
    board.place_piece(LogicPiece::AndIntro { position: (5, 5) });
    board.place_piece(LogicPiece::OrIntro { position: (6, 5) });
    board.place_piece(LogicPiece::NotIntro { position: (9, 9) });

    let near = board.pieces_near(5, 5, 2);
    assert_eq!(near.len(), 2);
}

#[test]
fn place_on_free_cell_occupies_it() {
    let mut board = BoardState::new(3, 3);
    for x in 0..3 {
        for y in 0..3 {
            assert!(!board.is_occupied(x, y));
            assert!(board.place_piece(and_at(x, y)));
            assert!(board.is_occupied(x, y));
        }
    }
    assert_eq!(board.piece_count(), 9);
}

#[test]
fn place_on_taken_cell_changes_nothing() {
    let mut board = BoardState::new(10, 10);
    assert!(board.place_piece(and_at(1, 1)));
    assert!(!board.place_piece(LogicPiece::Goal { formula: "R".to_string(), position: (1, 1) }));
    assert_eq!(board.piece_count(), 1);
    assert!(matches!(board.piece_at(1, 1), Some(LogicPiece::AndIntro { .. })));
}

#[test]
fn place_off_the_grid_fails() {
    let mut board = BoardState::new(10, 10);
    assert!(!board.place_piece(and_at(10, 3)));
    assert!(!board.place_piece(and_at(3, 10)));
    assert_eq!(board.piece_count(), 0);
}

#[test]
fn remove_clears_cell_and_shrinks_by_one() {
    let mut board = BoardState::new(10, 10);
    board.place_piece(and_at(1, 1));
    board.place_piece(LogicPiece::OrIntro { position: (2, 2) });
    board.place_piece(LogicPiece::NotIntro { position: (3, 3) });
    let removed = board.remove_piece(2, 2);
    assert!(matches!(removed, Some(LogicPiece::OrIntro { position: (2, 2) })));
    assert!(!board.is_occupied(2, 2));
    assert_eq!(board.piece_count(), 2);
    assert!(board.remove_piece(2, 2).is_none());
    assert_eq!(board.piece_count(), 2);
}

#[test]
fn remove_takes_only_the_first_of_duplicates() {
    let mut board = BoardState::with_pieces(10, 10, vec![and_at(4, 4), LogicPiece::OrIntro { position: (4, 4) }]);
    let removed = board.remove_piece(4, 4);
    assert!(matches!(removed, Some(LogicPiece::AndIntro { .. })));
    assert!(board.is_occupied(4, 4));
}

#[test]
fn move_to_taken_or_outside_cell_fails() {
    let mut board = BoardState::new(10, 10);
    board.place_piece(and_at(1, 1));
    board.place_piece(LogicPiece::OrIntro { position: (2, 2) });
    assert!(!board.move_piece((1, 1), (2, 2)));
    assert!(!board.move_piece((1, 1), (10, 2)));
    assert!(!board.move_piece((1, 1), (2, 10)));
    assert!(matches!(board.piece_at(1, 1), Some(LogicPiece::AndIntro { .. })));
    assert!(!board.move_piece((5, 5), (6, 6)));
    assert!(!board.is_occupied(6, 6));
}

#[test]
fn move_keeps_payload_and_moves_wire_start() {
    let mut board = BoardState::new(10, 10);
    board.place_piece(LogicPiece::Assumption { formula: "P".to_string(), position: (0, 0) });
    board.place_piece(LogicPiece::Wire { from: (3, 3), to: (4, 3) });
    assert!(board.move_piece((0, 0), (1, 0)));
    assert!(board.move_piece((3, 3), (5, 5)));
    match board.piece_at(1, 0) {
        Some(LogicPiece::Assumption { formula, position }) => {
            assert_eq!(formula, "P");
            assert_eq!(*position, (1, 0));
        }
        _ => panic!("assumption expected at (1, 0)"),
    }
    assert!(matches!(board.piece_at(5, 5), Some(LogicPiece::Wire { from: (5, 5), to: (4, 3) })));
}

#[test]
fn pieces_near_is_a_box() {
    let mut board = BoardState::new(20, 20);
    board.place_piece(and_at(5, 5));
    board.place_piece(and_at(7, 7));
    board.place_piece(and_at(8, 5));
    board.place_piece(and_at(3, 3));
    board.place_piece(and_at(5, 2));
    assert_eq!(board.pieces_near(5, 5, 0).len(), 1);
    assert_eq!(board.pieces_near(5, 5, 2).len(), 3);
    assert_eq!(board.pieces_near(5, 5, 3).len(), 5);
    assert_eq!(board.pieces_near(0, 0, 1).len(), 0);
    let near = board.pieces_near(6, 6, 1);
    assert_eq!(near.len(), 2);
    assert!(matches!(near[0], LogicPiece::AndIntro { position: (5, 5) }));
    assert!(matches!(near[1], LogicPiece::AndIntro { position: (7, 7) }));
}

#[test]
fn kind_filters_keep_board_order() {
    let board = BoardState::with_pieces(
        10,
        10,
        vec![
            LogicPiece::Goal { formula: "R".to_string(), position: (0, 0) },
            LogicPiece::Assumption { formula: "P".to_string(), position: (1, 0) },
            LogicPiece::ForallIntro { position: (2, 0), variable: "x".to_string() },
            LogicPiece::NotIntro { position: (3, 0) },
            LogicPiece::Wire { from: (4, 0), to: (5, 0) },
            LogicPiece::AndIntro { position: (6, 0) },
            LogicPiece::Assumption { formula: "Q".to_string(), position: (7, 0) },
        ],
    );
    let a = board.assumptions();
    assert_eq!(a.len(), 2);
    assert!(matches!(a[1], LogicPiece::Assumption { position: (7, 0), .. }));
    assert_eq!(board.goals().len(), 1);
    let g = board.gates();
    assert_eq!(g.len(), 2);
    assert!(matches!(g[0], LogicPiece::NotIntro { .. }));
    assert!(matches!(g[1], LogicPiece::AndIntro { .. }));
    assert_eq!(board.wires().len(), 1);
}

#[test]
fn clear_empties_board() {
    let mut board = BoardState::new(10, 10);
    board.place_piece(and_at(1, 1));
    board.clear();
    assert_eq!(board.piece_count(), 0);
    assert_eq!(board.width, 10);
}

#[test]
fn piece_at_mut_changes_first_piece_in_place() {
    let mut board = BoardState::new(10, 10);
    board.place_piece(LogicPiece::ForallIntro { position: (2, 2), variable: "x".to_string() });
    assert!(board.piece_at_mut(3, 3).is_none());
    if let Some(q) = board.piece_at_mut(2, 2) {
        q.set_position((4, 4));
    }
    assert!(!board.is_occupied(2, 2));
    assert!(matches!(board.piece_at(4, 4), Some(LogicPiece::ForallIntro { position: (4, 4), .. })));
}
