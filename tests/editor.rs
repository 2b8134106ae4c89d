use proof_of_work::editor::{create_user_pack, pack_id_from, EditorPieceType, EditorTool};
use proof_of_work::{EditorState, LogicPiece};

#[test]
fn test_editor_state_default() {
    let state = EditorState::default();
    assert!(state.is_new_level);
    assert_eq!(state.grid_width, 10);
    assert_eq!(state.grid_height, 10);
}

#[test]
fn test_add_remove_piece() {
    let mut state = EditorState::default();

    let piece = LogicPiece::Assumption { formula: "P".to_string(), position: (5, 5) };
    state.add_piece(piece);

    assert_eq!(state.level.initial_state.pieces.len(), 1);
    assert!(state.dirty);

    assert!(state.remove_piece_at((5, 5)));
    assert_eq!(state.level.initial_state.pieces.len(), 0);
}

#[test]
fn test_validate_level() {
    let mut state = EditorState::default();

    assert!(state.validate().is_err());

    state.add_piece(LogicPiece::Assumption { formula: "P".to_string(), position: (0, 0) });
    assert!(state.validate().is_err());

    state.add_piece(LogicPiece::Goal { formula: "Q".to_string(), position: (5, 5) });
    assert!(state.validate().is_ok());
}

#[test]
fn editor_status_messages() {
    let mut state = EditorState::new();
    assert_eq!(state.status_message, "Ready");
    assert_eq!(state.tool, EditorTool::Select);
    state.add_piece(LogicPiece::AndIntro { position: (3, 4) });
    assert_eq!(state.status_message, "Added piece at (3, 4)");
    state.add_piece(LogicPiece::OrIntro { position: (3, 4) });
    assert_eq!(state.status_message, "Position (3, 4) is occupied");
    assert_eq!(state.level.initial_state.pieces.len(), 1);
    assert!(!state.remove_piece_at((1, 1)));
    assert_eq!(state.status_message, "No piece at (1, 1)");
    assert!(state.remove_piece_at((3, 4)));
    assert_eq!(state.status_message, "Removed piece at (3, 4)");
}

#[test]
fn editor_remove_takes_every_piece_at_position() {
    let mut state = EditorState::new();
    state.level.initial_state.pieces = vec![
        LogicPiece::AndIntro { position: (2, 2) },
        LogicPiece::OrIntro { position: (1, 1) },
        LogicPiece::NotIntro { position: (2, 2) },
    ];
    assert!(state.remove_piece_at((2, 2)));
    assert_eq!(state.level.initial_state.pieces.len(), 1);
    assert!(!state.is_position_occupied((2, 2)));
    assert!(matches!(state.get_piece_at((1, 1)), Some(LogicPiece::OrIntro { .. })));
    assert!(state.get_piece_at((2, 2)).is_none());
}

#[test]
fn editor_grid_resize_drops_outside_pieces() {
    let mut state = EditorState::new();
    state.add_piece(LogicPiece::AndIntro { position: (1, 1) });
    state.add_piece(LogicPiece::OrIntro { position: (8, 2) });
    state.add_piece(LogicPiece::NotIntro { position: (2, 8) });
    state.set_grid_size(5, 9);
    assert_eq!(state.grid_width, 5);
    assert_eq!(state.level.initial_state.height, 9);
    assert_eq!(state.level.initial_state.pieces.len(), 2);
    assert!(!state.is_position_occupied((8, 2)));
    assert!(state.is_position_occupied((2, 8)));
}

#[test]
fn editor_validation_messages() {
    let mut state = EditorState::new();
    state.level.name = "   ".to_string();
    assert_eq!(
        state.validate(),
        Err(vec![
            "Level needs at least one assumption".to_string(),
            "Level needs a goal".to_string(),
            "Level needs a name".to_string()
        ])
    );
    state.level.name = "Named".to_string();
    state.add_piece(LogicPiece::Assumption { formula: "P".to_string(), position: (0, 0) });
    state.add_piece(LogicPiece::Goal { formula: "Q".to_string(), position: (1, 0) });
    state.add_piece(LogicPiece::Goal { formula: "R".to_string(), position: (2, 0) });
    assert_eq!(state.validate(), Err(vec!["Level should have exactly one goal".to_string()]));
}

#[test]
fn editor_from_level_and_build() {
    let base = EditorState::new();
    let mut level = base.build_level();
    level.initial_state.width = 6;
    level.initial_state.height = 7;
    let state = EditorState::from_level(level, Some("pack".to_string()));
    assert!(!state.is_new_level);
    assert_eq!(state.grid_width, 6);
    assert_eq!(state.grid_height, 7);
    assert_eq!(state.pack_id, Some("pack".to_string()));
    assert_eq!(state.build_level().name, "New Level");
}

#[test]
fn editor_piece_types() {
    assert_eq!(EditorPieceType::AndIntro.name(), "AND Gate");
    assert_eq!(EditorPieceType::ForallIntro.name(), "For All");
    assert!(EditorPieceType::Goal.needs_formula());
    assert!(!EditorPieceType::NotIntro.needs_formula());
    assert!(EditorPieceType::ExistsIntro.needs_variable());
    assert!(!EditorPieceType::Assumption.needs_variable());
    let p = EditorPieceType::Assumption.to_logic_piece((1, 2), "P", "x");
    assert!(matches!(p, LogicPiece::Assumption { ref formula, position: (1, 2) } if formula == "P"));
    let q = EditorPieceType::ExistsIntro.to_logic_piece((3, 4), "P", "y");
    assert!(matches!(q, LogicPiece::ExistsIntro { ref variable, position: (3, 4) } if variable == "y"));
}

#[test]
fn user_pack_id_is_lowered_and_filtered() {
    let pack = create_user_pack("My Cool Pack!", "Ann");
    assert_eq!(pack.id, "mycoolpack");
    assert_eq!(pack.name, "My Cool Pack!");
    assert_eq!(pack.author, "Ann");
    assert_eq!(create_user_pack("A-B_C d", "x").id, "a-b_cd");
    assert_eq!(pack_id_from("ab c-d_é?"), "abc-d_é");
}
