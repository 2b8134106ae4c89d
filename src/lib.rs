//! Proof of Work: the verification core of a logic-puzzle game.
//!
//! Logic pieces are placed on a grid; the library checks the placement
//! rules, validates boards and levels, renders a board as an SMT-LIB2
//! script and decides whether a placement proves the level's goal.

pub mod board;
pub mod editor;
pub mod level;
pub mod levels;
pub mod network;
pub mod pieces;
pub mod text;
pub mod validation;
pub mod verification;

pub use board::BoardState;
pub use editor::EditorState;
pub use level::{GoalCondition, Level};
pub use levels::{LevelPack, LevelPackManager};
pub use pieces::LogicPiece;
pub use validation::{ValidationError, ValidationResult};
pub use verification::ExportedProof;
