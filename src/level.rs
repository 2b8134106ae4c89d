//! A level: an initial board and the condition that solves it.

use vstd::prelude::*;
use crate::board::BoardState;
use crate::pieces::Position;

verus! {

/// What a level asks the player to achieve.
#[derive(Debug)]
pub enum GoalCondition {
    /// Link the cells `start` and `end`.
    ConnectNodes { start: Position, end: Position },
    /// Prove `formula` from the assumptions on the board.
    ProveFormula { formula: String },
    /// Build a proof tree of the given depth.
    BuildProofTree { depth: u32 },
}

/// A puzzle definition.
#[derive(Debug)]
pub struct Level {
    pub id: u32,
    pub name: String,
    pub description: String,
    /// Informational; the verification engine does not read it.
    pub theorem: String,
    pub initial_state: BoardState,
    pub goal_state: GoalCondition,
}

impl Clone for GoalCondition {
    fn clone(&self) -> (r: Self)
        ensures
            r == *self,
    {
        match self {
            GoalCondition::ConnectNodes { start, end } => GoalCondition::ConnectNodes {
                start: *start,
                end: *end,
            },
            GoalCondition::ProveFormula { formula } => GoalCondition::ProveFormula {
                formula: formula.clone(),
            },
            GoalCondition::BuildProofTree { depth } => GoalCondition::BuildProofTree {
                depth: *depth,
            },
        }
    }
}

impl Clone for Level {
    fn clone(&self) -> (r: Self)
        ensures
            r.id == self.id,
            r.name@ == self.name@,
            r.description@ == self.description@,
            r.theorem@ == self.theorem@,
            r.initial_state.width == self.initial_state.width,
            r.initial_state.height == self.initial_state.height,
            r.initial_state.pieces@ == self.initial_state.pieces@,
            r.goal_state == self.goal_state,
    {
        Level {
            id: self.id,
            name: self.name.clone(),
            description: self.description.clone(),
            theorem: self.theorem.clone(),
            initial_state: self.initial_state.clone(),
            goal_state: self.goal_state.clone(),
        }
    }
}

} // verus!
