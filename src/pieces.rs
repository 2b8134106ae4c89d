//! Logic pieces: what can stand on a board, where it stands, and what it
//! means as an SMT-LIB2 fragment.

use vstd::prelude::*;

verus! {

/// A grid position `(x, y)`.
pub type Position = (u32, u32);

/// Position equality, field by field.
pub fn same_position(a: Position, b: Position) -> (r: bool)
    ensures
        r == (a == b),
{
    a.0 == b.0 && a.1 == b.1
}

/// A piece of a proof board.
#[derive(Debug)]
pub enum LogicPiece {
    /// A formula that is taken as true.
    Assumption { formula: String, position: (u32, u32) },
    /// The formula to be proven.
    Goal { formula: String, position: (u32, u32) },
    /// Conjunction introduction.
    AndIntro { position: (u32, u32) },
    /// Disjunction introduction.
    OrIntro { position: (u32, u32) },
    /// Implication introduction.
    ImpliesIntro { position: (u32, u32) },
    /// Negation introduction.
    NotIntro { position: (u32, u32) },
    /// Universal quantifier introduction over `variable`.
    ForallIntro { position: (u32, u32), variable: String },
    /// Existential quantifier introduction over `variable`.
    ExistsIntro { position: (u32, u32), variable: String },
    /// A connector between two cells; `from` is where it stands.
    Wire { from: (u32, u32), to: (u32, u32) },
}

impl Clone for LogicPiece {
    fn clone(&self) -> (r: Self)
        ensures
            r == *self,
    {
        match self {
            LogicPiece::Assumption { formula, position } => LogicPiece::Assumption {
                formula: formula.clone(),
                position: *position,
            },
            LogicPiece::Goal { formula, position } => LogicPiece::Goal {
                formula: formula.clone(),
                position: *position,
            },
            LogicPiece::AndIntro { position } => LogicPiece::AndIntro { position: *position },
            LogicPiece::OrIntro { position } => LogicPiece::OrIntro { position: *position },
            LogicPiece::ImpliesIntro { position } => LogicPiece::ImpliesIntro { position: *position },
            LogicPiece::NotIntro { position } => LogicPiece::NotIntro { position: *position },
            LogicPiece::ForallIntro { position, variable } => LogicPiece::ForallIntro {
                position: *position,
                variable: variable.clone(),
            },
            LogicPiece::ExistsIntro { position, variable } => LogicPiece::ExistsIntro {
                position: *position,
                variable: variable.clone(),
            },
            LogicPiece::Wire { from, to } => LogicPiece::Wire { from: *from, to: *to },
        }
    }
}

impl LogicPiece {
    /// The canonical position of the piece: a wire stands at `from`.
    pub open spec fn spec_position(&self) -> Position {
        match self {
            LogicPiece::Assumption { position, .. } => *position,
            LogicPiece::Goal { position, .. } => *position,
            LogicPiece::AndIntro { position } => *position,
            LogicPiece::OrIntro { position } => *position,
            LogicPiece::ImpliesIntro { position } => *position,
            LogicPiece::NotIntro { position } => *position,
            LogicPiece::ForallIntro { position, .. } => *position,
            LogicPiece::ExistsIntro { position, .. } => *position,
            LogicPiece::Wire { from, .. } => *from,
        }
    }

    /// The same piece standing at `p`; every other field is kept.
    pub open spec fn moved_to(&self, p: Position) -> LogicPiece {
        match self {
            LogicPiece::Assumption { formula, .. } => LogicPiece::Assumption {
                formula: *formula,
                position: p,
            },
            LogicPiece::Goal { formula, .. } => LogicPiece::Goal { formula: *formula, position: p },
            LogicPiece::AndIntro { .. } => LogicPiece::AndIntro { position: p },
            LogicPiece::OrIntro { .. } => LogicPiece::OrIntro { position: p },
            LogicPiece::ImpliesIntro { .. } => LogicPiece::ImpliesIntro { position: p },
            LogicPiece::NotIntro { .. } => LogicPiece::NotIntro { position: p },
            LogicPiece::ForallIntro { variable, .. } => LogicPiece::ForallIntro {
                position: p,
                variable: *variable,
            },
            LogicPiece::ExistsIntro { variable, .. } => LogicPiece::ExistsIntro {
                position: p,
                variable: *variable,
            },
            LogicPiece::Wire { to, .. } => LogicPiece::Wire { from: p, to: *to },
        }
    }

    /// A propositional gate: AND, OR, IMPLIES or NOT introduction.
    pub open spec fn is_gate(&self) -> bool {
        self is AndIntro || self is OrIntro || self is ImpliesIntro || self is NotIntro
    }

    /// The SMT-LIB2 fragment of the piece on its own.
    pub open spec fn smt_fragment(&self) -> Seq<char> {
        match self {
            LogicPiece::Assumption { formula, .. } => "(assert "@ + formula@ + ")"@,
            LogicPiece::Goal { formula, .. } => "(assert (not "@ + formula@ + "))"@,
            LogicPiece::AndIntro { .. } => "(and _ _)"@,
            LogicPiece::OrIntro { .. } => "(or _ _)"@,
            LogicPiece::ImpliesIntro { .. } => "(=> _ _)"@,
            LogicPiece::NotIntro { .. } => "(not _)"@,
            LogicPiece::ForallIntro { variable, .. } => "(forall (("@ + variable@ + " Int)) _)"@,
            LogicPiece::ExistsIntro { variable, .. } => "(exists (("@ + variable@ + " Int)) _)"@,
            LogicPiece::Wire { .. } => Seq::empty(),
        }
    }

    /// The short text shown on the piece.
    pub open spec fn label_text(&self) -> Seq<char> {
        match self {
            LogicPiece::Assumption { formula, .. } => formula@,
            LogicPiece::Goal { formula, .. } => formula@,
            LogicPiece::AndIntro { .. } => "AND"@,
            LogicPiece::OrIntro { .. } => "OR"@,
            LogicPiece::ImpliesIntro { .. } => "=>"@,
            LogicPiece::NotIntro { .. } => "NOT"@,
            LogicPiece::ForallIntro { variable, .. } => "∀"@ + variable@,
            LogicPiece::ExistsIntro { variable, .. } => "∃"@ + variable@,
            LogicPiece::Wire { .. } => "-"@,
        }
    }

    #[verifier::when_used_as_spec(spec_position)]
    pub fn position(&self) -> (r: Position)
        ensures
            r == self.spec_position(),
    {
        match self {
            LogicPiece::Assumption { position, .. } => *position,
            LogicPiece::Goal { position, .. } => *position,
            LogicPiece::AndIntro { position } => *position,
            LogicPiece::OrIntro { position } => *position,
            LogicPiece::ImpliesIntro { position } => *position,
            LogicPiece::NotIntro { position } => *position,
            LogicPiece::ForallIntro { position, .. } => *position,
            LogicPiece::ExistsIntro { position, .. } => *position,
            LogicPiece::Wire { from, .. } => *from,
        }
    }

    /// Moves the piece to `new_pos`, keeping its kind and payload.
    pub fn set_position(&mut self, new_pos: Position)
        ensures
            *final(self) == old(self).moved_to(new_pos),
    {
        match self {
            LogicPiece::Assumption { position, .. } => *position = new_pos,
            LogicPiece::Goal { position, .. } => *position = new_pos,
            LogicPiece::AndIntro { position } => *position = new_pos,
            LogicPiece::OrIntro { position } => *position = new_pos,
            LogicPiece::ImpliesIntro { position } => *position = new_pos,
            LogicPiece::NotIntro { position } => *position = new_pos,
            LogicPiece::ForallIntro { position, .. } => *position = new_pos,
            LogicPiece::ExistsIntro { position, .. } => *position = new_pos,
            LogicPiece::Wire { from, .. } => *from = new_pos,
        }
    }

    pub fn to_smt(&self) -> (r: String)
        ensures
            r@ == self.smt_fragment(),
    {
        match self {
            LogicPiece::Assumption { formula, .. } => {
                String::from_str("(assert ").concat(formula.as_str()).concat(")")
            },
            LogicPiece::Goal { formula, .. } => {
                String::from_str("(assert (not ").concat(formula.as_str()).concat("))")
            },
            LogicPiece::AndIntro { .. } => String::from_str("(and _ _)"),
            LogicPiece::OrIntro { .. } => String::from_str("(or _ _)"),
            LogicPiece::ImpliesIntro { .. } => String::from_str("(=> _ _)"),
            LogicPiece::NotIntro { .. } => String::from_str("(not _)"),
            LogicPiece::ForallIntro { variable, .. } => {
                String::from_str("(forall ((").concat(variable.as_str()).concat(" Int)) _)")
            },
            LogicPiece::ExistsIntro { variable, .. } => {
                String::from_str("(exists ((").concat(variable.as_str()).concat(" Int)) _)")
            },
            LogicPiece::Wire { .. } => String::new(),
        }
    }

    pub fn label(&self) -> (r: String)
        ensures
            r@ == self.label_text(),
    {
        match self {
            LogicPiece::Assumption { formula, .. } => formula.clone(),
            LogicPiece::Goal { formula, .. } => formula.clone(),
            LogicPiece::AndIntro { .. } => String::from_str("AND"),
            LogicPiece::OrIntro { .. } => String::from_str("OR"),
            LogicPiece::ImpliesIntro { .. } => String::from_str("=>"),
            LogicPiece::NotIntro { .. } => String::from_str("NOT"),
            LogicPiece::ForallIntro { variable, .. } => String::from_str("∀").concat(
                variable.as_str(),
            ),
            LogicPiece::ExistsIntro { variable, .. } => String::from_str("∃").concat(
                variable.as_str(),
            ),
            LogicPiece::Wire { .. } => String::from_str("-"),
        }
    }
}

} // verus!
