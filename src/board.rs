//! The board: a grid of `width` by `height` cells and the pieces on it.

use vstd::prelude::*;
use crate::pieces::{same_position, LogicPiece, Position};

verus! {

/// A board and its pieces, in the order they were placed.
#[derive(Debug)]
pub struct BoardState {
    pub width: u32,
    pub height: u32,
    pub pieces: Vec<LogicPiece>,
}

/// The pieces of `s`, each cloned.
fn clone_pieces(s: &Vec<LogicPiece>) -> (r: Vec<LogicPiece>)
    ensures
        r@ == s@,
{
    let mut out: Vec<LogicPiece> = Vec::new();
    let mut i: usize = 0;
    while i < s.len()
        invariant
            i <= s@.len(),
            out@ == s@.subrange(0, i as int),
        decreases s@.len() - i,
    {
        out.push(s[i].clone());
        assert(out@ =~= s@.subrange(0, i as int + 1));
        i = i + 1;
    }
    assert(s@.subrange(0, s@.len() as int) =~= s@);
    out
}

impl Clone for BoardState {
    fn clone(&self) -> (r: Self)
        ensures
            r.width == self.width,
            r.height == self.height,
            r.pieces@ == self.pieces@,
    {
        BoardState { width: self.width, height: self.height, pieces: clone_pieces(&self.pieces) }
    }
}

/// `(x, y)` lies on a `width` by `height` grid.
pub open spec fn within(width: u32, height: u32, p: Position) -> bool {
    p.0 < width && p.1 < height
}

/// Some piece of `s` stands at `p`.
pub open spec fn occupied_in(s: Seq<LogicPiece>, p: Position) -> bool {
    exists|i: int| 0 <= i < s.len() && (#[trigger] s[i]).spec_position() == p
}

/// `i` is the first index of `s` whose piece stands at `p`.
pub open spec fn first_at(s: Seq<LogicPiece>, p: Position, i: int) -> bool {
    &&& 0 <= i < s.len()
    &&& s[i].spec_position() == p
    &&& forall|j: int| 0 <= j < i ==> (#[trigger] s[j]).spec_position() != p
}

/// `a` and `b` differ by at most `radius` on each axis.
pub open spec fn in_box(a: Position, b: Position, radius: u32) -> bool {
    &&& (a.0 as int - b.0 as int <= radius as int)
    &&& (b.0 as int - a.0 as int <= radius as int)
    &&& (a.1 as int - b.1 as int <= radius as int)
    &&& (b.1 as int - a.1 as int <= radius as int)
}

/// The pieces of `s` inside the box of `radius` round `c`, in order.
pub open spec fn near_in(s: Seq<LogicPiece>, c: Position, radius: u32) -> Seq<LogicPiece> {
    s.filter(|q: LogicPiece| in_box(q.spec_position(), c, radius))
}

pub open spec fn is_assumption(q: LogicPiece) -> bool {
    q is Assumption
}

pub open spec fn is_goal(q: LogicPiece) -> bool {
    q is Goal
}

pub open spec fn is_gate(q: LogicPiece) -> bool {
    q.is_gate()
}

pub open spec fn is_wire(q: LogicPiece) -> bool {
    q is Wire
}

/// Which pieces a query keeps.
enum Selector {
    Near { x: u32, y: u32, radius: u32 },
    Assumptions,
    Goals,
    Gates,
    Wires,
}

impl Selector {
    spec fn keeps(&self, q: LogicPiece) -> bool {
        match self {
            Selector::Near { x, y, radius } => in_box(q.spec_position(), (*x, *y), *radius),
            Selector::Assumptions => is_assumption(q),
            Selector::Goals => is_goal(q),
            Selector::Gates => is_gate(q),
            Selector::Wires => is_wire(q),
        }
    }

    fn test(&self, q: &LogicPiece) -> (r: bool)
        ensures
            r == self.keeps(*q),
    {
        match self {
            Selector::Near { x, y, radius } => {
                let (px, py) = q.position();
                let (px, py, cx, cy, d) = (px as u64, py as u64, *x as u64, *y as u64, *radius as u64);
                px <= cx + d && cx <= px + d && py <= cy + d && cy <= py + d
            },
            Selector::Assumptions => matches!(q, LogicPiece::Assumption { .. }),
            Selector::Goals => matches!(q, LogicPiece::Goal { .. }),
            Selector::Gates => matches!(
                q,
                LogicPiece::AndIntro { .. } | LogicPiece::OrIntro { .. } | LogicPiece::ImpliesIntro {
                    ..
                } | LogicPiece::NotIntro { .. }
            ),
            Selector::Wires => matches!(q, LogicPiece::Wire { .. }),
        }
    }
}

/// The pieces of `pieces` that `sel` keeps, in order, by reference.
fn select<'a>(pieces: &'a Vec<LogicPiece>, sel: Selector) -> (r: Vec<&'a LogicPiece>)
    ensures
        r@.map_values(|q: &LogicPiece| *q) == pieces@.filter(|q: LogicPiece| sel.keeps(q)),
{
    let mut out: Vec<&'a LogicPiece> = Vec::new();
    let mut i: usize = 0;
    while i < pieces.len()
        invariant
            i <= pieces@.len(),
            out@.map_values(|q: &LogicPiece| *q) == pieces@.subrange(0, i as int).filter(|q: LogicPiece| sel.keeps(q)),
        decreases pieces@.len() - i,
    {
        let ghost before = out@;
        let kept = sel.test(&pieces[i]);
        if kept {
            out.push(&pieces[i]);
        }
        proof {
            let s = pieces@.subrange(0, i as int + 1);
            assert(s.drop_last() =~= pieces@.subrange(0, i as int));
            assert(s.last() == pieces@[i as int]);
            reveal(Seq::filter);
            assert(s.filter(|q: LogicPiece| sel.keeps(q)) == (if sel.keeps(s.last()) {
                s.drop_last().filter(|q: LogicPiece| sel.keeps(q)).push(s.last())
            } else {
                s.drop_last().filter(|q: LogicPiece| sel.keeps(q))
            }));
            if kept {
                assert(out@.map_values(|q: &LogicPiece| *q) =~= before.map_values(
                    |q: &LogicPiece| *q,
                ).push(pieces@[i as int]));
            } else {
                assert(out@ == before);
            }
            assert(out@.map_values(|q: &LogicPiece| *q) == s.filter(|q: LogicPiece| sel.keeps(q)));
        }
        i = i + 1;
    }
    assert(pieces@.subrange(0, pieces@.len() as int) =~= pieces@);
    out
}

impl BoardState {
    /// Every piece lies on the grid and no two pieces share a position.
    pub open spec fn wf(&self) -> bool {
        &&& forall|i: int|
            0 <= i < self.pieces@.len() ==> within(
                self.width,
                self.height,
                (#[trigger] self.pieces@[i]).spec_position(),
            )
        &&& forall|i: int, j: int|
            0 <= i < j < self.pieces@.len() ==> (#[trigger] self.pieces@[i]).spec_position()
                != (#[trigger] self.pieces@[j]).spec_position()
    }

    pub open spec fn spec_in_bounds(&self, x: u32, y: u32) -> bool {
        within(self.width, self.height, (x, y))
    }

    pub open spec fn spec_is_occupied(&self, x: u32, y: u32) -> bool {
        occupied_in(self.pieces@, (x, y))
    }

    /// An empty board.
    pub fn new(width: u32, height: u32) -> (r: Self)
        ensures
            r.width == width,
            r.height == height,
            r.pieces@.len() == 0,
            r.wf(),
    {
        BoardState { width, height, pieces: Vec::new() }
    }

    /// A board holding `pieces` as given; nothing is checked.
    pub fn with_pieces(width: u32, height: u32, pieces: Vec<LogicPiece>) -> (r: Self)
        ensures
            r.width == width,
            r.height == height,
            r.pieces@ == pieces@,
    {
        BoardState { width, height, pieces }
    }

    #[verifier::when_used_as_spec(spec_in_bounds)]
    pub fn in_bounds(&self, x: u32, y: u32) -> (r: bool)
        ensures
            r == self.spec_in_bounds(x, y),
    {
        x < self.width && y < self.height
    }

    /// The index of the first piece standing at `(x, y)`, if any.
    fn index_at(&self, x: u32, y: u32) -> (r: Option<usize>)
        ensures
            r is None ==> !occupied_in(self.pieces@, (x, y)),
            r matches Some(i) ==> first_at(self.pieces@, (x, y), i as int),
    {
        let mut i: usize = 0;
        while i < self.pieces.len()
            invariant
                i <= self.pieces@.len(),
                forall|j: int| 0 <= j < i ==> (#[trigger] self.pieces@[j]).spec_position() != (x, y),
            decreases self.pieces@.len() - i,
        {
            if same_position(self.pieces[i].position(), (x, y)) {
                return Some(i);
            }
            i = i + 1;
        }
        None
    }

    #[verifier::when_used_as_spec(spec_is_occupied)]
    pub fn is_occupied(&self, x: u32, y: u32) -> (r: bool)
        ensures
            r == self.spec_is_occupied(x, y),
    {
        self.index_at(x, y).is_some()
    }

    /// The first piece at `(x, y)`.
    pub fn piece_at(&self, x: u32, y: u32) -> (r: Option<&LogicPiece>)
        ensures
            r is None <==> !self.spec_is_occupied(x, y),
            r matches Some(q) ==> exists|i: int|
                first_at(self.pieces@, (x, y), i) && *q == self.pieces@[i],
    {
        match self.index_at(x, y) {
            Some(i) => Some(&self.pieces[i]),
            None => None,
        }
    }

    /// Moves the first piece at `from` to `to`, if `to` is on the grid and free.
    pub fn move_piece(&mut self, from: Position, to: Position) -> (r: bool)
        ensures
            r == (old(self).spec_in_bounds(to.0, to.1) && !old(self).spec_is_occupied(to.0, to.1)
                && old(self).spec_is_occupied(from.0, from.1)),
            r ==> exists|i: int|
                first_at(old(self).pieces@, from, i) && final(self).pieces@ == old(
                    self,
                ).pieces@.update(i, old(self).pieces@[i].moved_to(to)),
            !r ==> final(self).pieces@ == old(self).pieces@,
            r ==> final(self).spec_is_occupied(to.0, to.1),
            final(self).width == old(self).width,
            final(self).height == old(self).height,
            old(self).wf() ==> final(self).wf(),
    {
        if !self.in_bounds(to.0, to.1) {
            return false;
        }
        if self.is_occupied(to.0, to.1) {
            return false;
        }
        match self.index_at(from.0, from.1) {
            Some(i) => {
                let mut q = self.pieces.remove(i);
                q.set_position(to);
                self.pieces.insert(i, q);
                proof {
                    let s = old(self).pieces@;
                    assert(self.pieces@ =~= s.update(i as int, s[i as int].moved_to(to)));
                    assert(self.pieces@[i as int].spec_position() == to);
                    if old(self).wf() {
                        assert forall|a: int, b: int| 0 <= a < b < self.pieces@.len() implies
                            (#[trigger] self.pieces@[a]).spec_position()
                                != (#[trigger] self.pieces@[b]).spec_position() by {
                            if a != i && b != i {
                                assert(s[a] == self.pieces@[a]);
                                assert(s[b] == self.pieces@[b]);
                            } else if a == i {
                                assert(s[b] == self.pieces@[b]);
                            } else {
                                assert(s[a] == self.pieces@[a]);
                            }
                        }
                        assert forall|k: int| 0 <= k < self.pieces@.len() implies
                            within(self.width, self.height, (#[trigger] self.pieces@[k]).spec_position()) by {
                            if k != i {
                                assert(s[k] == self.pieces@[k]);
                            }
                        }
                    }
                }
                true
            },
            None => false,
        }
    }

    /// Every piece within `radius` of `(x, y)` on both axes, in board order.
    pub fn pieces_near(&self, x: u32, y: u32, radius: u32) -> (r: Vec<&LogicPiece>)
        ensures
            r@.map_values(|q: &LogicPiece| *q) == near_in(self.pieces@, (x, y), radius),
    {
        let r = select(&self.pieces, Selector::Near { x, y, radius });
        assert((|q: LogicPiece| (Selector::Near { x, y, radius }).keeps(q)) =~= (|q: LogicPiece| in_box(q.spec_position(), (x, y), radius)));
        r
    }

    /// The assumptions, in board order.
    pub fn assumptions(&self) -> (r: Vec<&LogicPiece>)
        ensures
            r@.map_values(|q: &LogicPiece| *q) == self.pieces@.filter(|q: LogicPiece| is_assumption(q)),
    {
        let r = select(&self.pieces, Selector::Assumptions);
        assert((|q: LogicPiece| Selector::Assumptions.keeps(q)) =~= (|q: LogicPiece| is_assumption(q)));
        r
    }

    /// The goals, in board order.
    pub fn goals(&self) -> (r: Vec<&LogicPiece>)
        ensures
            r@.map_values(|q: &LogicPiece| *q) == self.pieces@.filter(|q: LogicPiece| is_goal(q)),
    {
        let r = select(&self.pieces, Selector::Goals);
        assert((|q: LogicPiece| Selector::Goals.keeps(q)) =~= (|q: LogicPiece| is_goal(q)));
        r
    }

    /// The AND, OR, IMPLIES and NOT gates, in board order; quantifiers are not gates.
    pub fn gates(&self) -> (r: Vec<&LogicPiece>)
        ensures
            r@.map_values(|q: &LogicPiece| *q) == self.pieces@.filter(|q: LogicPiece| is_gate(q)),
    {
        let r = select(&self.pieces, Selector::Gates);
        assert((|q: LogicPiece| Selector::Gates.keeps(q)) =~= (|q: LogicPiece| is_gate(q)));
        r
    }

    /// The wires, in board order.
    pub fn wires(&self) -> (r: Vec<&LogicPiece>)
        ensures
            r@.map_values(|q: &LogicPiece| *q) == self.pieces@.filter(|q: LogicPiece| is_wire(q)),
    {
        let r = select(&self.pieces, Selector::Wires);
        assert((|q: LogicPiece| Selector::Wires.keeps(q)) =~= (|q: LogicPiece| is_wire(q)));
        r
    }

    /// Removes every piece.
    pub fn clear(&mut self)
        ensures
            final(self).pieces@.len() == 0,
            final(self).width == old(self).width,
            final(self).height == old(self).height,
    {
        self.pieces.clear();
    }

    pub fn piece_count(&self) -> (r: usize)
        ensures
            r == self.pieces@.len(),
    {
        self.pieces.len()
    }

    /// The first piece at `(x, y)`, to change in place.
    pub fn piece_at_mut(&mut self, x: u32, y: u32) -> (r: Option<&mut LogicPiece>)
        ensures
            r is None <==> !old(self).spec_is_occupied(x, y),
            r is None ==> final(self).pieces@ == old(self).pieces@,
            r matches Some(q) ==> exists|i: int|
                first_at(old(self).pieces@, (x, y), i) && *q == old(self).pieces@[i]
                    && final(self).pieces@ == old(self).pieces@.update(i, *final(q)),
            final(self).width == old(self).width,
            final(self).height == old(self).height,
    {
        match self.index_at(x, y) {
            Some(i) => Some(&mut self.pieces[i]),
            None => None,
        }
    }

    /// Places `piece` at its own position if that cell is on the grid and free.
    pub fn place_piece(&mut self, piece: LogicPiece) -> (r: bool)
        ensures
            r == (old(self).spec_in_bounds(piece.spec_position().0, piece.spec_position().1)
                && !old(self).spec_is_occupied(piece.spec_position().0, piece.spec_position().1)),
            r ==> final(self).pieces@ == old(self).pieces@.push(piece),
            r ==> final(self).spec_is_occupied(piece.spec_position().0, piece.spec_position().1),
            !r ==> final(self).pieces@ == old(self).pieces@,
            final(self).width == old(self).width,
            final(self).height == old(self).height,
            old(self).wf() ==> final(self).wf(),
    {
        let (x, y) = piece.position();
        if !self.in_bounds(x, y) {
            return false;
        }
        if self.is_occupied(x, y) {
            return false;
        }
        self.pieces.push(piece);
        proof {
            let n = old(self).pieces@.len() as int;
            assert(self.pieces@[n].spec_position() == (x, y));
        }
        true
    }

    /// Removes the first piece at `(x, y)` and returns it.
    pub fn remove_piece(&mut self, x: u32, y: u32) -> (r: Option<LogicPiece>)
        ensures
            r is None <==> !old(self).spec_is_occupied(x, y),
            r is None ==> final(self).pieces@ == old(self).pieces@,
            r matches Some(q) ==> exists|i: int|
                first_at(old(self).pieces@, (x, y), i) && q == old(self).pieces@[i]
                    && final(self).pieces@ == old(self).pieces@.remove(i),
            r is Some ==> final(self).pieces@.len() == old(self).pieces@.len() - 1,
            old(self).wf() ==> !final(self).spec_is_occupied(x, y),
            old(self).wf() ==> final(self).wf(),
            final(self).width == old(self).width,
            final(self).height == old(self).height,
    {
        match self.index_at(x, y) {
            Some(i) => {
                let q = self.pieces.remove(i);
                proof {
                    let s = old(self).pieces@;
                    assert forall|k: int| 0 <= k < self.pieces@.len() implies
                        #[trigger] self.pieces@[k] == s[if k < i { k } else { k + 1 }] by {}
                    if old(self).wf() {
                        assert forall|k: int| 0 <= k < self.pieces@.len() implies
                            (#[trigger] self.pieces@[k]).spec_position() != (x, y) by {
                            let m = if k < i { k } else { k + 1 };
                            assert(s[m] == self.pieces@[k]);
                            assert(m != i as int);
                        }
                        assert forall|a: int, b: int| 0 <= a < b < self.pieces@.len() implies
                            (#[trigger] self.pieces@[a]).spec_position()
                                != (#[trigger] self.pieces@[b]).spec_position() by {
                            let ma = if a < i { a } else { a + 1 };
                            let mb = if b < i { b } else { b + 1 };
                            assert(s[ma] == self.pieces@[a]);
                            assert(s[mb] == self.pieces@[b]);
                        }
                        assert forall|k: int| 0 <= k < self.pieces@.len() implies
                            within(self.width, self.height, (#[trigger] self.pieces@[k]).spec_position()) by {
                            let m = if k < i { k } else { k + 1 };
                            assert(s[m] == self.pieces@[k]);
                        }
                    }
                }
                Some(q)
            },
            None => None,
        }
    }
}

/// `near_in` keeps exactly the pieces inside the box: each piece it returns
/// is a piece of `s` inside the box, and every piece of `s` inside the box,
/// the centre included, is returned.
pub proof fn lemma_near_exact(s: Seq<LogicPiece>, c: Position, radius: u32)
    ensures
        forall|k: int|
            0 <= k < near_in(s, c, radius).len() ==> s.contains(#[trigger] near_in(s, c, radius)[k])
                && in_box(near_in(s, c, radius)[k].spec_position(), c, radius),
        forall|i: int|
            0 <= i < s.len() && in_box(s[i].spec_position(), c, radius) ==> near_in(
                s,
                c,
                radius,
            ).contains(#[trigger] s[i]),
{
    let pred = |q: LogicPiece| in_box(q.spec_position(), c, radius);
    assert forall|k: int| 0 <= k < near_in(s, c, radius).len() implies s.contains(
        #[trigger] near_in(s, c, radius)[k],
    ) && in_box(near_in(s, c, radius)[k].spec_position(), c, radius) by {
        s.lemma_filter_pred(pred, k);
        s.lemma_filter_contains_rev(pred, s.filter(pred)[k]);
    }
    assert forall|i: int| 0 <= i < s.len() && in_box(s[i].spec_position(), c, radius) implies near_in(
        s,
        c,
        radius,
    ).contains(#[trigger] s[i]) by {
        s.lemma_filter_contains(pred, i);
    }
}

} // verus!
