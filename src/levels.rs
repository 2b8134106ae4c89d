//! Level packs: named collections of levels, and the records that track
//! which levels a player has completed.

use vstd::prelude::*;
use std::collections::HashMap;
use crate::board::BoardState;
use crate::level::{GoalCondition, Level};
use crate::pieces::LogicPiece;
use crate::validation::{has_assumption, has_goal};

verus! {

/// A collection of levels bundled together.
#[derive(Debug)]
pub struct LevelPack {
    /// Unique identifier of the pack.
    pub id: String,
    pub name: String,
    pub author: String,
    pub description: String,
    /// Version string; semantic versioning is recommended.
    pub version: String,
    /// Difficulty rating from 1 to 5.
    pub difficulty: u8,
    pub tags: Vec<String>,
    pub levels: Vec<Level>,
}

/// Errors when working with level packs.
#[derive(Debug)]
pub enum LevelPackError {
    IoError(String),
    SerializationError(String),
    DeserializationError(String),
    NotFound(String),
}

/// Completion data of one level.
#[derive(Debug, Clone, Copy)]
pub struct LevelCompletion {
    /// Best time in seconds.
    pub best_time_secs: u64,
    /// Number of times completed.
    pub times_completed: u32,
}

/// Progress through one pack: the completed levels, by level id.
#[derive(Debug)]
pub struct PackProgress {
    pub completed: HashMap<u32, LevelCompletion>,
}

impl LevelPackError {
    /// The message of the error, prefixed with its kind.
    pub fn message(&self) -> (r: String)
        ensures
            r@ == self.message_text(),
    {
        match self {
            LevelPackError::IoError(m) => String::from_str("IO error: ").concat(m.as_str()),
            LevelPackError::SerializationError(m) => String::from_str(
                "Serialization error: ",
            ).concat(m.as_str()),
            LevelPackError::DeserializationError(m) => String::from_str(
                "Deserialization error: ",
            ).concat(m.as_str()),
            LevelPackError::NotFound(m) => String::from_str("Not found: ").concat(m.as_str()),
        }
    }

    pub open spec fn message_text(&self) -> Seq<char> {
        match self {
            LevelPackError::IoError(m) => "IO error: "@ + m@,
            LevelPackError::SerializationError(m) => "Serialization error: "@ + m@,
            LevelPackError::DeserializationError(m) => "Deserialization error: "@ + m@,
            LevelPackError::NotFound(m) => "Not found: "@ + m@,
        }
    }
}

impl Default for LevelPack {
    fn default() -> (r: Self)
        ensures
            r.id@ == "untitled"@,
            r.name@ == "Untitled Pack"@,
            r.author@ == "Unknown"@,
            r.description@ == "A new level pack"@,
            r.version@ == "1.0.0"@,
            r.difficulty == 1,
            r.tags@.len() == 0,
            r.levels@.len() == 0,
    {
        LevelPack {
            id: String::from_str("untitled"),
            name: String::from_str("Untitled Pack"),
            author: String::from_str("Unknown"),
            description: String::from_str("A new level pack"),
            version: String::from_str("1.0.0"),
            difficulty: 1,
            tags: Vec::new(),
            levels: Vec::new(),
        }
    }
}

impl LevelPack {
    /// An empty pack; the other fields take their default values.
    pub fn new(id: &str, name: &str, author: &str) -> (r: Self)
        ensures
            r.id@ == id@,
            r.name@ == name@,
            r.author@ == author@,
            r.description@ == "A new level pack"@,
            r.version@ == "1.0.0"@,
            r.difficulty == 1,
            r.tags@.len() == 0,
            r.levels@.len() == 0,
    {
        let base = LevelPack::default();
        LevelPack {
            id: String::from_str(id),
            name: String::from_str(name),
            author: String::from_str(author),
            ..base
        }
    }

    /// Appends `level` to the pack.
    pub fn add_level(&mut self, level: Level)
        ensures
            final(self).levels@ == old(self).levels@.push(level),
            final(self).id == old(self).id,
    {
        self.levels.push(level);
    }

    pub fn level_count(&self) -> (r: usize)
        ensures
            r == self.levels@.len(),
    {
        self.levels.len()
    }
}

fn assumption(formula: &str, x: u32, y: u32) -> (r: LogicPiece)
    ensures
        r == (LogicPiece::Assumption { formula: r->Assumption_formula, position: (x, y) }),
        r->Assumption_formula@ == formula@,
{
    LogicPiece::Assumption { formula: String::from_str(formula), position: (x, y) }
}

fn goal(formula: &str, x: u32, y: u32) -> (r: LogicPiece)
    ensures
        r == (LogicPiece::Goal { formula: r->Goal_formula, position: (x, y) }),
        r->Goal_formula@ == formula@,
{
    LogicPiece::Goal { formula: String::from_str(formula), position: (x, y) }
}

fn prove(formula: &str) -> (r: GoalCondition)
    ensures
        r is ProveFormula,
        r->ProveFormula_formula@ == formula@,
{
    GoalCondition::ProveFormula { formula: String::from_str(formula) }
}

fn tutorial_level(
    id: u32,
    name: &str,
    description: &str,
    theorem: &str,
    pieces: Vec<LogicPiece>,
    target: &str,
) -> (r: Level)
    ensures
        r.id == id,
        r.name@ == name@,
        r.initial_state.width == 10,
        r.initial_state.height == 10,
        r.initial_state.pieces@ == pieces@,
        r.goal_state is ProveFormula,
{
    Level {
        id,
        name: String::from_str(name),
        description: String::from_str(description),
        theorem: String::from_str(theorem),
        initial_state: BoardState { width: 10, height: 10, pieces },
        goal_state: prove(target),
    }
}

/// A tutorial board is well formed and holds an assumption and a goal.
pub open spec fn sound_tutorial_board(b: BoardState) -> bool {
    b.wf() && b.width == 10 && b.height == 10 && has_assumption(b.pieces@) && has_goal(b.pieces@)
}

/// The built-in tutorial pack of four levels.
pub fn create_builtin_tutorial_pack() -> (r: LevelPack)
    ensures
        r.id@ == "tutorial"@,
        r.levels@.len() == 4,
        forall|i: int|
            0 <= i < 4 ==> (#[trigger] r.levels@[i]).id == i + 1 && sound_tutorial_board(
                r.levels@[i].initial_state,
            ) && r.levels@[i].goal_state is ProveFormula,
{
    let mut levels: Vec<Level> = Vec::new();
    let l1 = tutorial_level(
        1,
        "First Steps",
        "Place an AND gate to connect P and Q, then connect to R",
        "(assert (=> (and P Q) R))",
        vec![assumption("P", 2, 5), assumption("Q", 2, 3), goal("R", 8, 4)],
        "R",
    );
    assert(l1.initial_state.pieces@[0] is Assumption);
    assert(l1.initial_state.pieces@[2] is Goal);
    levels.push(l1);
    let l2 = tutorial_level(
        2,
        "Either Way",
        "Use OR introduction to prove A ∨ B from A",
        "(assert (=> A (or A B)))",
        vec![assumption("A", 2, 5), goal("A ∨ B", 8, 5)],
        "(or A B)",
    );
    assert(l2.initial_state.pieces@[0] is Assumption);
    assert(l2.initial_state.pieces@[1] is Goal);
    levels.push(l2);
    let l3 = tutorial_level(
        3,
        "Conjunction Junction",
        "Combine X, Y, and Z using multiple AND gates",
        "(assert (=> (and (and X Y) Z) Result))",
        vec![assumption("X", 1, 7), assumption("Y", 1, 5), assumption("Z", 1, 3), goal("Result", 9, 5)],
        "Result",
    );
    assert(l3.initial_state.pieces@[0] is Assumption);
    assert(l3.initial_state.pieces@[3] is Goal);
    levels.push(l3);
    let l4 = tutorial_level(
        4,
        "Chain of Logic",
        "Build a chain: A → (A ∧ B) → Goal",
        "(assert (=> (and A B) Goal))",
        vec![assumption("A", 1, 6), assumption("B", 1, 4), goal("Goal", 9, 5)],
        "Goal",
    );
    assert(l4.initial_state.pieces@[0] is Assumption);
    assert(l4.initial_state.pieces@[2] is Goal);
    levels.push(l4);
    LevelPack {
        id: String::from_str("tutorial"),
        name: String::from_str("Tutorial"),
        author: String::from_str("Proof of Work Team"),
        description: String::from_str("Learn the basics of logical proofs"),
        version: String::from_str("1.0.0"),
        difficulty: 1,
        tags: vec![String::from_str("tutorial"), String::from_str("beginner")],
        levels,
    }
}

#[verifier::external_type_specification]
#[verifier::external_body]
pub struct ExPathBuf(std::path::PathBuf);

/// Loaded packs, the current selection and the player's progress.
#[derive(Debug)]
pub struct LevelPackManager {
    /// Directory where level packs are stored.
    pub packs_dir: std::path::PathBuf,
    pub packs: Vec<LevelPack>,
    /// Progress for each pack, by pack id; the first record of an id counts.
    pub progress: Vec<(String, PackProgress)>,
    pub current_pack_index: Option<usize>,
    /// Index of the current level within the current pack.
    pub current_level_index: Option<usize>,
}

/// `k` is the first record of `progress` for the pack `id`.
pub open spec fn first_record(progress: Seq<(String, PackProgress)>, id: Seq<char>, k: int) -> bool {
    &&& 0 <= k < progress.len()
    &&& progress[k].0@ == id
    &&& forall|j: int| 0 <= j < k ==> (#[trigger] progress[j]).0@ != id
}

/// The completion record of level `level` in pack `pack`, if any.
pub open spec fn completion_in(progress: Seq<(String, PackProgress)>, pack: Seq<char>, level: u32) -> Option<
    LevelCompletion,
> {
    if exists|k: int| first_record(progress, pack, k) {
        let k = choose|k: int| first_record(progress, pack, k);
        if progress[k].1.completed@.contains_key(level) {
            Some(progress[k].1.completed@[level])
        } else {
            None
        }
    } else {
        None
    }
}

/// A completion in `t` seconds added to the record `c`: the count goes up by
/// one (it stops at its maximum) and the best time is the smaller one.
pub open spec fn recorded(c: Option<LevelCompletion>, t: u64) -> LevelCompletion {
    match c {
        None => LevelCompletion { best_time_secs: t, times_completed: 1 },
        Some(c) => LevelCompletion {
            best_time_secs: if t < c.best_time_secs {
                t
            } else {
                c.best_time_secs
            },
            times_completed: if c.times_completed == u32::MAX {
                c.times_completed
            } else {
                (c.times_completed + 1) as u32
            },
        },
    }
}

proof fn lemma_first_record_unique(progress: Seq<(String, PackProgress)>, id: Seq<char>, a: int, b: int)
    requires
        first_record(progress, id, a),
        first_record(progress, id, b),
    ensures
        a == b,
{
    if a < b {
        assert(progress[a].0@ != id);
    } else if b < a {
        assert(progress[b].0@ != id);
    }
}

fn find_record(progress: &Vec<(String, PackProgress)>, id: &String) -> (r: Option<usize>)
    ensures
        r matches Some(k) ==> first_record(progress@, id@, k as int),
        r is None ==> forall|k: int| 0 <= k < progress@.len() ==> (#[trigger] progress@[k]).0@ != id@,
{
    let mut k: usize = 0;
    while k < progress.len()
        invariant
            k <= progress@.len(),
            forall|j: int| 0 <= j < k ==> (#[trigger] progress@[j]).0@ != id@,
        decreases progress@.len() - k,
    {
        if progress[k].0 == *id {
            return Some(k);
        }
        k = k + 1;
    }
    None
}

impl LevelPackManager {
    /// The selected pack and level, when both are selected and exist.
    pub open spec fn selection(&self) -> Option<(int, int)> {
        match (self.current_pack_index, self.current_level_index) {
            (Some(p), Some(l)) => if p < self.packs@.len() && l < self.packs@[p as int].levels@.len() {
                Some((p as int, l as int))
            } else {
                None
            },
            _ => None,
        }
    }

    pub open spec fn completion(&self, pack: Seq<char>, level: u32) -> Option<LevelCompletion> {
        completion_in(self.progress@, pack, level)
    }

    /// A manager with no packs, no selection and no progress.
    pub fn new(packs_dir: std::path::PathBuf) -> (r: Self)
        ensures
            r.packs_dir == packs_dir,
            r.packs@.len() == 0,
            r.progress@.len() == 0,
            r.current_pack_index is None,
            r.current_level_index is None,
    {
        LevelPackManager {
            packs_dir,
            packs: Vec::new(),
            progress: Vec::new(),
            current_pack_index: None,
            current_level_index: None,
        }
    }

    /// The selected level.
    pub fn current_level(&self) -> (r: Option<&Level>)
        ensures
            match self.selection() {
                Some((p, l)) => r == Some(&self.packs@[p].levels@[l]),
                None => r is None,
            },
    {
        let pack_idx = match self.current_pack_index {
            Some(i) => i,
            None => return None,
        };
        let level_idx = match self.current_level_index {
            Some(i) => i,
            None => return None,
        };
        if pack_idx < self.packs.len() && level_idx < self.packs[pack_idx].levels.len() {
            Some(&self.packs[pack_idx].levels[level_idx])
        } else {
            None
        }
    }

    /// Selects the pack at `index` and its first level, if the pack exists.
    pub fn select_pack(&mut self, index: usize)
        ensures
            final(self).packs == old(self).packs,
            final(self).progress == old(self).progress,
            index < old(self).packs@.len() ==> final(self).current_pack_index == Some(index)
                && final(self).current_level_index == Some(0usize),
            index >= old(self).packs@.len() ==> final(self).current_pack_index == old(
                self,
            ).current_pack_index && final(self).current_level_index == old(self).current_level_index,
    {
        if index < self.packs.len() {
            self.current_pack_index = Some(index);
            self.current_level_index = Some(0);
        }
    }

    /// Selects the level at `index` of the current pack, if it exists.
    pub fn select_level(&mut self, index: usize)
        ensures
            final(self).packs == old(self).packs,
            final(self).progress == old(self).progress,
            final(self).current_pack_index == old(self).current_pack_index,
            (match old(self).current_pack_index {
                Some(p) => p < old(self).packs@.len() && index < old(self).packs@[p as int].levels@.len(),
                None => false,
            }) ==> final(self).current_level_index == Some(index),
            !(match old(self).current_pack_index {
                Some(p) => p < old(self).packs@.len() && index < old(self).packs@[p as int].levels@.len(),
                None => false,
            }) ==> final(self).current_level_index == old(self).current_level_index,
    {
        if let Some(pack_idx) = self.current_pack_index {
            if pack_idx < self.packs.len() && index < self.packs[pack_idx].levels.len() {
                self.current_level_index = Some(index);
            }
        }
    }

    /// Moves to the next level of the current pack; false at the last level
    /// or without a selection.
    pub fn next_level(&mut self) -> (r: bool)
        ensures
            final(self).packs == old(self).packs,
            final(self).progress == old(self).progress,
            final(self).current_pack_index == old(self).current_pack_index,
            r == (match (old(self).current_pack_index, old(self).current_level_index) {
                (Some(p), Some(l)) => p < old(self).packs@.len() && l + 1 < old(
                    self,
                ).packs@[p as int].levels@.len(),
                _ => false,
            }),
            r ==> final(self).current_level_index == Some((old(self).current_level_index->0 + 1) as usize),
            !r ==> final(self).current_level_index == old(self).current_level_index,
    {
        if let (Some(pack_idx), Some(level_idx)) = (self.current_pack_index, self.current_level_index) {
            if pack_idx < self.packs.len() {
                let n = self.packs[pack_idx].levels.len();
                if n > 0 && level_idx < n - 1 {
                    self.current_level_index = Some(level_idx + 1);
                    return true;
                }
            }
        }
        false
    }

    /// Whether level `level_id` of pack `pack_id` has been completed.
    pub fn is_level_completed(&self, pack_id: &str, level_id: u32) -> (r: bool)
        ensures
            r == self.completion(pack_id@, level_id) is Some,
    {
        broadcast use vstd::std_specs::hash::group_hash_axioms;

        let key = String::from_str(pack_id);
        match find_record(&self.progress, &key) {
            Some(k) => {
                proof {
                    lemma_first_record_unique(
                        self.progress@,
                        pack_id@,
                        k as int,
                        choose|j: int| first_record(self.progress@, pack_id@, j),
                    );
                }
                self.progress[k].1.completed.contains_key(&level_id)
            },
            None => false,
        }
    }

    /// Records a completion of the selected level in `time_secs` seconds.
    pub fn mark_completed(&mut self, time_secs: u64)
        ensures
            final(self).packs == old(self).packs,
            final(self).current_pack_index == old(self).current_pack_index,
            final(self).current_level_index == old(self).current_level_index,
            old(self).selection() is None ==> final(self).progress == old(self).progress,
            old(self).selection() matches Some((p, l)) ==> {
                let id = old(self).packs@[p].id@;
                let lid = old(self).packs@[p].levels@[l].id;
                &&& final(self).completion(id, lid) == Some(recorded(old(self).completion(id, lid), time_secs))
                &&& forall|q: Seq<char>, m: u32|
                    !(q == id && m == lid) ==> #[trigger] final(self).completion(q, m) == old(self).completion(q, m)
            },
    {
        broadcast use vstd::std_specs::hash::group_hash_axioms;

        let pack_idx = match self.current_pack_index {
            Some(i) => i,
            None => return,
        };
        let level_idx = match self.current_level_index {
            Some(i) => i,
            None => return,
        };
        if pack_idx >= self.packs.len() || level_idx >= self.packs[pack_idx].levels.len() {
            return;
        }
        let ghost old_progress = self.progress@;
        let pack_id = self.packs[pack_idx].id.clone();
        let level_id = self.packs[pack_idx].levels[level_idx].id;
        let k = match find_record(&self.progress, &pack_id) {
            Some(k) => k,
            None => {
                self.progress.push((pack_id.clone(), PackProgress { completed: HashMap::new() }));
                proof {
                    assert forall|j: int| 0 <= j < old_progress.len() implies
                        (#[trigger] self.progress@[j]) == old_progress[j] by {}
                }
                self.progress.len() - 1
            },
        };
        let ghost mid = self.progress@;
        let (id, mut record) = self.progress.remove(k);
        let previous: Option<LevelCompletion> = match record.completed.get(&level_id) {
            Some(c) => Some(*c),
            None => None,
        };
        let updated = match previous {
            None => LevelCompletion { best_time_secs: time_secs, times_completed: 1 },
            Some(c) => LevelCompletion {
                best_time_secs: if time_secs < c.best_time_secs {
                    time_secs
                } else {
                    c.best_time_secs
                },
                times_completed: c.times_completed.saturating_add(1),
            },
        };
        record.completed.insert(level_id, updated);
        self.progress.insert(k, (id, record));
        proof {
            lemma_mark_frame(old_progress, mid, self.progress@, pack_id@, level_id, k as int, time_secs);
        }
    }
}

/// What `mark_completed` does to the progress records, stated over them.
proof fn lemma_mark_frame(
    before: Seq<(String, PackProgress)>,
    mid: Seq<(String, PackProgress)>,
    after: Seq<(String, PackProgress)>,
    id: Seq<char>,
    lid: u32,
    k: int,
    t: u64,
)
    requires
        first_record(mid, id, k),
        mid.len() == before.len() || (mid.len() == before.len() + 1 && k == before.len()
            && mid[k].1.completed@ == Map::<u32, LevelCompletion>::empty()),
        forall|j: int| 0 <= j < before.len() ==> (#[trigger] mid[j]) == before[j],
        after.len() == mid.len(),
        forall|j: int| 0 <= j < mid.len() && j != k ==> (#[trigger] after[j]) == mid[j],
        after[k].0@ == id,
        after[k].1.completed@ == mid[k].1.completed@.insert(
            lid,
            recorded(
                if mid[k].1.completed@.contains_key(lid) {
                    Some(mid[k].1.completed@[lid])
                } else {
                    None
                },
                t,
            ),
        ),
    ensures
        completion_in(after, id, lid) == Some(recorded(completion_in(before, id, lid), t)),
        forall|q: Seq<char>, m: u32|
            !(q == id && m == lid) ==> #[trigger] completion_in(after, q, m) == completion_in(before, q, m),
{
    assert(first_record(after, id, k));
    let ka = choose|j: int| first_record(after, id, j);
    lemma_first_record_unique(after, id, k, ka);
    assert forall|j: int| 0 <= j < k && j < before.len() implies (#[trigger] before[j]).0@ != id by {
        assert(mid[j] == before[j]);
    }
    if mid.len() == before.len() {
        assert(mid[k] == before[k]);
        assert(first_record(before, id, k));
        let kb = choose|j: int| first_record(before, id, j);
        lemma_first_record_unique(before, id, k, kb);
    } else {
        assert(!exists|j: int| first_record(before, id, j));
    }
    assert forall|q: Seq<char>, m: u32| !(q == id && m == lid) implies #[trigger] completion_in(after, q, m)
        == completion_in(before, q, m) by {
        if q == id {
            if mid.len() == before.len() {
                let kb = choose|j: int| first_record(before, id, j);
                lemma_first_record_unique(before, id, k, kb);
            } else {
                assert(!exists|j: int| first_record(before, id, j));
            }
        } else {
            if exists|j: int| first_record(before, q, j) {
                let kb = choose|j: int| first_record(before, q, j);
                assert(first_record(after, q, kb)) by {
                    assert(kb != k) by {
                        if kb == k {
                            assert(mid[k].0@ == id);
                        }
                    }
                    assert forall|j: int| 0 <= j < kb implies (#[trigger] after[j]).0@ != q by {
                        if j == k {
                            assert(after[k].0@ == id);
                        } else {
                            assert(after[j] == mid[j]);
                            assert(mid[j] == before[j]);
                        }
                    }
                    assert(after[kb] == mid[kb]);
                }
                let ka2 = choose|j: int| first_record(after, q, j);
                lemma_first_record_unique(after, q, kb, ka2);
            } else {
                if exists|j: int| first_record(after, q, j) {
                    let ka2 = choose|j: int| first_record(after, q, j);
                    assert(ka2 != k);
                    assert(after[ka2] == mid[ka2]);
                    if ka2 < before.len() {
                        assert(mid[ka2] == before[ka2]);
                        assert(first_record(before, q, ka2)) by {
                            assert forall|j: int| 0 <= j < ka2 implies (#[trigger] before[j]).0@ != q by {
                                if j == k {
                                    assert(mid[k].0@ == id);
                                    assert(mid[j] == before[j]);
                                } else {
                                    assert(after[j] == mid[j]);
                                    assert(mid[j] == before[j]);
                                }
                            }
                        }
                    } else {
                        assert(ka2 == before.len());
                        assert(ka2 == k);
                    }
                }
            }
        }
    }
}

} // verus!
