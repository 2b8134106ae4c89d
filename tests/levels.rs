use proof_of_work::levels::{create_builtin_tutorial_pack, LevelPackError};
use proof_of_work::validation::validate_level;
use proof_of_work::{BoardState, GoalCondition, Level, LevelPack};

#[test]
fn test_level_pack_creation() {
    let pack = LevelPack::new("test", "Test Pack", "Test Author");
    assert_eq!(pack.id, "test");
    assert_eq!(pack.name, "Test Pack");
    assert_eq!(pack.author, "Test Author");
    assert_eq!(pack.level_count(), 0);
}

#[test]
fn test_add_level() {
    let mut pack = LevelPack::new("test", "Test Pack", "Test Author");
    pack.add_level(Level {
        id: 1,
        name: "Test Level".to_string(),
        description: "Test".to_string(),
        theorem: "".to_string(),
        initial_state: BoardState { width: 10, height: 10, pieces: vec![] },
        goal_state: GoalCondition::ProveFormula { formula: "X".to_string() },
    });
    assert_eq!(pack.level_count(), 1);
}

#[test]
fn test_builtin_pack() {
    let pack = create_builtin_tutorial_pack();
    assert_eq!(pack.id, "tutorial");
    assert!(!pack.levels.is_empty());
}

#[test]
fn builtin_levels_all_validate() {
    let pack = create_builtin_tutorial_pack();
    assert_eq!(pack.level_count(), 4);
    for (i, level) in pack.levels.iter().enumerate() {
        assert_eq!(level.id as usize, i + 1);
        assert!(validate_level(level).is_valid);
    }
    assert_eq!(pack.tags, vec!["tutorial".to_string(), "beginner".to_string()]);
}

#[test]
fn default_pack_fields() {
    let pack = LevelPack::default();
    assert_eq!(pack.id, "untitled");
    assert_eq!(pack.name, "Untitled Pack");
    assert_eq!(pack.version, "1.0.0");
    assert_eq!(pack.difficulty, 1);
    let named = LevelPack::new("a", "b", "c");
    assert_eq!(named.description, "A new level pack");
}

#[test]
fn pack_error_messages() {
    assert_eq!(LevelPackError::IoError("disk".to_string()).message(), "IO error: disk");
    assert_eq!(LevelPackError::SerializationError("x".to_string()).message(), "Serialization error: x");
    assert_eq!(LevelPackError::DeserializationError("y".to_string()).message(), "Deserialization error: y");
    assert_eq!(LevelPackError::NotFound("z".to_string()).message(), "Not found: z");
}

fn manager_with_tutorial() -> proof_of_work::LevelPackManager {
    let mut m = proof_of_work::LevelPackManager::new(std::path::PathBuf::from("packs"));
    m.packs.push(create_builtin_tutorial_pack());
    m
}

#[test]
fn manager_selection_and_navigation() {
    let mut m = manager_with_tutorial();
    assert!(m.current_level().is_none());
    assert!(!m.next_level());
    m.select_pack(3);
    assert!(m.current_pack_index.is_none());
    m.select_pack(0);
    assert_eq!(m.current_level().map(|l| l.id), Some(1));
    m.select_level(9);
    assert_eq!(m.current_level_index, Some(0));
    m.select_level(2);
    assert_eq!(m.current_level().map(|l| l.id), Some(3));
    assert!(m.next_level());
    assert_eq!(m.current_level().map(|l| l.id), Some(4));
    assert!(!m.next_level());
    assert_eq!(m.current_level_index, Some(3));
}

#[test]
fn manager_records_completions() {
    let mut m = manager_with_tutorial();
    m.mark_completed(30);
    assert!(m.progress.is_empty());
    m.select_pack(0);
    m.select_level(1);
    assert!(!m.is_level_completed("tutorial", 2));
    m.mark_completed(30);
    m.mark_completed(12);
    m.mark_completed(50);
    assert!(m.is_level_completed("tutorial", 2));
    assert!(!m.is_level_completed("tutorial", 1));
    assert!(!m.is_level_completed("other", 2));
    assert_eq!(m.progress.len(), 1);
    let c = m.progress[0].1.completed.get(&2).copied().unwrap();
    assert_eq!(c.best_time_secs, 12);
    assert_eq!(c.times_completed, 3);
    m.select_level(0);
    m.mark_completed(u64::MAX);
    let c = m.progress[0].1.completed.get(&1).copied().unwrap();
    assert_eq!(c.best_time_secs, u64::MAX);
    assert_eq!(c.times_completed, 1);
}
