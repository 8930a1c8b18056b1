use aperture::db::{first_pending_migration, migration_batch, CursorRecord, WriteCache};

fn rows(v: &[(&str, &str)]) -> Vec<(String, String)> {
    v.iter().map(|(a, b)| (a.to_string(), b.to_string())).collect()
}

fn record(path: &str, offset: u64) -> CursorRecord {
    CursorRecord {
        path: path.to_string(),
        provider: "claude_code".to_string(),
        offset,
        ..Default::default()
    }
}

#[test]
fn the_first_save_after_a_launch_writes_everything() {
    let cache = WriteCache::new();
    let r = rows(&[("claude_code:a", "{}"), ("codex:b", "{}")]);
    assert_eq!(cache.summary_changes(&r), r);
}

#[test]
fn unchanged_summaries_are_skipped_and_changed_ones_written() {
    let mut cache = WriteCache::new();
    let first = rows(&[("claude_code:a", "{\"v\":1}"), ("claude_code:b", "{\"v\":1}")]);
    let changed = cache.summary_changes(&first);
    cache.note_summaries(&changed);
    assert!(cache.summary_changes(&first).is_empty());
    let second = rows(&[("claude_code:a", "{\"v\":1}"), ("claude_code:b", "{\"v\":2}")]);
    assert_eq!(cache.summary_changes(&second), rows(&[("claude_code:b", "{\"v\":2}")]));
}

#[test]
fn forgotten_summaries_are_written_again() {
    let mut cache = WriteCache::new();
    let r = rows(&[("claude_code:a", "{}"), ("claude_code:b", "{}")]);
    cache.note_summaries(&r);
    cache.forget_summaries(&vec!["claude_code:a".to_string()]);
    assert_eq!(cache.summary_changes(&r), rows(&[("claude_code:a", "{}")]));
}

#[test]
fn unchanged_cursors_are_skipped_and_moved_ones_written() {
    let mut cache = WriteCache::new();
    let first = vec![record("C:/fixture/f.jsonl", 10)];
    let changed = cache.cursor_changes(&first);
    assert_eq!(changed, first);
    cache.note_cursors(&changed);
    assert!(cache.cursor_changes(&first).is_empty());
    let moved = vec![record("C:/fixture/f.jsonl", 20)];
    assert_eq!(cache.cursor_changes(&moved), moved);
}

#[test]
fn migrations_run_from_the_reported_version() {
    assert_eq!(first_pending_migration(0, 1), Some(0));
    assert_eq!(first_pending_migration(1, 1), None);
    assert_eq!(first_pending_migration(-1, 1), None);
    assert_eq!(
        migration_batch("CREATE TABLE t (x INTEGER);", 0),
        "BEGIN;\nCREATE TABLE t (x INTEGER);\nPRAGMA user_version = 1;\nCOMMIT;"
    );
}
