use codex_island_core::{AppSnapshot, SessionStatus};

#[test]
fn builds_empty_snapshot_from_new_core_state() {
    let snapshot = AppSnapshot::empty();
    assert_eq!(snapshot.summary.total, 0);
    assert!(snapshot.sessions.is_empty());
    assert_eq!(SessionStatus::Running.as_str(), "running");
}

#[test]
fn tauri_layer_can_read_core_snapshot_type() {
    let snapshot = codex_island_core::AppSnapshot::empty();
    assert_eq!(snapshot.summary.total, 0);
}
