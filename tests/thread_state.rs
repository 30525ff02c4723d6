use chatgate::thread_state::ThreadModeState;
use chatgate::thread_table::MAX_THREADS;

#[test]
fn add_and_get_single_mode() {
    let mut state = ThreadModeState::new();
    state.add_mode("ts_123", "pm".to_string());
    assert_eq!(state.get_modes("ts_123"), vec!["pm"]);
}

#[test]
fn add_multiple_modes_are_cumulative() {
    let mut state = ThreadModeState::new();
    state.add_mode("ts_1", "pm".to_string());
    state.add_mode("ts_1", "devops".to_string());
    let modes = state.get_modes("ts_1");
    assert!(modes.contains(&"pm".to_string()));
    assert!(modes.contains(&"devops".to_string()));
    assert_eq!(modes.len(), 2);
}

#[test]
fn add_duplicate_mode_is_idempotent() {
    let mut state = ThreadModeState::new();
    state.add_mode("ts_1", "pm".to_string());
    state.add_mode("ts_1", "pm".to_string());
    assert_eq!(state.get_modes("ts_1"), vec!["pm"]);
}

#[test]
fn get_modes_unknown_thread_returns_empty() {
    let state = ThreadModeState::new();
    assert!(state.get_modes("ts_unknown").is_empty());
}

#[test]
fn clear_mode_removes_all_modes_for_thread() {
    let mut state = ThreadModeState::new();
    state.add_mode("ts_123", "pm".to_string());
    state.add_mode("ts_123", "devops".to_string());
    state.clear_mode("ts_123");
    assert!(state.get_modes("ts_123").is_empty());
}

#[test]
fn active_count_tracks_unique_threads() {
    let mut state = ThreadModeState::new();
    assert_eq!(state.active_count(), 0);
    state.add_mode("ts_1", "pm".to_string());
    state.add_mode("ts_1", "devops".to_string());
    state.add_mode("ts_2", "ops".to_string());
    assert_eq!(state.active_count(), 2);
    state.clear_mode("ts_1");
    assert_eq!(state.active_count(), 1);
}

#[test]
fn add_mode_at_capacity_drops_new_thread() {
    let mut state = ThreadModeState::new();
    for i in 0..MAX_THREADS {
        state.add_mode(&format!("ts_{i}"), "pm".to_string());
    }
    assert_eq!(state.active_count(), MAX_THREADS);
    state.add_mode("ts_overflow", "pm".to_string());
    assert!(state.get_modes("ts_overflow").is_empty(), "new thread beyond capacity must be dropped");
    assert_eq!(state.active_count(), MAX_THREADS, "count must not increase");
}

#[test]
fn add_mode_at_capacity_allows_new_mode_on_existing_thread() {
    let mut state = ThreadModeState::new();
    state.add_mode("ts_existing", "pm".to_string());
    for i in 0..MAX_THREADS - 1 {
        state.add_mode(&format!("ts_{i}"), "ops".to_string());
    }
    assert_eq!(state.active_count(), MAX_THREADS);
    state.add_mode("ts_existing", "devops".to_string());
    let modes = state.get_modes("ts_existing");
    assert!(modes.contains(&"devops".to_string()), "adding a mode to an existing thread must succeed at capacity");
}
