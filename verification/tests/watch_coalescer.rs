use app_server_core::watch::{WatchCoalescer, WatchMessage, DEBOUNCE_MS};

const NOW: u64 = 10_000;

fn changed(paths: &[&str]) -> Option<WatchMessage> {
    Some(WatchMessage::Changed(paths.iter().map(|p| p.to_string()).collect()))
}

#[test]
fn coalesces_multiple_writes_into_single_event() {
    let mut state = WatchCoalescer::new();
    let watched = "/tmp/example.scad".to_string();
    state.subscribe(vec![watched.clone()]);
    let now = NOW;

    state.push_raw_path(now, watched.clone());
    state.push_raw_path(now + 50, watched.clone());
    state.push_raw_path(now + 100, watched.clone());

    assert!(state.take_due_notification(now + 200).is_none());
    assert_eq!(
        state.take_due_notification(now + DEBOUNCE_MS + 100),
        changed(&["/tmp/example.scad"])
    );
    assert!(state.take_due_notification(now + DEBOUNCE_MS + 200).is_none());
}

#[test]
fn filters_editor_temp_files() {
    let mut state = WatchCoalescer::new();
    state.subscribe(vec!["/tmp/example.scad".to_string()]);
    let now = NOW;

    state.push_raw_path(now, "/tmp/example.scad~".to_string());
    state.push_raw_path(now, "/tmp/.~tmp-example.scad".to_string());
    assert!(state.take_due_notification(now + DEBOUNCE_MS + 1).is_none());
}

#[test]
fn unsubscribed_watcher_emits_no_event() {
    let mut state = WatchCoalescer::new();
    let watched = "/tmp/example.scad".to_string();
    state.subscribe(vec![watched.clone()]);
    state.unsubscribe();
    let now = NOW;
    state.push_raw_path(now, watched);
    assert!(state.take_due_notification(now + DEBOUNCE_MS + 1).is_none());
}

#[test]
fn disconnect_invalidates_subscription_until_resubscribed() {
    let mut state = WatchCoalescer::new();
    let watched = "/tmp/example.scad".to_string();
    let now = NOW;
    state.subscribe(vec![watched.clone()]);
    state.disconnect();
    state.push_raw_path(now, watched.clone());
    assert!(state.take_due_notification(now + DEBOUNCE_MS + 1).is_none());

    state.reconnect();
    state.push_raw_path(now + 1000, watched.clone());
    assert!(state
        .take_due_notification(now + 1000 + DEBOUNCE_MS + 1)
        .is_none());

    state.subscribe(vec![watched.clone()]);
    state.push_raw_path(now + 2000, watched.clone());
    assert_eq!(
        state.take_due_notification(now + 2000 + DEBOUNCE_MS + 1),
        changed(&["/tmp/example.scad"])
    );
}

#[test]
fn preserves_actual_changed_paths_under_watched_directory() {
    let mut state = WatchCoalescer::new();
    let root = "/tmp/workspace".to_string();
    let scad = format!("{root}/examples/cube.scad");
    let settings = format!("{root}/examples/cube.scad.json");
    state.subscribe(vec![root]);
    let now = NOW;

    state.push_raw_path(now, scad.clone());
    state.push_raw_path(now + 50, settings.clone());

    assert_eq!(
        state.take_due_notification(now + DEBOUNCE_MS + 60),
        Some(WatchMessage::Changed(vec![scad, settings]))
    );
}

#[test]
fn same_path_spelled_twice_is_pending_once() {
    let mut state = WatchCoalescer::new();
    state.subscribe(vec!["/tmp/workspace".to_string()]);
    state.push_raw_path(NOW, "/tmp/workspace/a.py".to_string());
    state.push_raw_path(NOW + 10, "/tmp//workspace/./a.py".to_string());
    assert_eq!(
        state.take_due_notification(NOW + 10 + DEBOUNCE_MS),
        changed(&["/tmp/workspace/a.py"])
    );
}

#[test]
fn sibling_with_common_prefix_is_not_watched() {
    let mut state = WatchCoalescer::new();
    state.subscribe(vec!["/tmp/work".to_string()]);
    state.push_raw_path(NOW, "/tmp/workspace/a.py".to_string());
    assert!(state.take_due_notification(NOW + DEBOUNCE_MS).is_none());
}

#[test]
fn deadline_moves_with_the_last_event() {
    let mut state = WatchCoalescer::new();
    state.subscribe(vec!["/tmp/w".to_string()]);
    state.push_raw_path(NOW, "/tmp/w/a".to_string());
    state.push_raw_path(NOW + 250, "/tmp/w/b".to_string());
    assert!(state.take_due_notification(NOW + DEBOUNCE_MS).is_none());
    assert_eq!(
        state.take_due_notification(NOW + 250 + DEBOUNCE_MS),
        changed(&["/tmp/w/a", "/tmp/w/b"])
    );
}
