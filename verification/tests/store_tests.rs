use shuttlebot::{ActionOutcome, IssueStore, StoreError};

fn store_with_one_thread() -> IssueStore {
    let mut store = IssueStore::new();
    let outcome = store.create_record(
        42,
        "https://discord.com/channels/9/42".to_string(),
        vec!["bug".to_string(), "deployment".to_string()],
        1_000_000,
    );
    assert_eq!(outcome, ActionOutcome::Applied);
    store
}

#[test]
fn create_record_is_idempotent() {
    let mut store = store_with_one_thread();
    assert_eq!(store.records.len(), 1);
    let second = store.create_record(
        42,
        "https://discord.com/channels/9/42-again".to_string(),
        vec![],
        2_000_000,
    );
    assert_eq!(second, ActionOutcome::NoOp);
    assert_eq!(store.records.len(), 1);
    assert_eq!(store.records[0].thread_link, "https://discord.com/channels/9/42");
    assert_eq!(store.records[0].creation_time, 1_000_000);
}

#[test]
fn new_record_starts_unset() {
    let store = store_with_one_thread();
    let rec = &store.records[0];
    assert!(rec.original_poster.is_none());
    assert!(rec.first_responder.is_none());
    assert!(rec.first_response_time.is_none());
    assert!(rec.github_link.is_none());
    assert!(rec.resolved_by.is_none());
    assert_eq!(rec.severity, 5);
    assert!(!rec.locked);
}

#[test]
fn initial_message_is_write_once() {
    let mut store = store_with_one_thread();
    let first = store.record_initial_message(42, "alice".to_string(), "help me".to_string());
    assert_eq!(first, Ok(ActionOutcome::Applied));
    let second = store.record_initial_message(42, "mallory".to_string(), "other".to_string());
    assert_eq!(second, Ok(ActionOutcome::NoOp));
    assert_eq!(store.records[0].original_poster.as_deref(), Some("alice"));
    assert_eq!(store.records[0].initial_message.as_deref(), Some("help me"));
}

#[test]
fn first_response_is_write_once() {
    let mut store = store_with_one_thread();
    let first = store.record_first_response(42, "bob".to_string(), 1_000_500);
    assert_eq!(first, Ok(ActionOutcome::Applied));
    let second = store.record_first_response(42, "carol".to_string(), 1_000_900);
    assert_eq!(second, Ok(ActionOutcome::NoOp));
    assert_eq!(store.records[0].first_responder.as_deref(), Some("bob"));
    assert_eq!(store.records[0].first_response_time, Some(1_000_500));
}

#[test]
fn severity_takes_the_latest_value() {
    let mut store = store_with_one_thread();
    assert_eq!(store.set_severity(42, 3), Ok(ActionOutcome::Applied));
    assert_eq!(store.records[0].severity, 3);
    assert_eq!(store.set_severity(42, 1), Ok(ActionOutcome::Applied));
    assert_eq!(store.records[0].severity, 1);
}

#[test]
fn elevation_locks_and_is_write_once() {
    let mut store = store_with_one_thread();
    let first = store.elevate(42, "https://github.com/owner/repo/issues/7".to_string());
    assert_eq!(first, Ok(ActionOutcome::Applied));
    let rec = &store.records[0];
    assert!(rec.locked);
    assert_eq!(rec.lock_reason, "Thread was elevated to GitHub issue");
    let second = store.elevate(42, "https://github.com/owner/repo/issues/8".to_string());
    assert_eq!(second, Ok(ActionOutcome::NoOp));
    assert_eq!(
        store.records[0].github_link.as_deref(),
        Some("https://github.com/owner/repo/issues/7")
    );
}

#[test]
fn resolve_implies_locked() {
    let mut store = store_with_one_thread();
    // Unlock first, so resolution visibly flips the lock on.
    let unlocked = store.set_locked_status(42, false, "open for now".to_string(), 1_000_100);
    assert_eq!(unlocked, Ok(ActionOutcome::Applied));
    assert!(!store.records[0].locked);
    let resolved = store.resolve(42, "dana".to_string(), 12, 3, 1_000_200);
    assert_eq!(resolved, Ok(ActionOutcome::Applied));
    let rec = &store.records[0];
    assert!(rec.locked);
    assert_eq!(rec.lock_reason, "Thread was resolved");
    assert_eq!(rec.resolved_by.as_deref(), Some("dana"));
    assert_eq!(rec.resolved_at, Some(1_000_200));
    assert_eq!(rec.message_count, Some(12));
    assert_eq!(rec.participant_count, Some(3));
}

#[test]
fn resolve_is_write_once() {
    let mut store = store_with_one_thread();
    assert_eq!(store.resolve(42, "dana".to_string(), 12, 3, 1_000_200), Ok(ActionOutcome::Applied));
    assert_eq!(store.resolve(42, "erin".to_string(), 99, 9, 1_000_900), Ok(ActionOutcome::NoOp));
    assert_eq!(store.records[0].resolved_by.as_deref(), Some("dana"));
    assert_eq!(store.records[0].message_count, Some(12));
}

#[test]
fn unlocking_a_resolved_record_is_refused() {
    let mut store = store_with_one_thread();
    assert_eq!(store.resolve(42, "dana".to_string(), 12, 3, 1_000_200), Ok(ActionOutcome::Applied));
    let unlock = store.set_locked_status(42, false, "reopen".to_string(), 1_000_300);
    assert_eq!(unlock, Ok(ActionOutcome::NoOp));
    assert!(store.records[0].locked);
    assert_eq!(store.records[0].lock_reason, "Thread was resolved");
}

#[test]
fn locking_stamps_the_resolution_time() {
    let mut store = store_with_one_thread();
    let locked = store.set_locked_status(42, true, "cooling down".to_string(), 1_000_400);
    assert_eq!(locked, Ok(ActionOutcome::Applied));
    let rec = &store.records[0];
    assert!(rec.locked);
    assert_eq!(rec.lock_reason, "cooling down");
    assert_eq!(rec.resolved_at, Some(1_000_400));
}

#[test]
fn unknown_thread_reports_not_found() {
    let mut store = store_with_one_thread();
    assert_eq!(
        store.record_initial_message(999, "x".to_string(), "y".to_string()),
        Err(StoreError::NotFound)
    );
    assert_eq!(store.record_first_response(999, "x".to_string(), 5), Err(StoreError::NotFound));
    assert_eq!(store.elevate(999, "link".to_string()), Err(StoreError::NotFound));
    assert_eq!(
        store.set_locked_status(999, true, "r".to_string(), 5),
        Err(StoreError::NotFound)
    );
    assert_eq!(store.resolve(999, "x".to_string(), 1, 1, 5), Err(StoreError::NotFound));
    assert_eq!(store.set_severity(999, 2), Err(StoreError::NotFound));
}
