use codex_mcp_server::resources::{encode_project_id, thread_uri};
use codex_mcp_server::server::{
    project_cwd, project_thread_listing, thread_read_failure, ThreadReadFailure, TurnTracker,
};
use codex_mcp_server::state::{
    AppState, ProcessStepKind, ThreadEvent, ThreadItem, ThreadLifecycle, ThreadRecord,
};

#[test]
fn turn_tracker_follows_a_turn() {
    let mut s = AppState::new();
    s.upsert_thread(ThreadRecord::new("t".to_string(), "/w".to_string(), "d".to_string()));
    let mut tracker = TurnTracker::new();
    assert!(!tracker.on_event(&mut s, "t", ThreadEvent::TurnStarted));
    assert!(!tracker.on_event(
        &mut s,
        "t",
        ThreadEvent::ItemCompleted { item: ThreadItem::AgentMessage { text: "first".to_string() } }
    ));
    assert!(!tracker.on_event(
        &mut s,
        "t",
        ThreadEvent::ItemCompleted { item: ThreadItem::AgentMessage { text: "second".to_string() } }
    ));
    assert!(!tracker.on_event(
        &mut s,
        "t",
        ThreadEvent::ItemStarted { item: ThreadItem::AgentMessage { text: "third".to_string() } }
    ));
    assert!(tracker.on_event(&mut s, "t", ThreadEvent::TurnCompleted));
    assert_eq!(tracker.finish(), "second");
    let r = s.get_thread("t").unwrap();
    assert_eq!(r.status, ThreadLifecycle::Completed);
    assert_eq!(r.process.len(), 5);
    assert_eq!(r.process[4].kind, ProcessStepKind::TurnCompleted);
}

#[test]
fn turn_tracker_stops_on_failure_and_defaults_to_empty() {
    let mut s = AppState::new();
    let mut tracker = TurnTracker::new();
    assert!(tracker.on_event(&mut s, "missing", ThreadEvent::TurnFailed { message: "x".to_string() }));
    let mut other = TurnTracker::new();
    assert!(other.on_event(&mut s, "missing", ThreadEvent::Error { message: "y".to_string() }));
    assert_eq!(tracker.finish(), "");
}

#[test]
fn project_cwd_prefers_the_stored_project() {
    let mut s = AppState::new();
    s.upsert_thread(ThreadRecord::new("t".to_string(), "/w".to_string(), "d".to_string()));
    let pid = encode_project_id("/w");
    assert_eq!(project_cwd(&s, &pid).as_deref(), Some("/w"));
    let legacy = base64::Engine::encode(
        &base64::engine::general_purpose::URL_SAFE_NO_PAD,
        "/legacy/project".as_bytes(),
    );
    assert_eq!(project_cwd(&s, &legacy).as_deref(), Some("/legacy/project"));
    assert_eq!(project_cwd(&s, "unknown1"), None);
}

#[test]
fn project_listing_entries() {
    let mut s = AppState::new();
    s.upsert_thread(ThreadRecord::new("t1".to_string(), "/w".to_string(), "one".to_string()));
    s.upsert_thread(ThreadRecord::new("t2".to_string(), "/w".to_string(), "two".to_string()));
    let pid = encode_project_id("/w");
    let listing = project_thread_listing(&s, &pid);
    assert_eq!(listing.len(), 2);
    assert_eq!(listing[0].thread_id, "t1");
    assert_eq!(listing[0].thread_uri, thread_uri(&pid, "t1"));
    assert_eq!(listing[1].description, "two");
    assert_eq!(listing[1].status, ThreadLifecycle::Starting);
    assert!(project_thread_listing(&s, "other").is_empty());
}

#[test]
fn failed_turn_stays_failed_and_keeps_its_response() {
    let mut s = AppState::new();
    s.upsert_thread(ThreadRecord::new("t".to_string(), "/w".to_string(), "d".to_string()));
    let mut tracker = TurnTracker::new();
    tracker.on_event(
        &mut s,
        "t",
        ThreadEvent::ItemCompleted { item: ThreadItem::AgentMessage { text: "partial".to_string() } },
    );
    assert!(tracker.on_event(&mut s, "t", ThreadEvent::TurnFailed { message: "boom".to_string() }));
    tracker.settle(&mut s, "t");
    let r = s.get_thread("t").unwrap();
    assert_eq!(r.status, ThreadLifecycle::Failed);
    assert_eq!(r.error.as_deref(), Some("boom"));
    assert_eq!(r.final_response.as_deref(), Some("partial"));
    assert_eq!(tracker.finish(), "partial");
}

#[test]
fn completed_turn_settles_with_its_response() {
    let mut s = AppState::new();
    s.upsert_thread(ThreadRecord::new("t".to_string(), "/w".to_string(), "d".to_string()));
    let mut tracker = TurnTracker::new();
    tracker.on_event(
        &mut s,
        "t",
        ThreadEvent::ItemCompleted { item: ThreadItem::AgentMessage { text: "answer".to_string() } },
    );
    assert!(tracker.on_event(&mut s, "t", ThreadEvent::TurnCompleted));
    tracker.settle(&mut s, "t");
    let r = s.get_thread("t").unwrap();
    assert_eq!(r.status, ThreadLifecycle::Completed);
    assert_eq!(r.final_response.as_deref(), Some("answer"));

    let empty = TurnTracker::new();
    empty.settle(&mut s, "t");
    assert_eq!(s.get_thread("t").unwrap().final_response.as_deref(), Some("answer"));
    empty.settle(&mut s, "missing");
    assert!(s.get_thread("missing").is_none());
}

#[test]
fn remote_read_failure_depends_on_local_record() {
    let local = Some(ThreadRecord::new("t".to_string(), "/w".to_string(), "d".to_string()));
    assert_eq!(thread_read_failure(&local), ThreadReadFailure::Internal);
    assert_eq!(thread_read_failure(&None), ThreadReadFailure::NotFound);
}
