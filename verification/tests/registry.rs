use codex_mcp_server::registry::{contains_string, without_string};
use codex_mcp_server::state::{AppState, ThreadLifecycle, ThreadRecord, ThreadUpdate};

fn rec(id: &str, cwd: &str) -> ThreadRecord {
    ThreadRecord::new(id.to_string(), cwd.to_string(), format!("task {id}"))
}

#[test]
fn upsert_then_get_gives_the_record_back() {
    let mut s = AppState::new();
    s.upsert_thread(rec("a", "/p"));
    let got = s.get_thread("a").expect("stored");
    assert_eq!(got.thread_id, "a");
    assert_eq!(got.description, "task a");
    assert!(s.get_thread("b").is_none());
    assert!(s.contains_thread("a"));
    assert!(!s.contains_thread("b"));
}

#[test]
fn upsert_replaces_and_groups_by_project() {
    let mut s = AppState::new();
    s.upsert_thread(rec("a", "/p"));
    s.upsert_thread(rec("b", "/p"));
    s.upsert_thread(rec("c", "/q"));
    let mut again = rec("a", "/p");
    again.description = "renamed".to_string();
    s.upsert_thread(again);
    assert_eq!(s.get_thread("a").unwrap().description, "renamed");

    let projects = s.list_projects();
    assert_eq!(projects.len(), 2);
    assert_eq!(projects[0].cwd, "/p");
    assert_eq!(projects[0].thread_ids, vec!["a".to_string(), "b".to_string()]);
    assert_eq!(projects[1].thread_ids, vec!["c".to_string()]);

    let pid = rec("x", "/p").project_id;
    let listed = s.list_threads_for_project(&pid);
    let ids: Vec<&str> = listed.iter().map(|t| t.thread_id.as_str()).collect();
    assert_eq!(ids, vec!["a", "b"]);
    assert_eq!(listed[0].description, "renamed");
    assert!(s.list_threads_for_project("nope").is_empty());
    assert_eq!(s.get_project(&pid).unwrap().project_id, pid);
    assert!(s.get_project("nope").is_none());
}

#[test]
fn import_never_overwrites() {
    let mut s = AppState::new();
    s.upsert_thread(rec("a", "/p"));
    let mut other = rec("a", "/p");
    other.description = "remote".to_string();
    s.import_thread_if_absent(other);
    assert_eq!(s.get_thread("a").unwrap().description, "task a");
    s.import_thread_if_absent(rec("b", "/p"));
    assert_eq!(s.get_thread("b").unwrap().description, "task b");
}

#[test]
fn remove_forgets_and_unlists() {
    let mut s = AppState::new();
    s.upsert_thread(rec("a", "/p"));
    s.upsert_thread(rec("b", "/p"));
    s.upsert_thread(rec("c", "/q"));
    let pid = rec("x", "/p").project_id;
    let qid = rec("x", "/q").project_id;

    let removed = s.remove_thread("a").expect("was stored");
    assert_eq!(removed.thread_id, "a");
    assert!(s.get_thread("a").is_none());
    assert_eq!(s.get_project(&pid).unwrap().thread_ids, vec!["b".to_string()]);

    assert!(s.remove_thread("a").is_none());
    s.remove_thread("c");
    assert!(s.get_project(&qid).is_none());
    assert_eq!(s.list_projects().len(), 1);
}

#[test]
fn update_changes_only_the_target() {
    let mut s = AppState::new();
    s.upsert_thread(rec("a", "/p"));
    s.upsert_thread(rec("b", "/p"));
    s.update_thread("a", ThreadUpdate::Fail { message: "x".to_string() });
    assert_eq!(s.get_thread("a").unwrap().status, ThreadLifecycle::Failed);
    assert_eq!(s.get_thread("b").unwrap().status, ThreadLifecycle::Starting);
    s.update_thread("zzz", ThreadUpdate::Fail { message: "x".to_string() });
    assert!(s.get_thread("zzz").is_none());
}

#[test]
fn listed_ids_without_a_record_are_skipped() {
    let mut s = AppState::new();
    let mut moved = rec("a", "/p");
    s.upsert_thread(moved.duplicate());
    moved.project_id = rec("x", "/q").project_id;
    moved.cwd = "/q".to_string();
    s.upsert_thread(moved);
    let pid = rec("x", "/p").project_id;
    let listed = s.list_threads_for_project(&pid);
    assert_eq!(listed.len(), 1);
    assert_eq!(listed[0].cwd, "/q");
    s.remove_thread("a");
    assert!(s.list_threads_for_project(&pid).is_empty());
    assert_eq!(s.get_project(&pid).unwrap().thread_ids, vec!["a".to_string()]);
}

#[test]
fn string_list_helpers() {
    let ids = vec!["a".to_string(), "b".to_string(), "c".to_string()];
    assert!(contains_string(&ids, "b"));
    assert!(!contains_string(&ids, "d"));
    assert_eq!(without_string(&ids, "b"), vec!["a".to_string(), "c".to_string()]);
    assert_eq!(without_string(&ids, "d"), ids);
}

#[test]
fn every_stored_thread_stays_listed_by_its_project() {
    let mut s = AppState::new();
    s.upsert_thread(rec("a", "/p"));
    s.upsert_thread(rec("b", "/q"));
    s.import_thread_if_absent(rec("c", "/p"));
    s.update_thread("a", ThreadUpdate::Complete { response: "ok".to_string() });
    s.remove_thread("c");
    s.upsert_thread(rec("b", "/p"));
    for id in ["a", "b"] {
        let record = s.get_thread(id).unwrap();
        let project = s.get_project(&record.project_id).expect("project of a stored thread");
        assert!(project.thread_ids.iter().any(|t| t == id));
        assert!(s
            .list_threads_for_project(&record.project_id)
            .iter()
            .any(|t| t.thread_id == id));
    }
}

#[test]
fn storing_then_removing_a_new_thread_restores_the_registry() {
    let mut s = AppState::new();
    s.upsert_thread(rec("a", "/p"));
    s.upsert_thread(rec("b", "/q"));
    s.upsert_thread(rec("c", "/p"));
    let before: Vec<(String, Vec<String>)> =
        s.list_projects().into_iter().map(|p| (p.project_id, p.thread_ids)).collect();

    s.upsert_thread(rec("d", "/p"));
    assert_eq!(s.remove_thread("d").map(|r| r.thread_id), Some("d".to_string()));
    s.import_thread_if_absent(rec("e", "/r"));
    assert!(s.remove_thread("e").is_some());

    let after: Vec<(String, Vec<String>)> =
        s.list_projects().into_iter().map(|p| (p.project_id, p.thread_ids)).collect();
    assert_eq!(after, before);
    assert!(s.get_thread("d").is_none());
    assert!(s.get_thread("a").is_some());
}

#[test]
fn no_project_is_left_without_threads() {
    let mut s = AppState::new();
    s.upsert_thread(rec("a", "/p"));
    s.upsert_thread(rec("b", "/p"));
    s.remove_thread("a");
    assert!(s.list_projects().iter().all(|p| !p.thread_ids.is_empty()));
    s.remove_thread("b");
    assert!(s.list_projects().is_empty());
}
