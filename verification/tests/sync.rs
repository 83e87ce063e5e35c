use codex_mcp_server::state::{AppState, ThreadLifecycle, ThreadRecord};
use codex_mcp_server::sync::{
    adopt_remote_thread, filter_matches, is_archived_summary, is_archived_value, json_string, map_json_status,
    summary_string, thread_record_from_remote, thread_record_from_summary, RemoteThread,
    StringField, SyncError, SyncFilter, ThreadPage, ThreadSummary, ThreadSync,
    MAX_THREAD_LIST_PAGES, THREAD_LIST_PAGE_LIMIT,
};

fn field(k: &str, v: &str) -> StringField {
    StringField { key: k.to_string(), value: v.to_string() }
}

fn summary(id: &str, cwd: Option<&str>, archived: Option<bool>) -> ThreadSummary {
    let mut fields = vec![field("preview", &format!("preview of {id}"))];
    if let Some(c) = cwd {
        fields.push(field("cwd", c));
    }
    ThreadSummary { id: id.to_string(), title: None, archived, fields, status_type: None }
}

#[test]
fn status_mapping() {
    assert_eq!(map_json_status(&Some("active".to_string())), ThreadLifecycle::Running);
    assert_eq!(map_json_status(&Some("idle".to_string())), ThreadLifecycle::Completed);
    assert_eq!(map_json_status(&Some("systemError".to_string())), ThreadLifecycle::Failed);
    assert_eq!(map_json_status(&Some("weird".to_string())), ThreadLifecycle::Completed);
    assert_eq!(map_json_status(&None), ThreadLifecycle::Completed);
}

#[test]
fn record_from_summary() {
    let mut s = summary("t1", Some("/w"), None);
    s.status_type = Some("active".to_string());
    let r = thread_record_from_summary(&s);
    assert_eq!(r.thread_id, "t1");
    assert_eq!(r.cwd, "/w");
    assert_eq!(r.description, "preview of t1");
    assert_eq!(r.status, ThreadLifecycle::Running);
    assert_eq!(r.final_response.as_deref(), Some("preview of t1"));
    assert_eq!(r.project_id, ThreadRecord::new(String::new(), "/w".to_string(), String::new()).project_id);

    let titled = ThreadSummary { title: Some("Title".to_string()), ..summary("t2", None, None) };
    let r = thread_record_from_summary(&titled);
    assert_eq!(r.description, "Title");
    assert_eq!(r.cwd, ".");

    let bare = ThreadSummary {
        id: "t3".to_string(),
        title: None,
        archived: None,
        fields: vec![field("name", "named")],
        status_type: None,
    };
    let r = thread_record_from_summary(&bare);
    assert_eq!(r.description, "named");
    assert!(r.final_response.is_none());
    let empty = ThreadSummary { fields: vec![], ..bare };
    assert_eq!(thread_record_from_summary(&empty).description, "t3");
}

#[test]
fn summary_lookups() {
    let s = ThreadSummary {
        id: "t".to_string(),
        title: None,
        archived: Some(true),
        fields: vec![field("name", "n"), field("preview", "p")],
        status_type: None,
    };
    assert_eq!(summary_string(&s, &["preview", "name"]).as_deref(), Some("p"));
    assert_eq!(summary_string(&s, &["name", "preview"]).as_deref(), Some("n"));
    assert_eq!(summary_string(&s, &["cwd"]), None);
    assert!(is_archived_summary(&s));
    assert!(!is_archived_summary(&summary("u", None, Some(false))));
}

#[test]
fn record_from_remote() {
    let t = RemoteThread {
        fields: vec![field("cwd", "/r"), field("name", "remote name")],
        archived: None,
        status_type: Some("systemError".to_string()),
    };
    assert_eq!(json_string(&t, &["preview", "name"]).as_deref(), Some("remote name"));
    assert!(!is_archived_value(&t));
    let r = thread_record_from_remote("id7", &t);
    assert_eq!(r.thread_id, "id7");
    assert_eq!(r.cwd, "/r");
    assert_eq!(r.description, "remote name");
    assert_eq!(r.status, ThreadLifecycle::Failed);
    let bare = RemoteThread { fields: vec![], archived: None, status_type: None };
    let r = thread_record_from_remote("id8", &bare);
    assert_eq!(r.description, "id8");
    assert_eq!(r.cwd, ".");
    assert_eq!(r.status, ThreadLifecycle::Completed);
}

#[test]
fn adopt_remote_thread_outcomes() {
    let mut s = AppState::new();
    match adopt_remote_thread(&mut s, "gone", None) {
        Err(e @ SyncError::MissingThreadPayload { .. }) => {
            assert_eq!(e.message(), "thread/read returned no thread payload for `gone`")
        }
        _ => panic!("expected a missing payload"),
    }
    let archived = RemoteThread { fields: vec![], archived: Some(true), status_type: None };
    match adopt_remote_thread(&mut s, "old", Some(archived)) {
        Err(e @ SyncError::ArchivedThread { .. }) => assert_eq!(e.message(), "thread `old` is archived"),
        _ => panic!("expected an archived thread"),
    }
    assert!(s.get_thread("old").is_none());
    let live = RemoteThread { fields: vec![field("cwd", "/x")], archived: None, status_type: None };
    assert!(adopt_remote_thread(&mut s, "new", Some(live)).is_ok());
    assert_eq!(s.get_thread("new").unwrap().cwd, "/x");
}

#[test]
fn filters() {
    let s = summary("t", Some("/w"), None);
    assert!(filter_matches(&SyncFilter::All, &s));
    assert!(filter_matches(&SyncFilter::Cwd { cwd: "/w".to_string() }, &s));
    assert!(!filter_matches(&SyncFilter::Cwd { cwd: "/v".to_string() }, &s));
    assert!(!filter_matches(&SyncFilter::Cwd { cwd: "/w".to_string() }, &summary("t", None, None)));
}

#[test]
fn sync_pages_until_the_cursor_ends() {
    let mut state = AppState::new();
    state.upsert_thread(ThreadRecord::new("a".to_string(), "/w".to_string(), "local".to_string()));
    let mut sync = ThreadSync::new(SyncFilter::Cwd { cwd: "/w".to_string() });

    let req = sync.next_request().expect("first page");
    assert_eq!(req.limit, THREAD_LIST_PAGE_LIMIT);
    assert_eq!(req.limit, 100);
    assert!(!req.archived);
    assert!(req.cursor.is_none());
    sync.absorb_page(
        &mut state,
        ThreadPage {
            data: vec![summary("a", Some("/w"), None), summary("b", Some("/w"), Some(true)), summary("c", Some("/v"), None)],
            next_cursor: Some("next".to_string()),
        },
    );
    let req = sync.next_request().expect("second page");
    assert_eq!(req.cursor.as_deref(), Some("next"));
    sync.absorb_page(
        &mut state,
        ThreadPage { data: vec![summary("d", Some("/w"), None)], next_cursor: None },
    );
    assert!(sync.next_request().is_none());
    assert!(!sync.hit_page_limit());
    assert_eq!(sync.imported(), 2);
    assert_eq!(state.get_thread("a").unwrap().description, "local");
    assert!(state.get_thread("b").is_none());
    assert!(state.get_thread("c").is_none());
    assert_eq!(state.get_thread("d").unwrap().description, "preview of d");
}

#[test]
fn sync_stops_at_the_page_limit() {
    let mut state = AppState::new();
    let mut sync = ThreadSync::new(SyncFilter::All);
    let mut requests = 0;
    while let Some(_req) = sync.next_request() {
        requests += 1;
        sync.absorb_page(
            &mut state,
            ThreadPage { data: vec![summary(&format!("t{requests}"), None, None)], next_cursor: Some("more".to_string()) },
        );
    }
    assert_eq!(requests, MAX_THREAD_LIST_PAGES);
    assert!(sync.hit_page_limit());
    assert_eq!(sync.imported(), 100);
    assert!(sync.next_request().is_none());
}
