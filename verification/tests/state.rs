use codex_mcp_server::resources::encode_project_id;
use codex_mcp_server::state::{
    chrono_now, item_summary, map_item_kind, timestamp_from_seconds, ApprovalKind,
    ProcessStepKind, ThreadEvent, ThreadItem, ThreadItemKind, ThreadLifecycle, ThreadRecord,
    ThreadUpdate, UserMessageContentItem,
};
use codex_mcp_server::text::{decimal_string, to_ascii_lowercase, trim, truncate};

fn record() -> ThreadRecord {
    ThreadRecord::new("t1".to_string(), "/work/p".to_string(), "desc".to_string())
}

#[test]
fn new_record_starts_empty() {
    let r = record();
    assert_eq!(r.thread_id, "t1");
    assert_eq!(r.project_id, encode_project_id("/work/p"));
    assert_eq!(r.cwd, "/work/p");
    assert_eq!(r.description, "desc");
    assert_eq!(r.status, ThreadLifecycle::Starting);
    assert!(r.process.is_empty());
    assert!(r.final_response.is_none());
    assert!(r.error.is_none());
    assert_eq!(r.project_uri(), format!("project://{}", r.project_id));
    assert_eq!(r.thread_uri(), format!("thread://{}/t1", r.project_id));
}

#[test]
fn push_event_each_event_appends_one_step() {
    let mut r = record();
    r.push_event_at(&ThreadEvent::ThreadStarted { thread_id: "t9".to_string() }, 5);
    assert_eq!(r.thread_id, "t9");
    assert_eq!(r.process[0].kind, ProcessStepKind::ThreadStarted);
    assert_eq!(r.process[0].summary, "Thread t9 started");
    assert_eq!(r.process[0].at, 5);

    r.push_event_at(&ThreadEvent::TurnStarted, 6);
    assert_eq!(r.status, ThreadLifecycle::Running);
    assert_eq!(r.process[1].summary, "Turn started");

    r.push_event_at(
        &ThreadEvent::ItemCompleted { item: ThreadItem::CommandExecution { command: "ls -la".to_string() } },
        7,
    );
    assert_eq!(
        r.process[2].kind,
        ProcessStepKind::ItemCompleted { item: ThreadItemKind::CommandExecution }
    );
    assert_eq!(r.process[2].summary, "ls -la");

    r.push_event_at(&ThreadEvent::TurnCompleted, 8);
    assert_eq!(r.status, ThreadLifecycle::Completed);
    assert_eq!(r.process[3].summary, "Turn completed");

    r.push_event_at(&ThreadEvent::TurnFailed { message: "boom".to_string() }, 9);
    assert_eq!(r.status, ThreadLifecycle::Failed);
    assert_eq!(r.error.as_deref(), Some("boom"));
    assert_eq!(r.process[4].kind, ProcessStepKind::TurnFailed);
    assert_eq!(r.process[4].summary, "boom");

    r.push_event_at(&ThreadEvent::Error { message: "lost".to_string() }, 10);
    assert_eq!(r.error.as_deref(), Some("lost"));
    assert_eq!(r.process[5].kind, ProcessStepKind::Error);
    assert_eq!(r.process.len(), 6);
}

#[test]
fn push_event_uses_the_clock() {
    let mut r = record();
    let before = chrono_now();
    r.push_event(&ThreadEvent::TurnStarted);
    let after = chrono_now();
    assert_eq!(r.process.len(), 1);
    assert!(before <= r.process[0].at && r.process[0].at <= after);
    assert!(before > 1_600_000_000);
}

#[test]
fn timestamp_from_seconds_cases() {
    assert_eq!(timestamp_from_seconds(Some(42)), 42);
    assert_eq!(timestamp_from_seconds(None), 0);
    assert_eq!(timestamp_from_seconds(Some(u64::MAX)), -1);
}

#[test]
fn item_summaries() {
    let long: String = "x".repeat(130);
    assert_eq!(
        item_summary(&ThreadItem::AgentMessage { text: long.clone() }),
        format!("{}…", "x".repeat(120))
    );
    assert_eq!(item_summary(&ThreadItem::Reasoning { text: "short".to_string() }), "short");
    assert_eq!(item_summary(&ThreadItem::Plan { text: long }).chars().count(), 121);
    assert_eq!(
        item_summary(&ThreadItem::UserMessage {
            content: vec![
                UserMessageContentItem::Text { text: "hi".to_string() },
                UserMessageContentItem::Image { url: "http://x/y.png".to_string() },
                UserMessageContentItem::LocalImage { path: "/tmp/a.png".to_string() },
                UserMessageContentItem::Unknown { json: "{\"k\":1}".to_string() },
            ]
        }),
        "hi, image:http://x/y.png, local_image:/tmp/a.png, {\"k\":1}"
    );
    assert_eq!(item_summary(&ThreadItem::UserMessage { content: vec![] }), "");
    assert_eq!(item_summary(&ThreadItem::FileChange { change_count: 3 }), "3 file(s)");
    assert_eq!(item_summary(&ThreadItem::FileChange { change_count: 0 }), "0 file(s)");
    assert_eq!(
        item_summary(&ThreadItem::McpToolCall { server: "srv".to_string(), tool: "run".to_string() }),
        "srv::run"
    );
    assert_eq!(item_summary(&ThreadItem::WebSearch { query: "rust".to_string() }), "rust");
    assert_eq!(item_summary(&ThreadItem::Error { message: "bad".to_string() }), "bad");
    assert_eq!(
        item_summary(&ThreadItem::Other { description: "TodoList(..)".to_string() }),
        "TodoList(..)"
    );
}

#[test]
fn item_kinds() {
    assert_eq!(map_item_kind(&ThreadItem::Plan { text: String::new() }), ThreadItemKind::Plan);
    assert_eq!(
        map_item_kind(&ThreadItem::Other { description: String::new() }),
        ThreadItemKind::Other
    );
    assert_eq!(
        map_item_kind(&ThreadItem::FileChange { change_count: 1 }),
        ThreadItemKind::FileChange
    );
}

#[test]
fn updates() {
    let mut r = record();
    r.apply(ThreadUpdate::UserReply { prompt: "y".repeat(125), at: 41 });
    assert_eq!(r.status, ThreadLifecycle::Running);
    assert_eq!(r.process[0].kind, ProcessStepKind::UserReply);
    assert_eq!(r.process[0].summary, format!("{}…", "y".repeat(120)));
    assert_eq!(r.process[0].at, 41);

    r.apply(ThreadUpdate::AwaitApproval { kind: ApprovalKind::ApplyPatch, summary: "patch".to_string(), at: 42 });
    assert_eq!(r.status, ThreadLifecycle::WaitingApproval);
    assert_eq!(r.process[1].at, 42);
    assert_eq!(r.process[1].kind, ProcessStepKind::Approval { kind: ApprovalKind::ApplyPatch });

    r.apply(ThreadUpdate::Complete { response: "done".to_string() });
    assert_eq!(r.status, ThreadLifecycle::Completed);
    assert_eq!(r.final_response.as_deref(), Some("done"));
    r.apply(ThreadUpdate::Complete { response: String::new() });
    assert_eq!(r.final_response.as_deref(), Some("done"));

    r.apply(ThreadUpdate::Fail { message: "stream closed".to_string() });
    assert_eq!(r.status, ThreadLifecycle::Failed);
    assert_eq!(r.error.as_deref(), Some("stream closed"));
    assert_eq!(r.process.len(), 2);

    r.apply(ThreadUpdate::Event { event: ThreadEvent::TurnStarted, at: 77 });
    assert_eq!(r.process[2].at, 77);
}

#[test]
fn duplicate_is_equal() {
    let mut r = record();
    r.push_event_at(&ThreadEvent::TurnStarted, 1);
    r.final_response = Some("x".to_string());
    let d = r.duplicate();
    assert_eq!(d.thread_id, r.thread_id);
    assert_eq!(d.process.len(), 1);
    assert_eq!(d.process[0].summary, r.process[0].summary);
    assert_eq!(d.final_response, r.final_response);
}

#[test]
fn text_helpers() {
    assert_eq!(truncate("héllo", 5), "héllo");
    assert_eq!(truncate("héllo", 2), "hé…");
    assert_eq!(truncate("", 0), "");
    assert_eq!(decimal_string(0), "0");
    assert_eq!(decimal_string(1234567), "1234567");
    assert_eq!(decimal_string(usize::MAX), usize::MAX.to_string());
    assert_eq!(to_ascii_lowercase("DeNy-Ä"), "deny-Ä");
    assert_eq!(trim("\u{2003} a b \n"), "a b");
}
