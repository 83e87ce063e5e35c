use codex_mcp_server::approval::{
    approval_decision, approval_summary, track_approval, ApprovalParams, ApprovalPolicy,
    JsonField, APPROVAL_POLICY_VAR,
};
use codex_mcp_server::state::{
    AppState, ApprovalKind, ProcessStepKind, ThreadLifecycle, ThreadRecord,
};

#[test]
fn policy_from_env_values() {
    assert_eq!(APPROVAL_POLICY_VAR, "CODEX_MCP_APPROVAL_POLICY");
    assert_eq!(ApprovalPolicy::from_env(None), ApprovalPolicy::Approve);
    for v in ["deny", "DECLINE", "Reject"] {
        assert_eq!(ApprovalPolicy::from_env(Some(v.to_string())), ApprovalPolicy::Deny);
    }
    for v in ["session", "Approve_For_Session", "approve-for-session"] {
        assert_eq!(ApprovalPolicy::from_env(Some(v.to_string())), ApprovalPolicy::ApproveForSession);
    }
    for v in ["approve", "", "yes", " deny"] {
        assert_eq!(ApprovalPolicy::from_env(Some(v.to_string())), ApprovalPolicy::Approve);
    }
}

#[test]
fn decisions_per_protocol() {
    let (k, p) = (ApprovalKind::CommandExecution, ApprovalPolicy::Approve);
    assert_eq!(approval_decision(k, p), "accept");
    assert_eq!(
        approval_decision(ApprovalKind::CommandExecution, ApprovalPolicy::ApproveForSession),
        "acceptForSession"
    );
    assert_eq!(approval_decision(ApprovalKind::FileChange, ApprovalPolicy::Deny), "decline");
    assert_eq!(approval_decision(ApprovalKind::ExecCommand, ApprovalPolicy::Approve), "approved");
    assert_eq!(
        approval_decision(ApprovalKind::ApplyPatch, ApprovalPolicy::ApproveForSession),
        "approved_for_session"
    );
    assert_eq!(approval_decision(ApprovalKind::ApplyPatch, ApprovalPolicy::Deny), "denied");
}

#[test]
fn approval_summaries() {
    let p = |command, reason| ApprovalParams { thread_id: None, command, reason };
    let text = |s: &str| JsonField::Text { text: s.to_string() };
    assert_eq!(approval_summary(&p(text("ls"), text("why")), ApprovalKind::ExecCommand), "ls");
    assert_eq!(approval_summary(&p(JsonField::Missing, text("why")), ApprovalKind::ExecCommand), "why");
    assert_eq!(
        approval_summary(&p(JsonField::Other, text("why")), ApprovalKind::CommandExecution),
        "\"command_execution\""
    );
    assert_eq!(
        approval_summary(&p(JsonField::Missing, JsonField::Other), ApprovalKind::FileChange),
        "\"file_change\""
    );
    assert_eq!(
        approval_summary(&p(JsonField::Missing, JsonField::Missing), ApprovalKind::ApplyPatch),
        "\"apply_patch\""
    );
}

#[test]
fn track_approval_marks_the_thread() {
    let mut s = AppState::new();
    s.upsert_thread(ThreadRecord::new("t".to_string(), "/p".to_string(), "d".to_string()));
    let params = ApprovalParams {
        thread_id: Some("t".to_string()),
        command: JsonField::Text { text: "rm -rf build".to_string() },
        reason: JsonField::Missing,
    };
    track_approval(&mut s, &params, ApprovalKind::CommandExecution, 1_700_000_123);
    let r = s.get_thread("t").unwrap();
    assert_eq!(r.status, ThreadLifecycle::WaitingApproval);
    assert_eq!(r.process.len(), 1);
    assert_eq!(r.process[0].kind, ProcessStepKind::Approval { kind: ApprovalKind::CommandExecution });
    assert_eq!(r.process[0].summary, "rm -rf build");
    assert_eq!(r.process[0].at, 1_700_000_123);

    let no_thread = ApprovalParams { thread_id: None, command: JsonField::Missing, reason: JsonField::Missing };
    track_approval(&mut s, &no_thread, ApprovalKind::ExecCommand, 5);
    assert_eq!(s.get_thread("t").unwrap().process.len(), 1);
}
