//! Approval requests from Codex: the configured policy, the decision sent back for each
//! kind of request, and how a request shows in the thread's trace.
use vstd::prelude::*;

use crate::registry::{spec_update, AppState, AppStateView};
use crate::state::{approval_kind_name, ApprovalKind, ThreadUpdate};
use crate::state::opt_view;
use crate::sync::text_or;
use crate::text::{ascii_lowercase_seq, owned, str_eq, to_ascii_lowercase};

verus! {

/// The environment variable that selects the approval policy.
pub const APPROVAL_POLICY_VAR: &'static str = "CODEX_MCP_APPROVAL_POLICY";

/// How the server answers Codex approval requests.
#[derive(Debug, Clone, Copy, PartialEq, Eq, Structural)]
pub enum ApprovalPolicy {
    Approve,
    ApproveForSession,
    Deny,
}

/// The policy a setting names, compared without ASCII case: `deny`, `decline` and
/// `reject` deny; `session`, `approve_for_session` and `approve-for-session` approve for
/// the session; anything else, and an unset variable, approves.
pub open spec fn spec_policy_from_setting(raw: Option<Seq<char>>) -> ApprovalPolicy {
    let v = ascii_lowercase_seq(text_or(raw, "approve"@));
    if v == "deny"@ || v == "decline"@ || v == "reject"@ {
        ApprovalPolicy::Deny
    } else if v == "session"@ || v == "approve_for_session"@ || v == "approve-for-session"@ {
        ApprovalPolicy::ApproveForSession
    } else {
        ApprovalPolicy::Approve
    }
}

impl ApprovalPolicy {
    /// The policy that `CODEX_MCP_APPROVAL_POLICY` selects; `raw` is the variable's value,
    /// `None` when it is unset or not Unicode.
    pub fn from_env(raw: Option<String>) -> (p: ApprovalPolicy)
        ensures
            p == spec_policy_from_setting(opt_view(raw)),
    {
        let value = match raw {
            Some(v) => v,
            None => owned("approve"),
        };
        let v = to_ascii_lowercase(value.as_str());
        let v = v.as_str();
        if str_eq(v, "deny") || str_eq(v, "decline") || str_eq(v, "reject") {
            ApprovalPolicy::Deny
        } else if str_eq(v, "session") || str_eq(v, "approve_for_session") || str_eq(
            v,
            "approve-for-session",
        ) {
            ApprovalPolicy::ApproveForSession
        } else {
            ApprovalPolicy::Approve
        }
    }
}

/// The decision sent back for a request: command-execution and file-change requests use
/// `accept` / `acceptForSession` / `decline`; exec-command and apply-patch requests use
/// `approved` / `approved_for_session` / `denied`.
pub open spec fn spec_approval_decision(kind: ApprovalKind, policy: ApprovalPolicy) -> Seq<char> {
    match kind {
        ApprovalKind::CommandExecution | ApprovalKind::FileChange => match policy {
            ApprovalPolicy::Approve => "accept"@,
            ApprovalPolicy::ApproveForSession => "acceptForSession"@,
            ApprovalPolicy::Deny => "decline"@,
        },
        ApprovalKind::ExecCommand | ApprovalKind::ApplyPatch => match policy {
            ApprovalPolicy::Approve => "approved"@,
            ApprovalPolicy::ApproveForSession => "approved_for_session"@,
            ApprovalPolicy::Deny => "denied"@,
        },
    }
}

/// Whether `kind` is answered in the vocabulary of command-execution and file-change
/// requests (`accept`, `acceptForSession`, `decline`).
pub open spec fn uses_accept_words(kind: ApprovalKind) -> bool {
    kind is CommandExecution || kind is FileChange
}

/// The decision for each policy: approving accepts every kind of request (`accept` for
/// command-execution and file-change requests, `approved` for exec-command and
/// apply-patch requests), approving for the session accepts it for the session, and
/// only denying declines (`decline` or `denied`). Requests of kinds that share a
/// vocabulary get the same decision, and different policies never give the same one.
pub proof fn law_approval_decisions(kind: ApprovalKind, other: ApprovalKind, p: ApprovalPolicy, q: ApprovalPolicy)
    ensures
        uses_accept_words(kind) ==> spec_approval_decision(kind, ApprovalPolicy::Approve)
            == "accept"@,
        !uses_accept_words(kind) ==> spec_approval_decision(kind, ApprovalPolicy::Approve)
            == "approved"@,
        uses_accept_words(kind) ==> spec_approval_decision(
            kind,
            ApprovalPolicy::ApproveForSession,
        ) == "acceptForSession"@,
        !uses_accept_words(kind) ==> spec_approval_decision(
            kind,
            ApprovalPolicy::ApproveForSession,
        ) == "approved_for_session"@,
        uses_accept_words(kind) ==> spec_approval_decision(kind, ApprovalPolicy::Deny)
            == "decline"@,
        !uses_accept_words(kind) ==> spec_approval_decision(kind, ApprovalPolicy::Deny)
            == "denied"@,
        (spec_approval_decision(kind, p) == "decline"@ || spec_approval_decision(kind, p)
            == "denied"@) <==> p == ApprovalPolicy::Deny,
        uses_accept_words(kind) == uses_accept_words(other) ==> spec_approval_decision(kind, p)
            == spec_approval_decision(other, p),
        p != q ==> spec_approval_decision(kind, p) != spec_approval_decision(kind, q),
{
    reveal_strlit("accept");
    reveal_strlit("acceptForSession");
    reveal_strlit("decline");
    reveal_strlit("approved");
    reveal_strlit("approved_for_session");
    reveal_strlit("denied");
    assert("accept"@.len() == 6 && "acceptForSession"@.len() == 16 && "decline"@.len() == 7);
    assert("approved"@.len() == 8 && "approved_for_session"@.len() == 20 && "denied"@.len() == 6);
    assert("accept"@[0] != "denied"@[0]);
}

/// An unset policy variable approves; `deny`, `decline` and `reject` deny; `session`,
/// `approve_for_session` and `approve-for-session` approve for the session; and
/// `approve` approves.
pub proof fn law_policy_settings()
    ensures
        spec_policy_from_setting(None) == ApprovalPolicy::Approve,
        spec_policy_from_setting(Some("approve"@)) == ApprovalPolicy::Approve,
        spec_policy_from_setting(Some("deny"@)) == ApprovalPolicy::Deny,
        spec_policy_from_setting(Some("decline"@)) == ApprovalPolicy::Deny,
        spec_policy_from_setting(Some("reject"@)) == ApprovalPolicy::Deny,
        spec_policy_from_setting(Some("session"@)) == ApprovalPolicy::ApproveForSession,
        spec_policy_from_setting(Some("approve_for_session"@))
            == ApprovalPolicy::ApproveForSession,
        spec_policy_from_setting(Some("approve-for-session"@))
            == ApprovalPolicy::ApproveForSession,
{
    reveal_strlit("approve");
    reveal_strlit("deny");
    reveal_strlit("decline");
    reveal_strlit("reject");
    reveal_strlit("session");
    reveal_strlit("approve_for_session");
    reveal_strlit("approve-for-session");
    assert(ascii_lowercase_seq("approve"@) =~= "approve"@);
    assert(ascii_lowercase_seq("deny"@) =~= "deny"@);
    assert(ascii_lowercase_seq("decline"@) =~= "decline"@);
    assert(ascii_lowercase_seq("reject"@) =~= "reject"@);
    assert(ascii_lowercase_seq("session"@) =~= "session"@);
    assert(ascii_lowercase_seq("approve_for_session"@) =~= "approve_for_session"@);
    assert(ascii_lowercase_seq("approve-for-session"@) =~= "approve-for-session"@);
    assert("approve"@.len() == 7 && "deny"@.len() == 4 && "reject"@.len() == 6);
    assert("approve_for_session"@.len() == 19 && "approve-for-session"@.len() == 19);
    assert("approve"@[1] != "decline"@[1] && "approve"@[0] != "session"@[0]);
    assert("decline"@[0] != "session"@[0]);
    assert("approve_for_session"@[7] != "approve-for-session"@[7]);
}

/// The decision the policy gives to a request of `kind`.
pub fn approval_decision(kind: ApprovalKind, policy: ApprovalPolicy) -> (d: &'static str)
    ensures
        d@ == spec_approval_decision(kind, policy),
{
    match kind {
        ApprovalKind::CommandExecution | ApprovalKind::FileChange => match policy {
            ApprovalPolicy::Approve => "accept",
            ApprovalPolicy::ApproveForSession => "acceptForSession",
            ApprovalPolicy::Deny => "decline",
        },
        ApprovalKind::ExecCommand | ApprovalKind::ApplyPatch => match policy {
            ApprovalPolicy::Approve => "approved",
            ApprovalPolicy::ApproveForSession => "approved_for_session",
            ApprovalPolicy::Deny => "denied",
        },
    }
}

/// A member of the request parameters: absent, a string, or some other JSON value.
pub enum JsonField {
    Missing,
    Text { text: String },
    Other,
}

/// What the trace reads of approval request parameters.
pub struct ApprovalParams {
    /// The `threadId` member, when it is a string.
    pub thread_id: Option<String>,
    pub command: JsonField,
    pub reason: JsonField,
}

/// The summary of a request: its `command` when that is a string; when there is no
/// `command`, its `reason` when that is a string; otherwise the kind's JSON text (its
/// snake_case name in double quotes).
pub open spec fn spec_approval_summary(params: ApprovalParams, kind: ApprovalKind) -> Seq<char> {
    let default = "\""@ + approval_kind_name(kind) + "\""@;
    match params.command {
        JsonField::Text { text } => text@,
        JsonField::Other => default,
        JsonField::Missing => match params.reason {
            JsonField::Text { text } => text@,
            _ => default,
        },
    }
}

fn kind_json(kind: ApprovalKind) -> (s: String)
    ensures
        s@ == "\""@ + approval_kind_name(kind) + "\""@,
{
    let mut s = owned("\"");
    s.append(kind.name());
    s.append("\"");
    s
}

/// Summarises a request for the trace.
pub fn approval_summary(params: &ApprovalParams, kind: ApprovalKind) -> (s: String)
    ensures
        s@ == spec_approval_summary(*params, kind),
{
    match &params.command {
        JsonField::Text { text } => text.clone(),
        JsonField::Other => kind_json(kind),
        JsonField::Missing => match &params.reason {
            JsonField::Text { text } => text.clone(),
            _ => kind_json(kind),
        },
    }
}

/// Records a request that arrived at time `at` in its thread: the thread waits for
/// approval and its trace gains an approval step stamped `at`. A request without a
/// thread id changes nothing.
pub fn track_approval(state: &mut AppState, params: &ApprovalParams, kind: ApprovalKind, at: i64)
    requires
        old(state).wf(),
    ensures
        final(state).wf(),
        match params.thread_id {
            None => final(state)@ == old(state)@,
            Some(id) => exists|summary: String|
                summary@ == spec_approval_summary(*params, kind) && final(state)@ == #[trigger] spec_update(
                    old(state)@,
                    id@,
                    ThreadUpdate::AwaitApproval { kind, summary, at },
                ),
        },
{
    let thread_id = match &params.thread_id {
        Some(id) => id,
        None => return,
    };
    let summary = approval_summary(params, kind);
    let ghost s = summary;
    let ghost v0: AppStateView = state@;
    state.update_thread(thread_id.as_str(), ThreadUpdate::AwaitApproval { kind, summary, at });
    assert(state@ == spec_update(v0, thread_id@, ThreadUpdate::AwaitApproval { kind, summary: s, at }));
}

} // verus!
