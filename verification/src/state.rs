//! Thread records: the local lifecycle status and execution trace the server keeps for
//! each Codex thread, and how thread events and tool actions change them.
use vstd::prelude::*;

use crate::resources::{
    encode_project_id, project_uri, spec_encode_project_id, spec_project_uri, spec_thread_uri,
    thread_uri,
};
use crate::text::{decimal, decimal_string, joined, owned, truncate, truncated};

pub use crate::registry::{AppState, AppStateView, ProjectRecord, ProjectRecordView};

verus! {

/// Local lifecycle status of a thread.
#[derive(Debug, Clone, Copy, PartialEq, Eq, Structural)]
pub enum ThreadLifecycle {
    /// Thread is being created.
    Starting,
    /// A turn is currently running.
    Running,
    /// Waiting for user approval of a command or file change.
    WaitingApproval,
    /// The latest turn completed successfully.
    Completed,
    /// The latest turn failed.
    Failed,
    /// The thread was interrupted before completion.
    Interrupted,
}

/// Kind of a thread item named in a trace step.
#[derive(Debug, Clone, Copy, PartialEq, Eq, Structural)]
pub enum ThreadItemKind {
    AgentMessage,
    UserMessage,
    CommandExecution,
    FileChange,
    McpToolCall,
    Reasoning,
    Plan,
    WebSearch,
    Error,
    Other,
}

/// Kind of approval request Codex sends.
#[derive(Debug, Clone, Copy, PartialEq, Eq, Structural)]
pub enum ApprovalKind {
    CommandExecution,
    ExecCommand,
    ApplyPatch,
    FileChange,
}

/// The snake_case name an approval kind is serialised under.
pub open spec fn approval_kind_name(kind: ApprovalKind) -> Seq<char> {
    match kind {
        ApprovalKind::CommandExecution => "command_execution"@,
        ApprovalKind::ExecCommand => "exec_command"@,
        ApprovalKind::ApplyPatch => "apply_patch"@,
        ApprovalKind::FileChange => "file_change"@,
    }
}

impl ApprovalKind {
    /// The snake_case name of the kind.
    pub fn name(&self) -> (s: &'static str)
        ensures
            s@ == approval_kind_name(*self),
    {
        match self {
            ApprovalKind::CommandExecution => "command_execution",
            ApprovalKind::ExecCommand => "exec_command",
            ApprovalKind::ApplyPatch => "apply_patch",
            ApprovalKind::FileChange => "file_change",
        }
    }
}

/// Structured kind of a trace step.
#[derive(Debug, Clone, Copy, PartialEq, Eq, Structural)]
pub enum ProcessStepKind {
    ThreadStarted,
    TurnStarted,
    ItemStarted { item: ThreadItemKind },
    ItemUpdated { item: ThreadItemKind },
    ItemCompleted { item: ThreadItemKind },
    TurnCompleted,
    TurnFailed,
    Error,
    UserReply,
    Approval { kind: ApprovalKind },
}

/// One step in the local thread execution trace.
#[derive(Debug)]
pub struct ProcessStep {
    /// Structured step kind.
    pub kind: ProcessStepKind,
    /// Human-readable step summary.
    pub summary: String,
    /// Unix timestamp in seconds.
    pub at: i64,
}

/// A trace step over character sequences.
pub struct ProcessStepView {
    pub kind: ProcessStepKind,
    pub summary: Seq<char>,
    pub at: i64,
}

impl View for ProcessStep {
    type V = ProcessStepView;

    open spec fn view(&self) -> ProcessStepView {
        ProcessStepView { kind: self.kind, summary: self.summary@, at: self.at }
    }
}

/// The step with the given parts.
pub open spec fn step(kind: ProcessStepKind, summary: Seq<char>, at: i64) -> ProcessStepView {
    ProcessStepView { kind, summary, at }
}

impl ProcessStep {
    /// A copy of the step.
    pub fn duplicate(&self) -> (r: ProcessStep)
        ensures
            r@ == self@,
    {
        ProcessStep { kind: self.kind, summary: self.summary.clone(), at: self.at }
    }
}

/// The views of a list of steps.
pub open spec fn steps_view(steps: Seq<ProcessStep>) -> Seq<ProcessStepView> {
    steps.map_values(|p: ProcessStep| p@)
}

/// The view of an optional string.
pub open spec fn opt_view(o: Option<String>) -> Option<Seq<char>> {
    match o {
        Some(s) => Some(s@),
        None => None,
    }
}

/// A copy of an optional string.
pub fn duplicate_opt(o: &Option<String>) -> (r: Option<String>)
    ensures
        opt_view(r) == opt_view(*o),
{
    match o {
        Some(s) => Some(s.clone()),
        None => None,
    }
}

/// Local execution state tracked for a Codex thread.
#[derive(Debug)]
pub struct ThreadRecord {
    /// Codex thread id.
    pub thread_id: String,
    /// Short stable project id derived from cwd.
    pub project_id: String,
    /// Absolute working directory for the thread.
    pub cwd: String,
    /// Brief task summary for calling-agent tracking and project resource listings.
    pub description: String,
    /// Current local lifecycle status.
    pub status: ThreadLifecycle,
    /// Ordered local execution trace.
    pub process: Vec<ProcessStep>,
    /// Latest final agent response, if available.
    pub final_response: Option<String>,
    /// Latest error message, if the thread failed.
    pub error: Option<String>,
}

/// A thread record over character sequences.
pub struct ThreadRecordView {
    pub thread_id: Seq<char>,
    pub project_id: Seq<char>,
    pub cwd: Seq<char>,
    pub description: Seq<char>,
    pub status: ThreadLifecycle,
    pub process: Seq<ProcessStepView>,
    pub final_response: Option<Seq<char>>,
    pub error: Option<Seq<char>>,
}

impl View for ThreadRecord {
    type V = ThreadRecordView;

    open spec fn view(&self) -> ThreadRecordView {
        ThreadRecordView {
            thread_id: self.thread_id@,
            project_id: self.project_id@,
            cwd: self.cwd@,
            description: self.description@,
            status: self.status,
            process: steps_view(self.process@),
            final_response: opt_view(self.final_response),
            error: opt_view(self.error),
        }
    }
}

/// The record of a thread that was just created: status `Starting`, empty trace, project id
/// derived from the cwd.
pub open spec fn fresh_record(
    thread_id: Seq<char>,
    cwd: Seq<char>,
    description: Seq<char>,
) -> ThreadRecordView {
    ThreadRecordView {
        thread_id,
        project_id: spec_encode_project_id(cwd),
        cwd,
        description,
        status: ThreadLifecycle::Starting,
        process: Seq::empty(),
        final_response: None,
        error: None,
    }
}

/// A part of a user message, as the thread item carries it.
pub enum UserMessageContentItem {
    Text { text: String },
    Image { url: String },
    LocalImage { path: String },
    /// A part of another kind, given as its JSON text.
    Unknown { json: String },
}

/// A thread item, holding what the trace summary reads of it.
pub enum ThreadItem {
    AgentMessage { text: String },
    UserMessage { content: Vec<UserMessageContentItem> },
    CommandExecution { command: String },
    FileChange { change_count: usize },
    McpToolCall { server: String, tool: String },
    Reasoning { text: String },
    Plan { text: String },
    WebSearch { query: String },
    Error { message: String },
    /// An item of another kind, given as its debug text.
    Other { description: String },
}

/// An event of a streamed turn.
pub enum ThreadEvent {
    ThreadStarted { thread_id: String },
    TurnStarted,
    TurnCompleted,
    TurnFailed { message: String },
    ItemStarted { item: ThreadItem },
    ItemUpdated { item: ThreadItem },
    ItemCompleted { item: ThreadItem },
    Error { message: String },
}

/// The kind a trace step records for an item.
pub open spec fn spec_item_kind(item: ThreadItem) -> ThreadItemKind {
    match item {
        ThreadItem::AgentMessage { .. } => ThreadItemKind::AgentMessage,
        ThreadItem::UserMessage { .. } => ThreadItemKind::UserMessage,
        ThreadItem::CommandExecution { .. } => ThreadItemKind::CommandExecution,
        ThreadItem::FileChange { .. } => ThreadItemKind::FileChange,
        ThreadItem::McpToolCall { .. } => ThreadItemKind::McpToolCall,
        ThreadItem::Reasoning { .. } => ThreadItemKind::Reasoning,
        ThreadItem::Plan { .. } => ThreadItemKind::Plan,
        ThreadItem::WebSearch { .. } => ThreadItemKind::WebSearch,
        ThreadItem::Error { .. } => ThreadItemKind::Error,
        ThreadItem::Other { .. } => ThreadItemKind::Other,
    }
}

/// Maps an item to the kind recorded in the trace.
pub fn map_item_kind(item: &ThreadItem) -> (k: ThreadItemKind)
    ensures
        k == spec_item_kind(*item),
{
    match item {
        ThreadItem::AgentMessage { .. } => ThreadItemKind::AgentMessage,
        ThreadItem::UserMessage { .. } => ThreadItemKind::UserMessage,
        ThreadItem::CommandExecution { .. } => ThreadItemKind::CommandExecution,
        ThreadItem::FileChange { .. } => ThreadItemKind::FileChange,
        ThreadItem::McpToolCall { .. } => ThreadItemKind::McpToolCall,
        ThreadItem::Reasoning { .. } => ThreadItemKind::Reasoning,
        ThreadItem::Plan { .. } => ThreadItemKind::Plan,
        ThreadItem::WebSearch { .. } => ThreadItemKind::WebSearch,
        ThreadItem::Error { .. } => ThreadItemKind::Error,
        ThreadItem::Other { .. } => ThreadItemKind::Other,
    }
}

/// How many characters of free text a summary keeps.
pub const SUMMARY_CHARS: usize = 120;

/// The text a user message part contributes to its summary.
pub open spec fn spec_user_message_part(part: UserMessageContentItem) -> Seq<char> {
    match part {
        UserMessageContentItem::Text { text } => text@,
        UserMessageContentItem::Image { url } => "image:"@ + url@,
        UserMessageContentItem::LocalImage { path } => "local_image:"@ + path@,
        UserMessageContentItem::Unknown { json } => json@,
    }
}

/// Renders one part of a user message.
pub fn user_message_part(part: &UserMessageContentItem) -> (s: String)
    ensures
        s@ == spec_user_message_part(*part),
{
    match part {
        UserMessageContentItem::Text { text } => text.clone(),
        UserMessageContentItem::Image { url } => {
            let mut s = owned("image:");
            s.append(url.as_str());
            s
        },
        UserMessageContentItem::LocalImage { path } => {
            let mut s = owned("local_image:");
            s.append(path.as_str());
            s
        },
        UserMessageContentItem::Unknown { json } => json.clone(),
    }
}

/// The rendered parts of a user message.
pub open spec fn user_message_parts(content: Seq<UserMessageContentItem>) -> Seq<Seq<char>> {
    content.map_values(|p: UserMessageContentItem| spec_user_message_part(p))
}

/// The human-readable summary of an item in the trace.
pub open spec fn spec_item_summary(item: ThreadItem) -> Seq<char> {
    match item {
        ThreadItem::AgentMessage { text } => truncated(text@, SUMMARY_CHARS as nat),
        ThreadItem::UserMessage { content } => joined(user_message_parts(content@), ", "@),
        ThreadItem::CommandExecution { command } => command@,
        ThreadItem::FileChange { change_count } => decimal(change_count as nat) + " file(s)"@,
        ThreadItem::McpToolCall { server, tool } => server@ + "::"@ + tool@,
        ThreadItem::Reasoning { text } => truncated(text@, SUMMARY_CHARS as nat),
        ThreadItem::Plan { text } => truncated(text@, SUMMARY_CHARS as nat),
        ThreadItem::WebSearch { query } => query@,
        ThreadItem::Error { message } => message@,
        ThreadItem::Other { description } => description@,
    }
}

fn join_user_message(content: &Vec<UserMessageContentItem>) -> (s: String)
    ensures
        s@ == joined(user_message_parts(content@), ", "@),
{
    let ghost parts = user_message_parts(content@);
    let mut s = String::new();
    let mut i: usize = 0;
    while i < content.len()
        invariant
            i <= content@.len(),
            parts == user_message_parts(content@),
            s@ == joined(parts.take(i as int), ", "@),
        decreases content@.len() - i,
    {
        let part = user_message_part(&content[i]);
        assert(parts.take(i + 1).drop_last() =~= parts.take(i as int));
        assert(parts.take(i + 1).last() == part@);
        if i > 0 {
            s.append(", ");
        } else {
            assert(parts.take(1) =~= seq![part@]);
            assert(s@ =~= Seq::<char>::empty());
        }
        s.append(part.as_str());
        proof {
            if i == 0 {
                assert(s@ =~= part@);
            }
        }
        i = i + 1;
    }
    assert(parts.take(content@.len() as int) =~= parts);
    s
}

/// Summarises an item for the trace.
pub fn item_summary(item: &ThreadItem) -> (s: String)
    ensures
        s@ == spec_item_summary(*item),
{
    match item {
        ThreadItem::AgentMessage { text } => truncate(text.as_str(), SUMMARY_CHARS),
        ThreadItem::UserMessage { content } => join_user_message(content),
        ThreadItem::CommandExecution { command } => command.clone(),
        ThreadItem::FileChange { change_count } => {
            let mut s = decimal_string(*change_count);
            s.append(" file(s)");
            s
        },
        ThreadItem::McpToolCall { server, tool } => {
            let mut s = server.clone();
            s.append("::");
            s.append(tool.as_str());
            s
        },
        ThreadItem::Reasoning { text } => truncate(text.as_str(), SUMMARY_CHARS),
        ThreadItem::Plan { text } => truncate(text.as_str(), SUMMARY_CHARS),
        ThreadItem::WebSearch { query } => query.clone(),
        ThreadItem::Error { message } => message.clone(),
        ThreadItem::Other { description } => description.clone(),
    }
}

/// The record after one turn event observed at time `now`: each event appends one step;
/// `ThreadStarted` also takes the event's thread id, `TurnStarted` sets `Running`,
/// `TurnCompleted` sets `Completed`, and `TurnFailed` and `Error` set `Failed` with the
/// message as the error.
pub open spec fn spec_push_event(
    r: ThreadRecordView,
    event: ThreadEvent,
    now: i64,
) -> ThreadRecordView {
    match event {
        ThreadEvent::ThreadStarted { thread_id } => ThreadRecordView {
            thread_id: thread_id@,
            process: r.process.push(
                step(ProcessStepKind::ThreadStarted, "Thread "@ + thread_id@ + " started"@, now),
            ),
            ..r
        },
        ThreadEvent::TurnStarted => ThreadRecordView {
            status: ThreadLifecycle::Running,
            process: r.process.push(step(ProcessStepKind::TurnStarted, "Turn started"@, now)),
            ..r
        },
        ThreadEvent::ItemStarted { item } => ThreadRecordView {
            process: r.process.push(
                step(
                    ProcessStepKind::ItemStarted { item: spec_item_kind(item) },
                    spec_item_summary(item),
                    now,
                ),
            ),
            ..r
        },
        ThreadEvent::ItemUpdated { item } => ThreadRecordView {
            process: r.process.push(
                step(
                    ProcessStepKind::ItemUpdated { item: spec_item_kind(item) },
                    spec_item_summary(item),
                    now,
                ),
            ),
            ..r
        },
        ThreadEvent::ItemCompleted { item } => ThreadRecordView {
            process: r.process.push(
                step(
                    ProcessStepKind::ItemCompleted { item: spec_item_kind(item) },
                    spec_item_summary(item),
                    now,
                ),
            ),
            ..r
        },
        ThreadEvent::TurnCompleted => ThreadRecordView {
            status: ThreadLifecycle::Completed,
            process: r.process.push(step(ProcessStepKind::TurnCompleted, "Turn completed"@, now)),
            ..r
        },
        ThreadEvent::TurnFailed { message } => ThreadRecordView {
            status: ThreadLifecycle::Failed,
            error: Some(message@),
            process: r.process.push(step(ProcessStepKind::TurnFailed, message@, now)),
            ..r
        },
        ThreadEvent::Error { message } => ThreadRecordView {
            status: ThreadLifecycle::Failed,
            error: Some(message@),
            process: r.process.push(step(ProcessStepKind::Error, message@, now)),
            ..r
        },
    }
}

/// A change the server makes to a tracked thread.
pub enum ThreadUpdate {
    /// Record a turn event observed at time `at`.
    Event { event: ThreadEvent, at: i64 },
    /// The turn stream broke with `message`.
    Fail { message: String },
    /// The turn finished with `response` as the final agent text (possibly empty).
    Complete { response: String },
    /// Codex asked at time `at` for an approval of `kind`.
    AwaitApproval { kind: ApprovalKind, summary: String, at: i64 },
    /// The caller sent a follow-up prompt at time `at`.
    UserReply { prompt: String, at: i64 },
}

/// The record after an update. A completion keeps the previous final response when the
/// new one is empty; approval and reply steps carry the update's time.
pub open spec fn spec_apply_update(r: ThreadRecordView, update: ThreadUpdate) -> ThreadRecordView {
    match update {
        ThreadUpdate::Event { event, at } => spec_push_event(r, event, at),
        ThreadUpdate::Fail { message } => ThreadRecordView {
            status: ThreadLifecycle::Failed,
            error: Some(message@),
            ..r
        },
        ThreadUpdate::Complete { response } => ThreadRecordView {
            status: ThreadLifecycle::Completed,
            final_response: if response@.len() > 0 {
                Some(response@)
            } else {
                r.final_response
            },
            ..r
        },
        ThreadUpdate::AwaitApproval { kind, summary, at } => ThreadRecordView {
            status: ThreadLifecycle::WaitingApproval,
            process: r.process.push(step(ProcessStepKind::Approval { kind }, summary@, at)),
            ..r
        },
        ThreadUpdate::UserReply { prompt, at } => ThreadRecordView {
            status: ThreadLifecycle::Running,
            process: r.process.push(
                step(ProcessStepKind::UserReply, truncated(prompt@, SUMMARY_CHARS as nat), at),
            ),
            ..r
        },
    }
}

#[verifier::external_type_specification]
#[verifier::external_body]
pub struct ExSystemTime(std::time::SystemTime);

/// `SystemTime::now()`. Nothing is claimed of the value, which is the clock's reading.
#[verifier::external_body]
fn system_time_now() -> std::time::SystemTime {
    std::time::SystemTime::now()
}

/// `SystemTime::duration_since(UNIX_EPOCH)`, the error dropped: `None` when `t` is
/// before the epoch. Nothing is claimed of the duration, which depends on `t`, an opaque
/// clock reading.
#[verifier::external_body]
fn duration_since_epoch(t: std::time::SystemTime) -> Option<std::time::Duration> {
    t.duration_since(std::time::UNIX_EPOCH).ok()
}

/// `Duration::as_secs`: the whole seconds of `d`. Nothing is claimed of the value, since
/// `Duration` is opaque here.
#[verifier::external_body]
fn duration_secs(d: std::time::Duration) -> u64 {
    d.as_secs()
}

/// The timestamp recorded for a clock reading: the seconds reinterpreted as `i64`, or 0
/// when the clock read before the epoch.
pub fn timestamp_from_seconds(secs: Option<u64>) -> (t: i64)
    ensures
        t == match secs {
            Some(s) => s as i64,
            None => 0i64,
        },
{
    match secs {
        Some(s) => s as i64,
        None => 0,
    }
}

/// The current Unix time in seconds (0 before the epoch).
pub fn chrono_now() -> i64 {
    let secs = match duration_since_epoch(system_time_now()) {
        Some(d) => Some(duration_secs(d)),
        None => None,
    };
    timestamp_from_seconds(secs)
}

impl ThreadRecord {
    /// A new record for a thread in `cwd`, with status `Starting`.
    pub fn new(thread_id: String, cwd: String, description: String) -> (r: ThreadRecord)
        ensures
            r@ == fresh_record(thread_id@, cwd@, description@),
    {
        let project_id = encode_project_id(cwd.as_str());
        let r = ThreadRecord {
            thread_id,
            project_id,
            cwd,
            description,
            status: ThreadLifecycle::Starting,
            process: Vec::new(),
            final_response: None,
            error: None,
        };
        assert(steps_view(r.process@) =~= Seq::<ProcessStepView>::empty());
        r
    }

    /// The URI of the record's project.
    pub fn project_uri(&self) -> (uri: String)
        ensures
            uri@ == spec_project_uri(self.project_id@),
    {
        project_uri(self.project_id.as_str())
    }

    /// The URI of the record's thread.
    pub fn thread_uri(&self) -> (uri: String)
        ensures
            uri@ == spec_thread_uri(self.project_id@, self.thread_id@),
    {
        thread_uri(self.project_id.as_str(), self.thread_id.as_str())
    }

    /// A copy of the record.
    pub fn duplicate(&self) -> (r: ThreadRecord)
        ensures
            r@ == self@,
    {
        let mut process: Vec<ProcessStep> = Vec::new();
        let mut i: usize = 0;
        while i < self.process.len()
            invariant
                i <= self.process@.len(),
                process@.len() == i,
                forall|j: int| 0 <= j < i ==> process@[j]@ == self.process@[j]@,
            decreases self.process@.len() - i,
        {
            process.push(self.process[i].duplicate());
            i = i + 1;
        }
        assert(steps_view(process@) =~= steps_view(self.process@));
        ThreadRecord {
            thread_id: self.thread_id.clone(),
            project_id: self.project_id.clone(),
            cwd: self.cwd.clone(),
            description: self.description.clone(),
            status: self.status,
            process,
            final_response: duplicate_opt(&self.final_response),
            error: duplicate_opt(&self.error),
        }
    }

    fn push_step(&mut self, kind: ProcessStepKind, summary: String, at: i64)
        ensures
            final(self)@ == (ThreadRecordView {
                process: old(self)@.process.push(step(kind, summary@, at)),
                ..old(self)@
            }),
    {
        self.process.push(ProcessStep { kind, summary, at });
        assert(steps_view(self.process@) =~= steps_view(old(self).process@).push(
            step(kind, summary@, at),
        ));
    }

    /// Records a turn event observed at time `now`.
    pub fn push_event_at(&mut self, event: &ThreadEvent, now: i64)
        ensures
            final(self)@ == spec_push_event(old(self)@, *event, now),
    {
        match event {
            ThreadEvent::ThreadStarted { thread_id } => {
                self.thread_id = thread_id.clone();
                let mut summary = owned("Thread ");
                summary.append(thread_id.as_str());
                summary.append(" started");
                self.push_step(ProcessStepKind::ThreadStarted, summary, now);
            },
            ThreadEvent::TurnStarted => {
                self.status = ThreadLifecycle::Running;
                self.push_step(ProcessStepKind::TurnStarted, owned("Turn started"), now);
            },
            ThreadEvent::ItemStarted { item } => {
                let kind = ProcessStepKind::ItemStarted { item: map_item_kind(item) };
                self.push_step(kind, item_summary(item), now);
            },
            ThreadEvent::ItemUpdated { item } => {
                let kind = ProcessStepKind::ItemUpdated { item: map_item_kind(item) };
                self.push_step(kind, item_summary(item), now);
            },
            ThreadEvent::ItemCompleted { item } => {
                let kind = ProcessStepKind::ItemCompleted { item: map_item_kind(item) };
                self.push_step(kind, item_summary(item), now);
            },
            ThreadEvent::TurnCompleted => {
                self.status = ThreadLifecycle::Completed;
                self.push_step(ProcessStepKind::TurnCompleted, owned("Turn completed"), now);
            },
            ThreadEvent::TurnFailed { message } => {
                self.status = ThreadLifecycle::Failed;
                self.error = Some(message.clone());
                self.push_step(ProcessStepKind::TurnFailed, message.clone(), now);
            },
            ThreadEvent::Error { message } => {
                self.status = ThreadLifecycle::Failed;
                self.error = Some(message.clone());
                self.push_step(ProcessStepKind::Error, message.clone(), now);
            },
        }
    }

    /// Records a turn event at the current time. Every event appends exactly one step, so
    /// the time used is the one of the last step.
    pub fn push_event(&mut self, event: &ThreadEvent)
        ensures
            final(self)@.process.len() == old(self)@.process.len() + 1,
            final(self)@ == spec_push_event(old(self)@, *event, final(self)@.process.last().at),
    {
        let now = chrono_now();
        self.push_event_at(event, now);
    }

    /// Applies an update.
    pub fn apply(&mut self, update: ThreadUpdate)
        ensures
            final(self)@ == spec_apply_update(old(self)@, update),
    {
        match update {
            ThreadUpdate::Event { event, at } => {
                self.push_event_at(&event, at);
            },
            ThreadUpdate::Fail { message } => {
                self.status = ThreadLifecycle::Failed;
                self.error = Some(message);
            },
            ThreadUpdate::Complete { response } => {
                self.status = ThreadLifecycle::Completed;
                if !response.as_str().is_empty() {
                    self.final_response = Some(response);
                }
            },
            ThreadUpdate::AwaitApproval { kind, summary, at } => {
                self.status = ThreadLifecycle::WaitingApproval;
                self.push_step(ProcessStepKind::Approval { kind }, summary, at);
            },
            ThreadUpdate::UserReply { prompt, at } => {
                self.status = ThreadLifecycle::Running;
                let summary = truncate(prompt.as_str(), SUMMARY_CHARS);
                self.push_step(ProcessStepKind::UserReply, summary, at);
            },
        }
    }
}

/// Every turn event appends exactly one step, stamped with the event's time, and keeps
/// the earlier steps; completion, failure and error events settle the status.
pub proof fn law_event_appends_one_step(r: ThreadRecordView, event: ThreadEvent, now: i64)
    ensures
        spec_push_event(r, event, now).process.len() == r.process.len() + 1,
        spec_push_event(r, event, now).process.take(r.process.len() as int) == r.process,
        spec_push_event(r, event, now).process.last().at == now,
        event is TurnCompleted ==> spec_push_event(r, event, now).status
            == ThreadLifecycle::Completed,
        (event is TurnFailed || event is Error) ==> spec_push_event(r, event, now).status
            == ThreadLifecycle::Failed && spec_push_event(r, event, now).error is Some,
{
    assert(spec_push_event(r, event, now).process.take(r.process.len() as int) =~= r.process);
}

/// The kind a trace step gives an item is the item's own variant.
pub proof fn law_item_kind_names_item(item: ThreadItem)
    ensures
        (item is AgentMessage) == (spec_item_kind(item) == ThreadItemKind::AgentMessage),
        (item is UserMessage) == (spec_item_kind(item) == ThreadItemKind::UserMessage),
        (item is CommandExecution) == (spec_item_kind(item) == ThreadItemKind::CommandExecution),
        (item is FileChange) == (spec_item_kind(item) == ThreadItemKind::FileChange),
        (item is McpToolCall) == (spec_item_kind(item) == ThreadItemKind::McpToolCall),
        (item is Reasoning) == (spec_item_kind(item) == ThreadItemKind::Reasoning),
        (item is Plan) == (spec_item_kind(item) == ThreadItemKind::Plan),
        (item is WebSearch) == (spec_item_kind(item) == ThreadItemKind::WebSearch),
        (item is Error) == (spec_item_kind(item) == ThreadItemKind::Error),
        (item is Other) == (spec_item_kind(item) == ThreadItemKind::Other),
{
}

/// What an item's trace summary shows: the command of a command, the query of a web
/// search, the message of an error, `server::tool` for a tool call, the change count
/// followed by ` file(s)` for a file change, and free text up to 120 characters as it is
/// (longer text is cut to 120 characters and `…`).
pub proof fn law_item_summary(item: ThreadItem)
    ensures
        item matches ThreadItem::CommandExecution { command } ==> spec_item_summary(item)
            == command@,
        item matches ThreadItem::WebSearch { query } ==> spec_item_summary(item) == query@,
        item matches ThreadItem::Error { message } ==> spec_item_summary(item) == message@,
        item matches ThreadItem::Other { description } ==> spec_item_summary(item)
            == description@,
        item matches ThreadItem::McpToolCall { server, tool } ==> spec_item_summary(item)
            == server@ + "::"@ + tool@,
        item matches ThreadItem::FileChange { change_count } ==> spec_item_summary(item)
            == decimal(change_count as nat) + " file(s)"@,
        item matches ThreadItem::AgentMessage { text } ==> (text@.len() <= 120
            ==> spec_item_summary(item) == text@),
        item matches ThreadItem::Reasoning { text } ==> (text@.len() <= 120
            ==> spec_item_summary(item) == text@),
        item matches ThreadItem::Plan { text } ==> (text@.len() <= 120 ==> spec_item_summary(
            item,
        ) == text@),
        item matches ThreadItem::AgentMessage { text } ==> (text@.len() > 120
            ==> spec_item_summary(item).len() == 121 && spec_item_summary(item).take(120)
            == text@.take(120)),
{
    if let ThreadItem::AgentMessage { text } = item {
        if text@.len() > 120 {
            assert(spec_item_summary(item).take(120) =~= text@.take(120));
        }
    }
}

/// A turn event appends one step stamped with the event's time, whose kind names the
/// event (an item event names the item's kind) and whose summary describes it: thread
/// start takes the new thread id, turn start runs the thread, turn completion completes
/// it, and a turn failure or an error fails it with its message. Item events leave the
/// status and error alone, and no event touches the project, cwd, description or final
/// response.
pub proof fn law_event_step(r: ThreadRecordView, event: ThreadEvent, now: i64)
    ensures
        ({
            let s = spec_push_event(r, event, now);
            let last = s.process.last();
            &&& s.process == r.process.push(last)
            &&& last.at == now
            &&& s.project_id == r.project_id
            &&& s.cwd == r.cwd
            &&& s.description == r.description
            &&& s.final_response == r.final_response
            &&& (event matches ThreadEvent::ThreadStarted { thread_id } ==> last.kind
                == ProcessStepKind::ThreadStarted && s.thread_id == thread_id@ && last.summary
                == "Thread "@ + thread_id@ + " started"@ && s.status == r.status && s.error
                == r.error)
            &&& (!(event is ThreadStarted) ==> s.thread_id == r.thread_id)
            &&& (event is TurnStarted ==> last.kind == ProcessStepKind::TurnStarted && s.status
                == ThreadLifecycle::Running && s.error == r.error)
            &&& (event matches ThreadEvent::ItemStarted { item } ==> last.kind
                == ProcessStepKind::ItemStarted { item: spec_item_kind(item) } && last.summary
                == spec_item_summary(item))
            &&& (event matches ThreadEvent::ItemUpdated { item } ==> last.kind
                == ProcessStepKind::ItemUpdated { item: spec_item_kind(item) } && last.summary
                == spec_item_summary(item))
            &&& (event matches ThreadEvent::ItemCompleted { item } ==> last.kind
                == ProcessStepKind::ItemCompleted { item: spec_item_kind(item) } && last.summary
                == spec_item_summary(item))
            &&& ((event is ItemStarted || event is ItemUpdated || event is ItemCompleted)
                ==> s.status == r.status && s.error == r.error)
            &&& (event is TurnCompleted ==> last.kind == ProcessStepKind::TurnCompleted
                && s.status == ThreadLifecycle::Completed && s.error == r.error)
            &&& (event matches ThreadEvent::TurnFailed { message } ==> last.kind
                == ProcessStepKind::TurnFailed && last.summary == message@ && s.status
                == ThreadLifecycle::Failed && s.error == Some(message@))
            &&& (event matches ThreadEvent::Error { message } ==> last.kind
                == ProcessStepKind::Error && last.summary == message@ && s.status
                == ThreadLifecycle::Failed && s.error == Some(message@))
        }),
{
    let s = spec_push_event(r, event, now);
    assert(s.process =~= r.process.push(s.process.last()));
}

/// What each server update does to a record: a stream failure fails it with the message
/// and adds no step; a completion completes it, taking a non-empty response as its final
/// response and keeping the earlier one otherwise; an approval request makes it wait for
/// approval with an approval step of the request's kind and summary; a reply runs it with
/// a reply step that shows the prompt cut to 120 characters. None of them changes the
/// project, cwd or description, and only a thread-start event changes the thread id.
pub proof fn law_server_updates(r: ThreadRecordView, update: ThreadUpdate)
    ensures
        ({
            let s = spec_apply_update(r, update);
            &&& s.project_id == r.project_id && s.cwd == r.cwd && s.description == r.description
            &&& (!(update is Event) ==> s.thread_id == r.thread_id)
            &&& (update matches ThreadUpdate::Fail { message } ==> s.status
                == ThreadLifecycle::Failed && s.error == Some(message@) && s.process == r.process
                && s.final_response == r.final_response)
            &&& (update matches ThreadUpdate::Complete { response } ==> s.status
                == ThreadLifecycle::Completed && s.process == r.process && s.error == r.error
                && (response@.len() > 0 ==> s.final_response == Some(response@)) && (
            response@.len() == 0 ==> s.final_response == r.final_response))
            &&& (update matches ThreadUpdate::AwaitApproval { kind, summary, at } ==> s.status
                == ThreadLifecycle::WaitingApproval && s.process == r.process.push(
                step(ProcessStepKind::Approval { kind }, summary@, at),
            ) && s.error == r.error && s.final_response == r.final_response)
            &&& (update matches ThreadUpdate::UserReply { prompt, at } ==> s.status
                == ThreadLifecycle::Running && s.process.len() == r.process.len() + 1
                && s.process.last().kind == ProcessStepKind::UserReply && s.process.last().at == at
                && (prompt@.len() <= 120 ==> s.process.last().summary == prompt@) && s.error
                == r.error && s.final_response == r.final_response)
        }),
{
    if let ThreadUpdate::Event { event, at } = update {
        law_event_step(r, event, at);
    }
}

/// The time an update was observed at, for the updates that add a step.
pub open spec fn update_time(update: ThreadUpdate) -> Option<i64> {
    match update {
        ThreadUpdate::Event { at, .. } => Some(at),
        ThreadUpdate::AwaitApproval { at, .. } => Some(at),
        ThreadUpdate::UserReply { at, .. } => Some(at),
        _ => None,
    }
}

/// The trace only grows: an update keeps every earlier step, and adds exactly one step,
/// stamped with the update's time, when it carries a time, and none otherwise.
pub proof fn law_trace_append_only(r: ThreadRecordView, update: ThreadUpdate)
    ensures
        r.process.len() <= spec_apply_update(r, update).process.len() <= r.process.len() + 1,
        spec_apply_update(r, update).process.take(r.process.len() as int) == r.process,
        match update_time(update) {
            Some(t) => spec_apply_update(r, update).process.len() == r.process.len() + 1
                && spec_apply_update(r, update).process.last().at == t,
            None => spec_apply_update(r, update).process == r.process,
        },
{
    if let ThreadUpdate::Event { event, at } = update {
        law_event_appends_one_step(r, event, at);
    }
    assert(spec_apply_update(r, update).process.take(r.process.len() as int) =~= r.process);
}

} // verus!
