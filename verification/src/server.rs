//! Decisions the tool and resource handlers make: following a streamed turn, and what a
//! project resource lists.
use vstd::prelude::*;

use crate::registry::{project_named, spec_threads_for_project, spec_update, AppState, AppStateView};
use crate::resources::{decode_project_id, spec_decode_project_id, spec_thread_uri, thread_uri};
use crate::state::{
    chrono_now, ThreadEvent, ThreadItem, ThreadLifecycle, ThreadRecord, ThreadRecordView,
    ThreadUpdate,
};
use crate::state::opt_view;
use crate::sync::text_or;

verus! {

/// Whether an event ends the turn: completion, failure or an error.
pub open spec fn spec_ends_turn(event: ThreadEvent) -> bool {
    match event {
        ThreadEvent::TurnCompleted | ThreadEvent::TurnFailed { .. } | ThreadEvent::Error { .. } => true,
        _ => false,
    }
}

/// The agent text an event finishes, if it completes an agent message.
pub open spec fn spec_completed_agent_text(event: ThreadEvent) -> Option<Seq<char>> {
    match event {
        ThreadEvent::ItemCompleted { item: ThreadItem::AgentMessage { text } } => Some(text@),
        _ => None,
    }
}

/// How a turn stands after `event` when it stood at `failure` before: a failure or an
/// error event fails it with the event's message, a completion clears the failure, and
/// any other event leaves it as it was.
pub open spec fn spec_failure_after(failure: Option<Seq<char>>, event: ThreadEvent) -> Option<
    Seq<char>,
> {
    match event {
        ThreadEvent::TurnFailed { message } => Some(message@),
        ThreadEvent::Error { message } => Some(message@),
        ThreadEvent::TurnCompleted => None,
        _ => failure,
    }
}

/// A thread's record once its turn is settled: a non-empty `response` becomes the final
/// response (an empty one keeps the earlier); the status is `Failed` with the failure's
/// message as the error when the turn failed, and `Completed` otherwise.
pub open spec fn spec_settle_record(
    r: ThreadRecordView,
    failure: Option<Seq<char>>,
    response: Seq<char>,
) -> ThreadRecordView {
    let kept = if response.len() > 0 {
        Some(response)
    } else {
        r.final_response
    };
    match failure {
        Some(m) => ThreadRecordView {
            status: ThreadLifecycle::Failed,
            error: Some(m),
            final_response: kept,
            ..r
        },
        None => ThreadRecordView { status: ThreadLifecycle::Completed, final_response: kept, ..r },
    }
}

/// The registry once the turn of thread `thread_id` is settled; unchanged when the thread
/// is not stored.
pub open spec fn spec_settle_turn(
    v: AppStateView,
    thread_id: Seq<char>,
    failure: Option<Seq<char>>,
    response: Seq<char>,
) -> AppStateView {
    if v.threads.contains_key(thread_id) {
        AppStateView {
            threads: v.threads.insert(
                thread_id,
                spec_settle_record(v.threads[thread_id], failure, response),
            ),
            projects: v.projects,
        }
    } else {
        v
    }
}

/// Tracking a turn stops exactly at a turn completion, a turn failure or an error; the
/// thread start, the turn start and item events never stop it. The response follows the
/// text of completed agent messages and nothing else, and the turn stands failed after a
/// failure or an error (with its message), cleared by a completion, and as before after
/// any other event.
pub proof fn law_turn_tracking(event: ThreadEvent, failure: Option<Seq<char>>)
    ensures
        spec_ends_turn(event) <==> (event is TurnCompleted || event is TurnFailed
            || event is Error),
        (event is ThreadStarted || event is TurnStarted || event is ItemStarted
            || event is ItemUpdated || event is ItemCompleted) ==> !spec_ends_turn(event),
        event matches ThreadEvent::ItemCompleted { item } ==> (item matches ThreadItem::AgentMessage {
            text,
        } ==> spec_completed_agent_text(event) == Some(text@)),
        event matches ThreadEvent::ItemCompleted { item } ==> (!(item is AgentMessage)
            ==> spec_completed_agent_text(event) is None),
        !(event is ItemCompleted) ==> spec_completed_agent_text(event) is None,
        event matches ThreadEvent::TurnFailed { message } ==> spec_failure_after(failure, event)
            == Some(message@),
        event matches ThreadEvent::Error { message } ==> spec_failure_after(failure, event)
            == Some(message@),
        event is TurnCompleted ==> spec_failure_after(failure, event) is None,
        !(event is TurnFailed || event is Error || event is TurnCompleted) ==> spec_failure_after(
            failure,
            event,
        ) == failure,
{
}

/// Settling a turn fails the thread with the failure's message when the turn failed and
/// completes it otherwise; a non-empty response becomes its final response, while an
/// empty one keeps the earlier. Nothing else in the record changes.
pub proof fn law_settle_record(r: ThreadRecordView, failure: Option<Seq<char>>, response: Seq<char>)
    ensures
        ({
            let s = spec_settle_record(r, failure, response);
            &&& (failure matches Some(m) ==> s.status == ThreadLifecycle::Failed && s.error
                == Some(m))
            &&& (failure is None ==> s.status == ThreadLifecycle::Completed && s.error == r.error)
            &&& (response.len() > 0 ==> s.final_response == Some(response))
            &&& (response.len() == 0 ==> s.final_response == r.final_response)
            &&& s.process == r.process && s.thread_id == r.thread_id && s.project_id
                == r.project_id && s.cwd == r.cwd && s.description == r.description
        }),
{
}

/// Follows the events of a streamed turn: each event goes into the thread's trace, the
/// text of the last completed agent message is kept as the turn's response, and a turn
/// that ended in failure or an error keeps that message.
pub struct TurnTracker {
    final_response: Option<String>,
    failure: Option<String>,
}

impl TurnTracker {
    /// The response kept so far.
    pub closed spec fn response(&self) -> Option<Seq<char>> {
        opt_view(self.final_response)
    }

    /// The message of the failure the turn ended in, if it failed.
    pub closed spec fn failure(&self) -> Option<Seq<char>> {
        opt_view(self.failure)
    }

    /// A tracker that has seen no event.
    pub fn new() -> (t: TurnTracker)
        ensures
            t.response() is None,
            t.failure() is None,
    {
        TurnTracker { final_response: None, failure: None }
    }

    /// Records `event` in thread `thread_id` at the current time and tells whether it
    /// ends the turn.
    pub fn on_event(&mut self, state: &mut AppState, thread_id: &str, event: ThreadEvent) -> (stop:
        bool)
        requires
            old(state).wf(),
        ensures
            final(state).wf(),
            stop == spec_ends_turn(event),
            final(self).response() == match spec_completed_agent_text(event) {
                Some(t) => Some(t),
                None => old(self).response(),
            },
            final(self).failure() == spec_failure_after(old(self).failure(), event),
            exists|at: i64| final(state)@ == #[trigger] spec_update(
                old(state)@,
                thread_id@,
                ThreadUpdate::Event { event, at },
            ),
    {
        if let ThreadEvent::ItemCompleted { item: ThreadItem::AgentMessage { text } } = &event {
            self.final_response = Some(text.clone());
        }
        match &event {
            ThreadEvent::TurnFailed { message } | ThreadEvent::Error { message } => {
                self.failure = Some(message.clone());
            },
            ThreadEvent::TurnCompleted => {
                self.failure = None;
            },
            _ => {},
        }
        let stop = match &event {
            ThreadEvent::TurnCompleted | ThreadEvent::TurnFailed { .. } | ThreadEvent::Error {
                ..
            } => true,
            _ => false,
        };
        let ghost e = event;
        let ghost v0: AppStateView = state@;
        let now = chrono_now();
        state.update_thread(thread_id, ThreadUpdate::Event { event, at: now });
        assert(state@ == spec_update(v0, thread_id@, ThreadUpdate::Event { event: e, at: now }));
        stop
    }

    /// Settles thread `thread_id` once the turn is over: a non-empty response becomes the
    /// thread's final response, and the thread then completes, or, when the turn failed,
    /// stays failed with the failure's message.
    pub fn settle(&self, state: &mut AppState, thread_id: &str)
        requires
            old(state).wf(),
        ensures
            final(state).wf(),
            final(state)@ == spec_settle_turn(
                old(state)@,
                thread_id@,
                self.failure(),
                text_or(self.response(), Seq::empty()),
            ),
    {
        let response = match &self.final_response {
            Some(t) => t.clone(),
            None => String::new(),
        };
        let ghost resp = response;
        let ghost v0: AppStateView = state@;
        state.update_thread(thread_id, ThreadUpdate::Complete { response });
        let ghost v1: AppStateView = state@;
        assert(v1 == spec_update(v0, thread_id@, ThreadUpdate::Complete { response: resp }));
        match &self.failure {
            Some(m) => {
                let message = m.clone();
                let ghost msg = message;
                state.update_thread(thread_id, ThreadUpdate::Fail { message });
                assert(state@ == spec_update(v1, thread_id@, ThreadUpdate::Fail { message: msg }));
                proof {
                    if v0.threads.contains_key(thread_id@) {
                        assert(state@.threads =~= v0.threads.insert(
                            thread_id@,
                            spec_settle_record(
                                v0.threads[thread_id@],
                                self.failure(),
                                text_or(self.response(), Seq::empty()),
                            ),
                        ));
                    }
                }
            },
            None => {},
        }
    }

    /// The turn's response: the last completed agent text, or empty.
    pub fn finish(self) -> (r: String)
        ensures
            r@ == text_or(self.response(), Seq::empty()),
    {
        match self.final_response {
            Some(t) => t,
            None => String::new(),
        }
    }
}

/// The cwd of a project resource: the stored project's, else the one a legacy long id
/// encodes.
pub fn project_cwd(state: &AppState, project_id: &str) -> (r: Option<String>)
    requires
        state.wf(),
    ensures
        opt_view(r) == match project_named(state@.projects, project_id@) {
            Some(p) => Some(p.cwd),
            None => spec_decode_project_id(project_id@),
        },
{
    match state.get_project(project_id) {
        Some(p) => Some(p.cwd),
        None => decode_project_id(project_id),
    }
}

/// One thread in a project resource.
pub struct ThreadListing {
    pub thread_id: String,
    pub thread_uri: String,
    pub status: ThreadLifecycle,
    pub description: String,
}

/// The listing entry of a record: its id, URI, status and description.
pub open spec fn spec_listing_matches(l: ThreadListing, r: ThreadRecordView) -> bool {
    &&& l.thread_id@ == r.thread_id
    &&& l.thread_uri@ == spec_thread_uri(r.project_id, r.thread_id)
    &&& l.status == r.status
    &&& l.description@ == r.description
}

/// The threads a project resource lists, one entry per record of the project's threads,
/// in order.
pub fn project_thread_listing(state: &AppState, project_id: &str) -> (r: Vec<ThreadListing>)
    requires
        state.wf(),
    ensures
        r@.len() == spec_threads_for_project(state@, project_id@).len(),
        forall|i: int|
            0 <= i < r@.len() ==> spec_listing_matches(
                #[trigger] r@[i],
                spec_threads_for_project(state@, project_id@)[i],
            ),
{
    let records = state.list_threads_for_project(project_id);
    let ghost rv = spec_threads_for_project(state@, project_id@);
    let mut r: Vec<ThreadListing> = Vec::new();
    let mut i: usize = 0;
    while i < records.len()
        invariant
            i <= records@.len(),
            rv == records@.map_values(|t: ThreadRecord| t@),
            r@.len() == i,
            forall|j: int| 0 <= j < i ==> spec_listing_matches(#[trigger] r@[j], rv[j]),
        decreases records@.len() - i,
    {
        let t = &records[i];
        r.push(
            ThreadListing {
                thread_id: t.thread_id.clone(),
                thread_uri: thread_uri(t.project_id.as_str(), t.thread_id.as_str()),
                status: t.status,
                description: t.description.clone(),
            },
        );
        assert(rv[i as int] == records@[i as int]@);
        i = i + 1;
    }
    r
}

/// How a failed read of a remote thread is answered: as an internal error when the
/// thread is tracked locally, and as an unknown resource otherwise.
#[derive(Clone, Copy, PartialEq, Eq, Structural, Debug)]
pub enum ThreadReadFailure {
    Internal,
    NotFound,
}

/// The answer to a failed read of a remote thread whose local record is `local`.
pub fn thread_read_failure(local: &Option<ThreadRecord>) -> (f: ThreadReadFailure)
    ensures
        f == (if local is Some {
            ThreadReadFailure::Internal
        } else {
            ThreadReadFailure::NotFound
        }),
{
    match local {
        Some(_) => ThreadReadFailure::Internal,
        None => ThreadReadFailure::NotFound,
    }
}

} // verus!
