//! Importing remote Codex threads into the registry: how a remote thread summary or
//! thread payload becomes a record, and the paging of a thread-list sync.
use vstd::prelude::*;

use crate::registry::{spec_import, spec_upsert, AppState, AppStateView};
use crate::resources::spec_encode_project_id;
use crate::state::{duplicate_opt, fresh_record, opt_view, ThreadLifecycle, ThreadRecord, ThreadRecordView};
use crate::text::{owned, str_eq};

verus! {

/// A top-level JSON member whose value is a string.
pub struct StringField {
    pub key: String,
    pub value: String,
}

/// The value of the first member named `key`.
pub open spec fn field_text(fields: Seq<StringField>, key: Seq<char>) -> Option<Seq<char>>
    decreases fields.len(),
{
    if fields.len() == 0 {
        None
    } else if fields[0].key@ == key {
        Some(fields[0].value@)
    } else {
        field_text(fields.drop_first(), key)
    }
}

/// The string value of the first of `keys` that has one.
pub open spec fn first_text(fields: Seq<StringField>, keys: Seq<Seq<char>>) -> Option<Seq<char>>
    decreases keys.len(),
{
    if keys.len() == 0 {
        None
    } else {
        match field_text(fields, keys[0]) {
            Some(t) => Some(t),
            None => first_text(fields, keys.drop_first()),
        }
    }
}

/// The views of a list of string slices.
pub open spec fn strs_view(keys: Seq<&str>) -> Seq<Seq<char>> {
    keys.map_values(|k: &str| k@)
}

/// The string value of member `key`, if it has one.
pub fn text_field(fields: &Vec<StringField>, key: &str) -> (r: Option<String>)
    ensures
        match r {
            Some(s) => field_text(fields@, key@) == Some(s@),
            None => field_text(fields@, key@) is None,
        },
{
    let mut i: usize = 0;
    assert(fields@.skip(0) =~= fields@);
    while i < fields.len()
        invariant
            i <= fields@.len(),
            field_text(fields@, key@) == field_text(fields@.skip(i as int), key@),
        decreases fields@.len() - i,
    {
        assert(fields@.skip(i as int)[0] == fields@[i as int]);
        if str_eq(fields[i].key.as_str(), key) {
            return Some(fields[i].value.clone());
        }
        assert(fields@.skip(i as int).drop_first() =~= fields@.skip(i + 1));
        i = i + 1;
    }
    assert(fields@.skip(i as int).len() == 0);
    None
}

/// The string value of the first of `keys` that has one.
pub fn first_text_field(fields: &Vec<StringField>, keys: &[&str]) -> (r: Option<String>)
    ensures
        match r {
            Some(s) => first_text(fields@, strs_view(keys@)) == Some(s@),
            None => first_text(fields@, strs_view(keys@)) is None,
        },
{
    let ghost ks = strs_view(keys@);
    let mut i: usize = 0;
    assert(ks.skip(0) =~= ks);
    while i < keys.len()
        invariant
            i <= keys@.len(),
            ks == strs_view(keys@),
            first_text(fields@, ks) == first_text(fields@, ks.skip(i as int)),
        decreases keys@.len() - i,
    {
        assert(ks.skip(i as int)[0] == keys@[i as int]@);
        match text_field(fields, keys[i]) {
            Some(s) => return Some(s),
            None => {},
        }
        assert(ks.skip(i as int).drop_first() =~= ks.skip(i + 1));
        i = i + 1;
    }
    assert(ks.skip(i as int).len() == 0);
    None
}

/// A remote thread as the thread list reports it: the typed members of the summary, its
/// string-valued extra members, and the `type` of its `status` member (absent when there
/// is no status or no string type).
pub struct ThreadSummary {
    pub id: String,
    pub title: Option<String>,
    pub archived: Option<bool>,
    pub fields: Vec<StringField>,
    pub status_type: Option<String>,
}

/// A remote thread payload as `thread/read` returns it: its string-valued members, its
/// `archived` member when that is a boolean, and the `type` of its `status` member.
pub struct RemoteThread {
    pub fields: Vec<StringField>,
    pub archived: Option<bool>,
    pub status_type: Option<String>,
}

/// A payload is archived when its `archived` member is `true`.
pub fn is_archived_value(thread: &RemoteThread) -> (r: bool)
    ensures
        r == (thread.archived == Some(true)),
{
    match thread.archived {
        Some(a) => a,
        None => false,
    }
}

/// The local status for a remote status type: `active` is running, `systemError` failed,
/// anything else (including `idle` and no status) completed.
pub open spec fn spec_map_status(status_type: Option<Seq<char>>) -> ThreadLifecycle {
    match status_type {
        Some(t) => if t == "active"@ {
            ThreadLifecycle::Running
        } else if t == "idle"@ {
            ThreadLifecycle::Completed
        } else if t == "systemError"@ {
            ThreadLifecycle::Failed
        } else {
            ThreadLifecycle::Completed
        },
        None => ThreadLifecycle::Completed,
    }
}

/// Maps a remote status type to a local lifecycle status.
pub fn map_json_status(status_type: &Option<String>) -> (s: ThreadLifecycle)
    ensures
        s == spec_map_status(opt_view(*status_type)),
{
    match status_type {
        Some(t) => {
            if str_eq(t.as_str(), "active") {
                ThreadLifecycle::Running
            } else if str_eq(t.as_str(), "idle") {
                ThreadLifecycle::Completed
            } else if str_eq(t.as_str(), "systemError") {
                ThreadLifecycle::Failed
            } else {
                ThreadLifecycle::Completed
            }
        },
        None => ThreadLifecycle::Completed,
    }
}

/// The local status a summary reports.
pub fn map_remote_status(summary: &ThreadSummary) -> (s: ThreadLifecycle)
    ensures
        s == spec_map_status(opt_view(summary.status_type)),
{
    map_json_status(&summary.status_type)
}

/// A summary is archived when its `archived` member is `true`.
pub fn is_archived_summary(summary: &ThreadSummary) -> (r: bool)
    ensures
        r == (summary.archived == Some(true)),
{
    match summary.archived {
        Some(a) => a,
        None => false,
    }
}

/// The string value of the first of `keys` among the summary's members.
pub fn summary_string(summary: &ThreadSummary, keys: &[&str]) -> (r: Option<String>)
    ensures
        opt_view(r) == first_text(summary.fields@, strs_view(keys@)),
{
    first_text_field(&summary.fields, keys)
}

/// The string value of the first of `keys` among the payload's members.
pub fn json_string(thread: &RemoteThread, keys: &[&str]) -> (r: Option<String>)
    ensures
        opt_view(r) == first_text(thread.fields@, strs_view(keys@)),
{
    first_text_field(&thread.fields, keys)
}

/// `o`'s text, or `d` when there is none.
pub open spec fn text_or(o: Option<Seq<char>>, d: Seq<char>) -> Seq<char> {
    match o {
        Some(t) => t,
        None => d,
    }
}

/// The record for a remote summary: cwd from `cwd` (else `.`), description from the
/// title, else `preview` or `name`, else the id; status from the remote status; final
/// response from `preview`.
pub open spec fn spec_record_from_summary(s: ThreadSummary) -> ThreadRecordView {
    let cwd = text_or(first_text(s.fields@, seq!["cwd"@]), "."@);
    let description = match s.title {
        Some(t) => t@,
        None => text_or(first_text(s.fields@, seq!["preview"@, "name"@]), s.id@),
    };
    ThreadRecordView {
        status: spec_map_status(opt_view(s.status_type)),
        final_response: first_text(s.fields@, seq!["preview"@]),
        ..fresh_record(s.id@, cwd, description)
    }
}

/// The record for a thread payload read for `thread_id`: cwd from `cwd` (else `.`),
/// description from `preview` or `name` (else the id), status from the remote status.
pub open spec fn spec_record_from_remote(thread_id: Seq<char>, t: RemoteThread) -> ThreadRecordView {
    let cwd = text_or(first_text(t.fields@, seq!["cwd"@]), "."@);
    let description = text_or(first_text(t.fields@, seq!["preview"@, "name"@]), thread_id);
    ThreadRecordView {
        status: spec_map_status(opt_view(t.status_type)),
        ..fresh_record(thread_id, cwd, description)
    }
}

proof fn lemma_first_text_one(fields: Seq<StringField>, a: Seq<char>)
    ensures
        first_text(fields, seq![a]) == field_text(fields, a),
{
    let e = Seq::<Seq<char>>::empty();
    assert(seq![a].drop_first() =~= e);
    assert(first_text(fields, e) is None);
    assert(seq![a][0] == a);
}

proof fn lemma_first_text_two(fields: Seq<StringField>, a: Seq<char>, b: Seq<char>)
    ensures
        first_text(fields, seq![a, b]) == match field_text(fields, a) {
            Some(t) => Some(t),
            None => field_text(fields, b),
        },
{
    assert(seq![a, b].drop_first() =~= seq![b]);
    assert(seq![a, b][0] == a);
    lemma_first_text_one(fields, b);
}

/// The local status for a remote status type, by its text: `active` runs, `systemError`
/// fails, and any other type, or none, is completed.
pub open spec fn status_of_type(status_type: Option<Seq<char>>, expected: ThreadLifecycle) -> bool {
    &&& status_type == Some("active"@) ==> expected == ThreadLifecycle::Running
    &&& status_type == Some("systemError"@) ==> expected == ThreadLifecycle::Failed
    &&& status_type != Some("active"@) && status_type != Some("systemError"@) ==> expected
        == ThreadLifecycle::Completed
}

proof fn lemma_map_status(status_type: Option<Seq<char>>)
    ensures
        status_of_type(status_type, spec_map_status(status_type)),
{
    reveal_strlit("active");
    reveal_strlit("idle");
    reveal_strlit("systemError");
    assert("active"@.len() == 6 && "idle"@.len() == 4 && "systemError"@.len() == 11);
}

/// A thread adopted from its `thread/read` payload: it keeps the id it was read for, takes
/// its cwd from the `cwd` member (`.` without one) and the project of that cwd, its
/// description from `preview`, else `name`, else the thread id, and its status from the
/// remote status type; it starts with an empty trace, no response and no error.
pub proof fn law_record_from_remote(thread_id: Seq<char>, t: RemoteThread)
    ensures
        ({
            let r = spec_record_from_remote(thread_id, t);
            let f = t.fields@;
            &&& r.thread_id == thread_id
            &&& (field_text(f, "cwd"@) matches Some(c) ==> r.cwd == c)
            &&& (field_text(f, "cwd"@) is None ==> r.cwd == "."@)
            &&& r.project_id == spec_encode_project_id(r.cwd)
            &&& (field_text(f, "preview"@) matches Some(p) ==> r.description == p)
            &&& (field_text(f, "preview"@) is None ==> (field_text(f, "name"@) matches Some(n)
                ==> r.description == n))
            &&& (field_text(f, "preview"@) is None && field_text(f, "name"@) is None
                ==> r.description == thread_id)
            &&& status_of_type(opt_view(t.status_type), r.status)
            &&& r.process.len() == 0
            &&& r.final_response is None
            &&& r.error is None
        }),
{
    lemma_first_text_one(t.fields@, "cwd"@);
    lemma_first_text_two(t.fields@, "preview"@, "name"@);
    lemma_map_status(opt_view(t.status_type));
}

/// A thread imported from the thread list: it keeps the summary's id, takes its cwd from
/// the `cwd` member (`.` without one) and the project of that cwd, its description from
/// the title, else `preview`, else `name`, else the id, its final response from
/// `preview`, and its status from the remote status type; it starts with an empty trace
/// and no error.
pub proof fn law_record_from_summary(s: ThreadSummary)
    ensures
        ({
            let r = spec_record_from_summary(s);
            let f = s.fields@;
            &&& r.thread_id == s.id@
            &&& (field_text(f, "cwd"@) matches Some(c) ==> r.cwd == c)
            &&& (field_text(f, "cwd"@) is None ==> r.cwd == "."@)
            &&& r.project_id == spec_encode_project_id(r.cwd)
            &&& (s.title matches Some(title) ==> r.description == title@)
            &&& (s.title is None ==> (field_text(f, "preview"@) matches Some(p) ==> r.description
                == p))
            &&& (s.title is None && field_text(f, "preview"@) is None ==> (field_text(
                f,
                "name"@,
            ) matches Some(n) ==> r.description == n))
            &&& (s.title is None && field_text(f, "preview"@) is None && field_text(f, "name"@)
                is None ==> r.description == s.id@)
            &&& r.final_response == field_text(f, "preview"@)
            &&& status_of_type(opt_view(s.status_type), r.status)
            &&& r.process.len() == 0
            &&& r.error is None
        }),
{
    lemma_first_text_one(s.fields@, "cwd"@);
    lemma_first_text_one(s.fields@, "preview"@);
    lemma_first_text_two(s.fields@, "preview"@, "name"@);
    lemma_map_status(opt_view(s.status_type));
}

fn text_or_else(o: Option<String>, d: &str) -> (r: String)
    ensures
        r@ == text_or(opt_view(o), d@),
{
    match o {
        Some(t) => t,
        None => owned(d),
    }
}

/// The record of a thread the remote thread list reports.
pub fn thread_record_from_summary(summary: &ThreadSummary) -> (r: ThreadRecord)
    ensures
        r@ == spec_record_from_summary(*summary),
{
    let cwd_keys: [&str; 1] = ["cwd"];
    let description_keys: [&str; 2] = ["preview", "name"];
    let preview_keys: [&str; 1] = ["preview"];
    assert(strs_view(cwd_keys@) =~= seq!["cwd"@]);
    assert(strs_view(description_keys@) =~= seq!["preview"@, "name"@]);
    assert(strs_view(preview_keys@) =~= seq!["preview"@]);
    let cwd = text_or_else(summary_string(summary, cwd_keys.as_slice()), ".");
    let description = match &summary.title {
        Some(t) => t.clone(),
        None => text_or_else(
            summary_string(summary, description_keys.as_slice()),
            summary.id.as_str(),
        ),
    };
    let mut record = ThreadRecord::new(summary.id.clone(), cwd, description);
    record.status = map_remote_status(summary);
    record.final_response = summary_string(summary, preview_keys.as_slice());
    record
}

/// The record of a thread payload read for `thread_id`.
pub fn thread_record_from_remote(thread_id: &str, thread: &RemoteThread) -> (r: ThreadRecord)
    ensures
        r@ == spec_record_from_remote(thread_id@, *thread),
{
    let cwd_keys: [&str; 1] = ["cwd"];
    let description_keys: [&str; 2] = ["preview", "name"];
    assert(strs_view(cwd_keys@) =~= seq!["cwd"@]);
    assert(strs_view(description_keys@) =~= seq!["preview"@, "name"@]);
    let cwd = text_or_else(json_string(thread, cwd_keys.as_slice()), ".");
    let description = text_or_else(json_string(thread, description_keys.as_slice()), thread_id);
    let mut record = ThreadRecord::new(owned(thread_id), cwd, description);
    record.status = map_json_status(&thread.status_type);
    record
}


/// Why a thread read from Codex could not be adopted.
pub enum SyncError {
    /// `thread/read` answered without a thread payload.
    MissingThreadPayload { thread_id: String },
    /// The thread is archived.
    ArchivedThread { thread_id: String },
}

/// The text of an adoption error.
pub open spec fn spec_sync_error_message(e: SyncError) -> Seq<char> {
    match e {
        SyncError::MissingThreadPayload { thread_id } => "thread/read returned no thread payload for `"@
            + thread_id@ + "`"@,
        SyncError::ArchivedThread { thread_id } => "thread `"@ + thread_id@ + "` is archived"@,
    }
}

impl SyncError {
    /// The error's text.
    pub fn message(&self) -> (m: String)
        ensures
            m@ == spec_sync_error_message(*self),
    {
        match self {
            SyncError::MissingThreadPayload { thread_id } => {
                let mut m = owned("thread/read returned no thread payload for `");
                m.append(thread_id.as_str());
                m.append("`");
                m
            },
            SyncError::ArchivedThread { thread_id } => {
                let mut m = owned("thread `");
                m.append(thread_id.as_str());
                m.append("` is archived");
                m
            },
        }
    }
}

/// Adopts the payload that `thread/read` gave for an unknown thread: no payload and an
/// archived thread are errors that leave the registry as it was; otherwise the thread's
/// record is stored.
pub fn adopt_remote_thread(state: &mut AppState, thread_id: &str, thread: Option<RemoteThread>) -> (r:
    Result<(), SyncError>)
    requires
        old(state).wf(),
    ensures
        final(state).wf(),
        match thread {
            None => final(state)@ == old(state)@ && (r matches Err(
                SyncError::MissingThreadPayload { thread_id: id },
            ) && id@ == thread_id@),
            Some(t) => if t.archived == Some(true) {
                final(state)@ == old(state)@ && (r matches Err(
                    SyncError::ArchivedThread { thread_id: id },
                ) && id@ == thread_id@)
            } else {
                r is Ok && final(state)@ == spec_upsert(
                    old(state)@,
                    spec_record_from_remote(thread_id@, t),
                )
            },
        },
{
    let t = match thread {
        Some(t) => t,
        None => return Err(SyncError::MissingThreadPayload { thread_id: owned(thread_id) }),
    };
    let record = thread_record_from_remote(thread_id, &t);
    if is_archived_value(&t) {
        return Err(SyncError::ArchivedThread { thread_id: owned(thread_id) });
    }
    state.upsert_thread(record);
    Ok(())
}

/// Page size of a thread-list request.
pub const THREAD_LIST_PAGE_LIMIT: u32 = 100;

/// How many thread-list pages a sync fetches at most.
pub const MAX_THREAD_LIST_PAGES: usize = 100;

/// Which remote threads a sync imports.
pub enum SyncFilter {
    /// Every thread.
    All,
    /// The threads whose `cwd` is this one.
    Cwd { cwd: String },
}

/// Whether a sync with `filter` wants `s`.
pub open spec fn spec_filter_matches(filter: SyncFilter, s: ThreadSummary) -> bool {
    match filter {
        SyncFilter::All => true,
        SyncFilter::Cwd { cwd } => first_text(s.fields@, seq!["cwd"@]) == Some(cwd@),
    }
}

/// Whether a sync with `filter` imports `s`: wanted and not archived.
pub open spec fn spec_admits(filter: SyncFilter, s: ThreadSummary) -> bool {
    spec_filter_matches(filter, s) && s.archived != Some(true)
}

/// The registry after the admitted summaries of a page are imported in order.
pub open spec fn spec_import_page(v: AppStateView, filter: SyncFilter, data: Seq<ThreadSummary>) -> AppStateView
    decreases data.len(),
{
    if data.len() == 0 {
        v
    } else {
        let before = spec_import_page(v, filter, data.drop_last());
        if spec_admits(filter, data.last()) {
            spec_import(before, spec_record_from_summary(data.last()))
        } else {
            before
        }
    }
}

/// How many summaries of a page are admitted.
pub open spec fn spec_admitted_count(filter: SyncFilter, data: Seq<ThreadSummary>) -> nat
    decreases data.len(),
{
    if data.len() == 0 {
        0
    } else {
        spec_admitted_count(filter, data.drop_last()) + if spec_admits(filter, data.last()) {
            1nat
        } else {
            0nat
        }
    }
}

proof fn lemma_admitted_count_bound(filter: SyncFilter, data: Seq<ThreadSummary>)
    ensures
        spec_admitted_count(filter, data) <= data.len(),
    decreases data.len(),
{
    if data.len() > 0 {
        lemma_admitted_count_bound(filter, data.drop_last());
    }
}

/// Whether the sync's filter wants `summary`.
pub fn filter_matches(filter: &SyncFilter, summary: &ThreadSummary) -> (r: bool)
    ensures
        r == spec_filter_matches(*filter, *summary),
{
    match filter {
        SyncFilter::All => true,
        SyncFilter::Cwd { cwd } => {
            let keys: [&str; 1] = ["cwd"];
            assert(strs_view(keys@) =~= seq!["cwd"@]);
            match summary_string(summary, keys.as_slice()) {
                Some(c) => str_eq(c.as_str(), cwd.as_str()),
                None => false,
            }
        },
    }
}

/// Parameters of one thread-list request.
pub struct ThreadListRequest {
    pub limit: u32,
    pub cursor: Option<String>,
    pub archived: bool,
}

/// One page of the remote thread list.
pub struct ThreadPage {
    pub data: Vec<ThreadSummary>,
    pub next_cursor: Option<String>,
}

/// The progress of a paged thread-list sync. The caller asks `next_request` for the
/// next request to send, sends it, and hands the page it gets to `absorb_page`, until
/// `next_request` has none left.
pub struct ThreadSync {
    filter: SyncFilter,
    cursor: Option<String>,
    pages: usize,
    imported: usize,
    awaiting_page: bool,
    finished: bool,
    hit_page_limit: bool,
}

/// The state of a sync.
pub struct ThreadSyncView {
    pub filter: SyncFilter,
    pub cursor: Option<Seq<char>>,
    /// Requests started, counting one refused for the page limit.
    pub pages: nat,
    /// Summaries imported so far.
    pub imported: nat,
    /// A request was handed out and its page is due.
    pub awaiting_page: bool,
    pub finished: bool,
    pub hit_page_limit: bool,
}

impl View for ThreadSync {
    type V = ThreadSyncView;

    closed spec fn view(&self) -> ThreadSyncView {
        ThreadSyncView {
            filter: self.filter,
            cursor: opt_view(self.cursor),
            pages: self.pages as nat,
            imported: self.imported as nat,
            awaiting_page: self.awaiting_page,
            finished: self.finished,
            hit_page_limit: self.hit_page_limit,
        }
    }
}

impl ThreadSyncView {
    /// A sync never starts more than one request past the page limit, and a request in
    /// flight is never past it.
    pub open spec fn wf(self) -> bool {
        &&& self.pages <= MAX_THREAD_LIST_PAGES + 1
        &&& !self.finished ==> self.pages <= MAX_THREAD_LIST_PAGES
        &&& self.awaiting_page ==> !self.finished && self.pages <= MAX_THREAD_LIST_PAGES
        &&& self.hit_page_limit ==> self.finished
    }
}

impl ThreadSync {
    /// A sync that has fetched nothing yet.
    pub fn new(filter: SyncFilter) -> (s: ThreadSync)
        ensures
            s@.wf(),
            s@ == (ThreadSyncView {
                filter,
                cursor: None,
                pages: 0,
                imported: 0,
                awaiting_page: false,
                finished: false,
                hit_page_limit: false,
            }),
    {
        ThreadSync {
            filter,
            cursor: None,
            pages: 0,
            imported: 0,
            awaiting_page: false,
            finished: false,
            hit_page_limit: false,
        }
    }

    /// The next request to send, if the sync goes on: one at the current cursor, for
    /// unarchived threads, a page of `THREAD_LIST_PAGE_LIMIT`. A finished sync has none,
    /// and a sync that would go past `MAX_THREAD_LIST_PAGES` pages stops instead.
    pub fn next_request(&mut self) -> (r: Option<ThreadListRequest>)
        requires
            old(self)@.wf(),
            !old(self)@.awaiting_page,
        ensures
            final(self)@.wf(),
            final(self)@.filter == old(self)@.filter,
            final(self)@.imported == old(self)@.imported,
            final(self)@.cursor == old(self)@.cursor,
            old(self)@.finished ==> r is None && final(self)@ == old(self)@,
            !old(self)@.finished ==> final(self)@.pages == old(self)@.pages + 1,
            !old(self)@.finished && old(self)@.pages + 1 > MAX_THREAD_LIST_PAGES ==> r is None
                && final(self)@.finished && final(self)@.hit_page_limit
                && !final(self)@.awaiting_page,
            !old(self)@.finished && old(self)@.pages + 1 <= MAX_THREAD_LIST_PAGES ==> (r matches Some(
                req,
            ) && req.limit == THREAD_LIST_PAGE_LIMIT && !req.archived && opt_view(req.cursor)
                == old(self)@.cursor) && final(self)@.awaiting_page && !final(self)@.finished
                && final(self)@.hit_page_limit == old(self)@.hit_page_limit,
    {
        if self.finished {
            return None;
        }
        self.pages = self.pages + 1;
        if self.pages > MAX_THREAD_LIST_PAGES {
            self.finished = true;
            self.hit_page_limit = true;
            return None;
        }
        self.awaiting_page = true;
        Some(
            ThreadListRequest {
                limit: THREAD_LIST_PAGE_LIMIT,
                cursor: duplicate_opt(&self.cursor),
                archived: false,
            },
        )
    }

    /// Imports the admitted summaries of the page that answered the last request, in
    /// order, and moves to the page's next cursor; a page without one finishes the sync.
    pub fn absorb_page(&mut self, state: &mut AppState, page: ThreadPage)
        requires
            old(self)@.wf(),
            old(self)@.awaiting_page,
            old(state).wf(),
            old(self)@.imported + page.data@.len() <= usize::MAX,
        ensures
            final(self)@.wf(),
            final(state).wf(),
            final(state)@ == spec_import_page(old(state)@, old(self)@.filter, page.data@),
            final(self)@ == (ThreadSyncView {
                cursor: opt_view(page.next_cursor),
                imported: old(self)@.imported + spec_admitted_count(old(self)@.filter, page.data@),
                awaiting_page: false,
                finished: page.next_cursor is None,
                ..old(self)@
            }),
    {
        let ghost v0 = state@;
        let imported0 = self.imported;
        let filter = &self.filter;
        let mut imported = imported0;
        let mut i: usize = 0;
        while i < page.data.len()
            invariant
                i <= page.data@.len(),
                state.wf(),
                state@ == spec_import_page(v0, *filter, page.data@.take(i as int)),
                imported == imported0 + spec_admitted_count(*filter, page.data@.take(i as int)),
                imported0 + page.data@.len() <= usize::MAX,
            decreases page.data@.len() - i,
        {
            let ghost d = page.data@.take(i + 1);
            assert(d.drop_last() =~= page.data@.take(i as int));
            assert(d.last() == page.data@[i as int]);
            proof {
                lemma_admitted_count_bound(*filter, page.data@.take(i as int));
            }
            let summary = &page.data[i];
            if filter_matches(filter, summary) && !is_archived_summary(summary) {
                let record = thread_record_from_summary(summary);
                state.import_thread_if_absent(record);
                imported = imported + 1;
            }
            i = i + 1;
        }
        assert(page.data@.take(page.data@.len() as int) =~= page.data@);
        self.imported = imported;
        self.awaiting_page = false;
        match page.next_cursor {
            Some(next) => {
                self.cursor = Some(next);
            },
            None => {
                self.cursor = None;
                self.finished = true;
            },
        }
    }

    /// How many summaries the sync has imported.
    pub fn imported(&self) -> (n: usize)
        ensures
            n == self@.imported,
    {
        self.imported
    }

    /// Whether the sync stopped at the page limit.
    pub fn hit_page_limit(&self) -> (b: bool)
        ensures
            b == self@.hit_page_limit,
    {
        self.hit_page_limit
    }
}

/// A sync sends at most `MAX_THREAD_LIST_PAGES` requests: once that many have gone out,
/// the next call of `next_request` finishes it, and a finished sync sends nothing more.
pub proof fn law_sync_page_limit(s: ThreadSyncView)
    requires
        s.wf(),
        s.awaiting_page,
    ensures
        s.pages <= MAX_THREAD_LIST_PAGES,
{
}

/// A sync never replaces a record that was already stored: every thread stored before a
/// page is imported keeps its record, and the page only adds threads.
pub proof fn law_sync_keeps_local_records(v: AppStateView, filter: SyncFilter, data: Seq<ThreadSummary>)
    ensures
        forall|k: Seq<char>| #[trigger]
            v.threads.contains_key(k) ==> spec_import_page(v, filter, data).threads.contains_key(k)
                && spec_import_page(v, filter, data).threads[k] == v.threads[k],
    decreases data.len(),
{
    if data.len() > 0 {
        law_sync_keeps_local_records(v, filter, data.drop_last());
    }
}

} // verus!
