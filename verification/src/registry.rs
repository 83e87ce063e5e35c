//! The in-memory registry of tracked threads and of the projects (working directories)
//! that group them.
//!
//! Threads are keyed by the id they were stored under; a project lists, in arrival
//! order and without repeats, the ids of the threads stored for it.
use vstd::prelude::*;

use crate::state::{
    spec_apply_update, spec_push_event, ThreadRecord, ThreadRecordView,
    ThreadUpdate,
};

verus! {

/// A project: the threads that share a working directory.
#[derive(Debug)]
pub struct ProjectRecord {
    pub project_id: String,
    pub cwd: String,
    pub thread_ids: Vec<String>,
}

/// A project over character sequences.
pub struct ProjectRecordView {
    pub project_id: Seq<char>,
    pub cwd: Seq<char>,
    pub thread_ids: Seq<Seq<char>>,
}

/// The views of a list of strings.
pub open spec fn strings_view(v: Seq<String>) -> Seq<Seq<char>> {
    v.map_values(|s: String| s@)
}

impl View for ProjectRecord {
    type V = ProjectRecordView;

    open spec fn view(&self) -> ProjectRecordView {
        ProjectRecordView {
            project_id: self.project_id@,
            cwd: self.cwd@,
            thread_ids: strings_view(self.thread_ids@),
        }
    }
}

fn duplicate_strings(v: &Vec<String>) -> (r: Vec<String>)
    ensures
        strings_view(r@) == strings_view(v@),
{
    let mut r: Vec<String> = Vec::new();
    let mut i: usize = 0;
    while i < v.len()
        invariant
            i <= v@.len(),
            r@.len() == i,
            forall|j: int| 0 <= j < i ==> r@[j]@ == v@[j]@,
        decreases v@.len() - i,
    {
        r.push(v[i].clone());
        i = i + 1;
    }
    assert(strings_view(r@) =~= strings_view(v@));
    r
}

impl ProjectRecord {
    /// A copy of the project.
    pub fn duplicate(&self) -> (r: ProjectRecord)
        ensures
            r@ == self@,
    {
        ProjectRecord {
            project_id: self.project_id.clone(),
            cwd: self.cwd.clone(),
            thread_ids: duplicate_strings(&self.thread_ids),
        }
    }
}

/// The registry's contents: the threads by key, and the projects in the order they were
/// first seen.
pub struct AppStateView {
    pub threads: Map<Seq<char>, ThreadRecordView>,
    pub projects: Seq<ProjectRecordView>,
}

impl AppStateView {
    /// No two projects share an id, and no project lists a thread twice.
    pub open spec fn wf(self) -> bool {
        projects_wf(self.projects)
    }
}

/// Projects with distinct ids, each listing its threads without repeats.
pub open spec fn projects_wf(ps: Seq<ProjectRecordView>) -> bool {
    &&& forall|i: int, j: int|
        0 <= i < ps.len() && 0 <= j < ps.len() && i != j ==> #[trigger] ps[i].project_id
            != #[trigger] ps[j].project_id
    &&& forall|i: int| 0 <= i < ps.len() ==> (#[trigger] ps[i]).thread_ids.no_duplicates()
}

/// The position of the project with id `project_id`, if there is one.
pub open spec fn project_position(ps: Seq<ProjectRecordView>, project_id: Seq<char>) -> Option<
    int,
> {
    if exists|i: int| 0 <= i < ps.len() && ps[i].project_id == project_id {
        Some(choose|i: int| 0 <= i < ps.len() && ps[i].project_id == project_id)
    } else {
        None
    }
}

/// The project with id `project_id`, if there is one.
pub open spec fn project_named(ps: Seq<ProjectRecordView>, project_id: Seq<char>) -> Option<
    ProjectRecordView,
> {
    match project_position(ps, project_id) {
        Some(i) => Some(ps[i]),
        None => None,
    }
}

/// The projects after a thread `r` is stored: its project gains the thread id if it does
/// not list it yet; an unknown project is added with the record's cwd.
pub open spec fn spec_register_thread(
    ps: Seq<ProjectRecordView>,
    r: ThreadRecordView,
) -> Seq<ProjectRecordView> {
    match project_position(ps, r.project_id) {
        Some(i) => if ps[i].thread_ids.contains(r.thread_id) {
            ps
        } else {
            ps.update(
                i,
                ProjectRecordView { thread_ids: ps[i].thread_ids.push(r.thread_id), ..ps[i] },
            )
        },
        None => ps.push(
            ProjectRecordView {
                project_id: r.project_id,
                cwd: r.cwd,
                thread_ids: seq![r.thread_id],
            },
        ),
    }
}

/// The registry after `r` is stored under its thread id, replacing any record there.
pub open spec fn spec_upsert(v: AppStateView, r: ThreadRecordView) -> AppStateView {
    AppStateView {
        threads: v.threads.insert(r.thread_id, r),
        projects: spec_register_thread(v.projects, r),
    }
}

/// The registry after `r` is imported: unchanged when its thread id is already stored.
pub open spec fn spec_import(v: AppStateView, r: ThreadRecordView) -> AppStateView {
    if v.threads.contains_key(r.thread_id) {
        v
    } else {
        spec_upsert(v, r)
    }
}

/// The projects after thread `thread_id` leaves project `project_id` (which lists it at
/// most once); a project left without threads is dropped.
pub open spec fn spec_unregister_thread(
    ps: Seq<ProjectRecordView>,
    project_id: Seq<char>,
    thread_id: Seq<char>,
) -> Seq<ProjectRecordView> {
    match project_position(ps, project_id) {
        Some(i) => {
            let ids = ps[i].thread_ids.remove_value(thread_id);
            if ids.len() == 0 {
                ps.remove(i)
            } else {
                ps.update(i, ProjectRecordView { thread_ids: ids, ..ps[i] })
            }
        },
        None => ps,
    }
}

/// The registry after the thread stored under `thread_id` is removed.
pub open spec fn spec_remove(v: AppStateView, thread_id: Seq<char>) -> AppStateView {
    if v.threads.contains_key(thread_id) {
        AppStateView {
            threads: v.threads.remove(thread_id),
            projects: spec_unregister_thread(
                v.projects,
                v.threads[thread_id].project_id,
                thread_id,
            ),
        }
    } else {
        v
    }
}

/// The registry after the thread stored under `thread_id` gets `update`.
pub open spec fn spec_update(v: AppStateView, thread_id: Seq<char>, update: ThreadUpdate) -> AppStateView {
    if v.threads.contains_key(thread_id) {
        AppStateView {
            threads: v.threads.insert(thread_id, spec_apply_update(v.threads[thread_id], update)),
            projects: v.projects,
        }
    } else {
        v
    }
}

/// The stored record for a listed thread id, if any.
pub open spec fn stored_record(
    threads: Map<Seq<char>, ThreadRecordView>,
) -> spec_fn(Seq<char>) -> Option<ThreadRecordView> {
    |id: Seq<char>|
        if threads.contains_key(id) {
            Some(threads[id])
        } else {
            None
        }
}

/// The records of a project's threads, in the project's order, skipping ids with no
/// stored record; empty for an unknown project.
pub open spec fn spec_threads_for_project(v: AppStateView, project_id: Seq<char>) -> Seq<
    ThreadRecordView,
> {
    match project_named(v.projects, project_id) {
        Some(p) => p.thread_ids.filter_map(stored_record(v.threads)),
        None => Seq::empty(),
    }
}

/// Whether `ids` holds `id`.
pub fn contains_string(ids: &Vec<String>, id: &str) -> (r: bool)
    ensures
        r == strings_view(ids@).contains(id@),
{
    let mut i: usize = 0;
    while i < ids.len()
        invariant
            i <= ids@.len(),
            forall|j: int| 0 <= j < i ==> ids@[j]@ != id@,
        decreases ids@.len() - i,
    {
        if crate::text::str_eq(ids[i].as_str(), id) {
            assert(strings_view(ids@)[i as int] == id@);
            return true;
        }
        i = i + 1;
    }
    assert(!strings_view(ids@).contains(id@)) by {
        if strings_view(ids@).contains(id@) {
            let j = choose|j: int| 0 <= j < strings_view(ids@).len() && strings_view(ids@)[j] == id@;
            assert(ids@[j]@ == id@);
        }
    }
    false
}

/// `ids` without `id` (`Vec::retain` with `!=`, for a list that holds `id` at most once).
pub fn without_string(ids: &Vec<String>, id: &str) -> (r: Vec<String>)
    requires
        strings_view(ids@).no_duplicates(),
    ensures
        strings_view(r@) == strings_view(ids@).remove_value(id@),
{
    let ghost v = strings_view(ids@);
    let mut r: Vec<String> = Vec::new();
    let mut i: usize = 0;
    let mut found: Option<usize> = None;
    while i < ids.len()
        invariant
            i <= ids@.len(),
            v == strings_view(ids@),
            match found {
                Some(k) => k < i && v[k as int] == id@ && r@.len() + 1 == i && (forall|j: int|
                    0 <= j < k ==> v[j] != id@) && (forall|j: int| 0 <= j < k ==> r@[j]@ == v[j])
                    && (forall|j: int| k <= j < r@.len() ==> r@[j]@ == v[j + 1]),
                None => r@.len() == i && (forall|j: int| 0 <= j < i ==> v[j] != id@) && (forall|
                    j: int,
                | 0 <= j < i ==> r@[j]@ == v[j]),
            },
        decreases ids@.len() - i,
    {
        if found.is_none() && crate::text::str_eq(ids[i].as_str(), id) {
            found = Some(i);
        } else {
            r.push(ids[i].clone());
        }
        i = i + 1;
    }
    proof {
        v.index_of_first_ensures(id@);
        match found {
            Some(k) => {
                assert(v.contains(id@));
                let f = v.index_of_first(id@).unwrap();
                assert(f == k as int) by {
                    if f < k {
                    } else if f > k {
                    }
                }
                assert(strings_view(r@) =~= v.remove(k as int));
            },
            None => {
                assert(!v.contains(id@));
                assert(strings_view(r@) =~= v);
            },
        }
    }
    r
}

proof fn lemma_remove_value_no_duplicates(ids: Seq<Seq<char>>, id: Seq<char>)
    requires
        ids.no_duplicates(),
    ensures
        ids.remove_value(id).no_duplicates(),
        !ids.remove_value(id).contains(id),
{
    ids.index_of_first_ensures(id);
    match ids.index_of_first(id) {
        Some(k) => {
            let t = ids.remove(k);
            assert forall|a: int| 0 <= a < t.len() implies #[trigger] t[a] == ids[if a < k { a } else { a + 1 }] by {}
            assert forall|a: int, b: int| 0 <= a < t.len() && 0 <= b < t.len() && a != b implies t[a] != t[b] by {
                assert(t[a] == ids[if a < k { a } else { a + 1 }]);
                assert(t[b] == ids[if b < k { b } else { b + 1 }]);
            }
            if t.contains(id) {
                let a = choose|a: int| 0 <= a < t.len() && t[a] == id;
                assert(t[a] == ids[if a < k { a } else { a + 1 }]);
            }
        },
        None => {},
    }
}

/// The views of a list of records.
pub open spec fn records_view(v: Seq<ThreadRecord>) -> Seq<ThreadRecordView> {
    v.map_values(|r: ThreadRecord| r@)
}



proof fn lemma_position_at(ps: Seq<ProjectRecordView>, i: int)
    requires
        projects_wf(ps),
        0 <= i < ps.len(),
    ensures
        project_position(ps, ps[i].project_id) == Some(i),
{
    let id = ps[i].project_id;
    assert(exists|j: int| 0 <= j < ps.len() && ps[j].project_id == id);
    let c = choose|j: int| 0 <= j < ps.len() && ps[j].project_id == id;
    assert(c == i);
}

proof fn lemma_push_no_duplicates(ids: Seq<Seq<char>>, id: Seq<char>)
    requires
        ids.no_duplicates(),
        !ids.contains(id),
    ensures
        ids.push(id).no_duplicates(),
{
    let t = ids.push(id);
    assert forall|a: int, b: int| 0 <= a < t.len() && 0 <= b < t.len() && a != b implies t[a] != t[b] by {
        if a < ids.len() && b < ids.len() {
        } else if a < ids.len() {
            assert(ids.contains(ids[a]));
        } else {
            assert(ids.contains(ids[b]));
        }
    }
}

/// Registering a thread keeps the projects well formed and leaves the thread listed in
/// its project.
pub proof fn lemma_register_thread(ps: Seq<ProjectRecordView>, r: ThreadRecordView)
    requires
        projects_wf(ps),
    ensures
        projects_wf(spec_register_thread(ps, r)),
        project_named(spec_register_thread(ps, r), r.project_id) matches Some(p)
            && p.thread_ids.contains(r.thread_id),
{
    let qs = spec_register_thread(ps, r);
    match project_position(ps, r.project_id) {
        Some(i) => {
            lemma_position_at(ps, i);
            if !ps[i].thread_ids.contains(r.thread_id) {
                lemma_push_no_duplicates(ps[i].thread_ids, r.thread_id);
                assert forall|a: int| 0 <= a < qs.len() implies (#[trigger] qs[a]).thread_ids.no_duplicates() by {
                    if a != i {
                        assert(qs[a] == ps[a]);
                    }
                }
                assert forall|a: int, b: int|
                    0 <= a < qs.len() && 0 <= b < qs.len() && a != b
                    implies #[trigger] qs[a].project_id != #[trigger] qs[b].project_id by {
                    assert(qs[a].project_id == ps[a].project_id);
                    assert(qs[b].project_id == ps[b].project_id);
                }
                lemma_position_at(qs, i);
                assert(qs[i].thread_ids[qs[i].thread_ids.len() - 1] == r.thread_id);
            }
        },
        None => {
            let n = ps.len() as int;
            assert forall|a: int| 0 <= a < qs.len() implies (#[trigger] qs[a]).thread_ids.no_duplicates() by {
                if a < n {
                    assert(qs[a] == ps[a]);
                }
            }
            assert forall|a: int, b: int|
                0 <= a < qs.len() && 0 <= b < qs.len() && a != b
                implies #[trigger] qs[a].project_id != #[trigger] qs[b].project_id by {
                if a < n {
                    assert(qs[a] == ps[a]);
                }
                if b < n {
                    assert(qs[b] == ps[b]);
                }
            }
            lemma_position_at(qs, n);
            assert(qs[n].thread_ids[0] == r.thread_id);
        },
    }
}

/// Unregistering a thread keeps the projects well formed, and the project it left, if
/// still there, no longer lists it.
pub proof fn lemma_unregister_thread(
    ps: Seq<ProjectRecordView>,
    project_id: Seq<char>,
    thread_id: Seq<char>,
)
    requires
        projects_wf(ps),
    ensures
        projects_wf(spec_unregister_thread(ps, project_id, thread_id)),
        project_named(spec_unregister_thread(ps, project_id, thread_id), project_id) matches Some(
            p,
        ) ==> !p.thread_ids.contains(thread_id),
{
    let qs = spec_unregister_thread(ps, project_id, thread_id);
    match project_position(ps, project_id) {
        Some(j) => {
            lemma_position_at(ps, j);
            let ids = ps[j].thread_ids;
            lemma_remove_value_no_duplicates(ids, thread_id);
            if ids.remove_value(thread_id).len() == 0 {
                assert forall|a: int| 0 <= a < qs.len() implies #[trigger] qs[a] == ps[if a < j { a } else { a + 1 }] by {}
                assert forall|a: int| 0 <= a < qs.len() implies (#[trigger] qs[a]).thread_ids.no_duplicates() by {
                    assert(qs[a] == ps[if a < j { a } else { a + 1 }]);
                }
                assert forall|a: int, b: int|
                    0 <= a < qs.len() && 0 <= b < qs.len() && a != b
                    implies #[trigger] qs[a].project_id != #[trigger] qs[b].project_id by {
                    assert(qs[a] == ps[if a < j { a } else { a + 1 }]);
                    assert(qs[b] == ps[if b < j { b } else { b + 1 }]);
                }
                if exists|a: int| 0 <= a < qs.len() && qs[a].project_id == project_id {
                    let a = choose|a: int| 0 <= a < qs.len() && qs[a].project_id == project_id;
                    assert(qs[a] == ps[if a < j { a } else { a + 1 }]);
                }
            } else {
                assert forall|a: int| 0 <= a < qs.len() implies (#[trigger] qs[a]).thread_ids.no_duplicates() by {
                    if a != j {
                        assert(qs[a] == ps[a]);
                    }
                }
                assert forall|a: int, b: int|
                    0 <= a < qs.len() && 0 <= b < qs.len() && a != b
                    implies #[trigger] qs[a].project_id != #[trigger] qs[b].project_id by {
                    assert(qs[a].project_id == ps[a].project_id);
                    assert(qs[b].project_id == ps[b].project_id);
                }
                lemma_position_at(qs, j);
            }
        },
        None => {},
    }
}

/// Storing a record and then reading its thread id gives the record back.
pub proof fn law_get_after_upsert(v: AppStateView, r: ThreadRecordView)
    ensures
        spec_upsert(v, r).threads.contains_key(r.thread_id),
        spec_upsert(v, r).threads[r.thread_id] == r,
{
}

/// Storing a record keeps the registry well formed, lists the thread in its project, and
/// the project's thread listing then holds the record.
pub proof fn law_upsert_lists_thread(v: AppStateView, r: ThreadRecordView)
    requires
        v.wf(),
    ensures
        spec_upsert(v, r).wf(),
        project_named(spec_upsert(v, r).projects, r.project_id) matches Some(p)
            && p.thread_ids.contains(r.thread_id),
        spec_threads_for_project(spec_upsert(v, r), r.project_id).contains(r),
{
    assert(projects_wf(v.projects));
    lemma_register_thread(v.projects, r);
    let w = spec_upsert(v, r);
    assert(projects_wf(w.projects));
    let p = project_named(w.projects, r.project_id).unwrap();
    let f = stored_record(w.threads);
    let k = choose|k: int| 0 <= k < p.thread_ids.len() && p.thread_ids[k] == r.thread_id;
    lemma_filter_map_has(p.thread_ids, f, k);
}

proof fn lemma_filter_map_has(
    ids: Seq<Seq<char>>,
    f: spec_fn(Seq<char>) -> Option<ThreadRecordView>,
    k: int,
)
    requires
        0 <= k < ids.len(),
        f(ids[k]) is Some,
    ensures
        ids.filter_map(f).contains(f(ids[k]).unwrap()),
    decreases ids.len(),
{
    let rest = ids.drop_last();
    if k == ids.len() - 1 {
        assert(ids.filter_map(f) == rest.filter_map(f) + seq![f(ids[k]).unwrap()]);
        assert(ids.filter_map(f)[rest.filter_map(f).len() as int] == f(ids[k]).unwrap());
    } else {
        assert(rest[k] == ids[k]);
        lemma_filter_map_has(rest, f, k);
        let x = f(ids[k]).unwrap();
        let a = choose|a: int| 0 <= a < rest.filter_map(f).len() && rest.filter_map(f)[a] == x;
        match f(ids.last()) {
            Some(y) => {
                assert(ids.filter_map(f) == rest.filter_map(f) + seq![y]);
                assert(ids.filter_map(f)[a] == x);
            },
            None => {},
        }
    }
}

/// Importing never replaces a stored record, and stores a record whose thread id is new.
pub proof fn law_import_keeps_stored(v: AppStateView, r: ThreadRecordView)
    ensures
        spec_import(v, r).threads.contains_key(r.thread_id),
        v.threads.contains_key(r.thread_id) ==> spec_import(v, r) == v,
        !v.threads.contains_key(r.thread_id) ==> spec_import(v, r).threads[r.thread_id] == r,
        forall|k: Seq<char>| #[trigger]
            v.threads.contains_key(k) ==> spec_import(v, r).threads[k] == v.threads[k],
{
}

/// Removing a thread forgets its record, keeps the registry well formed, leaves every
/// other record as it was, and unlists the thread from its project.
pub proof fn law_remove_forgets(v: AppStateView, thread_id: Seq<char>)
    requires
        v.wf(),
    ensures
        !spec_remove(v, thread_id).threads.contains_key(thread_id),
        spec_remove(v, thread_id).wf(),
        forall|k: Seq<char>|
            k != thread_id ==> (#[trigger] spec_remove(v, thread_id).threads.contains_key(k)
                == v.threads.contains_key(k)),
        forall|k: Seq<char>|
            k != thread_id && v.threads.contains_key(k) ==> #[trigger] spec_remove(
                v,
                thread_id,
            ).threads[k] == v.threads[k],
        v.threads.contains_key(thread_id) ==> (project_named(
            spec_remove(v, thread_id).projects,
            v.threads[thread_id].project_id,
        ) matches Some(p) ==> !p.thread_ids.contains(thread_id)),
{
    assert(projects_wf(v.projects));
    if v.threads.contains_key(thread_id) {
        lemma_unregister_thread(v.projects, v.threads[thread_id].project_id, thread_id);
        assert(projects_wf(spec_remove(v, thread_id).projects));
    }
}

/// Updating a thread changes only its record: an unknown thread leaves the registry as
/// it was.
pub proof fn law_update_is_local(v: AppStateView, thread_id: Seq<char>, update: ThreadUpdate)
    ensures
        !v.threads.contains_key(thread_id) ==> spec_update(v, thread_id, update) == v,
        spec_update(v, thread_id, update).projects == v.projects,
        spec_update(v, thread_id, update).threads.dom() == v.threads.dom(),
        v.threads.contains_key(thread_id) ==> spec_update(v, thread_id, update).threads[thread_id]
            == spec_apply_update(v.threads[thread_id], update),
        forall|k: Seq<char>|
            k != thread_id && v.threads.contains_key(k) ==> #[trigger] spec_update(
                v,
                thread_id,
                update,
            ).threads[k] == v.threads[k],
{
    if v.threads.contains_key(thread_id) {
        assert(spec_update(v, thread_id, update).threads.dom() =~= v.threads.dom());
    }
}


/// Every stored thread is listed by the project its record names.
pub open spec fn every_thread_listed(v: AppStateView) -> bool {
    forall|k: Seq<char>| #[trigger]
        v.threads.contains_key(k) ==> (project_named(v.projects, v.threads[k].project_id) matches Some(
            p,
        ) && p.thread_ids.contains(k))
}

proof fn lemma_register_keeps_listing(
    ps: Seq<ProjectRecordView>,
    r: ThreadRecordView,
    pid: Seq<char>,
    k: Seq<char>,
)
    requires
        projects_wf(ps),
        project_named(ps, pid) matches Some(p) && p.thread_ids.contains(k),
    ensures
        project_named(spec_register_thread(ps, r), pid) matches Some(p) && p.thread_ids.contains(k),
{
    let qs = spec_register_thread(ps, r);
    lemma_register_thread(ps, r);
    let j = project_position(ps, pid).unwrap();
    lemma_position_at(ps, j);
    match project_position(ps, r.project_id) {
        Some(i) => {
            if !ps[i].thread_ids.contains(r.thread_id) {
                lemma_position_at(qs, j);
                if i == j {
                    let a = choose|a: int| 0 <= a < ps[j].thread_ids.len() && ps[j].thread_ids[a] == k;
                    assert(qs[j].thread_ids[a] == k);
                }
            }
        },
        None => {
            assert(qs[j] == ps[j]);
            lemma_position_at(qs, j);
        },
    }
}

proof fn lemma_unregister_keeps_listing(
    ps: Seq<ProjectRecordView>,
    pid0: Seq<char>,
    id: Seq<char>,
    pid: Seq<char>,
    k: Seq<char>,
)
    requires
        projects_wf(ps),
        k != id,
        project_named(ps, pid) matches Some(p) && p.thread_ids.contains(k),
    ensures
        project_named(spec_unregister_thread(ps, pid0, id), pid) matches Some(p)
            && p.thread_ids.contains(k),
{
    let qs = spec_unregister_thread(ps, pid0, id);
    lemma_unregister_thread(ps, pid0, id);
    let j = project_position(ps, pid).unwrap();
    lemma_position_at(ps, j);
    match project_position(ps, pid0) {
        Some(i) => {
            let ids = ps[i].thread_ids;
            if i == j {
                ids.index_of_first_ensures(id);
                let a = choose|a: int| 0 <= a < ids.len() && ids[a] == k;
                let kept = ids.remove_value(id);
                let a1 = match ids.index_of_first(id) {
                    Some(f) => if a < f { a } else { a - 1 },
                    None => a,
                };
                assert(kept[a1] == k);
                assert(kept.len() > 0);
                lemma_position_at(qs, j);
            } else if ids.remove_value(id).len() == 0 {
                let j1 = if j < i { j } else { j - 1 };
                assert(qs[j1] == ps[j]);
                lemma_position_at(qs, j1);
            } else {
                lemma_position_at(qs, j);
            }
        },
        None => {},
    }
}

/// An empty registry lists every stored thread (it stores none).
pub proof fn law_empty_lists_every_thread()
    ensures
        every_thread_listed(AppStateView { threads: Map::empty(), projects: Seq::empty() }),
{
}

/// Storing, importing, updating and removing threads all keep every stored thread listed
/// by its project.
pub proof fn law_operations_keep_threads_listed(
    v: AppStateView,
    r: ThreadRecordView,
    thread_id: Seq<char>,
    update: ThreadUpdate,
)
    requires
        v.wf(),
        every_thread_listed(v),
    ensures
        every_thread_listed(spec_upsert(v, r)),
        every_thread_listed(spec_import(v, r)),
        every_thread_listed(spec_update(v, thread_id, update)),
        every_thread_listed(spec_remove(v, thread_id)),
{
    let w = spec_upsert(v, r);
    assert forall|k: Seq<char>| #[trigger] w.threads.contains_key(k) implies (project_named(
        w.projects,
        w.threads[k].project_id,
    ) matches Some(p) && p.thread_ids.contains(k)) by {
        if k == r.thread_id {
            lemma_register_thread(v.projects, r);
        } else {
            lemma_register_keeps_listing(v.projects, r, v.threads[k].project_id, k);
        }
    }
    let u = spec_update(v, thread_id, update);
    if v.threads.contains_key(thread_id) {
        assert(spec_apply_update(v.threads[thread_id], update).project_id == v.threads[thread_id].project_id) by {
            if let ThreadUpdate::Event { event, at } = update {
                assert(spec_push_event(v.threads[thread_id], event, at).project_id
                    == v.threads[thread_id].project_id);
            }
        }
        assert forall|k: Seq<char>| #[trigger] u.threads.contains_key(k) implies (project_named(
            u.projects,
            u.threads[k].project_id,
        ) matches Some(p) && p.thread_ids.contains(k)) by {
            assert(v.threads.contains_key(k));
        }
    }
    let x = spec_remove(v, thread_id);
    if v.threads.contains_key(thread_id) {
        assert forall|k: Seq<char>| #[trigger] x.threads.contains_key(k) implies (project_named(
            x.projects,
            x.threads[k].project_id,
        ) matches Some(p) && p.thread_ids.contains(k)) by {
            assert(v.threads.contains_key(k));
            lemma_unregister_keeps_listing(
                v.projects,
                v.threads[thread_id].project_id,
                thread_id,
                v.threads[k].project_id,
                k,
            );
        }
    }
}

/// Every project lists at least one thread.
pub open spec fn projects_nonempty(ps: Seq<ProjectRecordView>) -> bool {
    forall|i: int| 0 <= i < ps.len() ==> (#[trigger] ps[i]).thread_ids.len() > 0
}

proof fn lemma_register_nonempty(ps: Seq<ProjectRecordView>, r: ThreadRecordView)
    requires
        projects_nonempty(ps),
    ensures
        projects_nonempty(spec_register_thread(ps, r)),
{
    let qs = spec_register_thread(ps, r);
    match project_position(ps, r.project_id) {
        Some(i) => {
            assert forall|a: int| 0 <= a < qs.len() implies (#[trigger] qs[a]).thread_ids.len() > 0 by {
                if a != i || ps[i].thread_ids.contains(r.thread_id) {
                    assert(qs[a] == ps[a]);
                }
            }
        },
        None => {
            assert forall|a: int| 0 <= a < qs.len() implies (#[trigger] qs[a]).thread_ids.len() > 0 by {
                if a < ps.len() {
                    assert(qs[a] == ps[a]);
                }
            }
        },
    }
}

proof fn lemma_unregister_nonempty(ps: Seq<ProjectRecordView>, project_id: Seq<char>, thread_id: Seq<char>)
    requires
        projects_nonempty(ps),
    ensures
        projects_nonempty(spec_unregister_thread(ps, project_id, thread_id)),
{
    let qs = spec_unregister_thread(ps, project_id, thread_id);
    match project_position(ps, project_id) {
        Some(j) => {
            if ps[j].thread_ids.remove_value(thread_id).len() == 0 {
                assert forall|a: int| 0 <= a < qs.len() implies (#[trigger] qs[a]).thread_ids.len() > 0 by {
                    assert(qs[a] == ps[if a < j { a } else { a + 1 }]);
                }
            } else {
                assert forall|a: int| 0 <= a < qs.len() implies (#[trigger] qs[a]).thread_ids.len() > 0 by {
                    if a != j {
                        assert(qs[a] == ps[a]);
                    }
                }
            }
        },
        None => {},
    }
}

/// No project is ever left without threads: an empty registry has none, and storing,
/// importing, updating and removing threads keep every project's list non-empty.
pub proof fn law_operations_keep_projects_nonempty(
    v: AppStateView,
    r: ThreadRecordView,
    thread_id: Seq<char>,
    update: ThreadUpdate,
)
    requires
        projects_nonempty(v.projects),
    ensures
        projects_nonempty(Seq::<ProjectRecordView>::empty()),
        projects_nonempty(spec_upsert(v, r).projects),
        projects_nonempty(spec_import(v, r).projects),
        projects_nonempty(spec_update(v, thread_id, update).projects),
        projects_nonempty(spec_remove(v, thread_id).projects),
{
    lemma_register_nonempty(v.projects, r);
    if v.threads.contains_key(thread_id) {
        lemma_unregister_nonempty(v.projects, v.threads[thread_id].project_id, thread_id);
    }
}

/// Storing a thread that the registry neither stores nor lists, and then removing it,
/// gives back the registry as it was, the order of projects and of their threads
/// included (given that no project is without threads).
pub proof fn law_store_then_remove_restores(v: AppStateView, r: ThreadRecordView)
    requires
        v.wf(),
        projects_nonempty(v.projects),
        !v.threads.contains_key(r.thread_id),
        forall|i: int| 0 <= i < v.projects.len() ==> !(#[trigger] v.projects[i]).thread_ids.contains(
            r.thread_id,
        ),
    ensures
        spec_upsert(v, r).threads[r.thread_id] == r,
        spec_remove(spec_upsert(v, r), r.thread_id) == v,
        spec_remove(spec_import(v, r), r.thread_id) == v,
{
    let ps = v.projects;
    let id = r.thread_id;
    let w = spec_upsert(v, r);
    let qs = w.projects;
    assert(projects_wf(ps));
    lemma_register_thread(ps, r);
    assert(w.threads.contains_key(id));
    assert(w.threads.remove(id) =~= v.threads);
    match project_position(ps, r.project_id) {
        Some(i) => {
            lemma_position_at(ps, i);
            let old_ids = ps[i].thread_ids;
            assert(!old_ids.contains(id));
            let ids = old_ids.push(id);
            assert(qs[i].thread_ids == ids);
            lemma_position_at(qs, i);
            ids.index_of_first_ensures(id);
            let f = ids.index_of_first(id).unwrap();
            assert(f == old_ids.len()) by {
                if f < old_ids.len() {
                    assert(old_ids[f] == id);
                    assert(old_ids.contains(id));
                }
            }
            assert(ids.remove_value(id) =~= old_ids);
            assert(old_ids.len() > 0);
            let back = spec_unregister_thread(qs, r.project_id, id);
            assert(back[i] == ps[i]);
            assert(back =~= ps);
        },
        None => {
            let n = ps.len() as int;
            lemma_position_at(qs, n);
            let ids = seq![id];
            assert(qs[n].thread_ids == ids);
            ids.index_of_first_ensures(id);
            assert(ids.index_of_first(id) == Some(0int)) by {
                assert(ids[0] == id);
            }
            assert(ids.remove_value(id) =~= Seq::<Seq<char>>::empty());
            let back = spec_unregister_thread(qs, r.project_id, id);
            assert(back =~= ps);
        },
    }
    assert(spec_remove(w, id) =~~= v);
}

struct ThreadEntry {
    key: String,
    record: ThreadRecord,
}

/// The record map that a list of entries with distinct keys stands for.
spec fn entries_map(s: Seq<ThreadEntry>) -> Map<Seq<char>, ThreadRecordView> {
    Map::new(
        |k: Seq<char>| exists|i: int| 0 <= i < s.len() && s[i].key@ == k,
        |k: Seq<char>| s[choose|i: int| 0 <= i < s.len() && s[i].key@ == k].record@,
    )
}

spec fn keys_distinct(s: Seq<ThreadEntry>) -> bool {
    forall|i: int, j: int|
        0 <= i < s.len() && 0 <= j < s.len() && i != j ==> #[trigger] s[i].key@ != #[trigger] s[j].key@
}

proof fn lemma_entry_lookup(s: Seq<ThreadEntry>, i: int)
    requires
        keys_distinct(s),
        0 <= i < s.len(),
    ensures
        entries_map(s).contains_key(s[i].key@),
        entries_map(s)[s[i].key@] == s[i].record@,
{
    let k = s[i].key@;
    assert(exists|j: int| 0 <= j < s.len() && s[j].key@ == k);
    let j = choose|j: int| 0 <= j < s.len() && s[j].key@ == k;
    assert(j == i);
}

proof fn lemma_entries_push(s: Seq<ThreadEntry>, e: ThreadEntry)
    requires
        keys_distinct(s),
        !entries_map(s).contains_key(e.key@),
    ensures
        keys_distinct(s.push(e)),
        entries_map(s.push(e)) =~= entries_map(s).insert(e.key@, e.record@),
{
    let t = s.push(e);
    assert forall|i: int, j: int|
        0 <= i < t.len() && 0 <= j < t.len() && i != j implies #[trigger] t[i].key@
        != #[trigger] t[j].key@ by {
        if i < s.len() && j < s.len() {
            assert(t[i] == s[i] && t[j] == s[j]);
        } else if i < s.len() {
            assert(t[i] == s[i]);
        } else {
            assert(t[j] == s[j]);
        }
    }
    lemma_entry_lookup(t, s.len() as int);
    assert forall|k: Seq<char>| #[trigger] entries_map(t).contains_key(k) <==> entries_map(
        s,
    ).insert(e.key@, e.record@).contains_key(k) by {
        if entries_map(s).contains_key(k) {
            let i = choose|i: int| 0 <= i < s.len() && s[i].key@ == k;
            assert(t[i] == s[i]);
        }
        if entries_map(t).contains_key(k) && k != e.key@ {
            let i = choose|i: int| 0 <= i < t.len() && t[i].key@ == k;
            assert(i < s.len());
            assert(s[i] == t[i]);
        }
    }
    assert forall|k: Seq<char>| #[trigger] entries_map(t).contains_key(k) implies entries_map(t)[k]
        == entries_map(s).insert(e.key@, e.record@)[k] by {
        if k != e.key@ {
            let i = choose|i: int| 0 <= i < t.len() && t[i].key@ == k;
            assert(i < s.len());
            assert(s[i] == t[i]);
            lemma_entry_lookup(t, i);
            lemma_entry_lookup(s, i);
        }
    }
}

proof fn lemma_entries_set(s: Seq<ThreadEntry>, i: int, e: ThreadEntry)
    requires
        keys_distinct(s),
        0 <= i < s.len(),
        e.key@ == s[i].key@,
    ensures
        keys_distinct(s.update(i, e)),
        entries_map(s.update(i, e)) =~= entries_map(s).insert(e.key@, e.record@),
{
    let t = s.update(i, e);
    assert forall|a: int, b: int|
        0 <= a < t.len() && 0 <= b < t.len() && a != b implies #[trigger] t[a].key@
        != #[trigger] t[b].key@ by {
        assert(t[a].key@ == s[a].key@);
        assert(t[b].key@ == s[b].key@);
    }
    lemma_entry_lookup(s, i);
    lemma_entry_lookup(t, i);
    assert forall|k: Seq<char>| #[trigger] entries_map(t).contains_key(k) <==> entries_map(
        s,
    ).insert(e.key@, e.record@).contains_key(k) by {
        if entries_map(s).contains_key(k) {
            let j = choose|j: int| 0 <= j < s.len() && s[j].key@ == k;
            assert(t[j].key@ == s[j].key@);
        }
        if entries_map(t).contains_key(k) {
            let j = choose|j: int| 0 <= j < t.len() && t[j].key@ == k;
            assert(t[j].key@ == s[j].key@);
        }
    }
    assert forall|k: Seq<char>| #[trigger] entries_map(t).contains_key(k) implies entries_map(t)[k]
        == entries_map(s).insert(e.key@, e.record@)[k] by {
        if k != e.key@ {
            let j = choose|j: int| 0 <= j < t.len() && t[j].key@ == k;
            assert(j != i);
            assert(s[j] == t[j]);
            lemma_entry_lookup(t, j);
            lemma_entry_lookup(s, j);
        }
    }
}

proof fn lemma_entries_remove(s: Seq<ThreadEntry>, i: int)
    requires
        keys_distinct(s),
        0 <= i < s.len(),
    ensures
        keys_distinct(s.remove(i)),
        entries_map(s.remove(i)) =~= entries_map(s).remove(s[i].key@),
{
    let t = s.remove(i);
    let k0 = s[i].key@;
    assert forall|a: int| 0 <= a < t.len() implies #[trigger] t[a] == (if a < i {
        s[a]
    } else {
        s[a + 1]
    }) by {}
    assert forall|a: int, b: int|
        0 <= a < t.len() && 0 <= b < t.len() && a != b implies #[trigger] t[a].key@
        != #[trigger] t[b].key@ by {
        let a1 = if a < i { a } else { a + 1 };
        let b1 = if b < i { b } else { b + 1 };
        assert(t[a] == s[a1]);
        assert(t[b] == s[b1]);
    }
    assert forall|k: Seq<char>| #[trigger] entries_map(t).contains_key(k) <==> entries_map(
        s,
    ).remove(k0).contains_key(k) by {
        if entries_map(s).contains_key(k) && k != k0 {
            let j = choose|j: int| 0 <= j < s.len() && s[j].key@ == k;
            assert(j != i);
            let j1 = if j < i { j } else { j - 1 };
            assert(t[j1] == s[j]);
        }
        if entries_map(t).contains_key(k) {
            let j = choose|j: int| 0 <= j < t.len() && t[j].key@ == k;
            let j1 = if j < i { j } else { j + 1 };
            assert(t[j] == s[j1]);
            assert(j1 != i);
        }
    }
    assert forall|k: Seq<char>| #[trigger] entries_map(t).contains_key(k) implies entries_map(t)[k]
        == entries_map(s).remove(k0)[k] by {
        let j = choose|j: int| 0 <= j < t.len() && t[j].key@ == k;
        let j1 = if j < i { j } else { j + 1 };
        assert(t[j] == s[j1]);
        lemma_entry_lookup(t, j);
        lemma_entry_lookup(s, j1);
    }
}

/// The registry of tracked threads and projects.
pub struct AppState {
    threads: Vec<ThreadEntry>,
    projects: Vec<ProjectRecord>,
}

impl View for AppState {
    type V = AppStateView;

    closed spec fn view(&self) -> AppStateView {
        AppStateView {
            threads: entries_map(self.threads@),
            projects: self.projects@.map_values(|p: ProjectRecord| p@),
        }
    }
}

impl AppState {
    /// The registry's representation is consistent and its contents are well formed.
    pub closed spec fn wf(&self) -> bool {
        &&& keys_distinct(self.threads@)
        &&& self@.wf()
    }

    /// An empty registry.
    pub fn new() -> (s: AppState)
        ensures
            s.wf(),
            s@.threads == Map::<Seq<char>, ThreadRecordView>::empty(),
            s@.projects == Seq::<ProjectRecordView>::empty(),
    {
        let s = AppState { threads: Vec::new(), projects: Vec::new() };
        assert(entries_map(s.threads@) =~= Map::<Seq<char>, ThreadRecordView>::empty());
        assert(s@.projects =~= Seq::<ProjectRecordView>::empty());
        s
    }

    /// Every well-formed registry has well-formed contents.
    pub proof fn lemma_wf(&self)
        requires
            self.wf(),
        ensures
            self@.wf(),
    {
    }

    fn find_thread(&self, thread_id: &str) -> (r: Option<usize>)
        requires
            keys_distinct(self.threads@),
        ensures
            match r {
                Some(i) => i < self.threads@.len() && self.threads@[i as int].key@ == thread_id@,
                None => !self@.threads.contains_key(thread_id@),
            },
    {
        let mut i: usize = 0;
        while i < self.threads.len()
            invariant
                i <= self.threads@.len(),
                forall|j: int| 0 <= j < i ==> self.threads@[j].key@ != thread_id@,
            decreases self.threads@.len() - i,
        {
            if crate::text::str_eq(self.threads[i].key.as_str(), thread_id) {
                return Some(i);
            }
            i = i + 1;
        }
        None
    }

    fn find_project(&self, project_id: &str) -> (r: Option<usize>)
        requires
            self@.wf(),
        ensures
            match r {
                Some(i) => i < self.projects@.len() && self.projects@[i as int].project_id@
                    == project_id@ && project_position(self@.projects, project_id@) == Some(
                    i as int,
                ),
                None => project_position(self@.projects, project_id@) is None,
            },
    {
        let ghost ps = self@.projects;
        let mut i: usize = 0;
        while i < self.projects.len()
            invariant
                self@.wf(),
                i <= self.projects@.len(),
                ps == self@.projects,
                ps.len() == self.projects@.len(),
                forall|j: int| 0 <= j < i ==> ps[j].project_id != project_id@,
            decreases self.projects@.len() - i,
        {
            assert(ps[i as int] == self.projects@[i as int]@);
            if crate::text::str_eq(self.projects[i].project_id.as_str(), project_id) {
                proof {
                    assert(ps[i as int].project_id == project_id@);
                    assert(exists|j: int| 0 <= j < ps.len() && ps[j].project_id == project_id@);
                    let c = choose|j: int| 0 <= j < ps.len() && ps[j].project_id == project_id@;
                    assert(ps[c].project_id == ps[i as int].project_id);
                    assert(c == i);
                }
                return Some(i);
            }
            i = i + 1;
        }
        None
    }

    /// Stores `record` under its thread id, replacing any record there, and lists the
    /// thread in its project, creating the project when it is new.
    pub fn upsert_thread(&mut self, record: ThreadRecord)
        requires
            old(self).wf(),
        ensures
            final(self).wf(),
            final(self)@ == spec_upsert(old(self)@, record@),
    {
        let ghost v0 = self@;
        self.register_in_project(&record);
        assert(self@.projects == spec_register_thread(v0.projects, record@));
        match self.find_thread(record.thread_id.as_str()) {
            Some(i) => {
                let key = record.thread_id.clone();
                let entry = ThreadEntry { key, record };
                proof {
                    lemma_entries_set(self.threads@, i as int, entry);
                }
                self.threads.set(i, entry);
            },
            None => {
                let key = record.thread_id.clone();
                let entry = ThreadEntry { key, record };
                proof {
                    lemma_entries_push(self.threads@, entry);
                }
                self.threads.push(entry);
            },
        }
    }

    fn register_in_project(&mut self, record: &ThreadRecord)
        requires
            old(self).wf(),
        ensures
            final(self).wf(),
            final(self).threads == old(self).threads,
            final(self)@.projects == spec_register_thread(old(self)@.projects, record@),
    {
        let ghost ps = self@.projects;
        let ghost tid = record.thread_id@;
        proof {
            lemma_register_thread(ps, record@);
        }
        match self.find_project(record.project_id.as_str()) {
            Some(i) => {
                if !contains_string(&self.projects[i].thread_ids, record.thread_id.as_str()) {
                    let mut p = self.projects[i].duplicate();
                    p.thread_ids.push(record.thread_id.clone());
                    assert(p@.thread_ids =~= ps[i as int].thread_ids.push(tid));
                    self.projects.set(i, p);
                    assert(self@.projects =~= spec_register_thread(ps, record@));
                }
            },
            None => {
                let mut ids: Vec<String> = Vec::new();
                ids.push(record.thread_id.clone());
                let p = ProjectRecord {
                    project_id: record.project_id.clone(),
                    cwd: record.cwd.clone(),
                    thread_ids: ids,
                };
                assert(p@.thread_ids =~= seq![tid]);
                self.projects.push(p);
                assert(self@.projects =~= spec_register_thread(ps, record@));
            },
        }
    }

    /// Stores `record` unless a record is already stored under its thread id.
    pub fn import_thread_if_absent(&mut self, record: ThreadRecord)
        requires
            old(self).wf(),
        ensures
            final(self).wf(),
            final(self)@ == spec_import(old(self)@, record@),
    {
        if let Some(i) = self.find_thread(record.thread_id.as_str()) {
            proof {
                lemma_entry_lookup(self.threads@, i as int);
            }
            return;
        }
        self.upsert_thread(record);
    }

    /// Applies `update` to the record stored under `thread_id`, if there is one.
    pub fn update_thread(&mut self, thread_id: &str, update: ThreadUpdate)
        requires
            old(self).wf(),
        ensures
            final(self).wf(),
            final(self)@ == spec_update(old(self)@, thread_id@, update),
    {
        if let Some(i) = self.find_thread(thread_id) {
            proof {
                lemma_entry_lookup(self.threads@, i as int);
            }
            let ghost ps = self@.projects;
            let mut record = self.threads[i].record.duplicate();
            record.apply(update);
            let key = self.threads[i].key.clone();
            let entry = ThreadEntry { key, record };
            proof {
                lemma_entries_set(self.threads@, i as int, entry);
            }
            self.threads.set(i, entry);
            assert(self@.projects == ps);
        }
    }

    /// Removes the record stored under `thread_id` and unlists the thread from the
    /// record's project, dropping the project when no thread is left in it. Gives back the
    /// removed record.
    pub fn remove_thread(&mut self, thread_id: &str) -> (r: Option<ThreadRecord>)
        requires
            old(self).wf(),
        ensures
            final(self).wf(),
            final(self)@ == spec_remove(old(self)@, thread_id@),
            match r {
                Some(t) => old(self)@.threads.contains_key(thread_id@) && t@ == old(
                    self,
                )@.threads[thread_id@],
                None => !old(self)@.threads.contains_key(thread_id@),
            },
    {
        let i = match self.find_thread(thread_id) {
            Some(i) => i,
            None => return None,
        };
        proof {
            lemma_entry_lookup(self.threads@, i as int);
            lemma_entries_remove(self.threads@, i as int);
        }
        let ghost ps = self@.projects;
        let entry = self.threads.remove(i);
        assert(self@.projects == ps);
        self.unregister_from_project(entry.record.project_id.as_str(), thread_id);
        Some(entry.record)
    }

    fn unregister_from_project(&mut self, project_id: &str, thread_id: &str)
        requires
            old(self).wf(),
        ensures
            final(self).wf(),
            final(self).threads == old(self).threads,
            final(self)@.projects == spec_unregister_thread(
                old(self)@.projects,
                project_id@,
                thread_id@,
            ),
    {
        let ghost ps = self@.projects;
        let j = match self.find_project(project_id) {
            Some(j) => j,
            None => return,
        };
        let ghost ids = ps[j as int].thread_ids;
        let kept = without_string(&self.projects[j].thread_ids, thread_id);
        assert(strings_view(kept@) == ids.remove_value(thread_id@));
        proof {
            lemma_unregister_thread(ps, project_id@, thread_id@);
        }
        if kept.len() == 0 {
            self.projects.remove(j);
            assert(self@.projects =~= spec_unregister_thread(ps, project_id@, thread_id@));
        } else {
            let mut p = self.projects[j].duplicate();
            p.thread_ids = kept;
            self.projects.set(j, p);
            assert(self@.projects =~= spec_unregister_thread(ps, project_id@, thread_id@));
        }
    }

    /// Copies of the records of a project's threads, in the project's order, skipping
    /// listed ids that have no stored record; empty for an unknown project.
    pub fn list_threads_for_project(&self, project_id: &str) -> (r: Vec<ThreadRecord>)
        requires
            self.wf(),
        ensures
            records_view(r@) == spec_threads_for_project(self@, project_id@),
    {
        let mut r: Vec<ThreadRecord> = Vec::new();
        let j = match self.find_project(project_id) {
            Some(j) => j,
            None => {
                assert(records_view(r@) =~= Seq::<ThreadRecordView>::empty());
                return r;
            },
        };
        let ids = &self.projects[j].thread_ids;
        let ghost f = stored_record(self@.threads);
        let ghost idv = strings_view(ids@);
        let mut i: usize = 0;
        assert(records_view(r@) =~= idv.take(0).filter_map(f));
        while i < ids.len()
            invariant
                self.wf(),
                i <= ids@.len(),
                idv == strings_view(ids@),
                f == stored_record(self@.threads),
                records_view(r@) == idv.take(i as int).filter_map(f),
            decreases ids@.len() - i,
        {
            let ghost before = records_view(r@);
            assert(idv.take(i + 1).drop_last() =~= idv.take(i as int));
            assert(idv.take(i + 1).last() == ids@[i as int]@);
            match self.get_thread(ids[i].as_str()) {
                Some(t) => {
                    r.push(t);
                    assert(records_view(r@) =~= before + seq![t@]);
                },
                None => {},
            }
            i = i + 1;
        }
        assert(idv.take(ids@.len() as int) =~= idv);
        r
    }

    /// Whether a record is stored under `thread_id`.
    pub fn contains_thread(&self, thread_id: &str) -> (r: bool)
        requires
            self.wf(),
        ensures
            r == self@.threads.contains_key(thread_id@),
    {
        match self.find_thread(thread_id) {
            Some(i) => {
                proof {
                    lemma_entry_lookup(self.threads@, i as int);
                }
                true
            },
            None => false,
        }
    }

    /// A copy of the record stored under `thread_id`.
    pub fn get_thread(&self, thread_id: &str) -> (r: Option<ThreadRecord>)
        requires
            self.wf(),
        ensures
            match r {
                Some(t) => self@.threads.contains_key(thread_id@) && t@ == self@.threads[thread_id@],
                None => !self@.threads.contains_key(thread_id@),
            },
    {
        match self.find_thread(thread_id) {
            Some(i) => {
                proof {
                    lemma_entry_lookup(self.threads@, i as int);
                }
                Some(self.threads[i].record.duplicate())
            },
            None => None,
        }
    }

    /// Copies of all projects, in the order they were first seen.
    pub fn list_projects(&self) -> (r: Vec<ProjectRecord>)
        ensures
            r@.map_values(|p: ProjectRecord| p@) == self@.projects,
    {
        let mut r: Vec<ProjectRecord> = Vec::new();
        let mut i: usize = 0;
        while i < self.projects.len()
            invariant
                i <= self.projects@.len(),
                r@.len() == i,
                forall|j: int| 0 <= j < i ==> r@[j]@ == self.projects@[j]@,
            decreases self.projects@.len() - i,
        {
            r.push(self.projects[i].duplicate());
            i = i + 1;
        }
        assert(r@.map_values(|p: ProjectRecord| p@) =~= self@.projects);
        r
    }

    /// A copy of the project with id `project_id`.
    pub fn get_project(&self, project_id: &str) -> (r: Option<ProjectRecord>)
        requires
            self.wf(),
        ensures
            match r {
                Some(p) => project_named(self@.projects, project_id@) == Some(p@),
                None => project_named(self@.projects, project_id@) is None,
            },
    {
        match self.find_project(project_id) {
            Some(i) => Some(self.projects[i].duplicate()),
            None => None,
        }
    }
}

} // verus!
