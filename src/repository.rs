//! An in-memory repository: a model of the two tables with the
//! repository's rules, for use where no database is wanted.
//!
//! Tasks are keyed by identifier, and a URL names at most one task: saving a
//! task whose URL is already stored hands back the stored task. Progress
//! rows belong to a stored task and go when it goes.
//!
//! The laws proved here (dedup by URL, cascade, counts, clear) are about this
//! model. A repository over a SQL store is a separate thing: it does not use
//! this type, and these proofs do not cover it. What such a repository takes
//! from this library is in `rows`.

use crate::error::DownloadDbError;
use crate::identifier::{uuid_text, TaskId};
use crate::models::{stamped, DownloadProgress, DownloadTask, TaskView};
use crate::status::{DownloadStatus, StatusView};
use vstd::prelude::*;

verus! {

/// The contents of both tables.
pub struct RepoView {
    /// Task rows, oldest insertion first.
    pub tasks: Seq<TaskView>,
    /// Progress rows: owning task identifier, snapshot and update time.
    pub progress: Seq<(u128, DownloadProgress, i64)>,
}

pub open spec fn empty_repo() -> RepoView {
    RepoView { tasks: Seq::empty(), progress: Seq::empty() }
}

pub open spec fn has_url(ts: Seq<TaskView>, u: Seq<char>) -> bool {
    exists|i: int| 0 <= i < ts.len() && #[trigger] ts[i].url == u
}

pub open spec fn has_id(ts: Seq<TaskView>, id: u128) -> bool {
    exists|i: int| 0 <= i < ts.len() && #[trigger] ts[i].id == id
}

pub open spec fn has_progress(ps: Seq<(u128, DownloadProgress, i64)>, id: u128) -> bool {
    exists|i: int| 0 <= i < ps.len() && #[trigger] ps[i].0 == id
}

pub open spec fn url_index(ts: Seq<TaskView>, u: Seq<char>) -> int {
    choose|i: int| 0 <= i < ts.len() && #[trigger] ts[i].url == u
}

pub open spec fn id_index(ts: Seq<TaskView>, id: u128) -> int {
    choose|i: int| 0 <= i < ts.len() && #[trigger] ts[i].id == id
}

pub open spec fn progress_index(ps: Seq<(u128, DownloadProgress, i64)>, id: u128) -> int {
    choose|i: int| 0 <= i < ps.len() && #[trigger] ps[i].0 == id
}

/// Identifiers and URLs are unique among tasks, a task has at most one
/// progress row, and every progress row belongs to a task.
pub open spec fn repo_wf(v: RepoView) -> bool {
    &&& forall|i: int, j: int|
        0 <= i < j < v.tasks.len() ==> #[trigger] v.tasks[i].url != #[trigger] v.tasks[j].url
    &&& forall|i: int, j: int|
        0 <= i < j < v.tasks.len() ==> #[trigger] v.tasks[i].id != #[trigger] v.tasks[j].id
    &&& forall|i: int, j: int|
        0 <= i < j < v.progress.len() ==> #[trigger] v.progress[i].0 != #[trigger] v.progress[j].0
    &&& forall|i: int| 0 <= i < v.progress.len() ==> has_id(v.tasks, #[trigger] v.progress[i].0)
}

/// `x` with the fields that a save by identifier at time `now` overwrites:
/// URL, path and status from `t`, update time `now`; creation time kept.
pub open spec fn overwritten(x: TaskView, t: TaskView, now: i64) -> TaskView {
    TaskView { url: t.url, target_path: t.target_path, status: t.status, updated_at: now, ..x }
}

/// The tables after saving `t` at time `now`: unchanged where its URL is
/// stored; else the task with its identifier is overwritten where there is
/// one; else `t` is added, stamped `now` as creation and update time.
pub open spec fn after_save(v: RepoView, t: TaskView, now: i64) -> RepoView {
    if has_url(v.tasks, t.url) {
        v
    } else if has_id(v.tasks, t.id) {
        let i = id_index(v.tasks, t.id);
        RepoView { tasks: v.tasks.update(i, overwritten(v.tasks[i], t, now)), progress: v.progress }
    } else {
        RepoView { tasks: v.tasks.push(stamped(t, now)), progress: v.progress }
    }
}

/// The task that saving `t` hands back: the stored one with its URL, or `t`.
pub open spec fn saved_task(v: RepoView, t: TaskView) -> TaskView {
    if has_url(v.tasks, t.url) {
        v.tasks[url_index(v.tasks, t.url)]
    } else {
        t
    }
}

/// The tables after deleting task `id`, its progress row with it.
pub open spec fn after_delete(v: RepoView, id: u128) -> RepoView {
    RepoView {
        tasks: if has_id(v.tasks, id) {
            v.tasks.remove(id_index(v.tasks, id))
        } else {
            v.tasks
        },
        progress: if has_progress(v.progress, id) {
            v.progress.remove(progress_index(v.progress, id))
        } else {
            v.progress
        },
    }
}

/// The tables after deleting the progress row of task `id`.
pub open spec fn after_delete_progress(v: RepoView, id: u128) -> RepoView {
    RepoView {
        tasks: v.tasks,
        progress: if has_progress(v.progress, id) {
            v.progress.remove(progress_index(v.progress, id))
        } else {
            v.progress
        },
    }
}

/// The tables after saving progress `p` of task `id` at time `now`; the task
/// must be stored. Every field of the row is written, its update time `now`.
pub open spec fn after_save_progress(v: RepoView, id: u128, p: DownloadProgress, now: i64) -> RepoView {
    if !has_id(v.tasks, id) {
        v
    } else if has_progress(v.progress, id) {
        RepoView {
            tasks: v.tasks,
            progress: v.progress.update(progress_index(v.progress, id), (id, p, now)),
        }
    } else {
        RepoView { tasks: v.tasks, progress: v.progress.push((id, p, now)) }
    }
}

proof fn lemma_save_wf(v: RepoView, t: TaskView, now: i64)
    requires
        repo_wf(v),
    ensures
        repo_wf(after_save(v, t, now)),
{
    let v2 = after_save(v, t, now);
    if has_url(v.tasks, t.url) {
    } else if has_id(v.tasks, t.id) {
        let i = id_index(v.tasks, t.id);
        assert forall|k: int| 0 <= k < v2.progress.len() implies has_id(
            v2.tasks,
            #[trigger] v2.progress[k].0,
        ) by {
            let w = choose|m: int| 0 <= m < v.tasks.len() && #[trigger] v.tasks[m].id == v.progress[k].0;
            assert(v2.tasks[w].id == v.progress[k].0);
        }
    } else {
        assert forall|k: int| 0 <= k < v2.progress.len() implies has_id(
            v2.tasks,
            #[trigger] v2.progress[k].0,
        ) by {
            let w = choose|m: int| 0 <= m < v.tasks.len() && #[trigger] v.tasks[m].id == v.progress[k].0;
            assert(v2.tasks[w].id == v.progress[k].0);
        }
    }
}

proof fn lemma_delete_wf(v: RepoView, id: u128)
    requires
        repo_wf(v),
    ensures
        repo_wf(after_delete(v, id)),
{
    let v2 = after_delete(v, id);
    assert forall|k: int| 0 <= k < v2.progress.len() implies has_id(
        v2.tasks,
        #[trigger] v2.progress[k].0,
    ) by {
        let pid = v2.progress[k].0;
        let kk = if has_progress(v.progress, id) && k >= progress_index(v.progress, id) {
            k + 1
        } else {
            k
        };
        assert(v.progress[kk].0 == pid);
        if pid == id {
            assert(has_progress(v.progress, id));
            let pi = progress_index(v.progress, id);
            assert(kk != pi);
            assert(v.progress[pi].0 == id);
            assert(false);
        }
        assert(has_id(v.tasks, pid));
        let w = choose|m: int| 0 <= m < v.tasks.len() && #[trigger] v.tasks[m].id == pid;
        if has_id(v.tasks, id) {
            let i = id_index(v.tasks, id);
            assert(w != i);
            if w < i {
                assert(v2.tasks[w].id == pid);
            } else {
                assert(v2.tasks[w - 1].id == pid);
            }
        } else {
            assert(v2.tasks[w].id == pid);
        }
    }
}

proof fn lemma_delete_progress_wf(v: RepoView, id: u128)
    requires
        repo_wf(v),
    ensures
        repo_wf(after_delete_progress(v, id)),
{
}

proof fn lemma_save_progress_wf(v: RepoView, id: u128, p: DownloadProgress, now: i64)
    requires
        repo_wf(v),
    ensures
        repo_wf(after_save_progress(v, id, p, now)),
{
}

/// The tables after saving each of `ts` in turn, at time `now`.
pub open spec fn after_saves(v: RepoView, ts: Seq<TaskView>, now: i64) -> RepoView
    decreases ts.len(),
{
    if ts.len() == 0 {
        v
    } else {
        after_save(after_saves(v, ts.drop_last(), now), ts.last(), now)
    }
}

/// The tables after deleting each of `ids` in turn.
pub open spec fn after_deletes(v: RepoView, ids: Seq<u128>) -> RepoView
    decreases ids.len(),
{
    if ids.len() == 0 {
        v
    } else {
        after_delete(after_deletes(v, ids.drop_last()), ids.last())
    }
}

/// Saving two tasks with the same URL into an empty repository, at times
/// `n1` and `n2`, leaves one row, the first task as stamped at `n1`, and the
/// second save hands back that first task.
pub proof fn lemma_duplicate_url_keeps_first(t1: TaskView, t2: TaskView, n1: i64, n2: i64)
    requires
        t1.url == t2.url,
    ensures
        after_save(after_save(empty_repo(), t1, n1), t2, n2).tasks == seq![stamped(t1, n1)],
        saved_task(after_save(empty_repo(), t1, n1), t2) == stamped(t1, n1),
{
    let v1 = after_save(empty_repo(), t1, n1);
    assert(!has_url(empty_repo().tasks, t1.url));
    assert(!has_id(empty_repo().tasks, t1.id));
    assert(v1.tasks =~= seq![stamped(t1, n1)]);
    assert(v1.tasks[0].url == t2.url);
    assert(has_url(v1.tasks, t2.url));
}

/// Deleting a task that is not stored changes neither table.
pub proof fn lemma_delete_absent(v: RepoView, id: u128)
    requires
        repo_wf(v),
        !has_id(v.tasks, id),
    ensures
        after_delete(v, id) == v,
{
    if has_progress(v.progress, id) {
        let i = progress_index(v.progress, id);
        assert(has_id(v.tasks, v.progress[i].0));
    }
}

/// After a task is deleted, neither it nor a progress row of it is left.
pub proof fn lemma_delete_cascades(v: RepoView, id: u128)
    requires
        repo_wf(v),
    ensures
        !has_id(after_delete(v, id).tasks, id),
        !has_progress(after_delete(v, id).progress, id),
{
    let v2 = after_delete(v, id);
    if has_id(v2.tasks, id) {
        let k = choose|m: int| 0 <= m < v2.tasks.len() && #[trigger] v2.tasks[m].id == id;
        let i = id_index(v.tasks, id);
        if k < i {
            assert(v.tasks[k].id == v.tasks[i].id);
        } else {
            assert(v.tasks[k + 1].id == v.tasks[i].id);
        }
    }
    if has_progress(v2.progress, id) {
        let k = choose|m: int| 0 <= m < v2.progress.len() && #[trigger] v2.progress[m].0 == id;
        let i = progress_index(v.progress, id);
        if k < i {
            assert(v.progress[k].0 == v.progress[i].0);
        } else {
            assert(v.progress[k + 1].0 == v.progress[i].0);
        }
    }
}

/// After clearing, no task is counted and no progress row is found.
pub proof fn lemma_clear_leaves_nothing(id: u128)
    ensures
        empty_repo().tasks.len() == 0,
        !has_id(empty_repo().tasks, id),
        !has_progress(empty_repo().progress, id),
{
}

proof fn lemma_saves_fresh(ts: Seq<TaskView>, now: i64)
    requires
        forall|i: int, j: int| 0 <= i < j < ts.len() ==> #[trigger] ts[i].url != #[trigger] ts[j].url,
        forall|i: int, j: int| 0 <= i < j < ts.len() ==> #[trigger] ts[i].id != #[trigger] ts[j].id,
    ensures
        after_saves(empty_repo(), ts, now).tasks == ts.map_values(|t: TaskView| stamped(t, now)),
        after_saves(empty_repo(), ts, now).progress == Seq::<(u128, DownloadProgress, i64)>::empty(),
    decreases ts.len(),
{
    if ts.len() > 0 {
        let front = ts.drop_last();
        lemma_saves_fresh(front, now);
        let t = ts.last();
        let done = front.map_values(|x: TaskView| stamped(x, now));
        if has_url(done, t.url) {
            let k = choose|m: int| 0 <= m < done.len() && #[trigger] done[m].url == t.url;
            assert(ts[k].url == ts[ts.len() - 1].url);
        }
        if has_id(done, t.id) {
            let k = choose|m: int| 0 <= m < done.len() && #[trigger] done[m].id == t.id;
            assert(ts[k].id == ts[ts.len() - 1].id);
        }
        assert(done.push(stamped(t, now)) =~= ts.map_values(|x: TaskView| stamped(x, now)));
    }
}

proof fn lemma_deletes_count(v: RepoView, ids: Seq<u128>)
    requires
        repo_wf(v),
        ids.no_duplicates(),
        forall|k: int| 0 <= k < ids.len() ==> has_id(v.tasks, #[trigger] ids[k]),
    ensures
        repo_wf(after_deletes(v, ids)),
        after_deletes(v, ids).tasks.len() == v.tasks.len() - ids.len(),
        forall|x: u128|
            #[trigger] has_id(after_deletes(v, ids).tasks, x) <==> (has_id(v.tasks, x) && !ids.contains(x)),
    decreases ids.len(),
{
    if ids.len() > 0 {
        let front = ids.drop_last();
        let l = ids.last();
        assert forall|k: int| 0 <= k < front.len() implies has_id(v.tasks, #[trigger] front[k]) by {
            assert(front[k] == ids[k]);
        }
        lemma_deletes_count(v, front);
        let w = after_deletes(v, front);
        lemma_delete_wf(w, l);
        assert(has_id(v.tasks, ids[ids.len() - 1]));
        if front.contains(l) {
            let k = choose|m: int| 0 <= m < front.len() && front[m] == l;
            assert(ids[k] == ids[ids.len() - 1]);
        }
        assert(has_id(w.tasks, l));
        let i = id_index(w.tasks, l);
        let w2 = after_delete(w, l);
        assert(w2.tasks == w.tasks.remove(i));
        assert forall|x: u128| #[trigger] has_id(w2.tasks, x) <==> (has_id(w.tasks, x) && x != l) by {
            if has_id(w2.tasks, x) {
                let k = choose|m: int| 0 <= m < w2.tasks.len() && #[trigger] w2.tasks[m].id == x;
                let kk = if k < i { k } else { k + 1 };
                assert(w.tasks[kk].id == x);
                assert(kk != i);
            }
            if has_id(w.tasks, x) && x != l {
                let k = choose|m: int| 0 <= m < w.tasks.len() && #[trigger] w.tasks[m].id == x;
                assert(k != i);
                if k < i {
                    assert(w2.tasks[k].id == x);
                } else {
                    assert(w2.tasks[k - 1].id == x);
                }
            }
        }
        assert forall|x: u128| ids.contains(x) <==> (front.contains(x) || x == l) by {
            if ids.contains(x) {
                let k = choose|m: int| 0 <= m < ids.len() && ids[m] == x;
                if k < ids.len() - 1 {
                    assert(front[k] == x);
                }
            }
            if front.contains(x) {
                let k = choose|m: int| 0 <= m < front.len() && front[m] == x;
                assert(ids[k] == x);
            }
            if x == l {
                assert(ids[ids.len() - 1] == x);
            }
        }
    }
}

/// Saving tasks with distinct URLs and identifiers into an empty repository,
/// then deleting some of them by identifier, each once, leaves as many tasks
/// as were saved less those deleted.
pub proof fn lemma_count_after_saves_and_deletes(ts: Seq<TaskView>, ids: Seq<u128>, now: i64)
    requires
        forall|i: int, j: int| 0 <= i < j < ts.len() ==> #[trigger] ts[i].url != #[trigger] ts[j].url,
        forall|i: int, j: int| 0 <= i < j < ts.len() ==> #[trigger] ts[i].id != #[trigger] ts[j].id,
        ids.no_duplicates(),
        forall|k: int| 0 <= k < ids.len() ==> has_id(ts, #[trigger] ids[k]),
    ensures
        after_deletes(after_saves(empty_repo(), ts, now), ids).tasks.len() == ts.len() - ids.len(),
{
    lemma_saves_fresh(ts, now);
    let v = after_saves(empty_repo(), ts, now);
    assert forall|k: int| 0 <= k < ids.len() implies has_id(v.tasks, #[trigger] ids[k]) by {
        let w = choose|m: int| 0 <= m < ts.len() && #[trigger] ts[m].id == ids[k];
        assert(v.tasks[w].id == ids[k]);
    }
    assert forall|i: int, j: int| 0 <= i < j < v.tasks.len() implies #[trigger] v.tasks[i].url
        != #[trigger] v.tasks[j].url by {
        assert(v.tasks[i].url == ts[i].url && v.tasks[j].url == ts[j].url);
    }
    assert forall|i: int, j: int| 0 <= i < j < v.tasks.len() implies #[trigger] v.tasks[i].id
        != #[trigger] v.tasks[j].id by {
        assert(v.tasks[i].id == ts[i].id && v.tasks[j].id == ts[j].id);
    }
    lemma_deletes_count(v, ids);
}

/// Whether `s` runs from the newest creation time to the oldest.
pub open spec fn newest_first(s: Seq<TaskView>) -> bool {
    forall|i: int, j: int| 0 <= i < j < s.len() ==> #[trigger] s[i].created_at >= #[trigger] s[j].created_at
}

pub open spec fn task_views(v: Seq<DownloadTask>) -> Seq<TaskView> {
    v.map_values(|t: DownloadTask| t@)
}

/// The tasks of `ts` with status `st`.
pub open spec fn with_status(ts: Seq<TaskView>, st: StatusView) -> Seq<TaskView> {
    ts.filter(|t: TaskView| t.status == st)
}

/// The same tasks, newest first; tasks created at the same second keep
/// their order.
pub fn sort_newest_first(v: Vec<DownloadTask>) -> (r: Vec<DownloadTask>)
    ensures
        newest_first(task_views(r@)),
        task_views(r@).to_multiset() == task_views(v@).to_multiset(),
{
    let mut out: Vec<DownloadTask> = Vec::new();
    let mut i: usize = 0;
    assert(task_views(out@) =~= task_views(v@.take(0)));
    while i < v.len()
        invariant
            i <= v.len(),
            newest_first(task_views(out@)),
            task_views(out@).to_multiset() == task_views(v@.take(i as int)).to_multiset(),
        decreases v.len() - i,
    {
        let x = v[i].duplicate();
        let mut k: usize = 0;
        while k < out.len() && out[k].created_at >= x.created_at
            invariant
                k <= out.len(),
                forall|m: int| 0 <= m < k ==> #[trigger] out@[m].created_at >= x.created_at,
            decreases out.len() - k,
        {
            k += 1;
        }
        let ghost before = task_views(out@);
        let ghost xv = x@;
        out.insert(k, x);
        proof {
            assert(task_views(out@) =~= before.insert(k as int, xv));
            vstd::seq_lib::to_multiset_insert(before, k as int, xv);
            assert(task_views(v@.take(i as int + 1)) =~= task_views(v@.take(i as int)).push(xv));
            vstd::seq_lib::to_multiset_build(task_views(v@.take(i as int)), xv);
            let s = task_views(out@);
            assert forall|a: int, b: int| 0 <= a < b < s.len() implies #[trigger] s[a].created_at
                >= #[trigger] s[b].created_at by {
                if b < k {
                    assert(s[a] == before[a] && s[b] == before[b]);
                } else if b == k {
                    assert(s[a] == before[a]);
                } else if a == k {
                    assert(s[b] == before[b - 1]);
                    if k < before.len() {
                        assert(before[k as int].created_at < xv.created_at);
                        assert(before[k as int].created_at >= before[b - 1].created_at || k == b - 1);
                    }
                } else if a < k {
                    assert(s[a] == before[a] && s[b] == before[b - 1]);
                } else {
                    assert(s[a] == before[a - 1] && s[b] == before[b - 1]);
                }
            }
        }
        i += 1;
    }
    assert(v@.take(v@.len() as int) =~= v@);
    out
}

fn status_position(counts: &Vec<(DownloadStatus, usize)>, st: &DownloadStatus) -> (r: Option<usize>)
    ensures
        match r {
            Some(k) => k < counts@.len() && counts@[k as int].0@ == st@,
            None => forall|m: int| 0 <= m < counts@.len() ==> #[trigger] counts@[m].0@ != st@,
        },
{
    let mut k: usize = 0;
    while k < counts.len()
        invariant
            k <= counts.len(),
            forall|m: int| 0 <= m < k ==> #[trigger] counts@[m].0@ != st@,
        decreases counts.len() - k,
    {
        if counts[k].0.same_as(st) {
            return Some(k);
        }
        k += 1;
    }
    None
}

/// The key text of an identifier in an error.
fn id_key(id: &TaskId) -> (r: String)
    ensures
        r@ == uuid_text(id.value),
{
    id.to_string()
}

/// Download tasks and progress rows kept in memory, by the rules above. This
/// is a model of the tables, not a front to a database: no SQL store stands
/// behind it, and what is proved of it is proved of it alone.
pub struct MemoryRepository {
    tasks: Vec<DownloadTask>,
    progress: Vec<(TaskId, DownloadProgress, i64)>,
}

impl View for MemoryRepository {
    type V = RepoView;

    closed spec fn view(&self) -> RepoView {
        RepoView {
            tasks: self.tasks@.map_values(|t: DownloadTask| t@),
            progress: self.progress@.map_values(|e: (TaskId, DownloadProgress, i64)| (e.0.value, e.1, e.2)),
        }
    }
}

impl MemoryRepository {
    pub open spec fn wf(&self) -> bool {
        repo_wf(self@)
    }

    /// An empty repository.
    pub fn new() -> (r: MemoryRepository)
        ensures
            r@ == empty_repo(),
            r.wf(),
    {
        let r = MemoryRepository { tasks: Vec::new(), progress: Vec::new() };
        assert(r@.tasks =~= Seq::<TaskView>::empty());
        assert(r@.progress =~= Seq::<(u128, DownloadProgress, i64)>::empty());
        r
    }

    fn url_position(&self, url: &String) -> (r: Option<usize>)
        ensures
            match r {
                Some(i) => i < self@.tasks.len() && self@.tasks[i as int].url == url@,
                None => !has_url(self@.tasks, url@),
            },
    {
        let mut i: usize = 0;
        while i < self.tasks.len()
            invariant
                i <= self.tasks.len(),
                self@.tasks.len() == self.tasks.len(),
                forall|j: int| 0 <= j < i ==> self@.tasks[j].url != url@,
            decreases self.tasks.len() - i,
        {
            if self.tasks[i].url == *url {
                return Some(i);
            }
            i += 1;
        }
        None
    }

    fn id_position(&self, id: &TaskId) -> (r: Option<usize>)
        ensures
            match r {
                Some(i) => i < self@.tasks.len() && self@.tasks[i as int].id == id.value,
                None => !has_id(self@.tasks, id.value),
            },
    {
        let mut i: usize = 0;
        while i < self.tasks.len()
            invariant
                i <= self.tasks.len(),
                self@.tasks.len() == self.tasks.len(),
                forall|j: int| 0 <= j < i ==> self@.tasks[j].id != id.value,
            decreases self.tasks.len() - i,
        {
            if self.tasks[i].id == *id {
                return Some(i);
            }
            i += 1;
        }
        None
    }

    fn progress_position(&self, id: &TaskId) -> (r: Option<usize>)
        ensures
            match r {
                Some(i) => i < self@.progress.len() && self@.progress[i as int].0 == id.value,
                None => !has_progress(self@.progress, id.value),
            },
    {
        let mut i: usize = 0;
        while i < self.progress.len()
            invariant
                i <= self.progress.len(),
                self@.progress.len() == self.progress.len(),
                forall|j: int| 0 <= j < i ==> self@.progress[j].0 != id.value,
            decreases self.progress.len() - i,
        {
            if self.progress[i].0 == *id {
                return Some(i);
            }
            i += 1;
        }
        None
    }

    /// The number of stored tasks.
    pub fn count_tasks(&self) -> (r: usize)
        ensures
            r == self@.tasks.len(),
    {
        self.tasks.len()
    }

    /// The task stored with this URL; `TaskNotFound` with the URL where there is none.
    pub fn get_task_by_url(&self, url: &str) -> (r: Result<DownloadTask, DownloadDbError>)
        requires
            self.wf(),
        ensures
            has_url(self@.tasks, url@) ==> (r matches Ok(t) && t@ == self@.tasks[url_index(
                self@.tasks,
                url@,
            )]),
            !has_url(self@.tasks, url@) ==> (r matches Err(DownloadDbError::TaskNotFound(k))
                && k@ == url@),
    {
        let key = String::from_str(url);
        match self.url_position(&key) {
            Some(i) => {
                let ghost j = url_index(self@.tasks, url@);
                assert(i == j);
                Ok(self.tasks[i].duplicate())
            },
            None => Err(DownloadDbError::TaskNotFound(key)),
        }
    }

    /// The task stored with this identifier; `TaskNotFound` with the
    /// identifier's text where there is none.
    pub fn get_task(&self, id: &TaskId) -> (r: Result<DownloadTask, DownloadDbError>)
        requires
            self.wf(),
        ensures
            has_id(self@.tasks, id.value) ==> (r matches Ok(t) && t@ == self@.tasks[id_index(
                self@.tasks,
                id.value,
            )]),
            !has_id(self@.tasks, id.value) ==> (r matches Err(DownloadDbError::TaskNotFound(k))
                && k@ == uuid_text(id.value)),
    {
        match self.id_position(id) {
            Some(i) => {
                let ghost j = id_index(self@.tasks, id.value);
                assert(i == j);
                Ok(self.tasks[i].duplicate())
            },
            None => Err(DownloadDbError::TaskNotFound(id_key(id))),
        }
    }

    /// Every stored task, newest first.
    pub fn list_tasks(&self) -> (r: Vec<DownloadTask>)
        ensures
            newest_first(task_views(r@)),
            task_views(r@).to_multiset() == self@.tasks.to_multiset(),
    {
        let mut all: Vec<DownloadTask> = Vec::new();
        let mut i: usize = 0;
        assert(task_views(all@) =~= self@.tasks.take(0));
        while i < self.tasks.len()
            invariant
                i <= self.tasks.len(),
                self@.tasks.len() == self.tasks.len(),
                task_views(all@) == self@.tasks.take(i as int),
            decreases self.tasks.len() - i,
        {
            let ghost pre = task_views(all@);
            let d = self.tasks[i].duplicate();
            assert(d@ == self@.tasks[i as int]);
            all.push(d);
            assert(task_views(all@) =~= pre.push(d@));
            assert(self@.tasks.take(i as int + 1) =~= self@.tasks.take(i as int).push(d@));
            i += 1;
        }
        assert(self@.tasks.take(self.tasks.len() as int) =~= self@.tasks);
        sort_newest_first(all)
    }

    /// The stored tasks with status `status`, newest first.
    pub fn list_tasks_by_status(&self, status: &DownloadStatus) -> (r: Vec<DownloadTask>)
        ensures
            newest_first(task_views(r@)),
            task_views(r@).to_multiset() == with_status(self@.tasks, status@).to_multiset(),
    {
        let mut chosen: Vec<DownloadTask> = Vec::new();
        let mut i: usize = 0;
        assert(task_views(chosen@) =~= with_status(self@.tasks.take(0), status@));
        while i < self.tasks.len()
            invariant
                i <= self.tasks.len(),
                self@.tasks.len() == self.tasks.len(),
                task_views(chosen@) == with_status(self@.tasks.take(i as int), status@),
            decreases self.tasks.len() - i,
        {
            let ghost pre = self@.tasks.take(i as int);
            assert(self@.tasks.take(i as int + 1).drop_last() =~= pre);
            let ghost before = task_views(chosen@);
            let ghost x = self@.tasks[i as int];
            assert(self@.tasks.take(i as int + 1).last() == x);
            assert(x == self.tasks@[i as int]@);
            reveal(Seq::filter);
            assert(with_status(self@.tasks.take(i as int + 1), status@) == (if x.status == status@ {
                with_status(pre, status@).push(x)
            } else {
                with_status(pre, status@)
            }));
            if self.tasks[i].status.same_as(status) {
                let d = self.tasks[i].duplicate();
                chosen.push(d);
                assert(task_views(chosen@) =~= before.push(x));
            } else {
                assert(task_views(chosen@) =~= before);
            }
            i += 1;
        }
        assert(self@.tasks.take(self.tasks.len() as int) =~= self@.tasks);
        sort_newest_first(chosen)
    }

    /// One entry per distinct status of the stored tasks, with the number of
    /// tasks that have it.
    pub fn count_tasks_by_status(&self) -> (r: Vec<(DownloadStatus, usize)>)
        ensures
            forall|k: int|
                0 <= k < r@.len() ==> #[trigger] r@[k].1 == with_status(self@.tasks, r@[k].0@).len()
                    && r@[k].1 > 0,
            forall|a: int, b: int| 0 <= a < b < r@.len() ==> #[trigger] r@[a].0@ != #[trigger] r@[b].0@,
            forall|j: int|
                0 <= j < self@.tasks.len() ==> exists|k: int|
                    0 <= k < r@.len() && #[trigger] r@[k].0@ == #[trigger] self@.tasks[j].status,
    {
        let mut out: Vec<(DownloadStatus, usize)> = Vec::new();
        let mut i: usize = 0;
        while i < self.tasks.len()
            invariant
                i <= self.tasks.len(),
                self@.tasks.len() == self.tasks.len(),
                forall|k: int|
                    0 <= k < out@.len() ==> #[trigger] out@[k].1 == with_status(
                        self@.tasks.take(i as int),
                        out@[k].0@,
                    ).len() && out@[k].1 > 0,
                forall|a: int, b: int|
                    0 <= a < b < out@.len() ==> #[trigger] out@[a].0@ != #[trigger] out@[b].0@,
                forall|j: int|
                    0 <= j < i ==> exists|k: int|
                        0 <= k < out@.len() && #[trigger] out@[k].0@ == #[trigger] self@.tasks[j].status,
            decreases self.tasks.len() - i,
        {
            let ghost pre = self@.tasks.take(i as int);
            let ghost x = self@.tasks[i as int];
            let ghost old_out = out@;
            assert(x == self.tasks@[i as int]@);
            proof {
                reveal(Seq::filter);
                assert(self@.tasks.take(i as int + 1).drop_last() =~= pre);
                assert(self@.tasks.take(i as int + 1).last() == x);
                assert forall|st: StatusView| #[trigger] with_status(self@.tasks.take(i as int + 1), st).len()
                    == with_status(pre, st).len() + (if x.status == st { 1int } else { 0int }) by {
                    assert(with_status(self@.tasks.take(i as int + 1), st) == (if x.status == st {
                        with_status(pre, st).push(x)
                    } else {
                        with_status(pre, st)
                    }));
                }
                pre.lemma_filter_len(|t: TaskView| t.status == x.status);
            }
            let pos = status_position(&out, &self.tasks[i].status);
            if let Some(k) = pos {
                let n = out[k].1;
                assert(n == with_status(pre, x.status).len());
                assert(with_status(pre, x.status).len() <= pre.len());
                let st = out[k].0.duplicate();
                out.set(k, (st, n + 1));
                assert forall|m: int| 0 <= m < out@.len() implies #[trigger] out@[m].1 == with_status(
                    self@.tasks.take(i as int + 1),
                    out@[m].0@,
                ).len() && out@[m].1 > 0 by {
                    if m != k {
                        assert(out@[m] == old_out[m]);
                        assert(old_out[m].0@ != x.status);
                    }
                }
                assert forall|a: int, b: int| 0 <= a < b < out@.len() implies #[trigger] out@[a].0@
                    != #[trigger] out@[b].0@ by {
                    assert(out@[a].0@ == old_out[a].0@);
                    assert(out@[b].0@ == old_out[b].0@);
                }
                assert forall|j: int| 0 <= j < i + 1 implies exists|kk: int|
                    0 <= kk < out@.len() && #[trigger] out@[kk].0@ == #[trigger] self@.tasks[j].status by {
                    if j < i {
                        let kk = choose|kk: int| 0 <= kk < old_out.len() && #[trigger] old_out[kk].0@
                            == self@.tasks[j].status;
                        assert(out@[kk].0@ == old_out[kk].0@);
                    } else {
                        assert(out@[k as int].0@ == self@.tasks[j].status);
                    }
                }
            } else {
                out.push((self.tasks[i].status.duplicate(), 1));
                assert forall|a: int, b: int| 0 <= a < b < out@.len() implies #[trigger] out@[a].0@
                    != #[trigger] out@[b].0@ by {
                    assert(out@[a] == old_out[a]);
                    if b < old_out.len() {
                        assert(out@[b] == old_out[b]);
                    }
                }
                assert(with_status(pre, x.status).len() == 0) by {
                    if with_status(pre, x.status).len() > 0 {
                        let f = with_status(pre, x.status);
                        let w = f[0];
                        pre.lemma_filter_pred(|t: TaskView| t.status == x.status, 0);
                        assert(f.contains(w));
                        pre.lemma_filter_contains_rev(|t: TaskView| t.status == x.status, w);
                        let jj = choose|jj: int| 0 <= jj < pre.len() && pre[jj] == w;
                        assert(w.status == x.status);
                        assert(self@.tasks[jj] == pre[jj]);
                        assert(0 <= jj < i);
                        let kk = choose|kk: int| 0 <= kk < old_out.len() && #[trigger] old_out[kk].0@
                            == #[trigger] self@.tasks[jj].status;
                        assert(old_out[kk].0@ == x.status);
                    }
                }
                assert forall|j: int| 0 <= j < i + 1 implies exists|kk: int|
                    0 <= kk < out@.len() && #[trigger] out@[kk].0@ == #[trigger] self@.tasks[j].status by {
                    if j < i {
                        let kk = choose|kk: int| 0 <= kk < old_out.len() && #[trigger] old_out[kk].0@
                            == self@.tasks[j].status;
                        assert(out@[kk] == old_out[kk]);
                    } else {
                        assert(out@[old_out.len() as int].0@ == self@.tasks[j].status);
                    }
                }
            }
            i += 1;
        }
        assert(self@.tasks.take(self.tasks.len() as int) =~= self@.tasks);
        out
    }

    /// Saves `task` at time `now`. Where a task with its URL is stored,
    /// nothing changes and that task is handed back. Else, where a task with
    /// its identifier is stored, its URL, path and status are overwritten and
    /// its update time becomes `now`; else `task` is added with `now` as
    /// creation and update time. Then `task` is handed back.
    pub fn save_task(&mut self, task: &DownloadTask, now: i64) -> (r: DownloadTask)
        requires
            old(self).wf(),
        ensures
            final(self).wf(),
            final(self)@ == after_save(old(self)@, task@, now),
            r@ == saved_task(old(self)@, task@),
    {
        proof {
            lemma_save_wf(self@, task@, now);
        }
        match self.url_position(&task.url) {
            Some(i) => {
                let ghost j = url_index(self@.tasks, task@.url);
                assert(i == j);
                return self.tasks[i].duplicate();
            },
            None => {},
        }
        let ghost v = self@;
        match self.id_position(&task.id) {
            Some(i) => {
                let ghost j = id_index(self@.tasks, task.id.value);
                assert(i == j);
                let old_task = &self.tasks[i];
                let updated = DownloadTask {
                    id: old_task.id,
                    url: task.url.clone(),
                    target_path: task.target_path.clone(),
                    status: task.status.duplicate(),
                    created_at: old_task.created_at,
                    updated_at: now,
                };
                self.tasks.set(i, updated);
                assert(self@.tasks =~= v.tasks.update(j, overwritten(v.tasks[j], task@, now)));
            },
            None => {
                let mut added = task.duplicate();
                added.created_at = now;
                added.updated_at = now;
                self.tasks.push(added);
                assert(self@.tasks =~= v.tasks.push(stamped(task@, now)));
            },
        }
        assert(self@.progress =~= v.progress);
        task.duplicate()
    }

    /// Deletes task `id` and its progress row. Deleting an absent task changes nothing.
    pub fn delete_task(&mut self, id: &TaskId)
        requires
            old(self).wf(),
        ensures
            final(self).wf(),
            final(self)@ == after_delete(old(self)@, id.value),
    {
        proof {
            lemma_delete_wf(self@, id.value);
        }
        let ghost v = self@;
        match self.id_position(id) {
            Some(i) => {
                let ghost j = id_index(v.tasks, id.value);
                assert(i == j);
                self.tasks.remove(i);
                assert(self@.tasks =~= v.tasks.remove(j));
            },
            None => {},
        }
        let ghost v1 = self@;
        assert(v1.progress =~= v.progress);
        match self.progress_position(id) {
            Some(i) => {
                let ghost j = progress_index(v.progress, id.value);
                assert(i == j);
                self.progress.remove(i);
                assert(self@.progress =~= v.progress.remove(j));
            },
            None => {},
        }
        assert(self@.tasks =~= after_delete(v, id.value).tasks);
        assert(self@.progress =~= after_delete(v, id.value).progress);
    }

    /// Saves `progress` as the snapshot of task `id` at time `now`, replacing
    /// every field of an earlier one, its update time included. Where no such
    /// task is stored the save is refused with `TaskNotFound` and the
    /// identifier's text; the stored tables leave that check to the foreign
    /// key, which reports it as a store error.
    pub fn save_progress(&mut self, id: &TaskId, progress: &DownloadProgress, now: i64) -> (r: Result<
        (),
        DownloadDbError,
    >)
        requires
            old(self).wf(),
        ensures
            final(self).wf(),
            final(self)@ == after_save_progress(old(self)@, id.value, *progress, now),
            has_id(old(self)@.tasks, id.value) ==> r is Ok,
            !has_id(old(self)@.tasks, id.value) ==> (r matches Err(
                DownloadDbError::TaskNotFound(k),
            ) && k@ == uuid_text(id.value)),
    {
        proof {
            lemma_save_progress_wf(self@, id.value, *progress, now);
        }
        let ghost v = self@;
        if self.id_position(id).is_none() {
            return Err(DownloadDbError::TaskNotFound(id_key(id)));
        }
        match self.progress_position(id) {
            Some(i) => {
                let ghost j = progress_index(v.progress, id.value);
                assert(i == j);
                self.progress.set(i, (*id, *progress, now));
                assert(self@.progress =~= v.progress.update(j, (id.value, *progress, now)));
            },
            None => {
                self.progress.push((*id, *progress, now));
                assert(self@.progress =~= v.progress.push((id.value, *progress, now)));
            },
        }
        assert(self@.tasks =~= v.tasks);
        Ok(())
    }

    /// The progress snapshot of task `id`; `TaskNotFound` with the
    /// identifier's text where none is stored.
    pub fn get_progress(&self, id: &TaskId) -> (r: Result<DownloadProgress, DownloadDbError>)
        requires
            self.wf(),
        ensures
            has_progress(self@.progress, id.value) ==> r == Ok::<DownloadProgress, DownloadDbError>(
                self@.progress[progress_index(self@.progress, id.value)].1,
            ),
            !has_progress(self@.progress, id.value) ==> (r matches Err(
                DownloadDbError::TaskNotFound(k),
            ) && k@ == uuid_text(id.value)),
    {
        match self.progress_position(id) {
            Some(i) => {
                let ghost j = progress_index(self@.progress, id.value);
                assert(i == j);
                Ok(self.progress[i].1)
            },
            None => Err(DownloadDbError::TaskNotFound(id_key(id))),
        }
    }

    /// Deletes the progress row of task `id`, where there is one.
    pub fn delete_progress(&mut self, id: &TaskId)
        requires
            old(self).wf(),
        ensures
            final(self).wf(),
            final(self)@ == after_delete_progress(old(self)@, id.value),
    {
        proof {
            lemma_delete_progress_wf(self@, id.value);
        }
        let ghost v = self@;
        match self.progress_position(id) {
            Some(i) => {
                let ghost j = progress_index(v.progress, id.value);
                assert(i == j);
                self.progress.remove(i);
                assert(self@.progress =~= v.progress.remove(j));
            },
            None => {},
        }
        assert(self@.tasks =~= v.tasks);
    }

    /// Deletes every progress row, then every task.
    pub fn clear_all(&mut self)
        ensures
            final(self).wf(),
            final(self)@ == empty_repo(),
    {
        self.progress.clear();
        self.tasks.clear();
        assert(self@.tasks =~= Seq::<TaskView>::empty());
        assert(self@.progress =~= Seq::<(u128, DownloadProgress, i64)>::empty());
    }
}

} // verus!
