//! Download tasks and progress snapshots, and the flat rows that store them.

use crate::error::DownloadDbError;
use crate::identifier::{lemma_uuid_text_parses, uuid_of_text, uuid_text, TaskId};
use crate::status::{lemma_plain_status_round_trip, status_of_text, status_text, DownloadStatus, StatusView};
use vstd::prelude::*;

verus! {

/// Relies on `chrono::Utc::now`: the current time in whole seconds since the
/// Unix epoch. It depends on the clock, so nothing is promised of it.
#[verifier::external_body]
fn now_seconds() -> (r: i64) {
    chrono::Utc::now().timestamp()
}

/// One download: where it comes from, where it goes and how far it is.
#[derive(Clone, Debug)]
pub struct DownloadTask {
    pub id: TaskId,
    pub url: String,
    pub target_path: String,
    pub status: DownloadStatus,
    /// Seconds since the Unix epoch.
    pub created_at: i64,
    /// Seconds since the Unix epoch.
    pub updated_at: i64,
}

pub struct TaskView {
    pub id: u128,
    pub url: Seq<char>,
    pub target_path: Seq<char>,
    pub status: StatusView,
    pub created_at: i64,
    pub updated_at: i64,
}

impl View for DownloadTask {
    type V = TaskView;

    open spec fn view(&self) -> TaskView {
        TaskView {
            id: self.id.value,
            url: self.url@,
            target_path: self.target_path@,
            status: self.status@,
            created_at: self.created_at,
            updated_at: self.updated_at,
        }
    }
}

/// `t` with both timestamps set to `now`.
pub open spec fn stamped(t: TaskView, now: i64) -> TaskView {
    TaskView { created_at: now, updated_at: now, ..t }
}

impl DownloadTask {
    /// A waiting task with a fresh identifier, created now.
    pub fn new(url: String, target_path: String) -> (r: DownloadTask)
        ensures
            r.url@ == url@,
            r.target_path@ == target_path@,
            r.status@ == StatusView::Waiting,
            r.created_at == r.updated_at,
    {
        let now = now_seconds();
        DownloadTask {
            id: TaskId::new(),
            url,
            target_path,
            status: DownloadStatus::Waiting,
            created_at: now,
            updated_at: now,
        }
    }

    /// A copy with the same value.
    pub fn duplicate(&self) -> (r: DownloadTask)
        ensures
            r@ == self@,
    {
        DownloadTask {
            id: self.id,
            url: self.url.clone(),
            target_path: self.target_path.clone(),
            status: self.status.duplicate(),
            created_at: self.created_at,
            updated_at: self.updated_at,
        }
    }
}

/// A snapshot of how far a download has come.
#[derive(Clone, Copy, Debug, PartialEq, Eq, Structural)]
pub struct DownloadProgress {
    pub downloaded_bytes: u64,
    /// Unknown where absent.
    pub total_bytes: Option<u64>,
    pub speed_bps: u64,
    /// Seconds left; unknown where absent.
    pub eta_seconds: Option<u64>,
}

impl DownloadProgress {
    /// The completed share as `(downloaded, total)`, where the total is known
    /// and not zero; the percentage is `100 * downloaded / total`.
    pub fn completion_fraction(&self) -> (r: Option<(u64, u64)>)
        ensures
            r == (match self.total_bytes {
                Some(t) => if t != 0 {
                    Some((self.downloaded_bytes, t))
                } else {
                    None
                },
                None => None,
            }),
    {
        match self.total_bytes {
            Some(t) => if t != 0 {
                Some((self.downloaded_bytes, t))
            } else {
                None
            },
            None => None,
        }
    }
}

/// The stored row of a task.
#[derive(Clone, Debug)]
pub struct DownloadTaskRecord {
    /// The identifier's hyphenated text.
    pub id: String,
    pub url: String,
    pub target_path: String,
    /// The status's stored text.
    pub status: String,
    /// Seconds since the Unix epoch.
    pub created_at: i64,
    /// Seconds since the Unix epoch.
    pub updated_at: i64,
}

pub struct TaskRecordView {
    pub id: Seq<char>,
    pub url: Seq<char>,
    pub target_path: Seq<char>,
    pub status: Seq<char>,
    pub created_at: i64,
    pub updated_at: i64,
}

impl View for DownloadTaskRecord {
    type V = TaskRecordView;

    open spec fn view(&self) -> TaskRecordView {
        TaskRecordView {
            id: self.id@,
            url: self.url@,
            target_path: self.target_path@,
            status: self.status@,
            created_at: self.created_at,
            updated_at: self.updated_at,
        }
    }
}

/// The row that stores `t`, written at time `now`.
pub open spec fn record_of_task(t: TaskView, now: i64) -> TaskRecordView {
    TaskRecordView {
        id: uuid_text(t.id),
        url: t.url,
        target_path: t.target_path,
        status: status_text(t.status),
        created_at: now,
        updated_at: now,
    }
}

/// The task that a row stores, where its status and identifier both read.
pub open spec fn task_of_record(r: TaskRecordView) -> Option<TaskView> {
    match (status_of_text(r.status), uuid_of_text(r.id)) {
        (Some(s), Some(id)) => Some(
            TaskView {
                id,
                url: r.url,
                target_path: r.target_path,
                status: s,
                created_at: r.created_at,
                updated_at: r.updated_at,
            },
        ),
        _ => None,
    }
}

/// What reading row `rec` gives: an unreadable status text is reported
/// first, then an unreadable identifier; else the task that the row stores.
pub open spec fn decodes_as(rec: TaskRecordView, r: Result<DownloadTask, DownloadDbError>) -> bool {
    &&& status_of_text(rec.status) is None ==> (r matches Err(DownloadDbError::InvalidStatus(s))
        && s@ == rec.status)
    &&& status_of_text(rec.status) is Some && uuid_of_text(rec.id) is None ==> (r matches Err(
        DownloadDbError::InvalidIdentifier(s),
    ) && s@ == rec.id)
    &&& task_of_record(rec) matches Some(t) ==> (r matches Ok(task) && task@ == t)
}

/// Writing a task whose status carries no data to a row and reading the row
/// back gives the task, with both timestamps set to the time of writing.
pub proof fn lemma_task_round_trip(t: TaskView, now: i64)
    requires
        !(t.status is Failed),
    ensures
        task_of_record(record_of_task(t, now)) == Some(stamped(t, now)),
{
    lemma_plain_status_round_trip(t.status);
    lemma_uuid_text_parses(t.id);
}

/// The error of reading a row that does not read as a task.
pub open spec fn decode_error(rec: TaskRecordView, e: DownloadDbError) -> bool {
    if status_of_text(rec.status) is None {
        e matches DownloadDbError::InvalidStatus(s) && s@ == rec.status
    } else {
        e matches DownloadDbError::InvalidIdentifier(s) && s@ == rec.id
    }
}

impl DownloadTaskRecord {
    /// The row for `task`, stamped with `now` as both creation and update time.
    /// The row reads back as the task.
    pub fn from_task_at(task: &DownloadTask, now: i64) -> (r: Result<DownloadTaskRecord, serde_json::Error>)
        ensures
            r is Ok,
            r matches Ok(rec) ==> rec@ == record_of_task(task@, now) && task_of_record(rec@)
                == Some(stamped(task@, now)),
    {
        let status = match task.status.to_text() {
            Ok(s) => s,
            Err(e) => {
                return Err(e);
            },
        };
        let id = task.id.to_string();
        proof {
            lemma_uuid_text_parses(task.id.value);
        }
        Ok(DownloadTaskRecord {
            id,
            url: task.url.clone(),
            target_path: task.target_path.clone(),
            status,
            created_at: now,
            updated_at: now,
        })
    }

    /// The row for `task`, stamped with the current time.
    pub fn from_task(task: &DownloadTask) -> (r: Result<DownloadTaskRecord, serde_json::Error>)
        ensures
            r is Ok,
            r matches Ok(rec) ==> rec@ == record_of_task(task@, rec.created_at) && task_of_record(
                rec@,
            ) == Some(stamped(task@, rec.created_at)),
    {
        DownloadTaskRecord::from_task_at(task, now_seconds())
    }

    /// The task that the row stores. The status text is read first, then the
    /// identifier; the first that does not read is the error.
    pub fn to_task(&self) -> (r: Result<DownloadTask, DownloadDbError>)
        ensures
            decodes_as(self@, r),
    {
        let status = match DownloadStatus::from_text(self.status.as_str()) {
            Some(s) => s,
            None => {
                return Err(DownloadDbError::InvalidStatus(self.status.clone()));
            },
        };
        let id = match TaskId::from_string(self.id.as_str()) {
            Some(id) => id,
            None => {
                return Err(DownloadDbError::InvalidIdentifier(self.id.clone()));
            },
        };
        Ok(
            DownloadTask {
                id,
                url: self.url.clone(),
                target_path: self.target_path.clone(),
                status,
                created_at: self.created_at,
                updated_at: self.updated_at,
            },
        )
    }
}

/// The stored row of a progress snapshot.
#[derive(Clone, Debug)]
pub struct DownloadProgressRecord {
    /// The owning task's identifier text.
    pub task_id: String,
    pub downloaded_bytes: i64,
    pub total_bytes: Option<i64>,
    pub speed_bps: i64,
    pub eta_seconds: Option<i64>,
    /// Seconds since the Unix epoch.
    pub updated_at: i64,
}

/// A count as stored in a signed column: the same 64 bits.
pub open spec fn stored_count(n: u64) -> i64 {
    n as i64
}

/// A count as read back from a signed column.
pub open spec fn read_count(n: i64) -> u64 {
    n as u64
}

pub open spec fn stored_opt(n: Option<u64>) -> Option<i64> {
    match n {
        Some(v) => Some(stored_count(v)),
        None => None,
    }
}

pub open spec fn read_opt(n: Option<i64>) -> Option<u64> {
    match n {
        Some(v) => Some(read_count(v)),
        None => None,
    }
}

pub struct ProgressRecordView {
    pub task_id: Seq<char>,
    pub downloaded_bytes: i64,
    pub total_bytes: Option<i64>,
    pub speed_bps: i64,
    pub eta_seconds: Option<i64>,
    pub updated_at: i64,
}

impl View for DownloadProgressRecord {
    type V = ProgressRecordView;

    open spec fn view(&self) -> ProgressRecordView {
        ProgressRecordView {
            task_id: self.task_id@,
            downloaded_bytes: self.downloaded_bytes,
            total_bytes: self.total_bytes,
            speed_bps: self.speed_bps,
            eta_seconds: self.eta_seconds,
            updated_at: self.updated_at,
        }
    }
}

/// The row that stores progress `p` of the task with identifier `id`,
/// written at time `now`.
pub open spec fn record_of_progress(id: u128, p: DownloadProgress, now: i64) -> ProgressRecordView {
    ProgressRecordView {
        task_id: uuid_text(id),
        downloaded_bytes: stored_count(p.downloaded_bytes),
        total_bytes: stored_opt(p.total_bytes),
        speed_bps: stored_count(p.speed_bps),
        eta_seconds: stored_opt(p.eta_seconds),
        updated_at: now,
    }
}

/// The progress that a row stores.
pub open spec fn progress_of_record(r: ProgressRecordView) -> DownloadProgress {
    DownloadProgress {
        downloaded_bytes: read_count(r.downloaded_bytes),
        total_bytes: read_opt(r.total_bytes),
        speed_bps: read_count(r.speed_bps),
        eta_seconds: read_opt(r.eta_seconds),
    }
}

fn store_opt(n: Option<u64>) -> (r: Option<i64>)
    ensures
        r == stored_opt(n),
{
    match n {
        Some(v) => Some(v as i64),
        None => None,
    }
}

fn read_opt_exec(n: Option<i64>) -> (r: Option<u64>)
    ensures
        r == read_opt(n),
{
    match n {
        Some(v) => Some(v as u64),
        None => None,
    }
}

/// A count survives the trip through a signed column.
pub proof fn lemma_count_round_trip(n: u64)
    ensures
        read_count(stored_count(n)) == n,
{
    assert((n as i64) as u64 == n) by (bit_vector);
}

impl DownloadProgressRecord {
    /// The row for `progress` of task `task_id`, written at time `now`.
    pub fn from_progress_at(task_id: &TaskId, progress: &DownloadProgress, now: i64) -> (r:
        DownloadProgressRecord)
        ensures
            r@ == record_of_progress(task_id.value, *progress, now),
    {
        DownloadProgressRecord {
            task_id: task_id.to_string(),
            downloaded_bytes: progress.downloaded_bytes as i64,
            total_bytes: store_opt(progress.total_bytes),
            speed_bps: progress.speed_bps as i64,
            eta_seconds: store_opt(progress.eta_seconds),
            updated_at: now,
        }
    }

    /// The row for `progress` of task `task_id`, stamped with the current time.
    pub fn from_progress(task_id: &TaskId, progress: &DownloadProgress) -> (r:
        DownloadProgressRecord)
        ensures
            r@ == record_of_progress(task_id.value, *progress, r.updated_at),
    {
        DownloadProgressRecord::from_progress_at(task_id, progress, now_seconds())
    }

    /// The progress that the row stores.
    pub fn to_progress(&self) -> (r: DownloadProgress)
        ensures
            r == progress_of_record(self@),
    {
        DownloadProgress {
            downloaded_bytes: self.downloaded_bytes as u64,
            total_bytes: read_opt_exec(self.total_bytes),
            speed_bps: self.speed_bps as u64,
            eta_seconds: read_opt_exec(self.eta_seconds),
        }
    }
}

/// Writing a progress snapshot to a row and reading it back gives the
/// snapshot: bytes downloaded, total, speed and time left all survive.
pub proof fn lemma_progress_round_trip(id: u128, p: DownloadProgress, now: i64)
    ensures
        progress_of_record(record_of_progress(id, p, now)) == p,
{
    lemma_count_round_trip(p.downloaded_bytes);
    lemma_count_round_trip(p.speed_bps);
    if let Some(t) = p.total_bytes {
        lemma_count_round_trip(t);
    }
    if let Some(e) = p.eta_seconds {
        lemma_count_round_trip(e);
    }
}

} // verus!
