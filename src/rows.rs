//! What the stored repository makes of the rows that its queries return,
//! and what it writes when it saves a task.

use crate::error::DownloadDbError;
use crate::models::{
    decode_error, decodes_as, record_of_task, stamped, task_of_record, DownloadProgress,
    DownloadProgressRecord, DownloadTask, DownloadTaskRecord, progress_of_record, TaskView,
};
use vstd::prelude::*;

verus! {

/// The task of the row that a lookup by `key` returned; `TaskNotFound` with
/// `key` where it returned none.
pub fn task_from_row(key: &str, row: Option<DownloadTaskRecord>) -> (r: Result<
    DownloadTask,
    DownloadDbError,
>)
    ensures
        row is None ==> (r matches Err(DownloadDbError::TaskNotFound(k)) && k@ == key@),
        row matches Some(rec) ==> decodes_as(rec@, r),
{
    match row {
        Some(rec) => rec.to_task(),
        None => Err(DownloadDbError::TaskNotFound(String::from_str(key))),
    }
}

/// Whether every row of `rows` reads as a task.
pub open spec fn all_decode(rows: Seq<DownloadTaskRecord>) -> bool {
    forall|k: int| 0 <= k < rows.len() ==> (#[trigger] task_of_record(rows[k]@)) is Some
}

/// The tasks of all rows, in their order; the error of the first row that
/// does not read, where one does not.
pub fn tasks_from_rows(rows: &Vec<DownloadTaskRecord>) -> (r: Result<
    Vec<DownloadTask>,
    DownloadDbError,
>)
    ensures
        r is Ok <==> all_decode(rows@),
        r matches Ok(v) ==> v@.len() == rows@.len() && forall|k: int|
            0 <= k < rows@.len() ==> task_of_record(rows@[k]@) == Some(#[trigger] v@[k]@),
        r matches Err(e) ==> exists|k: int|
            0 <= k < rows@.len() && all_decode(rows@.take(k)) && task_of_record(
                #[trigger] rows@[k]@,
            ) is None && decode_error(rows@[k]@, e),
{
    let mut out: Vec<DownloadTask> = Vec::new();
    let mut i: usize = 0;
    while i < rows.len()
        invariant
            i <= rows.len(),
            out@.len() == i,
            all_decode(rows@.take(i as int)),
            forall|k: int| 0 <= k < i ==> task_of_record(rows@[k]@) == Some(#[trigger] out@[k]@),
        decreases rows.len() - i,
    {
        let res = rows[i].to_task();
        match res {
            Ok(t) => {
                out.push(t);
                assert forall|k: int| 0 <= k < i + 1 implies (#[trigger] task_of_record(
                    rows@.take(i as int + 1)[k]@,
                )) is Some by {
                    if k < i {
                        assert(rows@.take(i as int)[k] == rows@[k]);
                    }
                }
            },
            Err(e) => {
                assert(task_of_record(rows@[i as int]@) is None);
                assert(decode_error(rows@[i as int]@, e));
                return Err(e);
            },
        }
        i += 1;
    }
    proof {
        assert(rows@.take(rows@.len() as int) =~= rows@);
    }
    Ok(out)
}

/// The progress of the row that a lookup by `key` returned; `TaskNotFound`
/// with `key` where it returned none.
pub fn progress_from_row(key: &str, row: Option<DownloadProgressRecord>) -> (r: Result<
    DownloadProgress,
    DownloadDbError,
>)
    ensures
        row is None ==> (r matches Err(DownloadDbError::TaskNotFound(k)) && k@ == key@),
        row matches Some(rec) ==> r == Ok::<DownloadProgress, DownloadDbError>(
            progress_of_record(rec@),
        ),
{
    match row {
        Some(rec) => Ok(rec.to_progress()),
        None => Err(DownloadDbError::TaskNotFound(String::from_str(key))),
    }
}

/// What saving a task does to the task table.
pub enum SaveStep {
    /// A task with the URL is stored: hand it back, write nothing.
    UseExisting(DownloadTask),
    /// Insert this row, or overwrite the row with its identifier.
    Insert(DownloadTaskRecord),
}

/// Decides a save from the result of looking the task's URL up: a task
/// found is handed back; where none has the URL, the task's row, stamped
/// `now`, is written; any other failure of the lookup is the result.
pub fn plan_save_task(existing: Result<DownloadTask, DownloadDbError>, task: &DownloadTask, now: i64) -> (r: Result<
    SaveStep,
    DownloadDbError,
>)
    ensures
        existing matches Ok(e) ==> (r matches Ok(SaveStep::UseExisting(x)) && x@ == e@),
        existing matches Err(DownloadDbError::TaskNotFound(_)) ==> (r matches Ok(
            SaveStep::Insert(rec),
        ) && rec@ == record_of_task(task@, now) && task_of_record(rec@) == Some(
            stamped(task@, now),
        )),
        existing is Err && !(existing matches Err(DownloadDbError::TaskNotFound(_))) ==> r == Err::<
            SaveStep,
            DownloadDbError,
        >(existing->Err_0),
{
    match existing {
        Ok(e) => Ok(SaveStep::UseExisting(e)),
        Err(DownloadDbError::TaskNotFound(_)) => match DownloadTaskRecord::from_task_at(task, now) {
            Ok(rec) => Ok(SaveStep::Insert(rec)),
            Err(e) => Err(DownloadDbError::Serialization(e)),
        },
        Err(e) => Err(e),
    }
}

} // verus!
