//! The statements that create the two tables and their indexes. Each is
//! safe to run on every start: nothing is created twice.

use vstd::prelude::*;

verus! {

/// Creates the task table.
pub const CREATE_DOWNLOAD_TASKS_TABLE: &'static str = r#"
CREATE TABLE IF NOT EXISTS download_tasks (
    id TEXT PRIMARY KEY NOT NULL,
    url TEXT NOT NULL,
    target_path TEXT NOT NULL,
    status TEXT NOT NULL,
    created_at INTEGER NOT NULL,
    updated_at INTEGER NOT NULL
);
"#;

/// Creates the progress table; a progress row goes with its task.
pub const CREATE_DOWNLOAD_PROGRESS_TABLE: &'static str = r#"
CREATE TABLE IF NOT EXISTS download_progress (
    task_id TEXT PRIMARY KEY NOT NULL,
    downloaded_bytes INTEGER NOT NULL DEFAULT 0,
    total_bytes INTEGER,
    speed_bps INTEGER NOT NULL DEFAULT 0,
    eta_seconds INTEGER,
    updated_at INTEGER NOT NULL,
    FOREIGN KEY (task_id) REFERENCES download_tasks(id) ON DELETE CASCADE
);
"#;

/// Indexes tasks by status, creation time and update time.
pub const CREATE_INDEXES: &'static str = r#"
CREATE INDEX IF NOT EXISTS idx_download_tasks_status ON download_tasks(status);
CREATE INDEX IF NOT EXISTS idx_download_tasks_created_at ON download_tasks(created_at);
CREATE INDEX IF NOT EXISTS idx_download_tasks_updated_at ON download_tasks(updated_at);
"#;

} // verus!
