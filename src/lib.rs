//! Persistence of download tasks and their progress.
//!
//! The library keeps the rules of the store in verified code: how a task and
//! a progress snapshot map to flat rows, how a status is written as text, and
//! what every repository operation does to the two tables.

pub mod downloads;
pub mod error;
pub mod identifier;
pub mod models;
pub mod repository;
pub mod rows;
pub mod schema;
pub mod status;

pub use downloads::Download;
pub use error::DownloadDbError;
pub use identifier::TaskId;
pub use models::{DownloadProgress, DownloadProgressRecord, DownloadTask, DownloadTaskRecord};
pub use repository::MemoryRepository;
pub use status::DownloadStatus;
