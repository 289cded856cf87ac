//! The errors that repository operations report.

use vstd::prelude::*;

verus! {

/// `serde_json::Error`, carried opaque.
#[verifier::external_type_specification]
#[verifier::external_body]
pub struct ExJsonError(serde_json::Error);

/// `sqlx::Error`, carried opaque.
#[verifier::external_type_specification]
#[verifier::external_body]
pub struct ExSqlxError(sqlx::Error);

/// `burncloud_database_core::DatabaseError`, carried opaque.
#[verifier::external_type_specification]
#[verifier::external_body]
pub struct ExDatabaseError(burncloud_database_core::DatabaseError);

/// Why an operation on the download store failed.
#[derive(Debug)]
pub enum DownloadDbError {
    /// A failure of the database layer.
    Database(burncloud_database_core::DatabaseError),
    /// A failure of the SQL driver.
    Sqlx(sqlx::Error),
    /// No row matched the key (a URL or an identifier text).
    TaskNotFound(String),
    /// A value could not be written as JSON.
    Serialization(serde_json::Error),
    /// A stored status text is not one that the status encoding produces.
    InvalidStatus(String),
    /// A stored identifier text is not a UUID.
    InvalidIdentifier(String),
    /// Any other failure, with its message.
    Other(String),
}

} // verus!
