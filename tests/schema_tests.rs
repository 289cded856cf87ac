use burncloud_database_download::schema::{CREATE_DOWNLOAD_PROGRESS_TABLE, CREATE_DOWNLOAD_TASKS_TABLE, CREATE_INDEXES};

#[test]
fn schema_test_sql_syntax() {
    assert!(CREATE_DOWNLOAD_TASKS_TABLE.contains("CREATE TABLE"));
    assert!(CREATE_DOWNLOAD_PROGRESS_TABLE.contains("CREATE TABLE"));
    assert!(CREATE_INDEXES.contains("CREATE INDEX"));
}

#[test]
fn schema_tests_test_sql_syntax() {
    assert!(CREATE_DOWNLOAD_TASKS_TABLE.contains("CREATE TABLE"));
    assert!(CREATE_DOWNLOAD_PROGRESS_TABLE.contains("CREATE TABLE"));
    assert!(CREATE_INDEXES.contains("CREATE INDEX"));
}

#[test]
fn schema_statements_are_idempotent_and_cascade() {
    assert!(CREATE_DOWNLOAD_TASKS_TABLE.contains("IF NOT EXISTS download_tasks"));
    assert!(CREATE_DOWNLOAD_PROGRESS_TABLE.contains("ON DELETE CASCADE"));
    assert_eq!(CREATE_INDEXES.matches("CREATE INDEX IF NOT EXISTS").count(), 3);
}
