use burncloud_database_download::models::{DownloadProgress, DownloadProgressRecord, DownloadTask, DownloadTaskRecord};
use burncloud_database_download::{DownloadDbError, DownloadStatus, TaskId};

fn sample_task() -> DownloadTask {
    DownloadTask::new(
        "https://example.com/file.zip".to_string(),
        "/downloads/file.zip".to_string(),
    )
}

#[test]
fn models_test_download_task_record_roundtrip() {
    let task = sample_task();

    let record = DownloadTaskRecord::from_task(&task).unwrap();
    assert_eq!(record.id, task.id.to_string());
    assert_eq!(record.url, task.url);

    let restored_task = record.to_task().unwrap();
    assert_eq!(restored_task.id, task.id);
    assert_eq!(restored_task.url, task.url);
}

#[test]
fn models_tests_test_download_task_record_roundtrip() {
    let task = sample_task();

    let record = DownloadTaskRecord::from_task(&task).unwrap();
    assert_eq!(record.id, task.id.to_string());
    assert_eq!(record.url, task.url);

    let restored_task = record.to_task().unwrap();
    assert_eq!(restored_task.id, task.id);
    assert_eq!(restored_task.url, task.url);
}

#[test]
fn models_test_download_progress_record_roundtrip() {
    let task_id = TaskId::new();
    let progress = DownloadProgress {
        downloaded_bytes: 1024,
        total_bytes: Some(10240),
        speed_bps: 512,
        eta_seconds: Some(18),
    };

    let record = DownloadProgressRecord::from_progress(&task_id, &progress);
    assert_eq!(record.task_id, task_id.to_string());
    assert_eq!(record.downloaded_bytes, 1024);

    let restored_progress = record.to_progress();
    assert_eq!(restored_progress.downloaded_bytes, progress.downloaded_bytes);
    assert_eq!(restored_progress.total_bytes, progress.total_bytes);
}

#[test]
fn models_tests_test_download_progress_record_roundtrip() {
    let task_id = TaskId::new();
    let progress = DownloadProgress {
        downloaded_bytes: 1024,
        total_bytes: Some(10240),
        speed_bps: 512,
        eta_seconds: Some(18),
    };

    let record = DownloadProgressRecord::from_progress(&task_id, &progress);
    assert_eq!(record.task_id, task_id.to_string());
    assert_eq!(record.downloaded_bytes, 1024);

    let restored_progress = record.to_progress();
    assert_eq!(restored_progress.downloaded_bytes, progress.downloaded_bytes);
    assert_eq!(restored_progress.total_bytes, progress.total_bytes);
}

#[test]
fn task_record_round_trip_keeps_every_field() {
    let id = TaskId::from_u128(0x123e4567_e89b_12d3_a456_426614174000);
    let task = DownloadTask {
        id,
        url: "https://example.com/a.iso".to_string(),
        target_path: "/data/a.iso".to_string(),
        status: DownloadStatus::Failed("disk \"full\"".to_string()),
        created_at: 5,
        updated_at: 6,
    };
    let record = DownloadTaskRecord::from_task_at(&task, 1_700_000_000).unwrap();
    assert_eq!(record.id, "123e4567-e89b-12d3-a456-426614174000");
    assert_eq!(record.status, "{\"Failed\":\"disk \\\"full\\\"\"}");
    assert_eq!(record.created_at, 1_700_000_000);
    assert_eq!(record.updated_at, 1_700_000_000);
    let back = record.to_task().unwrap();
    assert_eq!(back.id, id);
    assert_eq!(back.url, task.url);
    assert_eq!(back.target_path, task.target_path);
    assert_eq!(back.status, task.status);
    assert_eq!(back.created_at, 1_700_000_000);
}

#[test]
fn task_record_every_plain_status_round_trips() {
    let statuses = vec![
        DownloadStatus::Waiting,
        DownloadStatus::Active,
        DownloadStatus::Paused,
        DownloadStatus::Completed,
        DownloadStatus::Cancelled,
    ];
    for status in statuses {
        let mut task = DownloadTask::new("u".to_string(), "p".to_string());
        task.status = status.clone();
        let record = DownloadTaskRecord::from_task(&task).unwrap();
        assert_eq!(record.to_task().unwrap().status, status);
    }
}

#[test]
fn to_task_reports_unknown_status() {
    let record = DownloadTaskRecord {
        id: "123e4567-e89b-12d3-a456-426614174000".to_string(),
        url: "u".to_string(),
        target_path: "p".to_string(),
        status: "\"Exploded\"".to_string(),
        created_at: 1,
        updated_at: 1,
    };
    match record.to_task() {
        Err(DownloadDbError::InvalidStatus(s)) => assert_eq!(s, "\"Exploded\""),
        other => panic!("unexpected {:?}", other.map(|t| t.url)),
    }
}

#[test]
fn to_task_reports_bad_identifier_after_status() {
    let mut record = DownloadTaskRecord {
        id: "not-a-uuid".to_string(),
        url: "u".to_string(),
        target_path: "p".to_string(),
        status: "\"Active\"".to_string(),
        created_at: 1,
        updated_at: 1,
    };
    match record.to_task() {
        Err(DownloadDbError::InvalidIdentifier(s)) => assert_eq!(s, "not-a-uuid"),
        other => panic!("unexpected {:?}", other.map(|t| t.url)),
    }
    record.status = "Active".to_string();
    assert!(matches!(record.to_task(), Err(DownloadDbError::InvalidStatus(_))));
}

#[test]
fn progress_round_trip_survives_large_counts() {
    let id = TaskId::from_u128(7);
    let progress = DownloadProgress {
        downloaded_bytes: u64::MAX,
        total_bytes: None,
        speed_bps: 1 << 63,
        eta_seconds: Some(0),
    };
    let record = DownloadProgressRecord::from_progress_at(&id, &progress, 42);
    assert_eq!(record.downloaded_bytes, -1);
    assert_eq!(record.updated_at, 42);
    assert_eq!(record.task_id, "00000000-0000-0000-0000-000000000007");
    assert_eq!(record.to_progress(), progress);
}

#[test]
fn completion_fraction_gives_half() {
    let progress = DownloadProgress {
        downloaded_bytes: 5120,
        total_bytes: Some(10240),
        speed_bps: 0,
        eta_seconds: None,
    };
    let (done, total) = progress.completion_fraction().unwrap();
    assert_eq!((done, total), (5120, 10240));
    let percentage = done as f64 / total as f64 * 100.0;
    assert_eq!(percentage, 50.0);
}

#[test]
fn completion_fraction_absent_without_total() {
    let mut progress = DownloadProgress {
        downloaded_bytes: 5120,
        total_bytes: None,
        speed_bps: 0,
        eta_seconds: None,
    };
    assert_eq!(progress.completion_fraction(), None);
    progress.total_bytes = Some(0);
    assert_eq!(progress.completion_fraction(), None);
}
