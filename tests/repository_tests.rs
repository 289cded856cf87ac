use burncloud_database_download::models::{DownloadProgress, DownloadTask};
use burncloud_database_download::{DownloadDbError, DownloadStatus, MemoryRepository, TaskId};

const NOW: i64 = 1_700_000_000;

fn task(url: &str, path: &str) -> DownloadTask {
    DownloadTask::new(url.to_string(), path.to_string())
}

fn sample_progress() -> DownloadProgress {
    DownloadProgress {
        downloaded_bytes: 1024,
        total_bytes: Some(10240),
        speed_bps: 512,
        eta_seconds: Some(18),
    }
}

#[test]
fn repository_tests_test_save_and_get_task() {
    let mut repo = MemoryRepository::new();
    let task = task("https://example.com/file.zip", "/downloads/file.zip");

    let saved_task = repo.save_task(&task, NOW);
    assert_eq!(saved_task.id, task.id);
    assert_eq!(saved_task.url, task.url);

    let retrieved = repo.get_task(&task.id).unwrap();
    assert_eq!(retrieved.id, task.id);
    assert_eq!(retrieved.url, task.url);
}

#[test]
fn repository_tests_test_save_task_duplicate_url() {
    let mut repo = MemoryRepository::new();
    let task1 = task("https://example.com/file.zip", "/downloads/file1.zip");
    let task2 = task("https://example.com/file.zip", "/downloads/file2.zip");

    let saved_task1 = repo.save_task(&task1, NOW);
    assert_eq!(saved_task1.id, task1.id);

    let saved_task2 = repo.save_task(&task2, NOW);
    assert_eq!(saved_task2.id, task1.id);
    assert_eq!(saved_task2.url, task1.url);

    assert_eq!(repo.count_tasks(), 1);
    assert_eq!(repo.get_task_by_url("https://example.com/file.zip").unwrap().target_path, "/downloads/file1.zip");
}

#[test]
fn repository_tests_test_get_task_by_url() {
    let mut repo = MemoryRepository::new();
    let task = task("https://example.com/file.zip", "/downloads/file.zip");
    repo.save_task(&task, NOW);

    let retrieved = repo.get_task_by_url(&task.url).unwrap();
    assert_eq!(retrieved.id, task.id);
    assert_eq!(retrieved.url, task.url);

    let result = repo.get_task_by_url("https://nonexistent.com/file.zip");
    assert!(result.is_err());
    match result {
        Err(DownloadDbError::TaskNotFound(key)) => assert_eq!(key, "https://nonexistent.com/file.zip"),
        _ => panic!("expected a missing task"),
    }
}

#[test]
fn repository_tests_test_list_tasks() {
    let mut repo = MemoryRepository::new();
    repo.save_task(&task("https://example.com/file1.zip", "/downloads/file1.zip"), NOW);
    repo.save_task(&task("https://example.com/file2.zip", "/downloads/file2.zip"), NOW);

    let tasks = repo.list_tasks();
    assert_eq!(tasks.len(), 2);
}

#[test]
fn repository_tests_test_delete_task() {
    let mut repo = MemoryRepository::new();
    let task = task("https://example.com/file.zip", "/downloads/file.zip");
    repo.save_task(&task, NOW);
    repo.delete_task(&task.id);

    let result = repo.get_task(&task.id);
    assert!(result.is_err());
}

#[test]
fn repository_tests_test_save_and_get_progress() {
    let mut repo = MemoryRepository::new();
    let task = task("https://example.com/file.zip", "/downloads/file.zip");
    repo.save_task(&task, NOW);

    let progress = sample_progress();
    repo.save_progress(&task.id, &progress, NOW).unwrap();

    let retrieved = repo.get_progress(&task.id).unwrap();
    assert_eq!(retrieved.downloaded_bytes, progress.downloaded_bytes);
    assert_eq!(retrieved.total_bytes, progress.total_bytes);
}

#[test]
fn repository_tests_test_count_tasks() {
    let mut repo = MemoryRepository::new();
    repo.save_task(&task("https://example.com/file1.zip", "/downloads/file1.zip"), NOW);
    repo.save_task(&task("https://example.com/file2.zip", "/downloads/file2.zip"), NOW);

    assert_eq!(repo.count_tasks(), 2);
}

#[test]
fn repository_tests_test_clear_all() {
    let mut repo = MemoryRepository::new();
    let task = task("https://example.com/file.zip", "/downloads/file.zip");
    repo.save_task(&task, NOW);
    repo.clear_all();

    assert_eq!(repo.count_tasks(), 0);
}

#[test]
fn delete_absent_task_changes_nothing() {
    let mut repo = MemoryRepository::new();
    let kept = task("https://example.com/a", "/a");
    repo.save_task(&kept, NOW);
    repo.save_progress(&kept.id, &sample_progress(), NOW).unwrap();
    repo.delete_task(&TaskId::from_u128(99));
    assert_eq!(repo.count_tasks(), 1);
    assert_eq!(repo.get_progress(&kept.id).unwrap(), sample_progress());
}

#[test]
fn delete_task_removes_its_progress() {
    let mut repo = MemoryRepository::new();
    let t = task("https://example.com/a", "/a");
    repo.save_task(&t, NOW);
    repo.save_progress(&t.id, &sample_progress(), NOW).unwrap();
    repo.delete_task(&t.id);
    match repo.get_progress(&t.id) {
        Err(DownloadDbError::TaskNotFound(key)) => assert_eq!(key, t.id.to_string()),
        _ => panic!("progress should be gone"),
    }
}

#[test]
fn count_after_saving_and_deleting() {
    let mut repo = MemoryRepository::new();
    let tasks: Vec<DownloadTask> = (0..5)
        .map(|i| task(&format!("https://example.com/{}", i), &format!("/d/{}", i)))
        .collect();
    for t in &tasks {
        repo.save_task(t, NOW);
    }
    repo.delete_task(&tasks[1].id);
    repo.delete_task(&tasks[3].id);
    assert_eq!(repo.count_tasks(), 3);
}

#[test]
fn clear_all_forgets_progress() {
    let mut repo = MemoryRepository::new();
    let t = task("https://example.com/a", "/a");
    repo.save_task(&t, NOW);
    repo.save_progress(&t.id, &sample_progress(), NOW).unwrap();
    repo.clear_all();
    repo.clear_all();
    assert_eq!(repo.count_tasks(), 0);
    assert!(repo.get_progress(&t.id).is_err());
    assert!(repo.get_task(&t.id).is_err());
}

#[test]
fn save_progress_needs_a_stored_task() {
    let mut repo = MemoryRepository::new();
    let id = TaskId::from_u128(1);
    match repo.save_progress(&id, &sample_progress(), NOW) {
        Err(DownloadDbError::TaskNotFound(key)) => assert_eq!(key, "00000000-0000-0000-0000-000000000001"),
        _ => panic!("orphan progress must be refused"),
    }
}

#[test]
fn save_progress_overwrites_snapshot() {
    let mut repo = MemoryRepository::new();
    let t = task("https://example.com/a", "/a");
    repo.save_task(&t, NOW);
    repo.save_progress(&t.id, &sample_progress(), NOW).unwrap();
    let later = DownloadProgress { downloaded_bytes: 10240, total_bytes: Some(10240), speed_bps: 0, eta_seconds: Some(0) };
    repo.save_progress(&t.id, &later, NOW).unwrap();
    assert_eq!(repo.get_progress(&t.id).unwrap(), later);
    repo.delete_progress(&t.id);
    repo.delete_progress(&t.id);
    assert!(repo.get_progress(&t.id).is_err());
    assert_eq!(repo.count_tasks(), 1);
}

#[test]
fn save_with_known_id_overwrites_row() {
    let mut repo = MemoryRepository::new();
    let mut t = task("https://example.com/a", "/a");
    t.created_at = 1;
    repo.save_task(&t, 10);
    let mut moved = t.clone();
    moved.url = "https://mirror.example.com/a".to_string();
    moved.target_path = "/b".to_string();
    moved.status = DownloadStatus::Active;
    moved.created_at = 20;
    moved.updated_at = 25;
    let back = repo.save_task(&moved, 30);
    assert_eq!(back.url, moved.url);
    assert_eq!(repo.count_tasks(), 1);
    let stored = repo.get_task(&t.id).unwrap();
    assert_eq!(stored.url, "https://mirror.example.com/a");
    assert_eq!(stored.target_path, "/b");
    assert_eq!(stored.status, DownloadStatus::Active);
    assert_eq!(stored.created_at, 10);
    assert_eq!(stored.updated_at, 30);
    assert!(repo.get_task_by_url("https://example.com/a").is_err());
}

#[test]
fn list_tasks_newest_first() {
    let mut repo = MemoryRepository::new();
    for (i, created) in [(0, 100), (1, 300), (2, 200)] {
        let t = task(&format!("https://example.com/{}", i), "/d");
        repo.save_task(&t, created);
    }
    let order: Vec<i64> = repo.list_tasks().iter().map(|t| t.created_at).collect();
    assert_eq!(order, vec![300, 200, 100]);
}

#[test]
fn list_tasks_by_status_filters() {
    let mut repo = MemoryRepository::new();
    let statuses = [
        DownloadStatus::Active,
        DownloadStatus::Waiting,
        DownloadStatus::Active,
        DownloadStatus::Failed("x".to_string()),
    ];
    for (i, st) in statuses.iter().enumerate() {
        let mut t = task(&format!("https://example.com/{}", i), "/d");
        t.status = st.clone();
        repo.save_task(&t, i as i64);
    }
    let active = repo.list_tasks_by_status(&DownloadStatus::Active);
    let created: Vec<i64> = active.iter().map(|t| t.created_at).collect();
    assert_eq!(created, vec![2, 0]);
    assert_eq!(repo.list_tasks_by_status(&DownloadStatus::Failed("x".to_string())).len(), 1);
    assert!(repo.list_tasks_by_status(&DownloadStatus::Paused).is_empty());
}

#[test]
fn count_tasks_by_status_groups() {
    let mut repo = MemoryRepository::new();
    let statuses = [DownloadStatus::Active, DownloadStatus::Waiting, DownloadStatus::Active];
    for (i, st) in statuses.iter().enumerate() {
        let mut t = task(&format!("https://example.com/{}", i), "/d");
        t.status = st.clone();
        repo.save_task(&t, NOW);
    }
    let mut counts = repo.count_tasks_by_status();
    counts.sort_by_key(|(_, n)| *n);
    assert_eq!(counts, vec![(DownloadStatus::Waiting, 1), (DownloadStatus::Active, 2)]);
    assert!(MemoryRepository::new().count_tasks_by_status().is_empty());
}

#[test]
fn new_row_is_stamped_with_time_of_saving() {
    let mut repo = MemoryRepository::new();
    let mut t = task("https://example.com/a", "/a");
    t.created_at = 1;
    t.updated_at = 2;
    let back = repo.save_task(&t, NOW);
    assert_eq!((back.created_at, back.updated_at), (1, 2));
    let stored = repo.get_task(&t.id).unwrap();
    assert_eq!((stored.created_at, stored.updated_at), (NOW, NOW));
    let again = repo.save_task(&task("https://example.com/a", "/other"), NOW + 5);
    assert_eq!(again.id, t.id);
    assert_eq!((again.created_at, again.updated_at), (NOW, NOW));
}
