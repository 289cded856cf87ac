use burncloud_database_download::TaskId;

#[test]
fn task_id_text_is_hyphenated_lowercase() {
    let id = TaskId::from_u128(0xABCDEF01_2345_6789_ABCD_EF0123456789);
    assert_eq!(id.to_string(), "abcdef01-2345-6789-abcd-ef0123456789");
}

#[test]
fn task_id_reads_back_from_text() {
    let id = TaskId::new();
    assert_eq!(TaskId::from_string(&id.to_string()), Some(id));
    let parsed = TaskId::from_string("123e4567-e89b-12d3-a456-426614174000").unwrap();
    assert_eq!(parsed.value, 0x123e4567_e89b_12d3_a456_426614174000);
}

#[test]
fn task_id_rejects_other_text() {
    assert_eq!(TaskId::from_string("not-a-uuid"), None);
    assert_eq!(TaskId::from_string(""), None);
}

#[test]
fn fresh_task_ids_differ() {
    assert_ne!(TaskId::new(), TaskId::new());
}
