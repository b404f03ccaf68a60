use wow_character::session_flow::{
    hotfix_connect_answer, record_payload, HotfixConnectEntry, HotfixOptionalEntry,
    HotfixRecordInput,
};

#[test]
fn record_payload_is_blob_alone_without_optional_data() {
    assert_eq!(record_payload(&vec![1, 2, 3], &Vec::new()), vec![1, 2, 3]);
    assert_eq!(record_payload(&Vec::new(), &Vec::new()), Vec::<u8>::new());
}

#[test]
fn record_payload_appends_little_endian_keys_and_data() {
    let optional = vec![
        HotfixOptionalEntry { key: 0x0102_0304, data: vec![0xAA, 0xBB] },
        HotfixOptionalEntry { key: 0xFFFF_FFFF, data: Vec::new() },
    ];
    assert_eq!(
        record_payload(&vec![9], &optional),
        vec![9, 0x04, 0x03, 0x02, 0x01, 0xAA, 0xBB, 0xFF, 0xFF, 0xFF, 0xFF]
    );
}

fn record(status: u8, mask: u32, blob: Option<Vec<u8>>, has_table: bool) -> HotfixRecordInput {
    HotfixRecordInput {
        push_id: 7,
        unique_id: 70,
        table_hash: 0xDEAD_BEEF,
        record_id: 12,
        status,
        available_locales_mask: mask,
        blob,
        optional: Vec::new(),
        has_table,
    }
}

#[test]
fn hotfix_answer_skips_other_locales_and_frames_found_records() {
    let mut found = record(1, 0b10, Some(vec![1, 2, 3]), true);
    found.optional = vec![HotfixOptionalEntry { key: 5, data: vec![9] }];
    let records = vec![
        record(1, 0b01, Some(vec![4]), true),
        found,
        record(1, 0b10, None, true),
        record(1, 0b10, None, false),
        record(2, 0b10, Some(vec![8]), true),
    ];
    let (entries, content) = hotfix_connect_answer(&records, 0b10);
    assert_eq!(content, vec![1, 2, 3, 5, 0, 0, 0, 9]);
    let sizes: Vec<u32> = entries.iter().map(|e| e.size).collect();
    let statuses: Vec<u8> = entries.iter().map(|e| e.status).collect();
    assert_eq!(sizes, vec![8, 0, 0, 0]);
    assert_eq!(statuses, vec![1, 2, 3, 2]);
    assert_eq!(
        entries[0],
        HotfixConnectEntry {
            push_id: 7,
            unique_id: 70,
            table_hash: 0xDEAD_BEEF,
            record_id: 12,
            size: 8,
            status: 1,
        }
    );
}
