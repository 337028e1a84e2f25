use store_journal::clock::{stamp, unix_now_secs};
use store_journal::ids::new_operation_id;

#[test]
fn operation_ids_are_random_uuids() {
    let id = new_operation_id();
    assert_eq!(id.len(), 36);
    for (i, c) in id.chars().enumerate() {
        match i {
            8 | 13 | 18 | 23 => assert_eq!(c, '-'),
            14 => assert_eq!(c, '4'),
            19 => assert!("89ab".contains(c)),
            _ => assert!("0123456789abcdef".contains(c)),
        }
    }
    assert_ne!(id, new_operation_id());
}

#[test]
fn stamps_of_clock_readings() {
    assert_eq!(stamp(None), 0);
    assert_eq!(stamp(Some(0)), 0);
    assert_eq!(stamp(Some(1_700_000_000)), 1_700_000_000);
    assert_eq!(stamp(Some(9223372036854775807)), i64::MAX);
    assert_eq!(stamp(Some(9223372036854775808)), i64::MIN);
    assert_eq!(stamp(Some(u64::MAX)), -1);
}

#[test]
fn clock_is_read() {
    assert!(unix_now_secs() > 1_700_000_000);
}
