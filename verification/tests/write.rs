use store_journal::write::{write_step, WriteAction, WriteJob, WriteMode, RESTRICTED_MODE, TEMP_EXTENSION};

fn job(mode: WriteMode, on_unix: bool) -> WriteJob {
    WriteJob { mode, on_unix, target: "t".to_string(), temp: "t.tmp".to_string() }
}

/// The steps of a write on which nothing fails.
fn steps(mode: WriteMode, on_unix: bool) -> Vec<String> {
    let job = job(mode, on_unix);
    let mut at = WriteAction::Open;
    let mut res = Vec::new();
    while !matches!(at, WriteAction::Done | WriteAction::Fail(_)) {
        res.push(format!("{at:?}"));
        at = write_step(&job, at, Ok(()));
    }
    assert!(matches!(at, WriteAction::Done));
    res
}

#[test]
fn steps_of_a_write() {
    assert_eq!(
        steps(WriteMode::Plain, true),
        ["Open", "WritePayload", "Sync", "Replace", "SyncParent"]
    );
    assert_eq!(steps(WriteMode::Plain, false), ["Open", "WritePayload", "Sync", "Replace"]);
    assert_eq!(
        steps(WriteMode::Restricted, true),
        ["Open", "SetPermissions", "WritePayload", "Sync", "Replace"]
    );
    assert_eq!(steps(WriteMode::Restricted, false), ["Open", "WritePayload", "Sync", "Replace"]);
}

fn message(mode: WriteMode, at: WriteAction) -> String {
    match write_step(&job(mode, true), at, Err("e".to_string())) {
        WriteAction::Fail(message) => message,
        other => panic!("{other:?}"),
    }
}

#[test]
fn errors_of_a_plain_write() {
    assert_eq!(message(WriteMode::Plain, WriteAction::Open), "create t.tmp: e");
    assert_eq!(message(WriteMode::Plain, WriteAction::WritePayload), "write t.tmp: e");
    assert_eq!(message(WriteMode::Plain, WriteAction::Sync), "fsync t.tmp: e");
    assert_eq!(message(WriteMode::Plain, WriteAction::Replace), "rename t.tmp → t: e");
}

#[test]
fn errors_of_a_restricted_write() {
    assert_eq!(message(WriteMode::Restricted, WriteAction::Open), "open t for atomic write: e");
    assert_eq!(message(WriteMode::Restricted, WriteAction::SetPermissions), "set t permissions: e");
    assert_eq!(message(WriteMode::Restricted, WriteAction::WritePayload), "write t: e");
    assert_eq!(message(WriteMode::Restricted, WriteAction::Sync), "flush t: e");
    assert_eq!(message(WriteMode::Restricted, WriteAction::Replace), "commit t: e");
}

#[test]
fn parent_directory_is_synced_as_far_as_possible() {
    let at = write_step(&job(WriteMode::Plain, true), WriteAction::SyncParent, Err("e".to_string()));
    assert!(matches!(at, WriteAction::Done));
}

#[test]
fn names_and_permissions_of_writes() {
    assert_eq!(TEMP_EXTENSION, "json.tmp");
    assert_eq!(RESTRICTED_MODE, 0o600);
}
