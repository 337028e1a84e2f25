use store_journal::lock::{
    lock_step, mutex_name, LockAction, LockJob, LockPlatform, LockReply, ADVISORY_LOCK_FILENAME,
};

fn job(platform: LockPlatform) -> LockJob {
    LockJob {
        platform,
        anchor: "/a".to_string(),
        lock_file: format!("/a/{ADVISORY_LOCK_FILENAME}"),
        lock_path: Some(format!("/a/{ADVISORY_LOCK_FILENAME}")),
    }
}

fn fails(action: LockAction, expected: &str) {
    match action {
        LockAction::Fail(message) => assert_eq!(message, expected),
        other => panic!("{other:?}"),
    }
}

fn err(e: &str) -> LockReply {
    LockReply::Io(Err(e.to_string()))
}

#[test]
fn unix_lock_is_held_after_flock() {
    let job = job(LockPlatform::Unix);
    let at = lock_step(&job, LockAction::CreateAnchorDir, LockReply::Io(Ok(())));
    assert!(matches!(at, LockAction::OpenLockFile));
    let at = lock_step(&job, at, LockReply::Io(Ok(())));
    assert!(matches!(at, LockAction::Flock));
    let at = lock_step(&job, at, LockReply::Flock { ret: 0, error: "stale".to_string() });
    assert!(matches!(at, LockAction::Held));
}

#[test]
fn unix_lock_errors() {
    let job = job(LockPlatform::Unix);
    fails(lock_step(&job, LockAction::CreateAnchorDir, err("e")), "create anchor dir /a: e");
    fails(
        lock_step(&job, LockAction::OpenLockFile, err("e")),
        "open journal lock /a/store-journal.lock: e",
    );
    fails(
        lock_step(&job, LockAction::Flock, LockReply::Flock { ret: -1, error: "e".to_string() }),
        "journal flock /a/store-journal.lock: e",
    );
}

#[test]
fn windows_lock_is_held_after_the_wait() {
    let job = job(LockPlatform::Windows);
    let at = lock_step(&job, LockAction::CreateAnchorDir, LockReply::Io(Ok(())));
    match &at {
        LockAction::CreateMutex(name) => assert_eq!(name, "Global\\-a-store-journal.lock"),
        other => panic!("{other:?}"),
    }
    let at = lock_step(&job, at, LockReply::Handle { is_null: false, is_invalid: false });
    assert!(matches!(at, LockAction::WaitForMutex));
    let at = lock_step(&job, at, LockReply::Wait(0));
    assert!(matches!(at, LockAction::Held));
}

#[test]
fn windows_lock_errors() {
    let job = job(LockPlatform::Windows);
    for (is_null, is_invalid) in [(true, false), (false, true), (true, true)] {
        fails(
            lock_step(
                &job,
                LockAction::CreateMutex("n".to_string()),
                LockReply::Handle { is_null, is_invalid },
            ),
            "CreateMutexW failed for journal lock",
        );
    }
    let at = lock_step(&job, LockAction::WaitForMutex, LockReply::Wait(4294967295));
    assert!(matches!(at, LockAction::CloseMutex(_)));
    fails(lock_step(&job, at, LockReply::Closed), "WaitForSingleObject failed: 4294967295");
}

#[test]
fn other_systems_have_no_lock() {
    let at = lock_step(
        &job(LockPlatform::Other),
        LockAction::CreateAnchorDir,
        LockReply::Io(Ok(())),
    );
    assert!(matches!(at, LockAction::Held));
}

#[test]
fn mutex_names() {
    assert_eq!(
        mutex_name(&Some("C:\\data/agents\\store-journal.lock".to_string())),
        "Global\\C--data-agents-store-journal.lock"
    );
    assert_eq!(mutex_name(&None), "Global\\buzz-store-journal");
    assert_eq!(mutex_name(&Some("\u{e9}:".to_string())), "Global\\\u{e9}-");
    assert_eq!(mutex_name(&Some(String::new())), "Global\\");
}

#[test]
fn paths_that_differ_in_separators_share_a_mutex() {
    assert_eq!(mutex_name(&Some("a/b".to_string())), mutex_name(&Some("a-b".to_string())));
    assert_ne!(mutex_name(&Some("a/b".to_string())), mutex_name(&Some("a/c".to_string())));
}
