use rusqlite::Connection;
use store_journal::generation::{CasOutcome, Generation};
use store_journal::keys::{cas_generation, interpret_key, read_generation, tombstone_key};
use store_journal::schema::apply_journal_schema_pub;
use store_journal::sql::Journal;

/// A journal without tables.
fn bare_journal() -> Journal {
    Journal::new(Connection::open_in_memory().unwrap())
}

fn new_journal() -> Journal {
    let mut journal = bare_journal();
    apply_journal_schema_pub(&mut journal).unwrap();
    journal
}

#[test]
fn unknown_key_is_at_generation_zero() {
    assert_eq!(read_generation(&mut new_journal(), "k"), Ok((Generation::zero(), false)));
}

#[test]
fn first_attempt_commits_the_first_generation() {
    let mut journal = new_journal();
    assert_eq!(
        cas_generation(&mut journal, "k", Generation::zero()),
        Ok(CasOutcome::Committed { new_generation: Generation(1) })
    );
    assert_eq!(read_generation(&mut journal, "k"), Ok((Generation(1), false)));
    assert_eq!(read_generation(&mut journal, "other"), Ok((Generation(0), false)));
}

#[test]
fn same_expectation_commits_once() {
    let mut journal = new_journal();
    assert_eq!(
        cas_generation(&mut journal, "k", Generation(0)),
        Ok(CasOutcome::Committed { new_generation: Generation(1) })
    );
    assert_eq!(
        cas_generation(&mut journal, "k", Generation(0)),
        Ok(CasOutcome::Conflict { current: Generation(1) })
    );
    assert_eq!(
        cas_generation(&mut journal, "k", Generation(1)),
        Ok(CasOutcome::Committed { new_generation: Generation(2) })
    );
}

#[test]
fn absent_key_conflicts_with_any_other_expectation() {
    assert_eq!(
        cas_generation(&mut new_journal(), "k", Generation(7)),
        Ok(CasOutcome::Conflict { current: Generation(0) })
    );
}

#[test]
fn tombstone_is_final() {
    let mut journal = new_journal();
    cas_generation(&mut journal, "k", Generation(0)).unwrap();
    assert_eq!(
        tombstone_key(&mut journal, "k", Generation(0)),
        Ok(CasOutcome::Conflict { current: Generation(1) })
    );
    assert_eq!(
        tombstone_key(&mut journal, "k", Generation(1)),
        Ok(CasOutcome::Committed { new_generation: Generation(2) })
    );
    assert_eq!(read_generation(&mut journal, "k"), Ok((Generation(2), true)));
    for expected in [0, 1, 2, 3] {
        assert_eq!(
            cas_generation(&mut journal, "k", Generation(expected)),
            Ok(CasOutcome::Tombstoned { tombstone_generation: Generation(2) })
        );
        assert_eq!(
            tombstone_key(&mut journal, "k", Generation(expected)),
            Ok(CasOutcome::Tombstoned { tombstone_generation: Generation(2) })
        );
    }
    assert_eq!(read_generation(&mut journal, "k"), Ok((Generation(2), true)));
}

#[test]
fn whole_range_of_generations_is_kept() {
    let mut journal = new_journal();
    journal.connection().execute(
        "INSERT INTO key_generations (key_id, generation) VALUES ('k', '18446744073709551614')",
        [],
    )
    .unwrap();
    assert_eq!(
        cas_generation(&mut journal, "k", Generation(18446744073709551614)),
        Ok(CasOutcome::Committed { new_generation: Generation(u64::MAX) })
    );
    assert_eq!(read_generation(&mut journal, "k"), Ok((Generation(u64::MAX), false)));
    assert_eq!(
        cas_generation(&mut journal, "k", Generation(u64::MAX)),
        Err("generation overflow at 18446744073709551615: CAS cannot advance".to_string())
    );
    assert_eq!(read_generation(&mut journal, "k"), Ok((Generation(u64::MAX), false)));
}

#[test]
fn spoilt_generation_is_an_error() {
    let mut journal = new_journal();
    journal.connection().execute("INSERT INTO key_generations (key_id, generation) VALUES ('k', 'x')", [])
        .unwrap();
    let message = "parse generation 'x': invalid digit found in string".to_string();
    assert_eq!(read_generation(&mut journal, "k"), Err(message.clone()));
    assert_eq!(cas_generation(&mut journal, "k", Generation(0)), Err(message.clone()));
    assert_eq!(tombstone_key(&mut journal, "k", Generation(0)), Err(message));
}

#[test]
fn missing_table_is_an_error_that_names_the_key() {
    let mut journal = bare_journal();
    let message = read_generation(&mut journal, "k").unwrap_err();
    assert!(message.starts_with("read_generation(k): no such table: key_generations"), "{message}");
    assert_eq!(cas_generation(&mut journal, "k", Generation(0)), Err(message));
}

#[test]
fn refused_write_is_an_error_that_names_the_call() {
    let mut journal = new_journal();
    journal.connection().execute_batch("PRAGMA query_only = ON").unwrap();
    let message = cas_generation(&mut journal, "k", Generation(0)).unwrap_err();
    assert!(message.starts_with("cas_generation(k): "), "{message}");
    let message = tombstone_key(&mut journal, "k", Generation(0)).unwrap_err();
    assert!(message.starts_with("tombstone_key(k): "), "{message}");
}

#[test]
fn stored_key_is_interpreted() {
    assert_eq!(interpret_key(None), Ok((Generation(0), false)));
    assert_eq!(interpret_key(Some(("12".to_string(), true))), Ok((Generation(12), true)));
    assert!(interpret_key(Some(("".to_string(), false))).is_err());
}
