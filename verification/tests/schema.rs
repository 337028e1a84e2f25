use std::path::PathBuf;

use rusqlite::Connection;
use store_journal::generation::Generation;
use store_journal::keys::{cas_generation, read_generation};
use store_journal::schema::{apply_journal_schema_pub, open_journal, set_up_opened, start_journal};
use store_journal::sql::Journal;

/// A journal without tables.
fn bare_journal() -> Journal {
    Journal::new(Connection::open_in_memory().unwrap())
}

fn pragma(journal: &Journal, name: &str) -> i64 {
    journal.connection().query_row(&format!("PRAGMA {name}"), [], |row| row.get(0)).unwrap()
}

#[test]
fn schema_is_applied_idempotently() {
    let mut journal = bare_journal();
    assert_eq!(apply_journal_schema_pub(&mut journal), Ok(()));
    cas_generation(&mut journal, "k", Generation(0)).unwrap();
    assert_eq!(apply_journal_schema_pub(&mut journal), Ok(()));
    assert_eq!(read_generation(&mut journal, "k"), Ok((Generation(1), false)));
    assert_eq!(pragma(&journal, "user_version"), 1);
    let tables: i64 = journal
        .connection()
        .query_row(
            "SELECT count(*) FROM sqlite_master WHERE type = 'table' AND name IN
             ('key_generations', 'operations', 'outbox_events', 'inbox_events')",
            [],
            |row| row.get(0),
        )
        .unwrap();
    assert_eq!(tables, 4);
}

#[test]
fn refused_schema_is_an_error() {
    let mut journal = bare_journal();
    journal.connection().execute_batch("PRAGMA query_only = ON").unwrap();
    let message = apply_journal_schema_pub(&mut journal).unwrap_err();
    assert!(message.starts_with("apply journal schema: "), "{message}");
}

#[test]
fn opened_journal_is_set_up_and_shared() {
    // A database in memory that every connection to the same path shares.
    let dir = PathBuf::from("file:shared?mode=memory&cache=shared&under=");
    let mut journal = open_journal(&dir, Ok(())).unwrap();
    assert_eq!(pragma(&journal, "busy_timeout"), 5000);
    assert_eq!(pragma(&journal, "foreign_keys"), 1);
    assert_eq!(pragma(&journal, "user_version"), 1);
    cas_generation(&mut journal, "k", Generation(0)).unwrap();
    let mut again = open_journal(&dir, Ok(())).unwrap();
    assert_eq!(read_generation(&mut again, "k"), Ok((Generation(1), false)));
    let elsewhere = PathBuf::from("file:elsewhere?mode=memory&cache=shared&under=");
    let mut other = open_journal(&elsewhere, Ok(())).unwrap();
    assert_eq!(read_generation(&mut other, "k"), Ok((Generation(0), false)));
}

#[test]
fn journal_that_cannot_be_opened_is_an_error() {
    let missing = PathBuf::from("/no such directory/agents");
    let message = open_journal(&missing, Ok(())).err().unwrap();
    assert!(message.starts_with("open store-journal.sqlite: "), "{message}");
    let path = missing.join("store-journal.sqlite");
    assert!(message.ends_with(&path.display().to_string()), "{message}");
    let message = open_journal(&missing, Err("denied".to_string())).err().unwrap();
    assert_eq!(message, "create anchor dir: denied");
}

#[test]
fn opening_error_is_passed_on() {
    let failure = set_up_opened(Err("busy".to_string())).err().unwrap();
    assert_eq!(failure.message, "open store-journal.sqlite: busy");
    assert!(failure.journal.is_none());
    assert!(set_up_opened(Ok(Connection::open_in_memory().unwrap())).is_ok());
}

#[test]
fn failed_setup_keeps_the_connection_as_far_as_it_got() {
    let conn = Connection::open_in_memory().unwrap();
    conn.execute_batch("PRAGMA query_only = ON").unwrap();
    let failure = set_up_opened(Ok(conn)).err().unwrap();
    assert!(failure.message.starts_with("apply journal schema: "), "{}", failure.message);
    let journal = failure.journal.unwrap();
    assert_eq!(pragma(&journal, "busy_timeout"), 5000);
    assert_eq!(pragma(&journal, "foreign_keys"), 1);
    assert_eq!(pragma(&journal, "user_version"), 0);
    let failure = start_journal(&PathBuf::from("/a"), Err("denied".to_string())).err().unwrap();
    assert_eq!(failure.message, "create anchor dir: denied");
    assert!(failure.journal.is_none());
}

#[test]
fn events_of_unknown_operations_are_refused() {
    let mut journal = set_up_opened(Ok(Connection::open_in_memory().unwrap())).ok().unwrap();
    let message = store_journal::events::insert_outbox_event(&mut journal, "e", "op", b"p").unwrap_err();
    assert!(message.starts_with("insert_outbox_event(e): FOREIGN KEY constraint failed"), "{message}");
}
