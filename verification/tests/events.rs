use rusqlite::Connection;
use store_journal::events::{
    insert_inbox_event, insert_outbox_event, judge_identity, mark_outbox_published,
    read_inbox_events, read_outbox_events, InsertEventOutcome,
};
use store_journal::generation::Generation;
use store_journal::operations::insert_operation;
use store_journal::schema::apply_journal_schema_pub;
use store_journal::sql::Journal;

/// A journal without tables.
fn bare_journal() -> Journal {
    Journal::new(Connection::open_in_memory().unwrap())
}

fn new_journal() -> Journal {
    let mut journal = bare_journal();
    apply_journal_schema_pub(&mut journal).unwrap();
    insert_operation(&mut journal, "op", "publish", "k", Generation(1)).unwrap();
    insert_operation(&mut journal, "op2", "publish", "k", Generation(1)).unwrap();
    journal
}

#[test]
fn only_exact_replay_is_accepted_in_the_outbox() {
    let mut journal = new_journal();
    assert_eq!(
        insert_outbox_event(&mut journal, "e", "op", b"payload"),
        Ok(InsertEventOutcome::Inserted)
    );
    assert_eq!(
        insert_outbox_event(&mut journal, "e", "op", b"payload"),
        Ok(InsertEventOutcome::ExactDuplicate)
    );
    for (operation_id, payload) in
        [("op", &b"Payload"[..]), ("op", &b"payload "[..]), ("op", &b""[..]), ("op2", &b"payload"[..])]
    {
        assert_eq!(
            insert_outbox_event(&mut journal, "e", operation_id, payload),
            Ok(InsertEventOutcome::IdentityCollision)
        );
    }
    assert_eq!(
        read_outbox_events(&mut journal, "op"),
        Ok(vec![("e".to_string(), b"payload".to_vec(), 0)])
    );
    assert_eq!(read_outbox_events(&mut journal, "op2"), Ok(vec![]));
}

#[test]
fn only_exact_replay_is_accepted_in_the_inbox() {
    let mut journal = new_journal();
    assert_eq!(
        insert_inbox_event(&mut journal, "e", "op", &[0, 255, 10]),
        Ok(InsertEventOutcome::Inserted)
    );
    assert_eq!(
        insert_inbox_event(&mut journal, "e", "op", &[0, 255, 10]),
        Ok(InsertEventOutcome::ExactDuplicate)
    );
    assert_eq!(
        insert_inbox_event(&mut journal, "e", "op", &[0, 255]),
        Ok(InsertEventOutcome::IdentityCollision)
    );
    assert_eq!(
        insert_inbox_event(&mut journal, "e", "op2", &[0, 255, 10]),
        Ok(InsertEventOutcome::IdentityCollision)
    );
    assert_eq!(
        read_inbox_events(&mut journal, "op"),
        Ok(vec![("e".to_string(), vec![0, 255, 10])])
    );
    assert_eq!(read_outbox_events(&mut journal, "op"), Ok(vec![]));
}

#[test]
fn events_are_read_in_the_order_of_their_stamps() {
    let mut journal = new_journal();
    for id in ["a", "b", "c"] {
        insert_outbox_event(&mut journal, id, "op", id.as_bytes()).unwrap();
        insert_inbox_event(&mut journal, id, "op", id.as_bytes()).unwrap();
    }
    journal.connection().execute_batch(
        "UPDATE outbox_events SET created_at = CASE event_id WHEN 'b' THEN 1 WHEN 'c' THEN 2 ELSE 3 END;
         UPDATE inbox_events SET received_at = CASE event_id WHEN 'c' THEN 1 WHEN 'a' THEN 2 ELSE 3 END;",
    )
    .unwrap();
    let out: Vec<String> =
        read_outbox_events(&mut journal, "op").unwrap().into_iter().map(|e| e.0).collect();
    assert_eq!(out, vec!["b", "c", "a"]);
    let inbox: Vec<String> =
        read_inbox_events(&mut journal, "op").unwrap().into_iter().map(|e| e.0).collect();
    assert_eq!(inbox, vec!["c", "a", "b"]);
}

#[test]
fn publication_state_advances_from_the_expected_one_only() {
    let mut journal = new_journal();
    insert_outbox_event(&mut journal, "e", "op", b"payload").unwrap();
    assert_eq!(mark_outbox_published(&mut journal, "e", 1, 2), Ok(false));
    assert_eq!(mark_outbox_published(&mut journal, "e", 0, 2), Ok(true));
    assert_eq!(mark_outbox_published(&mut journal, "e", 0, 1), Ok(false));
    assert_eq!(mark_outbox_published(&mut journal, "e", 2, 1), Ok(true));
    assert_eq!(mark_outbox_published(&mut journal, "unknown", 0, 1), Ok(false));
    assert_eq!(
        read_outbox_events(&mut journal, "op"),
        Ok(vec![("e".to_string(), b"payload".to_vec(), 1)])
    );
}

#[test]
fn missing_event_tables_are_errors() {
    let mut journal = bare_journal();
    let starts = |message: String, words: &str| {
        assert!(message.starts_with(words), "{message}");
    };
    starts(
        insert_outbox_event(&mut journal, "e", "op", b"p").unwrap_err(),
        "insert_outbox_event(e): no such table: outbox_events",
    );
    starts(
        insert_inbox_event(&mut journal, "e", "op", b"p").unwrap_err(),
        "insert_inbox_event(e): no such table: inbox_events",
    );
    starts(
        mark_outbox_published(&mut journal, "e", 0, 1).unwrap_err(),
        "mark_outbox_published(e): no such table: outbox_events",
    );
    starts(
        read_outbox_events(&mut journal, "op").unwrap_err(),
        "prepare outbox query: no such table: outbox_events",
    );
    starts(
        read_inbox_events(&mut journal, "op").unwrap_err(),
        "prepare inbox query: no such table: inbox_events",
    );
}

#[test]
fn events_of_a_wrong_type_are_errors() {
    let mut journal = new_journal();
    insert_outbox_event(&mut journal, "e", "op", b"p").unwrap();
    insert_inbox_event(&mut journal, "e", "op", b"p").unwrap();
    journal.connection().execute_batch("UPDATE outbox_events SET payload = 1; UPDATE inbox_events SET payload = 1;")
        .unwrap();
    let starts = |message: String, words: &str| {
        assert!(message.starts_with(words), "{message}");
    };
    starts(read_outbox_events(&mut journal, "op").unwrap_err(), "read outbox row: ");
    starts(read_inbox_events(&mut journal, "op").unwrap_err(), "read inbox row: ");
    starts(
        insert_outbox_event(&mut journal, "e", "op", b"p").unwrap_err(),
        "read existing outbox_event(e): ",
    );
    starts(
        insert_inbox_event(&mut journal, "e", "op", b"p").unwrap_err(),
        "read existing inbox_event(e): ",
    );
}

#[test]
fn identity_is_judged_by_every_byte() {
    let stored = || Some(("op".to_string(), b"payload".to_vec()));
    assert_eq!(judge_identity(stored(), "op", b"payload"), InsertEventOutcome::ExactDuplicate);
    assert_eq!(judge_identity(stored(), "op", b"payloaD"), InsertEventOutcome::IdentityCollision);
    assert_eq!(judge_identity(stored(), "oq", b"payload"), InsertEventOutcome::IdentityCollision);
    assert_eq!(judge_identity(None, "op", b"payload"), InsertEventOutcome::IdentityCollision);
}
