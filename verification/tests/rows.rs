use rusqlite::types::Value;
use rusqlite::Connection;
use store_journal::disposition::Disposition;
use store_journal::events::{
    insert_inbox_event, insert_outbox_event, mark_outbox_published, read_inbox_events,
    read_outbox_events, InsertEventOutcome,
};
use store_journal::generation::{CasOutcome, Generation};
use store_journal::keys::{cas_generation, read_generation, tombstone_key};
use store_journal::operations::{
    advance_disposition, insert_operation, pin_compensation, read_nonterminal_operations,
    read_operation, run_boot_recovery, set_nonterminal_follow_up, OperationRecord,
    TransitionOutcome,
};
use store_journal::schema::{set_up_journal, set_up_opened};
use store_journal::sql::Journal;

fn silent(_op: &OperationRecord) {}

fn new_journal() -> Journal {
    set_up_opened(Ok(Connection::open_in_memory().unwrap())).ok().unwrap()
}

/// Every row of the journal with every column, stamps included.
fn rows(journal: &Journal) -> Vec<Vec<Value>> {
    let mut res = Vec::new();
    for table in ["key_generations", "operations", "outbox_events", "inbox_events"] {
        let sql = format!("SELECT * FROM {table} ORDER BY 1");
        let mut stmt = journal.connection().prepare(&sql).unwrap();
        let columns = stmt.column_count();
        let found = stmt
            .query_map([], |row| (0..columns).map(|i| row.get::<_, Value>(i)).collect())
            .unwrap();
        for row in found {
            res.push(row.unwrap());
        }
    }
    res
}

/// A journal with rows in every table, whose stamps are long past.
fn filled_journal() -> Journal {
    let mut journal = new_journal();
    cas_generation(&mut journal, "live", Generation(0)).unwrap();
    tombstone_key(&mut journal, "dead", Generation(0)).unwrap();
    for id in ["op1", "op2"] {
        insert_operation(&mut journal, id, "publish", "live", Generation(2)).unwrap();
    }
    insert_outbox_event(&mut journal, "e", "op1", b"out").unwrap();
    insert_inbox_event(&mut journal, "e", "op1", b"in").unwrap();
    journal
        .connection()
        .execute_batch(
            "UPDATE key_generations SET updated_at = 1;
             UPDATE operations SET created_at = 1, updated_at = 1;
             UPDATE outbox_events SET created_at = 1;
             UPDATE inbox_events SET received_at = 1;",
        )
        .unwrap();
    journal
}

#[test]
fn reading_changes_no_row() {
    let mut journal = filled_journal();
    let before = rows(&journal);
    assert_eq!(read_generation(&mut journal, "absent"), Ok((Generation(0), false)));
    assert_eq!(read_generation(&mut journal, "dead"), Ok((Generation(1), true)));
    assert!(read_operation(&mut journal, "op1").unwrap().is_some());
    assert!(read_operation(&mut journal, "absent").unwrap().is_none());
    assert_eq!(read_nonterminal_operations(&mut journal).unwrap().len(), 2);
    assert_eq!(read_outbox_events(&mut journal, "op1").unwrap().len(), 1);
    assert_eq!(read_inbox_events(&mut journal, "op1").unwrap().len(), 1);
    assert_eq!(rows(&journal), before);
}

#[test]
fn refused_key_writes_change_no_row() {
    let mut journal = filled_journal();
    let before = rows(&journal);
    for expected in [0, 1, 2, u64::MAX] {
        for write in [cas_generation, tombstone_key] {
            assert_eq!(
                write(&mut journal, "dead", Generation(expected)),
                Ok(CasOutcome::Tombstoned { tombstone_generation: Generation(1) })
            );
            assert_eq!(
                write(&mut journal, "absent", Generation(7)),
                Ok(CasOutcome::Conflict { current: Generation(0) })
            );
        }
    }
    assert_eq!(
        cas_generation(&mut journal, "live", Generation(0)),
        Ok(CasOutcome::Conflict { current: Generation(1) })
    );
    assert_eq!(rows(&journal), before);
}

#[test]
fn committed_key_write_changes_its_key_alone() {
    let mut journal = filled_journal();
    let before = rows(&journal);
    assert_eq!(
        tombstone_key(&mut journal, "live", Generation(1)),
        Ok(CasOutcome::Committed { new_generation: Generation(2) })
    );
    assert_eq!(read_generation(&mut journal, "live"), Ok((Generation(2), true)));
    let after = rows(&journal);
    let changed: Vec<_> = before.iter().filter(|row| !after.contains(row)).collect();
    assert_eq!(changed.len(), 1);
    assert_eq!(changed[0][0], Value::Text("live".to_string()));
    assert_eq!(after.len(), before.len());
}

#[test]
fn refused_transitions_change_no_row() {
    let mut journal = filled_journal();
    pin_compensation(&mut journal, "op1", "c1", Generation(5)).unwrap();
    let before = rows(&journal);
    let conflict = || {
        Ok(TransitionOutcome::Conflict { actual_disposition: "compensating".to_string() })
    };
    assert_eq!(pin_compensation(&mut journal, "op1", "c2", Generation(6)), conflict());
    assert_eq!(
        advance_disposition(&mut journal, "op1", &Disposition::Pending, &Disposition::Failed),
        conflict()
    );
    assert_eq!(
        set_nonterminal_follow_up(&mut journal, "op1", &Disposition::Pending, true),
        conflict()
    );
    assert_eq!(
        advance_disposition(&mut journal, "absent", &Disposition::Pending, &Disposition::Failed),
        Ok(TransitionOutcome::NotFound)
    );
    assert_eq!(rows(&journal), before);
    let op = read_operation(&mut journal, "op1").unwrap().unwrap();
    assert_eq!(op.disposition, Disposition::Compensating);
    assert_eq!(op.generation, Generation(2));
    assert_eq!(op.compensation_id.as_deref(), Some("c1"));
    assert_eq!(op.compensation_generation, Some(Generation(5)));
    assert!(!op.nonterminal_follow_up);
}

#[test]
fn follow_up_mark_keeps_the_disposition() {
    let mut journal = filled_journal();
    assert_eq!(
        set_nonterminal_follow_up(&mut journal, "op1", &Disposition::Pending, true),
        Ok(TransitionOutcome::Advanced)
    );
    let op = read_operation(&mut journal, "op1").unwrap().unwrap();
    assert_eq!(op.disposition, Disposition::Pending);
    assert!(op.nonterminal_follow_up);
    assert!(!read_operation(&mut journal, "op2").unwrap().unwrap().nonterminal_follow_up);
}

#[test]
fn refused_operation_leaves_the_old_one() {
    let mut journal = filled_journal();
    let before = rows(&journal);
    assert!(insert_operation(&mut journal, "op1", "other", "k", Generation(9)).is_err());
    assert_eq!(rows(&journal), before);
}

#[test]
fn replays_and_collisions_change_no_row() {
    let mut journal = filled_journal();
    assert_eq!(mark_outbox_published(&mut journal, "e", 0, 3), Ok(true));
    let before = rows(&journal);
    assert_eq!(
        insert_outbox_event(&mut journal, "e", "op1", b"out"),
        Ok(InsertEventOutcome::ExactDuplicate)
    );
    assert_eq!(
        insert_outbox_event(&mut journal, "e", "op2", b"out"),
        Ok(InsertEventOutcome::IdentityCollision)
    );
    assert_eq!(
        insert_inbox_event(&mut journal, "e", "op1", b"in"),
        Ok(InsertEventOutcome::ExactDuplicate)
    );
    assert_eq!(
        insert_inbox_event(&mut journal, "e", "op1", b"other"),
        Ok(InsertEventOutcome::IdentityCollision)
    );
    assert_eq!(mark_outbox_published(&mut journal, "e", 0, 1), Ok(false));
    assert_eq!(mark_outbox_published(&mut journal, "absent", 0, 1), Ok(false));
    assert_eq!(rows(&journal), before);
    assert_eq!(
        read_outbox_events(&mut journal, "op1"),
        Ok(vec![("e".to_string(), b"out".to_vec(), 3)])
    );
}

#[test]
fn setting_up_again_changes_no_row() {
    let mut journal = filled_journal();
    let before = rows(&journal);
    assert_eq!(set_up_journal(&mut journal), Ok(()));
    assert_eq!(rows(&journal), before);
}

#[test]
fn recovery_changes_what_it_lists_alone() {
    let mut journal = filled_journal();
    advance_disposition(&mut journal, "op2", &Disposition::Pending, &Disposition::Committed)
        .unwrap();
    let before = rows(&journal);
    let listed = run_boot_recovery(&mut journal, silent).unwrap();
    assert_eq!(listed.len(), 1);
    assert_eq!(listed[0].operation_id, "op1");
    let after = rows(&journal);
    let changed: Vec<_> = before.iter().filter(|row| !after.contains(row)).collect();
    assert_eq!(changed.len(), 1);
    assert_eq!(changed[0][0], Value::Text("op1".to_string()));
    assert_eq!(
        read_operation(&mut journal, "op1").unwrap().unwrap().disposition,
        Disposition::Failed
    );
    assert!(read_nonterminal_operations(&mut journal).unwrap().is_empty());
}

#[test]
fn generations_of_a_key_never_decrease() {
    let mut journal = new_journal();
    let mut last = 0;
    for (bury, expected) in [(false, 0), (false, 0), (false, 1), (true, 9), (true, 2), (false, 3), (true, 0)] {
        let write = if bury { tombstone_key } else { cas_generation };
        write(&mut journal, "k", Generation(expected)).unwrap();
        let (generation, _) = read_generation(&mut journal, "k").unwrap();
        assert!(generation.0 >= last);
        last = generation.0;
    }
    assert_eq!(read_generation(&mut journal, "k"), Ok((Generation(3), true)));
}

#[test]
fn events_of_unknown_operations_add_no_row() {
    let mut journal = filled_journal();
    let before = rows(&journal);
    assert!(insert_outbox_event(&mut journal, "new", "absent", b"p").is_err());
    assert!(insert_inbox_event(&mut journal, "new", "absent", b"p").is_err());
    assert_eq!(
        insert_outbox_event(&mut journal, "e", "absent", b"p"),
        Ok(InsertEventOutcome::IdentityCollision)
    );
    assert_eq!(rows(&journal), before);
}
