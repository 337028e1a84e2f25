use rusqlite::Connection;
use store_journal::disposition::Disposition;
use store_journal::generation::Generation;
use store_journal::operations::{
    advance_disposition, insert_operation, pin_compensation, read_nonterminal_operations,
    read_operation, report_refusal, run_boot_recovery, set_nonterminal_follow_up,
    OperationRecord, TransitionOutcome,
};
use store_journal::schema::apply_journal_schema_pub;
use store_journal::sql::Journal;

/// A journal without tables.
fn bare_journal() -> Journal {
    Journal::new(Connection::open_in_memory().unwrap())
}

fn silent(_op: &OperationRecord) {}

fn new_journal() -> Journal {
    let mut journal = bare_journal();
    apply_journal_schema_pub(&mut journal).unwrap();
    journal
}

fn conflict(actual: &str) -> Result<TransitionOutcome, String> {
    Ok(TransitionOutcome::Conflict { actual_disposition: actual.to_string() })
}

#[test]
fn inserted_operation_reads_back() {
    let mut journal = new_journal();
    insert_operation(&mut journal, "op", "publish", "k", Generation(u64::MAX)).unwrap();
    let op = read_operation(&mut journal, "op").unwrap().unwrap();
    assert_eq!(op.operation_id, "op");
    assert_eq!(op.kind, "publish");
    assert_eq!(op.key_id, "k");
    assert_eq!(op.disposition, Disposition::Pending);
    assert_eq!(op.generation, Generation(u64::MAX));
    assert_eq!(op.compensation_id, None);
    assert_eq!(op.compensation_generation, None);
    assert!(!op.nonterminal_follow_up);
}

#[test]
fn operations_are_stamped_with_the_clock() {
    let mut journal = new_journal();
    let before = store_journal::clock::unix_now_secs();
    insert_operation(&mut journal, "op", "publish", "k", Generation(1)).unwrap();
    let after = store_journal::clock::unix_now_secs();
    let (created, updated): (i64, i64) = journal
        .connection()
        .query_row("SELECT created_at, updated_at FROM operations", [], |row| {
            Ok((row.get(0)?, row.get(1)?))
        })
        .unwrap();
    assert_eq!(created, updated);
    assert!(before <= created && created <= after);
    assert!(created > 1_700_000_000);
}

#[test]
fn unknown_operation_is_not_found() {
    let mut journal = new_journal();
    assert!(read_operation(&mut journal, "op").unwrap().is_none());
    let outcome = advance_disposition(&mut journal, "op", &Disposition::Pending, &Disposition::Failed);
    assert_eq!(outcome, Ok(TransitionOutcome::NotFound));
    assert_eq!(
        pin_compensation(&mut journal, "op", "c", Generation(1)),
        Ok(TransitionOutcome::NotFound)
    );
    assert_eq!(
        set_nonterminal_follow_up(&mut journal, "op", &Disposition::Uncertain, true),
        Ok(TransitionOutcome::NotFound)
    );
}

#[test]
fn operation_ids_are_taken_once() {
    let mut journal = new_journal();
    insert_operation(&mut journal, "op", "publish", "k", Generation(1)).unwrap();
    let message = insert_operation(&mut journal, "op", "other", "k", Generation(2)).unwrap_err();
    assert!(message.starts_with("insert_operation(op): "), "{message}");
    assert_eq!(read_operation(&mut journal, "op").unwrap().unwrap().kind, "publish");
}

#[test]
fn disposition_advances_from_the_expected_one_only() {
    let mut journal = new_journal();
    insert_operation(&mut journal, "op", "publish", "k", Generation(1)).unwrap();
    insert_operation(&mut journal, "other", "publish", "k", Generation(1)).unwrap();
    assert_eq!(
        advance_disposition(&mut journal, "op", &Disposition::Uncertain, &Disposition::Committed),
        conflict("pending")
    );
    assert_eq!(
        advance_disposition(&mut journal, "op", &Disposition::Pending, &Disposition::Committed),
        Ok(TransitionOutcome::Advanced)
    );
    assert_eq!(
        advance_disposition(&mut journal, "op", &Disposition::Pending, &Disposition::Failed),
        conflict("committed")
    );
    assert_eq!(
        read_operation(&mut journal, "op").unwrap().unwrap().disposition,
        Disposition::Committed
    );
    assert_eq!(
        read_operation(&mut journal, "other").unwrap().unwrap().disposition,
        Disposition::Pending
    );
}

#[test]
fn compensation_is_pinned_once_and_from_pending() {
    let mut journal = new_journal();
    insert_operation(&mut journal, "op", "publish", "k", Generation(1)).unwrap();
    assert_eq!(
        pin_compensation(&mut journal, "op", "c1", Generation(8)),
        Ok(TransitionOutcome::Advanced)
    );
    assert_eq!(pin_compensation(&mut journal, "op", "c2", Generation(9)), conflict("compensating"));
    let op = read_operation(&mut journal, "op").unwrap().unwrap();
    assert_eq!(op.disposition, Disposition::Compensating);
    assert_eq!(op.compensation_id.as_deref(), Some("c1"));
    assert_eq!(op.compensation_generation, Some(Generation(8)));
    assert_eq!(op.generation, Generation(1));
}

#[test]
fn follow_up_is_set_and_cleared() {
    let mut journal = new_journal();
    insert_operation(&mut journal, "op", "publish", "k", Generation(1)).unwrap();
    assert_eq!(
        set_nonterminal_follow_up(&mut journal, "op", &Disposition::Uncertain, true),
        conflict("pending")
    );
    advance_disposition(&mut journal, "op", &Disposition::Pending, &Disposition::Uncertain).unwrap();
    assert_eq!(
        set_nonterminal_follow_up(&mut journal, "op", &Disposition::Uncertain, true),
        Ok(TransitionOutcome::Advanced)
    );
    assert!(read_operation(&mut journal, "op").unwrap().unwrap().nonterminal_follow_up);
    assert_eq!(
        set_nonterminal_follow_up(&mut journal, "op", &Disposition::Uncertain, false),
        Ok(TransitionOutcome::Advanced)
    );
    assert!(!read_operation(&mut journal, "op").unwrap().unwrap().nonterminal_follow_up);
}

#[test]
fn nonterminal_operations_are_listed() {
    let mut journal = new_journal();
    let states = [
        ("a", Disposition::Pending),
        ("b", Disposition::Committed),
        ("c", Disposition::Compensating),
        ("d", Disposition::Compensated),
        ("e", Disposition::Failed),
        ("f", Disposition::Uncertain),
        ("g", Disposition::Accepted),
    ];
    for (id, disposition) in states {
        insert_operation(&mut journal, id, "publish", "k", Generation(1)).unwrap();
        advance_disposition(&mut journal, id, &Disposition::Pending, &disposition).unwrap();
    }
    let mut listed: Vec<(String, Disposition)> = read_nonterminal_operations(&mut journal)
        .unwrap()
        .into_iter()
        .map(|op| (op.operation_id, op.disposition))
        .collect();
    listed.sort_by(|x, y| x.0.cmp(&y.0));
    let expected: Vec<(String, Disposition)> = states
        .iter()
        .filter(|(_, d)| !d.is_terminal())
        .map(|(id, d)| (id.to_string(), *d))
        .collect();
    assert_eq!(listed, expected);
}

#[test]
fn boot_recovery_fails_what_is_nonterminal() {
    let mut journal = new_journal();
    assert!(run_boot_recovery(&mut journal, silent).unwrap().is_empty());
    insert_operation(&mut journal, "a", "publish", "k", Generation(1)).unwrap();
    insert_operation(&mut journal, "b", "publish", "k", Generation(2)).unwrap();
    insert_operation(&mut journal, "c", "publish", "k", Generation(3)).unwrap();
    advance_disposition(&mut journal, "b", &Disposition::Pending, &Disposition::Uncertain).unwrap();
    advance_disposition(&mut journal, "c", &Disposition::Pending, &Disposition::Committed).unwrap();
    let mut found: Vec<(String, Disposition)> = run_boot_recovery(&mut journal, silent)
        .unwrap()
        .into_iter()
        .map(|op| (op.operation_id, op.disposition))
        .collect();
    found.sort_by(|x, y| x.0.cmp(&y.0));
    assert_eq!(
        found,
        vec![
            ("a".to_string(), Disposition::Pending),
            ("b".to_string(), Disposition::Uncertain)
        ]
    );
    for (id, expected) in
        [("a", Disposition::Failed), ("b", Disposition::Failed), ("c", Disposition::Committed)]
    {
        assert_eq!(read_operation(&mut journal, id).unwrap().unwrap().disposition, expected);
    }
    assert!(run_boot_recovery(&mut journal, silent).unwrap().is_empty());
}

#[test]
fn spoilt_operations_are_errors() {
    let mut journal = new_journal();
    insert_operation(&mut journal, "op", "publish", "k", Generation(1)).unwrap();
    journal.connection().execute("UPDATE operations SET disposition = 'lost'", []).unwrap();
    let message = "unknown disposition 'lost'".to_string();
    assert_eq!(read_operation(&mut journal, "op").unwrap_err(), message);
    assert_eq!(read_nonterminal_operations(&mut journal).unwrap_err(), message);
    assert_eq!(run_boot_recovery(&mut journal, silent).unwrap_err(), message);
    assert_eq!(
        advance_disposition(&mut journal, "op", &Disposition::Pending, &Disposition::Failed),
        Err(message)
    );
    journal.connection().execute("UPDATE operations SET disposition = 'pending', generation = '-1'", []).unwrap();
    let message = "parse generation '-1': invalid digit found in string".to_string();
    assert_eq!(read_operation(&mut journal, "op").unwrap_err(), message);
    journal.connection().execute("UPDATE operations SET generation = '1', compensation_generation = ''", [])
        .unwrap();
    let message = "parse generation '': cannot parse integer from empty string".to_string();
    assert_eq!(read_operation(&mut journal, "op").unwrap_err(), message);
    assert_eq!(read_nonterminal_operations(&mut journal).unwrap_err(), message);
}

#[test]
fn missing_operations_table_is_an_error() {
    let mut journal = bare_journal();
    let table = "no such table: operations";
    let starts = |message: String, words: &str| {
        assert!(message.starts_with(&format!("{words}{table}")), "{message}");
    };
    starts(read_operation(&mut journal, "op").unwrap_err(), "read_operation(op): ");
    starts(read_nonterminal_operations(&mut journal).unwrap_err(), "prepare nonterminal ops: ");
    starts(
        advance_disposition(&mut journal, "op", &Disposition::Pending, &Disposition::Failed).unwrap_err(),
        "advance_disposition(op): ",
    );
    starts(
        pin_compensation(&mut journal, "op", "c", Generation(1)).unwrap_err(),
        "pin_compensation(op): ",
    );
    starts(
        set_nonterminal_follow_up(&mut journal, "op", &Disposition::Pending, true).unwrap_err(),
        "set_nonterminal_follow_up(op): ",
    );
}

#[test]
fn row_of_a_wrong_type_is_an_error() {
    let mut journal = new_journal();
    insert_operation(&mut journal, "op", "publish", "k", Generation(1)).unwrap();
    journal.connection().execute("UPDATE operations SET kind = x'00'", []).unwrap();
    let message = read_nonterminal_operations(&mut journal).unwrap_err();
    assert!(message.starts_with("read nonterminal op row: "), "{message}");
    let message = read_operation(&mut journal, "op").unwrap_err();
    assert!(message.starts_with("read_operation(op): "), "{message}");
}

#[test]
fn refusals_are_reported() {
    assert_eq!(report_refusal(None), TransitionOutcome::NotFound);
}

#[test]
fn boot_recovery_reports_each_operation() {
    let mut journal = new_journal();
    insert_operation(&mut journal, "a", "publish", "k", Generation(1)).unwrap();
    insert_operation(&mut journal, "b", "publish", "k", Generation(1)).unwrap();
    advance_disposition(&mut journal, "b", &Disposition::Pending, &Disposition::Accepted).unwrap();
    let seen = std::cell::RefCell::new(Vec::new());
    let report = |op: &OperationRecord| seen.borrow_mut().push((op.operation_id.clone(), op.disposition));
    let listed: Vec<(String, Disposition)> = run_boot_recovery(&mut journal, report)
        .unwrap()
        .into_iter()
        .map(|op| (op.operation_id, op.disposition))
        .collect();
    assert_eq!(*seen.borrow(), listed);
    assert_eq!(listed.len(), 2);
}
