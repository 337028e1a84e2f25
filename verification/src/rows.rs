//! What the journal's statements do to its rows, and what its functions
//! therefore do.
//!
//! The functions of the journal say which calls they make. This file reads each
//! statement of theirs as a change of rows, and states what follows of whole
//! functions while no other process writes in between. The stamps of keys and
//! operations, which nothing reads, are left out.

use vstd::prelude::*;

use crate::clock::is_stamp;
use crate::disposition::{
    disposition_is_terminal, disposition_text, law_disposition_reads_back, Disposition,
};
use crate::events::{
    events_of_reply, inserted, mark_calls, mark_of_reply, read_inbox_calls, read_outbox_calls,
    InsertEventOutcome, INBOX_IDENTITY_SQL, INSERT_INBOX_SQL, INSERT_OUTBOX_SQL, OUTBOX_IDENTITY_SQL,
};
use crate::generation::{
    cas_verdict, law_generation_reads_back, CasOutcome, Generation, KeyState,
};
use crate::keys::{
    attempt_calls, attempt_of_replies, attempted, key_of_reply, key_of_row, let_through,
    read_calls, CAS_GENERATION_SQL, TOMBSTONE_KEY_SQL,
};
use crate::operations::{
    advance_params, all_marking_calls, follow_up_params, insert_operation_calls,
    insertion_of_reply, is_terminal_text, law_list_agrees_with_reading, listed_operation,
    listed_operations, marking_calls, nonterminal_of_reply,
    operation_of_cells, operation_of_reply, pin_params, read_nonterminal_calls,
    read_operation_calls, recovered, recovery_calls, transition_calls, transition_of_replies,
    transitioned, Marking, Operation, Transition, ADVANCE_DISPOSITION_SQL,
    PIN_COMPENSATION_SQL, SET_FOLLOW_UP_SQL,
};
use crate::schema::{set_up_from, setup_calls, setup_ran};
use crate::sql::{
    all_or_first_error, Call, Journal, OperationCells, SelectReply, SqlParam,
};
use crate::text::decimal;

verus! {

// ---- Rows ----------------------------------------------------------------

/// A row of the outbox.
pub struct OutboxRow {
    pub operation_id: Seq<char>,
    pub payload: Seq<u8>,
    pub published_state: int,
    pub created_at: int,
}

/// A row of the inbox.
pub struct InboxRow {
    pub operation_id: Seq<char>,
    pub payload: Seq<u8>,
    pub received_at: int,
}

/// The rows of the journal, each table by its primary key; the tables that there
/// are; and what each pragma was set to.
pub struct Rows {
    pub keys: Map<Seq<char>, (Seq<char>, bool)>,
    pub operations: Map<Seq<char>, OperationCells>,
    pub outbox: Map<Seq<char>, OutboxRow>,
    pub inbox: Map<Seq<char>, InboxRow>,
    pub tables: Set<Seq<char>>,
    pub pragmas: Map<Seq<char>, SqlParam>,
}

/// Whether every table holds the same rows.
pub open spec fn same_rows(first: Rows, second: Rows) -> bool {
    &&& first.keys == second.keys
    &&& first.operations == second.operations
    &&& first.outbox == second.outbox
    &&& first.inbox == second.inbox
}

/// The tables of the journal.
pub open spec fn journal_tables() -> Set<Seq<char>> {
    set!["key_generations"@, "operations"@, "outbox_events"@, "inbox_events"@]
}

/// Whether the pragma `name` was set to `value`.
pub open spec fn is_set(rows: Rows, name: Seq<char>, value: SqlParam) -> bool {
    rows.pragmas.contains_key(name) && rows.pragmas[name] == value
}

/// Whether an event needs its operation to be stored.
pub open spec fn foreign_keys_are_on(rows: Rows) -> bool {
    is_set(rows, "foreign_keys"@, SqlParam::Text("ON"@))
}

/// The row with the primary key `id`, if there is one.
pub open spec fn found<R>(table: Map<Seq<char>, R>, id: Seq<char>) -> Option<R> {
    if table.contains_key(id) {
        Some(table[id])
    } else {
        None
    }
}

/// The identity of an outbox row: its operation and its payload.
pub open spec fn outbox_identity(row: Option<OutboxRow>) -> Option<(Seq<char>, Seq<u8>)> {
    match row {
        Some(r) => Some((r.operation_id, r.payload)),
        None => None,
    }
}

/// The identity of an inbox row.
pub open spec fn inbox_identity(row: Option<InboxRow>) -> Option<(Seq<char>, Seq<u8>)> {
    match row {
        Some(r) => Some((r.operation_id, r.payload)),
        None => None,
    }
}

/// An update of the operation `id` to `new`, fenced by the disposition
/// `expected`.
pub open spec fn fenced_update(
    rows: Rows,
    id: Seq<char>,
    expected: Seq<char>,
    new: OperationCells,
    affected: usize,
    after: Rows,
) -> bool {
    if rows.operations.contains_key(id) && rows.operations[id].disposition == expected {
        affected == 1 && after == (Rows { operations: rows.operations.insert(id, new), ..rows })
    } else {
        affected == 0 && after == rows
    }
}

// ---- The statements ------------------------------------------------------

/// The schema of the journal: its tables, their keys and their columns.
pub open spec fn schema_text() -> Seq<char> {
    "
        -- Per-key generation / tombstone metadata.
        -- generation stored as TEXT to preserve full u64 range.
        -- is_tombstone=1: key deleted; generation kept forever (no GC).
        CREATE TABLE IF NOT EXISTS key_generations (
            key_id    TEXT NOT NULL PRIMARY KEY,
            generation TEXT NOT NULL,
            is_tombstone INTEGER NOT NULL DEFAULT 0,
            updated_at  INTEGER NOT NULL DEFAULT 0
        );

        -- Saga spine.  disposition: pending|committed|compensating|
        -- compensated|failed|uncertain|accepted.
        -- compensation_id/generation: phased claim fence.
        -- nonterminal_follow_up: 1 if uncertain/accepted needs a recheck.
        CREATE TABLE IF NOT EXISTS operations (
            operation_id TEXT NOT NULL PRIMARY KEY,
            kind         TEXT NOT NULL,
            key_id       TEXT NOT NULL,
            disposition  TEXT NOT NULL DEFAULT 'pending',
            generation   TEXT NOT NULL,
            compensation_id         TEXT,
            compensation_generation TEXT,
            nonterminal_follow_up   INTEGER NOT NULL DEFAULT 0,
            created_at   INTEGER NOT NULL,
            updated_at   INTEGER NOT NULL
        );

        -- Immutable outbox rows (written once; publication progress tracked
        -- via append-only operation/event phase transitions, not a mutable
        -- flag).
        -- published_state: 0=pending, 1=published, 2=uncertain, 3=accepted.
        -- Advancing published_state is a fenced CAS; see mark_outbox_published.
        CREATE TABLE IF NOT EXISTS outbox_events (
            event_id     TEXT NOT NULL PRIMARY KEY,
            operation_id TEXT NOT NULL
                REFERENCES operations(operation_id),
            payload      BLOB NOT NULL,
            published_state INTEGER NOT NULL DEFAULT 0,
            created_at   INTEGER NOT NULL
        );

        -- Immutable inbox rows (written once, never updated).
        CREATE TABLE IF NOT EXISTS inbox_events (
            event_id     TEXT NOT NULL PRIMARY KEY,
            operation_id TEXT NOT NULL
                REFERENCES operations(operation_id),
            payload      BLOB NOT NULL,
            received_at  INTEGER NOT NULL
        );
        "@
}

/// The text that is read as `READ_GENERATION_SQL`.
pub open spec fn read_generation_text() -> Seq<char> {
    "SELECT generation, is_tombstone FROM key_generations WHERE key_id = ?1"@
}

/// The text that is read as `CAS_GENERATION_SQL`.
pub open spec fn cas_generation_text() -> Seq<char> {
    "INSERT INTO key_generations (key_id, generation, is_tombstone, updated_at)
         VALUES (?1, ?2, 0, ?3)
         ON CONFLICT(key_id) DO UPDATE SET
             generation  = excluded.generation,
             is_tombstone = 0,
             updated_at  = excluded.updated_at"@
}

/// The text that is read as `TOMBSTONE_KEY_SQL`.
pub open spec fn tombstone_key_text() -> Seq<char> {
    "INSERT INTO key_generations (key_id, generation, is_tombstone, updated_at)
         VALUES (?1, ?2, 1, ?3)
         ON CONFLICT(key_id) DO UPDATE SET
             generation   = excluded.generation,
             is_tombstone = 1,
             updated_at   = excluded.updated_at"@
}

/// The text that is read as `INSERT_OPERATION_SQL`.
pub open spec fn insert_operation_text() -> Seq<char> {
    "INSERT INTO operations
             (operation_id, kind, key_id, disposition, generation, created_at, updated_at)
         VALUES (?1, ?2, ?3, 'pending', ?4, ?5, ?5)"@
}

/// The text that is read as `READ_OPERATION_SQL`.
pub open spec fn read_operation_text() -> Seq<char> {
    "SELECT operation_id, kind, key_id, disposition, generation,
                    compensation_id, compensation_generation, nonterminal_follow_up
             FROM operations WHERE operation_id = ?1"@
}

/// The text that is read as `READ_NONTERMINAL_SQL`.
pub open spec fn read_nonterminal_text() -> Seq<char> {
    "SELECT operation_id, kind, key_id, disposition, generation,
                    compensation_id, compensation_generation, nonterminal_follow_up
             FROM operations
             WHERE disposition NOT IN ('committed', 'compensated', 'failed')"@
}

/// The text that is read as `ADVANCE_DISPOSITION_SQL`.
pub open spec fn advance_disposition_text() -> Seq<char> {
    "UPDATE operations SET disposition = ?1, updated_at = ?2
             WHERE operation_id = ?3 AND disposition = ?4"@
}

/// The text that is read as `PIN_COMPENSATION_SQL`.
pub open spec fn pin_compensation_text() -> Seq<char> {
    "UPDATE operations
             SET disposition            = 'compensating',
                 compensation_id        = ?1,
                 compensation_generation = ?2,
                 updated_at             = ?3
             WHERE operation_id = ?4 AND disposition = 'pending'"@
}

/// The text that is read as `SET_FOLLOW_UP_SQL`.
pub open spec fn set_follow_up_text() -> Seq<char> {
    "UPDATE operations SET nonterminal_follow_up = ?1, updated_at = ?2
             WHERE operation_id = ?3 AND disposition = ?4"@
}

/// The text that is read as `INSERT_OUTBOX_SQL`.
pub open spec fn insert_outbox_text() -> Seq<char> {
    "INSERT OR IGNORE INTO outbox_events
                 (event_id, operation_id, payload, published_state, created_at)
             VALUES (?1, ?2, ?3, 0, ?4)"@
}

/// The text that is read as `OUTBOX_IDENTITY_SQL`.
pub open spec fn outbox_identity_text() -> Seq<char> {
    "SELECT operation_id, payload FROM outbox_events WHERE event_id = ?1"@
}

/// The text that is read as `MARK_PUBLISHED_SQL`.
pub open spec fn mark_published_text() -> Seq<char> {
    "UPDATE outbox_events SET published_state = ?1
             WHERE event_id = ?2 AND published_state = ?3"@
}

/// The text that is read as `INSERT_INBOX_SQL`.
pub open spec fn insert_inbox_text() -> Seq<char> {
    "INSERT OR IGNORE INTO inbox_events
                 (event_id, operation_id, payload, received_at)
             VALUES (?1, ?2, ?3, ?4)"@
}

/// The text that is read as `INBOX_IDENTITY_SQL`.
pub open spec fn inbox_identity_text() -> Seq<char> {
    "SELECT operation_id, payload FROM inbox_events WHERE event_id = ?1"@
}

/// The text that is read as `READ_OUTBOX_SQL`.
pub open spec fn read_outbox_text() -> Seq<char> {
    "SELECT event_id, payload, published_state FROM outbox_events
             WHERE operation_id = ?1 ORDER BY created_at"@
}

/// The text that is read as `READ_INBOX_SQL`.
pub open spec fn read_inbox_text() -> Seq<char> {
    "SELECT event_id, payload FROM inbox_events
             WHERE operation_id = ?1 ORDER BY received_at"@
}

/// What a statement of the journal does to the rows when it does not fail. While
/// foreign keys are on, an event whose operation is not stored is not stored
/// either.
pub open spec fn statement_ran(
    rows: Rows,
    sql: Seq<char>,
    params: Seq<SqlParam>,
    affected: usize,
    after: Rows,
) -> bool {
    &&& sql == cas_generation_text() ==> after == (Rows {
        keys: rows.keys.insert(params[0]->Text_0, (params[1]->Text_0, false)),
        ..rows
    })
    &&& sql == tombstone_key_text() ==> after == (Rows {
        keys: rows.keys.insert(params[0]->Text_0, (params[1]->Text_0, true)),
        ..rows
    })
    &&& sql == insert_operation_text() ==> !rows.operations.contains_key(params[0]->Text_0) && after
        == (Rows {
        operations: rows.operations.insert(
            params[0]->Text_0,
            OperationCells {
                operation_id: params[0]->Text_0,
                kind: params[1]->Text_0,
                key_id: params[2]->Text_0,
                disposition: "pending"@,
                generation: params[3]->Text_0,
                compensation_id: None,
                compensation_generation: None,
                nonterminal_follow_up: false,
            },
        ),
        ..rows
    })
    &&& sql == advance_disposition_text() ==> {
        let id = params[2]->Text_0;
        let new = OperationCells { disposition: params[0]->Text_0, ..rows.operations[id] };
        fenced_update(rows, id, params[3]->Text_0, new, affected, after)
    }
    &&& sql == pin_compensation_text() ==> {
        let id = params[3]->Text_0;
        let new = OperationCells {
            disposition: "compensating"@,
            compensation_id: Some(params[0]->Text_0),
            compensation_generation: Some(params[1]->Text_0),
            ..rows.operations[id]
        };
        fenced_update(rows, id, "pending"@, new, affected, after)
    }
    &&& sql == set_follow_up_text() ==> {
        let id = params[2]->Text_0;
        let new = OperationCells {
            nonterminal_follow_up: params[0]->Integer_0 != 0,
            ..rows.operations[id]
        };
        fenced_update(rows, id, params[3]->Text_0, new, affected, after)
    }
    &&& sql == insert_outbox_text() ==> if rows.outbox.contains_key(params[0]->Text_0) {
        affected == 0 && after == rows
    } else {
        &&& affected == 1
        &&& foreign_keys_are_on(rows) ==> rows.operations.contains_key(params[1]->Text_0)
        &&& after == (Rows {
            outbox: rows.outbox.insert(
                params[0]->Text_0,
                OutboxRow {
                    operation_id: params[1]->Text_0,
                    payload: params[2]->Blob_0,
                    published_state: 0,
                    created_at: params[3]->Integer_0,
                },
            ),
            ..rows
        })
    }
    &&& sql == mark_published_text() ==> {
        let id = params[1]->Text_0;
        if rows.outbox.contains_key(id) && rows.outbox[id].published_state == params[2]->Integer_0 {
            affected == 1 && after == (Rows {
                outbox: rows.outbox.insert(
                    id,
                    OutboxRow { published_state: params[0]->Integer_0, ..rows.outbox[id] },
                ),
                ..rows
            })
        } else {
            affected == 0 && after == rows
        }
    }
    &&& sql == insert_inbox_text() ==> if rows.inbox.contains_key(params[0]->Text_0) {
        affected == 0 && after == rows
    } else {
        &&& affected == 1
        &&& foreign_keys_are_on(rows) ==> rows.operations.contains_key(params[1]->Text_0)
        &&& after == (Rows {
            inbox: rows.inbox.insert(
                params[0]->Text_0,
                InboxRow {
                    operation_id: params[1]->Text_0,
                    payload: params[2]->Blob_0,
                    received_at: params[3]->Integer_0,
                },
            ),
            ..rows
        })
    }
}

/// Whether all items of a list could be read.
pub open spec fn all_read<R>(list: Seq<Result<R, Seq<char>>>) -> bool {
    forall|i: int| 0 <= i < list.len() ==> #[trigger] list[i] is Ok
}

/// The list of the operations that are not at an end: each item that could be
/// read is such an operation as it is stored, none is listed twice, and if all
/// could be read, none is missing.
pub open spec fn lists_nonterminal(
    rows: Rows,
    list: Seq<Result<OperationCells, Seq<char>>>,
) -> bool {
    &&& forall|i: int|
        0 <= i < list.len() ==> (#[trigger] list[i] matches Ok(cells) ==> {
            &&& rows.operations.contains_key(cells.operation_id)
            &&& rows.operations[cells.operation_id] == cells
            &&& !is_terminal_text(cells.disposition)
        })
    &&& forall|i: int, j: int|
        0 <= i < j < list.len() && (#[trigger] list[i]) is Ok && (#[trigger] list[j]) is Ok
            ==> list[i]->Ok_0.operation_id != list[j]->Ok_0.operation_id
    &&& all_read(list) ==> forall|id: Seq<char>| #[trigger]
        rows.operations.contains_key(id) && !is_terminal_text(rows.operations[id].disposition)
            ==> list.contains(Ok(rows.operations[id]))
}

/// The list of an operation's outbox events: each item that could be read is
/// such an event as it is stored, none is listed twice, their stamps do not
/// decrease, and if all could be read, none is missing.
pub open spec fn lists_outbox(
    rows: Rows,
    operation_id: Seq<char>,
    list: Seq<Result<(Seq<char>, Seq<u8>, i64), Seq<char>>>,
) -> bool {
    &&& forall|i: int|
        0 <= i < list.len() ==> (#[trigger] list[i] matches Ok(event) ==> {
            &&& rows.outbox.contains_key(event.0)
            &&& rows.outbox[event.0].operation_id == operation_id
            &&& rows.outbox[event.0].payload == event.1
            &&& rows.outbox[event.0].published_state == event.2
        })
    &&& forall|i: int, j: int|
        0 <= i < j < list.len() && (#[trigger] list[i]) is Ok && (#[trigger] list[j]) is Ok ==> {
            &&& list[i]->Ok_0.0 != list[j]->Ok_0.0
            &&& rows.outbox[list[i]->Ok_0.0].created_at <= rows.outbox[list[j]->Ok_0.0].created_at
        }
    &&& all_read(list) ==> forall|id: Seq<char>| #[trigger]
        rows.outbox.contains_key(id) && rows.outbox[id].operation_id == operation_id ==> exists|
            i: int,
        |
            0 <= i < list.len() && (#[trigger] list[i])->Ok_0.0 == id
}

/// The list of an operation's inbox events, in the same way.
pub open spec fn lists_inbox(
    rows: Rows,
    operation_id: Seq<char>,
    list: Seq<Result<(Seq<char>, Seq<u8>), Seq<char>>>,
) -> bool {
    &&& forall|i: int|
        0 <= i < list.len() ==> (#[trigger] list[i] matches Ok(event) ==> {
            &&& rows.inbox.contains_key(event.0)
            &&& rows.inbox[event.0].operation_id == operation_id
            &&& rows.inbox[event.0].payload == event.1
        })
    &&& forall|i: int, j: int|
        0 <= i < j < list.len() && (#[trigger] list[i]) is Ok && (#[trigger] list[j]) is Ok ==> {
            &&& list[i]->Ok_0.0 != list[j]->Ok_0.0
            &&& rows.inbox[list[i]->Ok_0.0].received_at <= rows.inbox[list[j]->Ok_0.0].received_at
        }
    &&& all_read(list) ==> forall|id: Seq<char>| #[trigger]
        rows.inbox.contains_key(id) && rows.inbox[id].operation_id == operation_id ==> exists|
            i: int,
        |
            0 <= i < list.len() && (#[trigger] list[i])->Ok_0.0 == id
}

/// `after` are the rows once `call` was made on `rows`, and its reply tells the
/// truth of them. A statement or pragma that fails changes nothing, nor does a
/// query. The schema makes the tables that are not there, or some of them if it
/// fails, and changes no row.
pub open spec fn takes_effect(rows: Rows, call: Call, after: Rows) -> bool {
    match call {
        Call::Execute { sql, params, reply } => match reply {
            Ok(affected) => statement_ran(rows, sql, params, affected, after),
            Err(_) => after == rows,
        },
        Call::Batch { sql, reply } => sql == schema_text() ==> {
            &&& same_rows(rows, after)
            &&& after.pragmas == rows.pragmas
            &&& rows.tables.subset_of(after.tables)
            &&& reply is Ok ==> journal_tables().subset_of(after.tables)
        },
        Call::Pragma { name, value, reply } => match reply {
            Ok(_) => after == (Rows { pragmas: rows.pragmas.insert(name, value), ..rows }),
            Err(_) => after == rows,
        },
        Call::QueryKey { sql, key, reply } => {
            &&& after == rows
            &&& sql == read_generation_text() && reply is Ok ==> reply->Ok_0 == found(rows.keys, key)
        },
        Call::QueryOperation { sql, operation_id, reply } => {
            &&& after == rows
            &&& sql == read_operation_text() && reply is Ok ==> reply->Ok_0 == found(
                rows.operations,
                operation_id,
            )
        },
        Call::QueryIdentity { sql, event_id, reply } => {
            &&& after == rows
            &&& sql == outbox_identity_text() && reply is Ok ==> reply->Ok_0 == outbox_identity(
                found(rows.outbox, event_id),
            )
            &&& sql == inbox_identity_text() && reply is Ok ==> reply->Ok_0 == inbox_identity(
                found(rows.inbox, event_id),
            )
        },
        Call::SelectOperations { sql, reply } => {
            &&& after == rows
            &&& sql == read_nonterminal_text() && reply is Rows ==> lists_nonterminal(
                rows,
                reply->Rows_0,
            )
        },
        Call::SelectOutbox { sql, operation_id, reply } => {
            &&& after == rows
            &&& sql == read_outbox_text() && reply is Rows ==> lists_outbox(
                rows,
                operation_id,
                reply->Rows_0,
            )
        },
        Call::SelectInbox { sql, operation_id, reply } => {
            &&& after == rows
            &&& sql == read_inbox_text() && reply is Rows ==> lists_inbox(
                rows,
                operation_id,
                reply->Rows_0,
            )
        },
    }
}

/// `states` are the rows before, between and after the calls `made`, while no
/// other process writes.
pub open spec fn history(states: Seq<Rows>, made: Seq<Call>) -> bool {
    &&& states.len() == made.len() + 1
    &&& forall|i: int|
        0 <= i < made.len() ==> takes_effect(states[i], #[trigger] made[i], states[i + 1])
}

/// Whether the database did what it was asked, and reported no error.
pub open spec fn answered(call: Call) -> bool {
    match call {
        Call::Execute { reply, .. } => reply is Ok,
        Call::Batch { reply, .. } => reply is Ok,
        Call::Pragma { reply, .. } => reply is Ok,
        Call::QueryKey { reply, .. } => reply is Ok,
        Call::QueryOperation { reply, .. } => reply is Ok,
        Call::QueryIdentity { reply, .. } => reply is Ok,
        Call::SelectOperations { reply, .. } => reply is Rows && all_read(reply->Rows_0),
        Call::SelectOutbox { reply, .. } => reply is Rows && all_read(reply->Rows_0),
        Call::SelectInbox { reply, .. } => reply is Rows && all_read(reply->Rows_0),
    }
}

/// Whether all of these calls were answered without an error.
pub open spec fn all_answered(made: Seq<Call>) -> bool {
    forall|i: int| 0 <= i < made.len() ==> answered(#[trigger] made[i])
}

/// The history of some calls and some more is that of the ones and then that of
/// the others.
proof fn lemma_history_splits(states: Seq<Rows>, first: Seq<Call>, second: Seq<Call>)
    requires
        history(states, first + second),
    ensures
        history(states.take(first.len() as int + 1), first),
        history(states.skip(first.len() as int), second),
        states.take(first.len() as int + 1).last() == states.skip(first.len() as int).first(),
        all_answered(first + second) ==> all_answered(first) && all_answered(second),
{
    let made = first + second;
    let n = first.len() as int;
    assert forall|i: int| 0 <= i < first.len() implies takes_effect(
        states.take(n + 1)[i],
        #[trigger] first[i],
        states.take(n + 1)[i + 1],
    ) && (all_answered(made) ==> answered(first[i])) by {
        assert(made[i] == first[i]);
    }
    assert forall|i: int| 0 <= i < second.len() implies takes_effect(
        states.skip(n)[i],
        #[trigger] second[i],
        states.skip(n)[i + 1],
    ) && (all_answered(made) ==> answered(second[i])) by {
        assert(made[n + i] == second[i]);
    }
}

// ---- Reading and setting up ----------------------------------------------

/// Whether a call is a query.
pub open spec fn is_query(call: Call) -> bool {
    match call {
        Call::Execute { .. } | Call::Batch { .. } | Call::Pragma { .. } => false,
        _ => true,
    }
}

/// Reading changes no row: not a key's generation, an operation, the list of
/// operations, nor events.
pub proof fn law_reading_changes_nothing(states: Seq<Rows>, made: Seq<Call>)
    requires
        history(states, made),
        forall|i: int| 0 <= i < made.len() ==> is_query(#[trigger] made[i]),
    ensures
        states.last() == states.first(),
    decreases made.len(),
{
    if made.len() > 0 {
        let before = made.drop_last();
        let last = seq![made.last()];
        assert(made =~= before + last);
        lemma_history_splits(states, before, last);
        assert forall|i: int| 0 <= i < before.len() implies is_query(#[trigger] before[i]) by {
            assert(before[i] == made[i]);
        }
        law_reading_changes_nothing(states.take(made.len() as int), before);
        assert(takes_effect(
            states[made.len() - 1],
            made[made.len() - 1],
            states[made.len() as int],
        ));
    }
}

/// Setting up a journal keeps every row: opening it again, or applying the
/// schema again, changes none, however far it gets.
pub proof fn law_setup_keeps_every_row(
    first: int,
    replies: Seq<Result<(), Seq<char>>>,
    states: Seq<Rows>,
)
    requires
        history(states, setup_calls(first, replies)),
    ensures
        same_rows(states.first(), states.last()),
    decreases replies.len(),
{
    if replies.len() > 0 {
        let made = setup_calls(first, replies);
        let before = setup_calls(first, replies.drop_last());
        let last = seq![made.last()];
        assert(made =~= before + last);
        lemma_history_splits(states, before, last);
        law_setup_keeps_every_row(first, replies.drop_last(), states.take(made.len() as int));
        assert(takes_effect(
            states[made.len() - 1],
            made[made.len() - 1],
            states[made.len() as int],
        ));
    }
}

/// A journal that was opened is ready: its tables are there, the busy timeout is
/// five seconds, write-ahead logging is asked for, foreign keys are on, the
/// schema's version is set, and every row is as it was before. A database that
/// is not a file may keep another journal mode.
pub proof fn law_opened_journal_is_ready(
    conn: rusqlite::Connection,
    journal: Journal,
    states: Seq<Rows>,
)
    requires
        set_up_from(conn, journal, Ok(())),
        history(states, journal.calls()),
    ensures
        journal_tables().subset_of(states.last().tables),
        is_set(states.last(), "busy_timeout"@, SqlParam::Integer(5000)),
        is_set(states.last(), "journal_mode"@, SqlParam::Text("WAL"@)),
        is_set(states.last(), "foreign_keys"@, SqlParam::Text("ON"@)),
        is_set(states.last(), "user_version"@, SqlParam::Integer(1)),
        same_rows(states.first(), states.last()),
{
    reveal_strlit("busy_timeout");
    reveal_strlit("journal_mode");
    reveal_strlit("foreign_keys");
    reveal_strlit("user_version");
    let made = journal.calls();
    let replies = choose|replies: Seq<Result<(), Seq<char>>>|
        made == #[trigger] setup_calls(0, replies) && setup_ran(0, replies, Ok(()));
    law_setup_keeps_every_row(0, replies, states);
    assert("busy_timeout"@[0] == 'b');
    assert("journal_mode"@[0] == 'j');
    assert("foreign_keys"@[0] == 'f');
    assert("user_version"@[0] == 'u');
    assert(replies[0] is Ok && replies[1] is Ok && replies[2] is Ok && replies[3] is Ok);
    assert(replies.last() is Ok);
    assert(takes_effect(states[0], made[0], states[1]));
    assert(takes_effect(states[1], made[1], states[2]));
    assert(takes_effect(states[2], made[2], states[3]));
    assert(takes_effect(states[3], made[3], states[4]));
    assert(takes_effect(states[4], made[4], states[5]));
}

/// Reading a key tells what is stored of it, unless the query fails; a key
/// without a row is at generation zero, and reading it makes no row.
pub proof fn law_key_is_read_as_stored(
    key_id: Seq<char>,
    reply: Result<Option<(Seq<char>, bool)>, Seq<char>>,
    states: Seq<Rows>,
)
    requires
        history(states, read_calls(key_id, reply)),
    ensures
        states.last() == states.first(),
        reply is Ok ==> key_of_reply(key_id, reply) == key_of_row(
            found(states.first().keys, key_id),
        ),
{
    assert(takes_effect(states[0], read_calls(key_id, reply)[0], states[1]));
}

/// Reading an operation tells what is stored under its id, unless the query
/// fails: nothing if there is no row, and an error rather than a default if the
/// row is spoilt.
pub proof fn law_operation_is_read_as_stored(
    operation_id: Seq<char>,
    reply: Result<Option<OperationCells>, Seq<char>>,
    states: Seq<Rows>,
)
    requires
        history(states, read_operation_calls(operation_id, reply)),
        are_keyed(states.first()),
    ensures
        states.last() == states.first(),
        reply is Ok ==> match found(states.first().operations, operation_id) {
            None => operation_of_reply(operation_id, reply) == Ok::<Option<Operation>, Seq<char>>(
                None,
            ),
            Some(cells) => match operation_of_cells(cells) {
                Ok(op) => op.operation_id == operation_id && operation_of_reply(
                    operation_id,
                    reply,
                ) == Ok::<Option<Operation>, Seq<char>>(Some(op)),
                Err(message) => operation_of_reply(operation_id, reply) == Err::<
                    Option<Operation>,
                    Seq<char>,
                >(message),
            },
        },
{
    assert(takes_effect(states[0], read_operation_calls(operation_id, reply)[0], states[1]));
}

/// Reading the outbox events of an operation gives exactly those that are
/// stored, each once and with its payload and publication state, in the order of their
/// stamps.
pub proof fn law_outbox_is_read_as_stored(
    operation_id: Seq<char>,
    reply: SelectReply<(Seq<char>, Seq<u8>, i64)>,
    preparing: Seq<char>,
    querying: Seq<char>,
    reading: Seq<char>,
    events: Seq<(Seq<char>, Seq<u8>, i64)>,
    states: Seq<Rows>,
)
    requires
        history(states, read_outbox_calls(operation_id, reply)),
        events_of_reply(preparing, querying, reading, reply) == Ok::<Seq<(Seq<char>, Seq<u8>, i64)>, Seq<char>>(
            events,
        ),
    ensures
        states.last() == states.first(),
        forall|i: int|
            0 <= i < events.len() ==> {
                &&& states.first().outbox.contains_key((#[trigger] events[i]).0)
                &&& states.first().outbox[events[i].0].operation_id == operation_id
                &&& states.first().outbox[events[i].0].payload == events[i].1
                &&& states.first().outbox[events[i].0].published_state == events[i].2
            },
        forall|i: int, j: int|
            0 <= i < j < events.len() ==> {
                &&& (#[trigger] events[i]).0 != (#[trigger] events[j]).0
                &&& states.first().outbox[events[i].0].created_at
                    <= states.first().outbox[events[j].0].created_at
            },
        forall|id: Seq<char>| #[trigger]
            states.first().outbox.contains_key(id) && states.first().outbox[id].operation_id
                == operation_id ==> exists|i: int|
                0 <= i < events.len() && (#[trigger] events[i]).0 == id,
{
    assert(takes_effect(states[0], read_outbox_calls(operation_id, reply)[0], states[1]));
    let list = reply->Rows_0;
    lemma_all_are_values(list, events);
    assert forall|i: int| 0 <= i < events.len() implies {
        &&& states.first().outbox.contains_key((#[trigger] events[i]).0)
        &&& states.first().outbox[events[i].0].operation_id == operation_id
        &&& states.first().outbox[events[i].0].payload == events[i].1
        &&& states.first().outbox[events[i].0].published_state == events[i].2
    } by {
        assert(list[i] is Ok);
    }
    assert forall|i: int, j: int| 0 <= i < j < events.len() implies {
        &&& (#[trigger] events[i]).0 != (#[trigger] events[j]).0
        &&& states.first().outbox[events[i].0].created_at
            <= states.first().outbox[events[j].0].created_at
    } by {
        assert(list[i] is Ok && list[j] is Ok);
    }
    assert forall|id: Seq<char>| #[trigger]
        states.first().outbox.contains_key(id) && states.first().outbox[id].operation_id
            == operation_id implies exists|i: int|
        0 <= i < events.len() && (#[trigger] events[i]).0 == id by {
        let i = choose|i: int| 0 <= i < list.len() && (#[trigger] list[i])->Ok_0.0 == id;
        assert(events[i].0 == id);
    }
}

/// Reading the inbox events of an operation gives exactly those that are
/// stored, each once and with its payload, in the order of their
/// stamps.
pub proof fn law_inbox_is_read_as_stored(
    operation_id: Seq<char>,
    reply: SelectReply<(Seq<char>, Seq<u8>)>,
    preparing: Seq<char>,
    querying: Seq<char>,
    reading: Seq<char>,
    events: Seq<(Seq<char>, Seq<u8>)>,
    states: Seq<Rows>,
)
    requires
        history(states, read_inbox_calls(operation_id, reply)),
        events_of_reply(preparing, querying, reading, reply) == Ok::<Seq<(Seq<char>, Seq<u8>)>, Seq<char>>(
            events,
        ),
    ensures
        states.last() == states.first(),
        forall|i: int|
            0 <= i < events.len() ==> {
                &&& states.first().inbox.contains_key((#[trigger] events[i]).0)
                &&& states.first().inbox[events[i].0].operation_id == operation_id
                &&& states.first().inbox[events[i].0].payload == events[i].1
            },
        forall|i: int, j: int|
            0 <= i < j < events.len() ==> {
                &&& (#[trigger] events[i]).0 != (#[trigger] events[j]).0
                &&& states.first().inbox[events[i].0].received_at
                    <= states.first().inbox[events[j].0].received_at
            },
        forall|id: Seq<char>| #[trigger]
            states.first().inbox.contains_key(id) && states.first().inbox[id].operation_id
                == operation_id ==> exists|i: int|
                0 <= i < events.len() && (#[trigger] events[i]).0 == id,
{
    assert(takes_effect(states[0], read_inbox_calls(operation_id, reply)[0], states[1]));
    let list = reply->Rows_0;
    lemma_all_are_values(list, events);
    assert forall|i: int| 0 <= i < events.len() implies {
        &&& states.first().inbox.contains_key((#[trigger] events[i]).0)
        &&& states.first().inbox[events[i].0].operation_id == operation_id
        &&& states.first().inbox[events[i].0].payload == events[i].1
    } by {
        assert(list[i] is Ok);
    }
    assert forall|i: int, j: int| 0 <= i < j < events.len() implies {
        &&& (#[trigger] events[i]).0 != (#[trigger] events[j]).0
        &&& states.first().inbox[events[i].0].received_at
            <= states.first().inbox[events[j].0].received_at
    } by {
        assert(list[i] is Ok && list[j] is Ok);
    }
    assert forall|id: Seq<char>| #[trigger]
        states.first().inbox.contains_key(id) && states.first().inbox[id].operation_id
            == operation_id implies exists|i: int|
        0 <= i < events.len() && (#[trigger] events[i]).0 == id by {
        let i = choose|i: int| 0 <= i < list.len() && (#[trigger] list[i])->Ok_0.0 == id;
        assert(events[i].0 == id);
    }
}

/// Whether every stored operation can be read.
pub open spec fn all_decode(rows: Rows) -> bool {
    forall|id: Seq<char>| #[trigger]
        rows.operations.contains_key(id) ==> operation_of_cells(rows.operations[id]) is Ok
}

/// Reading the operations that are not at an end gives exactly those, each once:
/// an operation is in the list exactly if reading it gives an operation that is
/// not terminal, and the two are the same in every field. If every operation can
/// be read and the query does not fail, there is such a list.
pub proof fn law_nonterminal_are_listed_once(
    reply: SelectReply<OperationCells>,
    states: Seq<Rows>,
)
    requires
        history(states, read_nonterminal_calls(reply)),
        are_keyed(states.first()),
    ensures
        states.last() == states.first(),
        all_answered(read_nonterminal_calls(reply)) && all_decode(states.first())
            ==> nonterminal_of_reply(reply) is Ok,
        nonterminal_of_reply(reply) matches Ok(ops) ==> {
            &&& forall|i: int, j: int|
                0 <= i < j < ops.len() ==> (#[trigger] ops[i]).operation_id != (
                #[trigger] ops[j]).operation_id
            &&& forall|op: Operation| #[trigger]
                ops.contains(op) <==> operation_of_reply(
                    op.operation_id,
                    Ok(found(states.first().operations, op.operation_id)),
                ) == Ok::<Option<Operation>, Seq<char>>(Some(op)) && !disposition_is_terminal(
                    op.disposition,
                )
        },
{
    let first = states.first();
    let made = read_nonterminal_calls(reply);
    assert(takes_effect(states[0], made[0], states[1]));
    assert(all_answered(made) ==> answered(made[0]));
    if reply is Rows {
        let list = reply->Rows_0;
        let results = list.map_values(
            |row: Result<OperationCells, Seq<char>>| listed_operation(row),
        );
        if all_answered(made) && all_decode(first) {
            assert forall|i: int| 0 <= i < results.len() implies #[trigger] results[i] is Ok by {
                assert(list[i] is Ok);
            }
            lemma_values_of_all(results);
        }
        if let Ok(ops) = nonterminal_of_reply(reply) {
            lemma_listed(first, list, ops);
            assert forall|op: Operation| #[trigger]
                ops.contains(op) <==> operation_of_reply(
                    op.operation_id,
                    Ok(found(first.operations, op.operation_id)),
                ) == Ok::<Option<Operation>, Seq<char>>(Some(op)) && !disposition_is_terminal(
                    op.disposition,
                ) by {
                if ops.contains(op) {
                    let i = choose|i: int| 0 <= i < ops.len() && ops[i] == op;
                    assert(is_stored_nonterminal(first, ops[i]));
                    law_list_agrees_with_reading(
                        op.operation_id,
                        first.operations[op.operation_id],
                    );
                }
                if first.operations.contains_key(op.operation_id) {
                    let cells = first.operations[op.operation_id];
                    if operation_of_cells(cells) == Ok::<Operation, Seq<char>>(op)
                        && !disposition_is_terminal(op.disposition) {
                        law_list_agrees_with_reading(op.operation_id, cells);
                        assert(list.contains(Ok(cells)));
                        let i = choose|i: int|
                            0 <= i < list.len() && list[i] == Ok::<OperationCells, Seq<char>>(
                                cells,
                            );
                        assert(list[i] is Ok);
                        assert(results[i] == listed_operation(list[i]));
                        assert(ops[i] == op);
                    }
                }
            }
        }
    }
}

/// What a list of operations that could all be read says.
proof fn lemma_listed(
    rows: Rows,
    list: Seq<Result<OperationCells, Seq<char>>>,
    ops: Seq<Operation>,
)
    requires
        lists_nonterminal(rows, list),
        listed_operations(list) == Ok::<Seq<Operation>, Seq<char>>(ops),
    ensures
        ops.len() == list.len(),
        all_read(list),
        forall|i: int|
            0 <= i < list.len() ==> {
                &&& listed_operation(#[trigger] list[i]) == Ok::<Operation, Seq<char>>(ops[i])
                &&& list[i]->Ok_0.operation_id == ops[i].operation_id
            },
        forall|i: int| 0 <= i < ops.len() ==> is_stored_nonterminal(rows, #[trigger] ops[i]),
        forall|i: int, j: int|
            0 <= i < j < ops.len() ==> (#[trigger] ops[i]).operation_id != (
            #[trigger] ops[j]).operation_id,
{
    let results = list.map_values(
        |row: Result<OperationCells, Seq<char>>| listed_operation(row),
    );
    lemma_all_are_values(results, ops);
    assert forall|i: int| 0 <= i < list.len() implies {
        &&& #[trigger] list[i] is Ok
        &&& listed_operation(list[i]) == Ok::<Operation, Seq<char>>(ops[i])
        &&& list[i]->Ok_0.operation_id == ops[i].operation_id
        &&& is_stored_nonterminal(rows, ops[i])
    } by {
        assert(results[i] == listed_operation(list[i]));
    }
    assert forall|i: int| 0 <= i < ops.len() implies is_stored_nonterminal(
        rows,
        #[trigger] ops[i],
    ) by {
        assert(list[i] is Ok);
    }
    assert forall|i: int, j: int| 0 <= i < j < ops.len() implies (#[trigger] ops[i]).operation_id
        != (#[trigger] ops[j]).operation_id by {
        assert(list[i] is Ok && list[j] is Ok);
    }
}

/// If every result is a value, there is a list of them.
proof fn lemma_values_of_all<T>(results: Seq<Result<T, Seq<char>>>)
    requires
        forall|i: int| 0 <= i < results.len() ==> #[trigger] results[i] is Ok,
    ensures
        all_or_first_error(results) is Ok,
    decreases results.len(),
{
    if results.len() > 0 {
        let before = results.drop_last();
        assert forall|i: int| 0 <= i < before.len() implies #[trigger] before[i] is Ok by {
            assert(before[i] == results[i]);
        }
        lemma_values_of_all(before);
        assert(results[results.len() - 1] is Ok);
    }
}

// ---- Keys ----------------------------------------------------------------

/// The statement of an attempt to write a key: a burial or an advance.
pub open spec fn key_statement(buries: bool) -> Seq<char> {
    if buries {
        TOMBSTONE_KEY_SQL@
    } else {
        CAS_GENERATION_SQL@
    }
}

/// An attempt to write a key changes no row unless it commits, and then it
/// changes the row of its own key alone, which reads back as the generation
/// after the expected one, live or buried. If no call fails, the answer is the
/// verdict on the key as it is stored.
pub proof fn law_attempt_changes_its_key_alone(
    buries: bool,
    label: Seq<char>,
    key_id: Seq<char>,
    expected: Generation,
    made: Seq<Call>,
    res: Result<CasOutcome, Seq<char>>,
    states: Seq<Rows>,
)
    requires
        attempted(key_statement(buries), label, key_id, expected, made, res),
        history(states, made),
    ensures
        match res {
            Ok(CasOutcome::Committed { new_generation }) => {
                &&& new_generation.0 == expected.0 + 1
                &&& key_of_row(found(states.first().keys, key_id)) == Ok::<
                    (Generation, bool),
                    Seq<char>,
                >((expected, false))
                &&& states.last() == (Rows {
                    keys: states.first().keys.insert(
                        key_id,
                        (decimal(new_generation.0 as nat), buries),
                    ),
                    ..states.first()
                })
                &&& key_of_row(found(states.last().keys, key_id)) == Ok::<
                    (Generation, bool),
                    Seq<char>,
                >((new_generation, buries))
            },
            _ => states.last() == states.first(),
        },
        all_answered(made) ==> res == match key_of_row(found(states.first().keys, key_id)) {
            Ok((generation, is_tombstone)) => cas_verdict(
                KeyState { generation, is_tombstone },
                expected,
            ),
            Err(message) => Err::<CasOutcome, Seq<char>>(message),
        },
{
    let (read, now, wrote) = choose|
        read: Result<Option<(Seq<char>, bool)>, Seq<char>>,
        now: i64,
        wrote: Result<usize, Seq<char>>,
    |
        {
            &&& made == #[trigger] attempt_calls(
                key_statement(buries),
                key_id,
                expected,
                read,
                now,
                wrote,
            )
            &&& res == attempt_of_replies(label, key_id, expected, read, wrote)
        };
    assert(takes_effect(states[0], made[0], states[1]));
    assert(all_answered(made) ==> answered(made[0]));
    if let Some(new_generation) = let_through(key_id, expected, read) {
        assert(takes_effect(states[1], made[1], states[2]));
        assert(all_answered(made) ==> answered(made[1]));
        law_generation_reads_back(new_generation);
    }
}

/// An attempt to write a key, with its calls, what it came to, and the rows
/// along the way.
pub struct KeyAttempt {
    pub buries: bool,
    pub label: Seq<char>,
    pub key_id: Seq<char>,
    pub expected: Generation,
    pub made: Seq<Call>,
    pub res: Result<CasOutcome, Seq<char>>,
    pub states: Seq<Rows>,
}

/// A row of attempts, one after the other, takes the rows from `first` to
/// `last`.
pub open spec fn attempts_ran(attempts: Seq<KeyAttempt>, first: Rows, last: Rows) -> bool
    decreases attempts.len(),
{
    if attempts.len() == 0 {
        last == first
    } else {
        let a = attempts.last();
        &&& attempted(key_statement(a.buries), a.label, a.key_id, a.expected, a.made, a.res)
        &&& history(a.states, a.made)
        &&& a.states.last() == last
        &&& attempts_ran(attempts.drop_last(), first, a.states.first())
    }
}

/// A tombstone is kept for ever: it survives any row of advances and burials, of
/// whatever keys and with whatever expectations. Each of those on its key makes
/// no call but the query, and is answered with the tombstone's generation unless
/// that query fails.
pub proof fn law_tombstone_survives(
    attempts: Seq<KeyAttempt>,
    first: Rows,
    last: Rows,
    key_id: Seq<char>,
    tombstone_generation: Generation,
)
    requires
        attempts_ran(attempts, first, last),
        found(first.keys, key_id) == Some((decimal(tombstone_generation.0 as nat), true)),
    ensures
        found(last.keys, key_id) == Some((decimal(tombstone_generation.0 as nat), true)),
        forall|i: int|
            0 <= i < attempts.len() && (#[trigger] attempts[i]).key_id == key_id ==> {
                &&& attempts[i].made.len() == 1
                &&& all_answered(attempts[i].made) ==> attempts[i].res == Ok::<
                    CasOutcome,
                    Seq<char>,
                >(CasOutcome::Tombstoned { tombstone_generation })
            },
    decreases attempts.len(),
{
    if attempts.len() > 0 {
        let a = attempts.last();
        let before = attempts.drop_last();
        law_tombstone_survives(before, first, a.states.first(), key_id, tombstone_generation);
        law_attempt_changes_its_key_alone(
            a.buries,
            a.label,
            a.key_id,
            a.expected,
            a.made,
            a.res,
            a.states,
        );
        law_generation_reads_back(tombstone_generation);
        let (read, now, wrote) = choose|
            read: Result<Option<(Seq<char>, bool)>, Seq<char>>,
            now: i64,
            wrote: Result<usize, Seq<char>>,
        |
            {
                &&& a.made == #[trigger] attempt_calls(
                    key_statement(a.buries),
                    a.key_id,
                    a.expected,
                    read,
                    now,
                    wrote,
                )
                &&& a.res == attempt_of_replies(a.label, a.key_id, a.expected, read, wrote)
            };
        assert(takes_effect(a.states[0], a.made[0], a.states[1]));
        assert forall|i: int|
            0 <= i < attempts.len() && (#[trigger] attempts[i]).key_id == key_id implies {
            &&& attempts[i].made.len() == 1
            &&& all_answered(attempts[i].made) ==> attempts[i].res == Ok::<CasOutcome, Seq<char>>(
                CasOutcome::Tombstoned { tombstone_generation },
            )
        } by {
            if i < before.len() {
                assert(before[i] == attempts[i]);
            }
        }
    }
}

/// Over any row of attempts the generation of a key never decreases, and no
/// tombstone is taken back. A key that still has the generation it had is as it
/// was.
pub proof fn law_generations_never_decrease(
    attempts: Seq<KeyAttempt>,
    first: Rows,
    last: Rows,
    key_id: Seq<char>,
    generation: Generation,
    is_tombstone: bool,
)
    requires
        attempts_ran(attempts, first, last),
        key_of_row(found(first.keys, key_id)) == Ok::<(Generation, bool), Seq<char>>(
            (generation, is_tombstone),
        ),
    ensures
        key_of_row(found(last.keys, key_id)) matches Ok((later, buried)) && {
            &&& later.0 >= generation.0
            &&& is_tombstone ==> buried
            &&& is_tombstone || later == generation ==> found(last.keys, key_id) == found(
                first.keys,
                key_id,
            )
        },
    decreases attempts.len(),
{
    if attempts.len() > 0 {
        let a = attempts.last();
        law_generations_never_decrease(
            attempts.drop_last(),
            first,
            a.states.first(),
            key_id,
            generation,
            is_tombstone,
        );
        law_attempt_changes_its_key_alone(
            a.buries,
            a.label,
            a.key_id,
            a.expected,
            a.made,
            a.res,
            a.states,
        );
    }
}

// ---- Operations ----------------------------------------------------------

/// An insertion adds exactly the new pending operation, which reads back as it
/// was given, and succeeds only for an id that is free. One that fails changes
/// nothing, so the operation that has the id stays as it is.
pub proof fn law_insertion_adds_one_operation(
    operation_id: Seq<char>,
    kind: Seq<char>,
    key_id: Seq<char>,
    generation: Generation,
    now: i64,
    reply: Result<usize, Seq<char>>,
    states: Seq<Rows>,
)
    requires
        history(
            states,
            insert_operation_calls(operation_id, kind, key_id, generation, now, reply),
        ),
    ensures
        match insertion_of_reply(operation_id, reply) {
            Ok(_) => {
                &&& !states.first().operations.contains_key(operation_id)
                &&& states.last().operations.contains_key(operation_id)
                &&& states.last() == (Rows {
                    operations: states.first().operations.insert(
                        operation_id,
                        states.last().operations[operation_id],
                    ),
                    ..states.first()
                })
                &&& operation_of_cells(states.last().operations[operation_id]) == Ok::<
                    Operation,
                    Seq<char>,
                >(
                    Operation {
                        operation_id,
                        kind,
                        key_id,
                        disposition: Disposition::Pending,
                        generation,
                        compensation_id: None,
                        compensation_generation: None,
                        nonterminal_follow_up: false,
                    },
                )
            },
            Err(_) => states.last() == states.first(),
        },
{
    let made = insert_operation_calls(operation_id, kind, key_id, generation, now, reply);
    assert(takes_effect(states[0], made[0], states[1]));
    law_generation_reads_back(generation);
}

/// Whether a stored row can be read, if there is one.
pub open spec fn decodes(stored: Option<OperationCells>) -> bool {
    stored matches Some(cells) ==> operation_of_cells(cells) is Ok
}

/// What a fenced transition owes: success exactly if the operation stands at the
/// expected disposition, and then the operation is `new` and no other row
/// changes; otherwise what was found is reported, and nothing changes.
pub open spec fn fenced(
    first: Rows,
    operation_id: Seq<char>,
    expected: Seq<char>,
    new: OperationCells,
    res: Result<Transition, Seq<char>>,
    last: Rows,
) -> bool {
    match found(first.operations, operation_id) {
        None => res == Ok::<Transition, Seq<char>>(Transition::NotFound) && last == first,
        Some(cells) => if cells.disposition == expected {
            &&& res == Ok::<Transition, Seq<char>>(Transition::Advanced)
            &&& last == (Rows {
                operations: first.operations.insert(operation_id, new),
                ..first
            })
        } else {
            &&& res == Ok::<Transition, Seq<char>>(
                Transition::Conflict { actual_disposition: cells.disposition },
            )
            &&& last == first
        },
    }
}

/// A transition whose statement is a fenced update owes what a fenced transition
/// owes.
proof fn lemma_fenced(
    sql: Seq<char>,
    params: Seq<SqlParam>,
    label: Seq<char>,
    operation_id: Seq<char>,
    expected: Seq<char>,
    new: OperationCells,
    made: Seq<Call>,
    res: Result<Transition, Seq<char>>,
    states: Seq<Rows>,
)
    requires
        transitioned(sql, params, label, operation_id, made, res),
        history(states, made),
        forall|affected: usize, after: Rows| #[trigger]
            statement_ran(states[0], sql, params, affected, after) ==> fenced_update(
                states[0],
                operation_id,
                expected,
                new,
                affected,
                after,
            ),
    ensures
        res == Ok::<Transition, Seq<char>>(Transition::Advanced) || states.last()
            == states.first(),
        all_answered(made) && decodes(found(states.first().operations, operation_id)) ==> fenced(
            states.first(),
            operation_id,
            expected,
            new,
            res,
            states.last(),
        ),
{
    let (wrote, reply) = choose|
        wrote: Result<usize, Seq<char>>,
        reply: Result<Option<OperationCells>, Seq<char>>,
    |
        {
            &&& made == #[trigger] transition_calls(sql, params, operation_id, wrote, reply)
            &&& res == transition_of_replies(label, operation_id, wrote, reply)
        };
    assert(takes_effect(states[0], made[0], states[1]));
    assert(all_answered(made) ==> answered(made[0]));
    if made.len() == 2 {
        assert(takes_effect(states[1], made[1], states[2]));
        assert(all_answered(made) ==> answered(made[1]));
        if let Ok(Some(cells)) = reply {
            if let Ok(op) = operation_of_cells(cells) {
                law_disposition_reads_back(op.disposition, cells.disposition);
            }
        }
    }
}

/// Advancing a disposition changes no row unless it succeeds, and then the
/// disposition of its own operation alone. If no call fails and the operation
/// can be read, it succeeds exactly if the operation stands at the expected
/// disposition, and tells a conflict from an operation that is not there.
pub proof fn law_advance_is_fenced(
    label: Seq<char>,
    operation_id: Seq<char>,
    expected: Disposition,
    new: Disposition,
    now: i64,
    made: Seq<Call>,
    res: Result<Transition, Seq<char>>,
    states: Seq<Rows>,
)
    requires
        transitioned(
            ADVANCE_DISPOSITION_SQL@,
            advance_params(operation_id, expected, new, now),
            label,
            operation_id,
            made,
            res,
        ),
        history(states, made),
    ensures
        res == Ok::<Transition, Seq<char>>(Transition::Advanced) || states.last()
            == states.first(),
        all_answered(made) && decodes(found(states.first().operations, operation_id))
            ==> fenced(
            states.first(),
            operation_id,
            disposition_text(expected),
            OperationCells {
                disposition: disposition_text(new),
                ..states.first().operations[operation_id]
            },
            res,
            states.last(),
        ),
{
    lemma_fenced(
        ADVANCE_DISPOSITION_SQL@,
        advance_params(operation_id, expected, new, now),
        label,
        operation_id,
        disposition_text(expected),
        OperationCells {
            disposition: disposition_text(new),
            ..states.first().operations[operation_id]
        },
        made,
        res,
        states,
    );
}

/// Pinning a compensation changes no row unless it succeeds, and then its own
/// operation alone, to compensating with the pinned event and generation. It
/// succeeds only on a pending operation, so a second pin leaves the first.
pub proof fn law_pin_is_fenced(
    label: Seq<char>,
    operation_id: Seq<char>,
    compensation_id: Seq<char>,
    compensation_generation: Generation,
    now: i64,
    made: Seq<Call>,
    res: Result<Transition, Seq<char>>,
    states: Seq<Rows>,
)
    requires
        transitioned(
            PIN_COMPENSATION_SQL@,
            pin_params(operation_id, compensation_id, compensation_generation, now),
            label,
            operation_id,
            made,
            res,
        ),
        history(states, made),
    ensures
        res == Ok::<Transition, Seq<char>>(Transition::Advanced) || states.last()
            == states.first(),
        all_answered(made) && decodes(found(states.first().operations, operation_id))
            ==> fenced(
            states.first(),
            operation_id,
            "pending"@,
            OperationCells {
                disposition: "compensating"@,
                compensation_id: Some(compensation_id),
                compensation_generation: Some(decimal(compensation_generation.0 as nat)),
                ..states.first().operations[operation_id]
            },
            res,
            states.last(),
        ),
{
    lemma_fenced(
        PIN_COMPENSATION_SQL@,
        pin_params(operation_id, compensation_id, compensation_generation, now),
        label,
        operation_id,
        "pending"@,
        OperationCells {
            disposition: "compensating"@,
                compensation_id: Some(compensation_id),
                compensation_generation: Some(decimal(compensation_generation.0 as nat)),
            ..states.first().operations[operation_id]
        },
        made,
        res,
        states,
    );
}

/// Marking a follow-up changes no row unless it succeeds, and then the mark of
/// its own operation alone: the disposition stays as it is.
pub proof fn law_follow_up_is_fenced(
    label: Seq<char>,
    operation_id: Seq<char>,
    expected: Disposition,
    required: bool,
    now: i64,
    made: Seq<Call>,
    res: Result<Transition, Seq<char>>,
    states: Seq<Rows>,
)
    requires
        transitioned(
            SET_FOLLOW_UP_SQL@,
            follow_up_params(operation_id, expected, required, now),
            label,
            operation_id,
            made,
            res,
        ),
        history(states, made),
    ensures
        res == Ok::<Transition, Seq<char>>(Transition::Advanced) || states.last()
            == states.first(),
        all_answered(made) && decodes(found(states.first().operations, operation_id))
            ==> fenced(
            states.first(),
            operation_id,
            disposition_text(expected),
            OperationCells {
                nonterminal_follow_up: required,
                ..states.first().operations[operation_id]
            },
            res,
            states.last(),
        ),
{
    lemma_fenced(
        SET_FOLLOW_UP_SQL@,
        follow_up_params(operation_id, expected, required, now),
        label,
        operation_id,
        disposition_text(expected),
        OperationCells {
            nonterminal_follow_up: required,
            ..states.first().operations[operation_id]
        },
        made,
        res,
        states,
    );
}

// ---- Events --------------------------------------------------------------

/// Inserting an outbox event changes no row unless it reports an insertion, and
/// then it adds the event alone, unpublished. So a replay resets no publication
/// state, and a collision keeps the first event. While foreign keys are on, an
/// event with a free id whose operation is not stored is refused with an error.
/// If no call fails, the answer tells a free id from a replay and a replay from a
/// collision.
pub proof fn law_outbox_rows_are_kept(
    table: Seq<char>,
    event_id: Seq<char>,
    operation_id: Seq<char>,
    payload: Seq<u8>,
    made: Seq<Call>,
    res: Result<InsertEventOutcome, Seq<char>>,
    states: Seq<Rows>,
)
    requires
        inserted(
            INSERT_OUTBOX_SQL@,
            OUTBOX_IDENTITY_SQL@,
            table,
            event_id,
            operation_id,
            payload,
            made,
            res,
        ),
        history(states, made),
    ensures
        if res == Ok::<InsertEventOutcome, Seq<char>>(InsertEventOutcome::Inserted) {
            &&& !states.first().outbox.contains_key(event_id)
            &&& foreign_keys_are_on(states.first())
                ==> states.first().operations.contains_key(operation_id)
            &&& exists|now: i64| #[trigger]
                is_stamp(now) && states.last().outbox[event_id].created_at == now
            &&& states.last() == (Rows {
                outbox: states.first().outbox.insert(
                    event_id,
                    OutboxRow {
                        operation_id,
                        payload,
                        published_state: 0,
                        created_at: states.last().outbox[event_id].created_at,
                    },
                ),
                ..states.first()
            })
        } else {
            states.last() == states.first()
        },
        foreign_keys_are_on(states.first()) && !states.first().outbox.contains_key(event_id)
            && !states.first().operations.contains_key(operation_id) ==> res is Err
            && states.last() == states.first(),
        all_answered(made) ==> res == Ok::<InsertEventOutcome, Seq<char>>(
            match outbox_identity(found(states.first().outbox, event_id)) {
                None => InsertEventOutcome::Inserted,
                Some(stored) => if stored == (operation_id, payload) {
                    InsertEventOutcome::ExactDuplicate
                } else {
                    InsertEventOutcome::IdentityCollision
                },
            },
        ),
{
    assert(takes_effect(states[0], made[0], states[1]));
    assert(all_answered(made) ==> answered(made[0]));
    if made.len() == 2 {
        assert(takes_effect(states[1], made[1], states[2]));
        assert(all_answered(made) ==> answered(made[1]));
    }
}

/// Inserting an inbox event changes no row unless it reports an insertion, and
/// then it adds the event alone: inbox rows never change. While foreign keys are
/// on, an event with a free id whose operation is not stored is refused with an
/// error. If no call fails, the answer tells a free id from a replay and a replay
/// from a collision.
pub proof fn law_inbox_rows_are_kept(
    table: Seq<char>,
    event_id: Seq<char>,
    operation_id: Seq<char>,
    payload: Seq<u8>,
    made: Seq<Call>,
    res: Result<InsertEventOutcome, Seq<char>>,
    states: Seq<Rows>,
)
    requires
        inserted(
            INSERT_INBOX_SQL@,
            INBOX_IDENTITY_SQL@,
            table,
            event_id,
            operation_id,
            payload,
            made,
            res,
        ),
        history(states, made),
    ensures
        if res == Ok::<InsertEventOutcome, Seq<char>>(InsertEventOutcome::Inserted) {
            &&& !states.first().inbox.contains_key(event_id)
            &&& foreign_keys_are_on(states.first())
                ==> states.first().operations.contains_key(operation_id)
            &&& exists|now: i64| #[trigger]
                is_stamp(now) && states.last().inbox[event_id].received_at == now
            &&& states.last() == (Rows {
                inbox: states.first().inbox.insert(
                    event_id,
                    InboxRow {
                        operation_id,
                        payload,
                        received_at: states.last().inbox[event_id].received_at,
                    },
                ),
                ..states.first()
            })
        } else {
            states.last() == states.first()
        },
        foreign_keys_are_on(states.first()) && !states.first().inbox.contains_key(event_id)
            && !states.first().operations.contains_key(operation_id) ==> res is Err
            && states.last() == states.first(),
        all_answered(made) ==> res == Ok::<InsertEventOutcome, Seq<char>>(
            match inbox_identity(found(states.first().inbox, event_id)) {
                None => InsertEventOutcome::Inserted,
                Some(stored) => if stored == (operation_id, payload) {
                    InsertEventOutcome::ExactDuplicate
                } else {
                    InsertEventOutcome::IdentityCollision
                },
            },
        ),
{
    assert(takes_effect(states[0], made[0], states[1]));
    assert(all_answered(made) ==> answered(made[0]));
    if made.len() == 2 {
        assert(takes_effect(states[1], made[1], states[2]));
        assert(all_answered(made) ==> answered(made[1]));
    }
}

/// Advancing a publication state succeeds exactly if the event stands at the
/// expected state, unless the call fails, and changes that state alone. If it
/// does not succeed, no row changes.
pub proof fn law_publication_is_fenced(
    event_id: Seq<char>,
    expected_state: i64,
    new_state: i64,
    reply: Result<usize, Seq<char>>,
    states: Seq<Rows>,
)
    requires
        history(states, mark_calls(event_id, expected_state, new_state, reply)),
    ensures
        match mark_of_reply(event_id, reply) {
            Ok(marked) => {
                let stored = found(states.first().outbox, event_id);
                &&& marked <==> (stored matches Some(row) && row.published_state == expected_state)
                &&& states.last() == if marked {
                    Rows {
                        outbox: states.first().outbox.insert(
                            event_id,
                            OutboxRow { published_state: new_state as int, ..stored->0 },
                        ),
                        ..states.first()
                    }
                } else {
                    states.first()
                }
            },
            Err(_) => states.last() == states.first(),
        },
{
    let made = mark_calls(event_id, expected_state, new_state, reply);
    assert(takes_effect(states[0], made[0], states[1]));
}

// ---- Recovery ------------------------------------------------------------

/// Whether each operation stands under its own id.
pub open spec fn are_keyed(rows: Rows) -> bool {
    forall|id: Seq<char>| #[trigger]
        rows.operations.contains_key(id) ==> rows.operations[id].operation_id == id
}

/// A row of the operations table, marked as failed.
pub open spec fn failed_cells(cells: OperationCells) -> OperationCells {
    OperationCells { disposition: "failed"@, ..cells }
}

/// Whether an operation with the id `id` is among `ops`.
pub open spec fn has_id(ops: Seq<Operation>, id: Seq<char>) -> bool {
    exists|j: int| 0 <= j < ops.len() && (#[trigger] ops[j]).operation_id == id
}

/// The rows with the operations `ops` marked as failed.
pub open spec fn with_failed(rows: Rows, ops: Seq<Operation>) -> Rows {
    Rows {
        operations: Map::new(
            |id: Seq<char>| rows.operations.contains_key(id),
            |id: Seq<char>|
                if has_id(ops, id) {
                    failed_cells(rows.operations[id])
                } else {
                    rows.operations[id]
                },
        ),
        ..rows
    }
}

/// If there are values, there are as many as results, and each is its result's.
proof fn lemma_all_are_values<T>(results: Seq<Result<T, Seq<char>>>, values: Seq<T>)
    requires
        all_or_first_error(results) == Ok::<Seq<T>, Seq<char>>(values),
    ensures
        values.len() == results.len(),
        forall|i: int|
            0 <= i < results.len() ==> #[trigger] results[i] == Ok::<T, Seq<char>>(values[i]),
    decreases results.len(),
{
    if results.len() > 0 {
        let before = results.drop_last();
        let most = all_or_first_error(before)->Ok_0;
        lemma_all_are_values(before, most);
        assert forall|i: int| 0 <= i < results.len() implies #[trigger] results[i] == Ok::<
            T,
            Seq<char>,
        >(values[i]) by {
            if i < before.len() {
                assert(before[i] == results[i]);
            }
        }
    }
}

/// Whether `op` is stored and not at an end.
pub open spec fn is_stored_nonterminal(rows: Rows, op: Operation) -> bool {
    &&& rows.operations.contains_key(op.operation_id)
    &&& operation_of_cells(rows.operations[op.operation_id]) == Ok::<Operation, Seq<char>>(op)
    &&& !is_terminal_text(rows.operations[op.operation_id].disposition)
}

/// Marking operations one after the other marks them all and no other.
proof fn lemma_all_are_marked(
    ops: Seq<Operation>,
    markings: Seq<Marking>,
    states: Seq<Rows>,
)
    requires
        ops.len() == markings.len(),
        forall|i: int|
            0 <= i < ops.len() ==> is_stored_nonterminal(states.first(), #[trigger] ops[i]),
        history(states, all_marking_calls(ops, markings)),
        all_answered(all_marking_calls(ops, markings)),
    ensures
        states.last() == with_failed(states.first(), ops),
    decreases ops.len(),
{
    let first = states.first();
    if ops.len() == 0 {
        assert(forall|id: Seq<char>| !has_id(ops, id));
        assert(with_failed(first, ops).operations =~= first.operations);
    } else {
        let some = ops.drop_last();
        let op = ops.last();
        let marking = markings.last();
        let before = all_marking_calls(some, markings.drop_last());
        let made = marking_calls(op, marking);
        let n = before.len() as int;
        lemma_history_splits(states, before, made);
        assert forall|i: int| 0 <= i < some.len() implies is_stored_nonterminal(
            first,
            #[trigger] some[i],
        ) by {
            assert(some[i] == ops[i]);
        }
        lemma_all_are_marked(some, markings.drop_last(), states.take(n + 1));
        assert(is_stored_nonterminal(first, ops[ops.len() - 1]));
        let tail = states.skip(n);
        let middle = with_failed(first, some);
        assert(tail.first() == middle);
        let id = op.operation_id;
        law_disposition_reads_back(op.disposition, first.operations[id].disposition);
        assert(takes_effect(tail[0], made[0], tail[1]));
        assert(answered(made[0]));
        if made.len() == 2 {
            assert(takes_effect(tail[1], made[1], tail[2]));
        }
        assert(tail.last() == states.last());
        let last = with_failed(first, ops);
        assert forall|other: Seq<char>| has_id(ops, other) == (has_id(some, other) || other
            == id) by {
            if has_id(some, other) {
                let j = choose|j: int|
                    0 <= j < some.len() && (#[trigger] some[j]).operation_id == other;
                assert(ops[j].operation_id == other);
            }
            if other == id {
                assert(ops[ops.len() - 1].operation_id == other);
            }
            if has_id(ops, other) && other != id {
                let j = choose|j: int|
                    0 <= j < ops.len() && (#[trigger] ops[j]).operation_id == other;
                assert(some[j].operation_id == other);
            }
        }
        if has_id(some, id) {
            assert(last.operations =~= middle.operations);
        } else {
            assert(last.operations =~= middle.operations.insert(
                id,
                failed_cells(first.operations[id]),
            ));
        }
    }
}

/// Boot recovery, if no call fails, lists exactly the operations that are not at
/// an end, marks each of them as failed, and changes nothing else: afterwards
/// every operation is at an end, and the next recovery finds none.
pub proof fn law_recovery_ends_every_operation(
    made: Seq<Call>,
    ops: Seq<Operation>,
    states: Seq<Rows>,
)
    requires
        recovered(made, Ok(ops)),
        history(states, made),
        all_answered(made),
        are_keyed(states.first()),
    ensures
        forall|i: int|
            0 <= i < ops.len() ==> is_stored_nonterminal(states.first(), #[trigger] ops[i]),
        forall|id: Seq<char>| #[trigger]
            states.first().operations.contains_key(id) ==> (has_id(ops, id) <==> !is_terminal_text(
                states.first().operations[id].disposition,
            )),
        states.last() == with_failed(states.first(), ops),
        forall|id: Seq<char>| #[trigger]
            states.last().operations.contains_key(id) ==> is_terminal_text(
                states.last().operations[id].disposition,
            ),
{
    let first = states.first();
    let (reply, markings) = choose|reply: SelectReply<OperationCells>, markings: Seq<Marking>|
        {
            &&& Ok::<Seq<Operation>, Seq<char>>(ops) == nonterminal_of_reply(reply)
            &&& made == #[trigger] recovery_calls(reply, markings)
            &&& markings.len() == ops.len()
        };
    let query = read_nonterminal_calls(reply);
    let rest = all_marking_calls(ops, markings);
    lemma_history_splits(states, query, rest);
    assert(takes_effect(states[0], made[0], states[1]));
    let list = reply->Rows_0;
    lemma_listed(first, list, ops);
    assert(states.skip(1).first() == first);
    lemma_all_are_marked(ops, markings, states.skip(1));
    assert(states.skip(1).last() == states.last());
    assert forall|id: Seq<char>| #[trigger] first.operations.contains_key(id) implies (has_id(
        ops,
        id,
    ) <==> !is_terminal_text(first.operations[id].disposition)) by {
        if has_id(ops, id) {
            let j = choose|j: int| 0 <= j < ops.len() && (#[trigger] ops[j]).operation_id == id;
            assert(is_stored_nonterminal(first, ops[j]));
        }
        if !is_terminal_text(first.operations[id].disposition) {
            assert(list.contains(Ok(first.operations[id])));
            let j = choose|j: int|
                0 <= j < list.len() && list[j] == Ok::<OperationCells, Seq<char>>(
                    first.operations[id],
                );
            assert(list[j] is Ok);
            assert(ops[j].operation_id == id);
        }
    }
    assert forall|id: Seq<char>| #[trigger]
        states.last().operations.contains_key(id) implies is_terminal_text(
        states.last().operations[id].disposition,
    ) by {
        assert(first.operations.contains_key(id));
    }
}

} // verus!
