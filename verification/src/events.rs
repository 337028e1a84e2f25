//! Immutable inbox and outbox rows.

use vstd::prelude::*;

use crate::clock::{is_stamp, unix_now_secs};
use crate::sql::{
    all_or_first_error, blob_value, continued, execute, identity_reply, inbox_reply,
    inbox_row_reply, law_all_values_are_given, law_first_error_is_given, lemma_continued,
    lemma_first_error_stands, outbox_reply, outbox_row_reply,
    params_of, query_identity, select_inbox, select_outbox, text_value, Call, Journal, SelectReply,
    Selection, SqlParam, SqlValue,
};
use crate::text::{join2, join3, outcome, same_text};

verus! {

/// Statement that stores an outbox event, unless its id is taken.
pub const INSERT_OUTBOX_SQL: &'static str = "INSERT OR IGNORE INTO outbox_events
                 (event_id, operation_id, payload, published_state, created_at)
             VALUES (?1, ?2, ?3, 0, ?4)";

/// Query for the identity of a stored outbox event.
pub const OUTBOX_IDENTITY_SQL: &'static str =
    "SELECT operation_id, payload FROM outbox_events WHERE event_id = ?1";

/// Statement that advances the publication state of an outbox event.
pub const MARK_PUBLISHED_SQL: &'static str = "UPDATE outbox_events SET published_state = ?1
             WHERE event_id = ?2 AND published_state = ?3";

/// Statement that stores an inbox event, unless its id is taken.
pub const INSERT_INBOX_SQL: &'static str = "INSERT OR IGNORE INTO inbox_events
                 (event_id, operation_id, payload, received_at)
             VALUES (?1, ?2, ?3, ?4)";

/// Query for the identity of a stored inbox event.
pub const INBOX_IDENTITY_SQL: &'static str =
    "SELECT operation_id, payload FROM inbox_events WHERE event_id = ?1";

/// Query for the outbox events of an operation.
pub const READ_OUTBOX_SQL: &'static str = "SELECT event_id, payload, published_state FROM outbox_events
             WHERE operation_id = ?1 ORDER BY created_at";

/// Query for the inbox events of an operation.
pub const READ_INBOX_SQL: &'static str = "SELECT event_id, payload FROM inbox_events
             WHERE operation_id = ?1 ORDER BY received_at";

// ---- Insertion -----------------------------------------------------------

/// Outcome of an immutable-row insertion.
#[derive(Debug, Clone, Copy, PartialEq, Eq, Structural)]
pub enum InsertEventOutcome {
    /// New row inserted.
    Inserted,
    /// A row with this `event_id` already exists and is byte-identical
    /// (safe exact-replay idempotency).
    ExactDuplicate,
    /// A row with this `event_id` already exists but has different
    /// `operation_id` or `payload` — identity collision, fail closed.
    IdentityCollision,
}

/// What an event whose id is taken is judged to be. Only an identical stored
/// row makes it a duplicate.
pub open spec fn identity_verdict(
    stored: Option<(Seq<char>, Seq<u8>)>,
    operation_id: Seq<char>,
    payload: Seq<u8>,
) -> InsertEventOutcome {
    if stored == Some((operation_id, payload)) {
        InsertEventOutcome::ExactDuplicate
    } else {
        InsertEventOutcome::IdentityCollision
    }
}

/// The values bound when an event is inserted.
pub open spec fn event_params(
    event_id: Seq<char>,
    operation_id: Seq<char>,
    payload: Seq<u8>,
    now: i64,
) -> Seq<SqlParam> {
    seq![
        SqlParam::Text(event_id),
        SqlParam::Text(operation_id),
        SqlParam::Blob(payload),
        SqlParam::Integer(now as int),
    ]
}

/// What an insertion that stored nothing comes to, for each reply to the query
/// for the stored row.
pub open spec fn identity_of_reply(
    table: Seq<char>,
    event_id: Seq<char>,
    operation_id: Seq<char>,
    payload: Seq<u8>,
    reply: Result<Option<(Seq<char>, Seq<u8>)>, Seq<char>>,
) -> Result<InsertEventOutcome, Seq<char>> {
    match reply {
        Ok(stored) => Ok(identity_verdict(stored, operation_id, payload)),
        Err(e) => Err("read existing "@ + table + "("@ + event_id + "): "@ + e),
    }
}

/// What an insertion comes to, for each reply to its statement and to the query
/// for the stored row. One affected row is an insertion; otherwise the id is
/// taken, and the stored row decides.
pub open spec fn insertion_of_replies(
    table: Seq<char>,
    event_id: Seq<char>,
    operation_id: Seq<char>,
    payload: Seq<u8>,
    wrote: Result<usize, Seq<char>>,
    reply: Result<Option<(Seq<char>, Seq<u8>)>, Seq<char>>,
) -> Result<InsertEventOutcome, Seq<char>> {
    match wrote {
        Err(e) => Err("insert_"@ + table + "("@ + event_id + "): "@ + e),
        Ok(affected) => if affected == 1 {
            Ok(InsertEventOutcome::Inserted)
        } else {
            identity_of_reply(table, event_id, operation_id, payload, reply)
        },
    }
}

/// The calls of an insertion by the statement `insert_sql`: the statement, and
/// the query `identity_sql` for the stored row only if the statement did not
/// affect exactly one row.
pub open spec fn insertion_calls(
    insert_sql: Seq<char>,
    identity_sql: Seq<char>,
    params: Seq<SqlParam>,
    event_id: Seq<char>,
    wrote: Result<usize, Seq<char>>,
    reply: Result<Option<(Seq<char>, Seq<u8>)>, Seq<char>>,
) -> Seq<Call> {
    let insert = Call::Execute { sql: insert_sql, params, reply: wrote };
    if wrote matches Ok(affected) && affected != 1 {
        seq![insert, Call::QueryIdentity { sql: identity_sql, event_id, reply }]
    } else {
        seq![insert]
    }
}

/// `made` are the calls of inserting an event, and `res` is what it came to.
pub open spec fn inserted(
    insert_sql: Seq<char>,
    identity_sql: Seq<char>,
    table: Seq<char>,
    event_id: Seq<char>,
    operation_id: Seq<char>,
    payload: Seq<u8>,
    made: Seq<Call>,
    res: Result<InsertEventOutcome, Seq<char>>,
) -> bool {
    exists|
        now: i64,
        wrote: Result<usize, Seq<char>>,
        reply: Result<Option<(Seq<char>, Seq<u8>)>, Seq<char>>,
    |
        {
            &&& is_stamp(now)
            &&& made == #[trigger] insertion_calls(
                insert_sql,
                identity_sql,
                event_params(event_id, operation_id, payload, now),
                event_id,
                wrote,
                reply,
            )
            &&& res == insertion_of_replies(table, event_id, operation_id, payload, wrote, reply)
        }
}

/// Whether two byte strings are the same.
fn same_bytes(a: &[u8], b: &[u8]) -> (res: bool)
    ensures
        res == (a@ == b@),
{
    if a.len() != b.len() {
        return false;
    }
    let mut i: usize = 0;
    while i < a.len()
        invariant
            i <= a@.len(),
            a@.len() == b@.len(),
            forall|j: int| 0 <= j < i ==> a@[j] == b@[j],
        decreases a@.len() - i,
    {
        if a[i] != b[i] {
            assert(a@[i as int] != b@[i as int]);
            return false;
        }
        i = i + 1;
    }
    assert(a@ =~= b@);
    true
}

/// Judges an event whose id is taken by the stored row.
pub fn judge_identity(
    stored: Option<(String, Vec<u8>)>,
    operation_id: &str,
    payload: &[u8],
) -> (res: InsertEventOutcome)
    ensures
        res == identity_verdict(
            match stored {
                Some((op, bytes)) => Some((op@, bytes@)),
                None => None,
            },
            operation_id@,
            payload@,
        ),
{
    match stored {
        Some((op, bytes)) => {
            if same_text(op.as_str(), operation_id) && same_bytes(bytes.as_slice(), payload) {
                InsertEventOutcome::ExactDuplicate
            } else {
                InsertEventOutcome::IdentityCollision
            }
        },
        None => InsertEventOutcome::IdentityCollision,
    }
}

/// Inserts an event by `insert_sql`, and judges it by the row that
/// `identity_sql` finds if its id is taken.
fn insert_event(
    journal: &mut Journal,
    insert_sql: &str,
    identity_sql: &str,
    table: &str,
    event_id: &str,
    operation_id: &str,
    payload: &[u8],
) -> (res: Result<InsertEventOutcome, String>)
    ensures
        exists|made: Seq<Call>|
            continued(*old(journal), made, *final(journal)) && #[trigger] inserted(
                insert_sql@,
                identity_sql@,
                table@,
                event_id@,
                operation_id@,
                payload@,
                made,
                outcome(res),
            ),
{
    let ghost start = *journal;
    let now: i64 = unix_now_secs();
    let params = vec![
        text_value(event_id),
        text_value(operation_id),
        blob_value(payload),
        SqlValue::Integer(now),
    ];
    assert(params_of(params@) =~= event_params(event_id@, operation_id@, payload@, now));
    let wrote = execute(journal, insert_sql, &params);
    let ghost asked = *journal;
    let ghost bound = event_params(event_id@, operation_id@, payload@, now);
    let ghost settled = insertion_of_replies(
        table@,
        event_id@,
        operation_id@,
        payload@,
        outcome(wrote),
        Ok(None),
    );
    proof {
        let made = insertion_calls(
            insert_sql@,
            identity_sql@,
            bound,
            event_id@,
            outcome(wrote),
            Ok(None),
        );
        assert(inserted(
            insert_sql@,
            identity_sql@,
            table@,
            event_id@,
            operation_id@,
            payload@,
            made,
            settled,
        ));
    }
    let affected: usize = match wrote {
        Ok(n) => n,
        Err(e) => {
            let mut message = join3("insert_", table, "(");
            message.append(event_id);
            message.append("): ");
            message.append(e.as_str());
            assert(settled == Err::<InsertEventOutcome, Seq<char>>(message@));
            return Err(message);
        },
    };
    if affected == 1 {
        assert(settled == Ok::<InsertEventOutcome, Seq<char>>(InsertEventOutcome::Inserted));
        return Ok(InsertEventOutcome::Inserted);
    }
    let existing = query_identity(journal, identity_sql, event_id);
    let ghost reply = identity_reply(existing);
    let res = match existing {
        Ok(stored) => Ok(judge_identity(stored, operation_id, payload)),
        Err(e) => {
            let mut message = join3("read existing ", table, "(");
            message.append(event_id);
            message.append("): ");
            message.append(e.as_str());
            Err(message)
        },
    };
    proof {
        let insert = seq![Call::Execute { sql: insert_sql@, params: bound, reply: outcome(wrote) }];
        let query = seq![
            Call::QueryIdentity { sql: identity_sql@, event_id: event_id@, reply },
        ];
        let made = insertion_calls(
            insert_sql@,
            identity_sql@,
            bound,
            event_id@,
            outcome(wrote),
            reply,
        );
        lemma_continued(start, insert, asked, query, *journal);
        assert(made =~= insert + query);
        assert(outcome(res) == insertion_of_replies(
            table@,
            event_id@,
            operation_id@,
            payload@,
            outcome(wrote),
            reply,
        ));
        assert(inserted(
            insert_sql@,
            identity_sql@,
            table@,
            event_id@,
            operation_id@,
            payload@,
            made,
            outcome(res),
        ));
    }
    res
}

/// Insert an immutable outbox row.  Fail-closed on identity collision:
/// a duplicate event_id is only accepted when operation_id and payload
/// are byte-identical.
pub fn insert_outbox_event(
    journal: &mut Journal,
    event_id: &str,
    operation_id: &str,
    payload: &[u8],
) -> (res: Result<InsertEventOutcome, String>)
    ensures
        exists|made: Seq<Call>|
            continued(*old(journal), made, *final(journal)) && #[trigger] inserted(
                INSERT_OUTBOX_SQL@,
                OUTBOX_IDENTITY_SQL@,
                "outbox_event"@,
                event_id@,
                operation_id@,
                payload@,
                made,
                outcome(res),
            ),
{
    insert_event(
        journal,
        INSERT_OUTBOX_SQL,
        OUTBOX_IDENTITY_SQL,
        "outbox_event",
        event_id,
        operation_id,
        payload,
    )
}

/// Insert an immutable inbox row.  Fail-closed on identity collision.
pub fn insert_inbox_event(
    journal: &mut Journal,
    event_id: &str,
    operation_id: &str,
    payload: &[u8],
) -> (res: Result<InsertEventOutcome, String>)
    ensures
        exists|made: Seq<Call>|
            continued(*old(journal), made, *final(journal)) && #[trigger] inserted(
                INSERT_INBOX_SQL@,
                INBOX_IDENTITY_SQL@,
                "inbox_event"@,
                event_id@,
                operation_id@,
                payload@,
                made,
                outcome(res),
            ),
{
    insert_event(
        journal,
        INSERT_INBOX_SQL,
        INBOX_IDENTITY_SQL,
        "inbox_event",
        event_id,
        operation_id,
        payload,
    )
}

// ---- Publication ---------------------------------------------------------

/// The values bound when an outbox event's publication state is advanced.
pub open spec fn mark_params(event_id: Seq<char>, expected_state: i64, new_state: i64) -> Seq<
    SqlParam,
> {
    seq![
        SqlParam::Integer(new_state as int),
        SqlParam::Text(event_id),
        SqlParam::Integer(expected_state as int),
    ]
}

/// What advancing a publication state comes to, for each reply of the
/// database: success is exactly one affected row.
pub open spec fn mark_of_reply(event_id: Seq<char>, reply: Result<usize, Seq<char>>) -> Result<
    bool,
    Seq<char>,
> {
    match reply {
        Ok(affected) => Ok(affected == 1),
        Err(e) => Err("mark_outbox_published("@ + event_id + "): "@ + e),
    }
}

/// The call that advances a publication state, with the reply to it.
pub open spec fn mark_calls(
    event_id: Seq<char>,
    expected_state: i64,
    new_state: i64,
    reply: Result<usize, Seq<char>>,
) -> Seq<Call> {
    seq![
        Call::Execute {
            sql: MARK_PUBLISHED_SQL@,
            params: mark_params(event_id, expected_state, new_state),
            reply,
        },
    ]
}

/// Advance publication state of an outbox event via CAS on
/// `expected_state → new_state`.  Requires exactly one affected row.
pub fn mark_outbox_published(
    journal: &mut Journal,
    event_id: &str,
    expected_state: i64,
    new_state: i64,
) -> (res: Result<bool, String>)
    ensures
        exists|reply: Result<usize, Seq<char>>|
            {
                &&& continued(
                    *old(journal),
                    #[trigger] mark_calls(event_id@, expected_state, new_state, reply),
                    *final(journal),
                )
                &&& outcome(res) == mark_of_reply(event_id@, reply)
            },
{
    let params = vec![
        SqlValue::Integer(new_state),
        text_value(event_id),
        SqlValue::Integer(expected_state),
    ];
    assert(params_of(params@) =~= mark_params(event_id@, expected_state, new_state));
    let wrote = execute(journal, MARK_PUBLISHED_SQL, &params);
    assert(continued(
        *old(journal),
        mark_calls(event_id@, expected_state, new_state, outcome(wrote)),
        *journal,
    ));
    match wrote {
        Ok(affected) => Ok(affected == 1),
        Err(e) => {
            let mut message = join3("mark_outbox_published(", event_id, "): ");
            message.append(e.as_str());
            Err(message)
        },
    }
}

// ---- Reading -------------------------------------------------------------

/// What reading events comes to, for each reply of the database: the events in
/// order, or the first error behind the words for the stage it came from.
pub open spec fn events_of_reply<R>(
    preparing: Seq<char>,
    querying: Seq<char>,
    reading: Seq<char>,
    reply: SelectReply<R>,
) -> Result<Seq<R>, Seq<char>> {
    match reply {
        SelectReply::Unprepared(e) => Err(preparing + e),
        SelectReply::Unqueried(e) => Err(querying + e),
        SelectReply::Rows(rows) => match all_or_first_error(rows) {
            Ok(events) => Ok(events),
            Err(e) => Err(reading + e),
        },
    }
}

/// Outbox events, by what they hold.
pub open spec fn outbox_events(events: Seq<(String, Vec<u8>, i64)>) -> Seq<
    (Seq<char>, Seq<u8>, i64),
> {
    events.map_values(|e: (String, Vec<u8>, i64)| (e.0@, e.1@, e.2))
}

/// Inbox events, by what they hold.
pub open spec fn inbox_events(events: Seq<(String, Vec<u8>)>) -> Seq<(Seq<char>, Seq<u8>)> {
    events.map_values(|e: (String, Vec<u8>)| (e.0@, e.1@))
}

/// The outbox events of a list of rows, or the first error among them.
pub fn collect_outbox(rows: Vec<Result<(String, Vec<u8>, i64), String>>) -> (res: Result<
    Vec<(String, Vec<u8>, i64)>,
    String,
>)
    ensures
        match res {
            Ok(events) => Ok(outbox_events(events@)),
            Err(e) => Err(e@),
        } == all_or_first_error(
            rows@.map_values(|row: Result<(String, Vec<u8>, i64), String>| outbox_row_reply(row)),
        ),
        res matches Ok(events) ==> events@.len() == rows@.len() && forall|i: int|
            0 <= i < rows@.len() ==> #[trigger] rows@[i] == Ok::<(String, Vec<u8>, i64), String>(events@[i]),
        res matches Err(e) ==> exists|k: int|
            0 <= k < rows@.len() && #[trigger] rows@[k] == Err::<(String, Vec<u8>, i64), String>(e) && forall|i: int|
                0 <= i < k ==> #[trigger] rows@[i] is Ok,
{
    let ghost all = rows@.map_values(
        |row: Result<(String, Vec<u8>, i64), String>| outbox_row_reply(row),
    );
    let mut out: Vec<(String, Vec<u8>, i64)> = Vec::new();
    assert(all.take(0) =~= Seq::empty());
    assert(outbox_events(out@) =~= Seq::empty());
    for row in iter: rows
        invariant
            iter.seq() == rows@,
            all == rows@.map_values(
                |row: Result<(String, Vec<u8>, i64), String>| outbox_row_reply(row),
            ),
            all_or_first_error(all.take(iter.index())) == Ok::<
                Seq<(Seq<char>, Seq<u8>, i64)>,
                Seq<char>,
            >(outbox_events(out@)),
            out@.len() == iter.index(),
            forall|i: int|
                0 <= i < iter.index() ==> #[trigger] rows@[i] == Ok::<(String, Vec<u8>, i64), String>(out@[i]),
    {
        let ghost k = iter.index();
        let ghost before = outbox_events(out@);
        proof {
            assert(all.take(k + 1).drop_last() =~= all.take(k));
            assert(all.take(k + 1).last() == outbox_row_reply(row));
        }
        match row {
            Ok(event) => {
                out.push(event);
                assert(outbox_events(out@) =~= before.push((event.0@, event.1@, event.2)));
            },
            Err(e) => {
                proof {
                    lemma_first_error_stands(all, k + 1);
                }
                return Err(e);
            },
        }
    }
    assert(all.take(rows@.len() as int) =~= all);
    Ok(out)
}

/// The inbox events of a list of rows, or the first error among them.
pub fn collect_inbox(rows: Vec<Result<(String, Vec<u8>), String>>) -> (res: Result<
    Vec<(String, Vec<u8>)>,
    String,
>)
    ensures
        match res {
            Ok(events) => Ok(inbox_events(events@)),
            Err(e) => Err(e@),
        } == all_or_first_error(
            rows@.map_values(|row: Result<(String, Vec<u8>), String>| inbox_row_reply(row)),
        ),
        res matches Ok(events) ==> events@.len() == rows@.len() && forall|i: int|
            0 <= i < rows@.len() ==> #[trigger] rows@[i] == Ok::<(String, Vec<u8>), String>(events@[i]),
        res matches Err(e) ==> exists|k: int|
            0 <= k < rows@.len() && #[trigger] rows@[k] == Err::<(String, Vec<u8>), String>(e) && forall|i: int|
                0 <= i < k ==> #[trigger] rows@[i] is Ok,
{
    let ghost all = rows@.map_values(
        |row: Result<(String, Vec<u8>), String>| inbox_row_reply(row),
    );
    let mut out: Vec<(String, Vec<u8>)> = Vec::new();
    assert(all.take(0) =~= Seq::empty());
    assert(inbox_events(out@) =~= Seq::empty());
    for row in iter: rows
        invariant
            iter.seq() == rows@,
            all == rows@.map_values(
                |row: Result<(String, Vec<u8>), String>| inbox_row_reply(row),
            ),
            all_or_first_error(all.take(iter.index())) == Ok::<
                Seq<(Seq<char>, Seq<u8>)>,
                Seq<char>,
            >(inbox_events(out@)),
            out@.len() == iter.index(),
            forall|i: int|
                0 <= i < iter.index() ==> #[trigger] rows@[i] == Ok::<(String, Vec<u8>), String>(out@[i]),
    {
        let ghost k = iter.index();
        let ghost before = inbox_events(out@);
        proof {
            assert(all.take(k + 1).drop_last() =~= all.take(k));
            assert(all.take(k + 1).last() == inbox_row_reply(row));
        }
        match row {
            Ok(event) => {
                out.push(event);
                assert(inbox_events(out@) =~= before.push((event.0@, event.1@)));
            },
            Err(e) => {
                proof {
                    lemma_first_error_stands(all, k + 1);
                }
                return Err(e);
            },
        }
    }
    assert(all.take(rows@.len() as int) =~= all);
    Ok(out)
}

/// Reading the outbox events of an operation, with the reply to it.
pub open spec fn read_outbox_calls(
    operation_id: Seq<char>,
    reply: SelectReply<(Seq<char>, Seq<u8>, i64)>,
) -> Seq<Call> {
    seq![Call::SelectOutbox { sql: READ_OUTBOX_SQL@, operation_id, reply }]
}

/// Read outbox events for `operation_id`, oldest first: each event's id,
/// payload and publication state.
pub fn read_outbox_events(journal: &mut Journal, operation_id: &str) -> (res: Result<
    Vec<(String, Vec<u8>, i64)>,
    String,
>)
    ensures
        exists|reply: SelectReply<(Seq<char>, Seq<u8>, i64)>|
            {
                &&& continued(
                    *old(journal),
                    #[trigger] read_outbox_calls(operation_id@, reply),
                    *final(journal),
                )
                &&& match res {
                    Ok(events) => Ok(outbox_events(events@)),
                    Err(e) => Err(e@),
                } == events_of_reply(
                    "prepare outbox query: "@,
                    "query outbox: "@,
                    "read outbox row: "@,
                    reply,
                )
            },
{
    let selected = select_outbox(journal, READ_OUTBOX_SQL, operation_id);
    assert(continued(
        *old(journal),
        read_outbox_calls(operation_id@, outbox_reply(selected)),
        *journal,
    ));
    match selected {
        Selection::Unprepared(e) => Err(join2("prepare outbox query: ", e.as_str())),
        Selection::Unqueried(e) => Err(join2("query outbox: ", e.as_str())),
        Selection::Rows(rows) => match collect_outbox(rows) {
            Ok(events) => Ok(events),
            Err(e) => Err(join2("read outbox row: ", e.as_str())),
        },
    }
}

/// Reading the inbox events of an operation, with the reply to it.
pub open spec fn read_inbox_calls(
    operation_id: Seq<char>,
    reply: SelectReply<(Seq<char>, Seq<u8>)>,
) -> Seq<Call> {
    seq![Call::SelectInbox { sql: READ_INBOX_SQL@, operation_id, reply }]
}

/// Read inbox events for `operation_id`, oldest first: each event's id
/// and payload.
pub fn read_inbox_events(journal: &mut Journal, operation_id: &str) -> (res: Result<
    Vec<(String, Vec<u8>)>,
    String,
>)
    ensures
        exists|reply: SelectReply<(Seq<char>, Seq<u8>)>|
            {
                &&& continued(
                    *old(journal),
                    #[trigger] read_inbox_calls(operation_id@, reply),
                    *final(journal),
                )
                &&& match res {
                    Ok(events) => Ok(inbox_events(events@)),
                    Err(e) => Err(e@),
                } == events_of_reply(
                    "prepare inbox query: "@,
                    "query inbox: "@,
                    "read inbox row: "@,
                    reply,
                )
            },
{
    let selected = select_inbox(journal, READ_INBOX_SQL, operation_id);
    assert(continued(
        *old(journal),
        read_inbox_calls(operation_id@, inbox_reply(selected)),
        *journal,
    ));
    match selected {
        Selection::Unprepared(e) => Err(join2("prepare inbox query: ", e.as_str())),
        Selection::Unqueried(e) => Err(join2("query inbox: ", e.as_str())),
        Selection::Rows(rows) => match collect_inbox(rows) {
            Ok(events) => Ok(events),
            Err(e) => Err(join2("read inbox row: ", e.as_str())),
        },
    }
}

// ---- Laws ----------------------------------------------------------------

/// Replaying an event is safe, and only replaying it is: an event whose id is
/// taken counts as a duplicate exactly when the stored row holds the values
/// that its own insertion binds.
pub proof fn law_only_exact_replay_is_accepted(
    event_id: Seq<char>,
    operation_id: Seq<char>,
    payload: Seq<u8>,
    now: i64,
    stored: (Seq<char>, Seq<u8>),
)
    ensures
        ({
            let params = event_params(event_id, operation_id, payload, now);
            identity_verdict(Some(stored), operation_id, payload)
                == InsertEventOutcome::ExactDuplicate <==> params[1] == SqlParam::Text(stored.0)
                && params[2] == SqlParam::Blob(stored.1)
        }),
        identity_verdict(Some(stored), operation_id, payload)
            != InsertEventOutcome::ExactDuplicate ==> identity_verdict(
            Some(stored),
            operation_id,
            payload,
        ) == InsertEventOutcome::IdentityCollision,
        identity_verdict(None, operation_id, payload) == InsertEventOutcome::IdentityCollision,
{
}

/// Whatever the database replies, the statement of an insertion is the only one
/// it runs. An insertion is reported only for exactly one affected row, and a
/// duplicate only for a stored row with the same operation and the same payload.
pub proof fn law_insertion_reports_truthfully(
    insert_sql: Seq<char>,
    identity_sql: Seq<char>,
    table: Seq<char>,
    event_id: Seq<char>,
    operation_id: Seq<char>,
    payload: Seq<u8>,
    made: Seq<Call>,
    res: Result<InsertEventOutcome, Seq<char>>,
)
    requires
        inserted(insert_sql, identity_sql, table, event_id, operation_id, payload, made, res),
    ensures
        1 <= made.len() <= 2,
        made[0] matches Call::Execute { sql, params, .. } && sql == insert_sql && params[0]
            == SqlParam::Text(event_id) && params[1] == SqlParam::Text(operation_id) && params[2]
            == SqlParam::Blob(payload) && params.len() == 4 && exists|now: i64| #[trigger]
            is_stamp(now) && params[3] == SqlParam::Integer(now as int),
        made.len() == 2 ==> (made[1] matches Call::QueryIdentity { sql: query, event_id: id, .. }
            && query == identity_sql && id == event_id),
        made.len() == 2 <==> (made[0] matches Call::Execute { reply: Ok(affected), .. } && affected
            != 1),
        res matches Ok(InsertEventOutcome::Inserted) ==> made.len() == 1 && (
        made[0] matches Call::Execute { reply: Ok(affected), .. } && affected == 1),
        res matches Ok(InsertEventOutcome::ExactDuplicate) ==> made.len() == 2 && made[1] == (
        Call::QueryIdentity {
            sql: identity_sql,
            event_id,
            reply: Ok(Some((operation_id, payload))),
        }),
        res matches Ok(InsertEventOutcome::IdentityCollision) ==> made.len() == 2 && (
        made[1] matches Call::QueryIdentity { reply: Ok(stored), .. } && stored != Some(
            (operation_id, payload),
        )),
{
}

/// Event rows are immutable and replays are safe. Where the statement stores the
/// event exactly if its id is free, and the query finds the row as it is stored,
/// an insertion is reported exactly for a free id, a duplicate exactly for the
/// same event, and a collision for any other.
pub proof fn law_insertion_is_fail_closed(
    table: Seq<char>,
    event_id: Seq<char>,
    operation_id: Seq<char>,
    payload: Seq<u8>,
    stored: Option<(Seq<char>, Seq<u8>)>,
)
    ensures
        ({
            let wrote = Ok::<usize, Seq<char>>(
                if stored is None {
                    1
                } else {
                    0
                },
            );
            let reply = Ok::<Option<(Seq<char>, Seq<u8>)>, Seq<char>>(stored);
            insertion_of_replies(table, event_id, operation_id, payload, wrote, reply) == Ok::<
                InsertEventOutcome,
                Seq<char>,
            >(
                match stored {
                    None => InsertEventOutcome::Inserted,
                    Some(row) => if row == (operation_id, payload) {
                        InsertEventOutcome::ExactDuplicate
                    } else {
                        InsertEventOutcome::IdentityCollision
                    },
                },
            )
        }),
{
}

/// What an insertion is answered decides what it reports: an error of the
/// statement or of the query with the call's name, and otherwise the verdict on
/// the stored row.
pub proof fn law_insertion_reports_its_replies(
    table: Seq<char>,
    event_id: Seq<char>,
    operation_id: Seq<char>,
    payload: Seq<u8>,
    wrote: Result<usize, Seq<char>>,
    reply: Result<Option<(Seq<char>, Seq<u8>)>, Seq<char>>,
)
    ensures
        ({
            let res = insertion_of_replies(table, event_id, operation_id, payload, wrote, reply);
            &&& wrote matches Err(e) ==> res == Err::<InsertEventOutcome, Seq<char>>(
                "insert_"@ + table + "("@ + event_id + "): "@ + e,
            )
            &&& res == Ok::<InsertEventOutcome, Seq<char>>(InsertEventOutcome::Inserted) <==> wrote
                == Ok::<usize, Seq<char>>(1)
            &&& wrote matches Ok(affected) ==> (affected != 1 ==> match reply {
                Err(e) => res == Err::<InsertEventOutcome, Seq<char>>(
                    "read existing "@ + table + "("@ + event_id + "): "@ + e,
                ),
                Ok(None) => res == Ok::<InsertEventOutcome, Seq<char>>(
                    InsertEventOutcome::IdentityCollision,
                ),
                Ok(Some((stored_operation, stored_payload))) => res == Ok::<
                    InsertEventOutcome,
                    Seq<char>,
                >(
                    if stored_operation == operation_id && stored_payload == payload {
                        InsertEventOutcome::ExactDuplicate
                    } else {
                        InsertEventOutcome::IdentityCollision
                    },
                ),
            })
        }),
{
}

/// Advancing a publication state is one statement, and succeeds for exactly one
/// affected row.
pub proof fn law_mark_tells_its_reply(
    event_id: Seq<char>,
    expected_state: i64,
    new_state: i64,
    reply: Result<usize, Seq<char>>,
)
    ensures
        mark_calls(event_id, expected_state, new_state, reply) == seq![
            Call::Execute {
                sql: MARK_PUBLISHED_SQL@,
                params: seq![
                    SqlParam::Integer(new_state as int),
                    SqlParam::Text(event_id),
                    SqlParam::Integer(expected_state as int),
                ],
                reply,
            },
        ],
        reply matches Ok(affected) ==> mark_of_reply(event_id, reply) == Ok::<bool, Seq<char>>(
            affected == 1,
        ),
        reply matches Err(e) ==> mark_of_reply(event_id, reply) == Err::<bool, Seq<char>>(
            "mark_outbox_published("@ + event_id + "): "@ + e,
        ),
{
}

/// Reading events gives all of them in the order of the rows, each as its row
/// holds it, or the first error with the stage at which it came.
pub proof fn law_events_are_given_as_they_came<R>(
    preparing: Seq<char>,
    querying: Seq<char>,
    reading: Seq<char>,
    reply: SelectReply<R>,
    events: Seq<R>,
    k: int,
)
    ensures
        reply matches SelectReply::Unprepared(e) ==> events_of_reply(
            preparing,
            querying,
            reading,
            reply,
        ) == Err::<Seq<R>, Seq<char>>(preparing + e),
        reply matches SelectReply::Unqueried(e) ==> events_of_reply(
            preparing,
            querying,
            reading,
            reply,
        ) == Err::<Seq<R>, Seq<char>>(querying + e),
        reply matches SelectReply::Rows(rows) ==> {
            &&& events.len() == rows.len() && (forall|i: int|
                0 <= i < rows.len() ==> #[trigger] rows[i] == Ok::<R, Seq<char>>(events[i]))
                ==> events_of_reply(preparing, querying, reading, reply) == Ok::<
                Seq<R>,
                Seq<char>,
            >(events)
            &&& 0 <= k < rows.len() && (forall|i: int| 0 <= i < k ==> #[trigger] rows[i] is Ok) ==> (
            rows[k] matches Err(e) ==> events_of_reply(preparing, querying, reading, reply)
                == Err::<Seq<R>, Seq<char>>(reading + e))
        },
{
    if let SelectReply::Rows(rows) = reply {
        if events.len() == rows.len() && (forall|i: int|
            0 <= i < rows.len() ==> #[trigger] rows[i] == Ok::<R, Seq<char>>(events[i])) {
            law_all_values_are_given(rows, events);
        }
        if 0 <= k < rows.len() && (forall|i: int| 0 <= i < k ==> #[trigger] rows[i] is Ok)
            && rows[k] is Err {
            law_first_error_is_given(rows, k, rows[k]->Err_0);
        }
    }
}

/// Events hold their ids, payloads and states, each in its place.
pub proof fn law_events_hold_their_own(
    outbox: Seq<(String, Vec<u8>, i64)>,
    inbox: Seq<(String, Vec<u8>)>,
    i: int,
)
    ensures
        outbox_events(outbox).len() == outbox.len(),
        0 <= i < outbox.len() ==> outbox_events(outbox)[i] == (
            outbox[i].0@,
            outbox[i].1@,
            outbox[i].2,
        ),
        inbox_events(inbox).len() == inbox.len(),
        0 <= i < inbox.len() ==> inbox_events(inbox)[i] == (inbox[i].0@, inbox[i].1@),
{
}

/// Reading the events of an operation is one query for that operation.
pub proof fn law_events_are_read_by_one_query(
    operation_id: Seq<char>,
    outbox: SelectReply<(Seq<char>, Seq<u8>, i64)>,
    inbox: SelectReply<(Seq<char>, Seq<u8>)>,
)
    ensures
        read_outbox_calls(operation_id, outbox) == seq![
            Call::SelectOutbox { sql: READ_OUTBOX_SQL@, operation_id, reply: outbox },
        ],
        read_inbox_calls(operation_id, inbox) == seq![
            Call::SelectInbox { sql: READ_INBOX_SQL@, operation_id, reply: inbox },
        ],
{
}

} // verus!
