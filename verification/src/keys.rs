//! Generations of keys in the journal.

use vstd::prelude::*;

use crate::clock::{is_stamp, unix_now_secs};
use crate::generation::{
    cas_verdict, generation_of_text, judge_cas, law_generation_reads_back,
    law_stored_generation_is_its_number, CasOutcome, Generation, KeyState,
};
use crate::sql::{
    continued, execute, key_reply, lemma_continued, params_of, query_key, text_value, Call,
    Journal, SqlParam, SqlValue,
};
use crate::text::{decimal, join3, outcome, u64_of_text, u64_parse_error};

verus! {

/// Query for a key's generation and tombstone flag.
pub const READ_GENERATION_SQL: &'static str =
    "SELECT generation, is_tombstone FROM key_generations WHERE key_id = ?1";

/// Statement that stores a live key's generation.
pub const CAS_GENERATION_SQL: &'static str =
    "INSERT INTO key_generations (key_id, generation, is_tombstone, updated_at)
         VALUES (?1, ?2, 0, ?3)
         ON CONFLICT(key_id) DO UPDATE SET
             generation  = excluded.generation,
             is_tombstone = 0,
             updated_at  = excluded.updated_at";

/// Statement that stores a key's tombstone.
pub const TOMBSTONE_KEY_SQL: &'static str =
    "INSERT INTO key_generations (key_id, generation, is_tombstone, updated_at)
         VALUES (?1, ?2, 1, ?3)
         ON CONFLICT(key_id) DO UPDATE SET
             generation   = excluded.generation,
             is_tombstone = 1,
             updated_at   = excluded.updated_at";

/// What a key's row says of it. A key without a row was never written.
pub open spec fn key_of_row(row: Option<(Seq<char>, bool)>) -> Result<
    (Generation, bool),
    Seq<char>,
> {
    match row {
        None => Ok((Generation(0), false)),
        Some((generation, is_tombstone)) => match generation_of_text(generation) {
            Ok(g) => Ok((g, is_tombstone)),
            Err(message) => Err(message),
        },
    }
}

/// What reading a key comes to, for each reply of the database.
pub open spec fn key_of_reply(
    key_id: Seq<char>,
    reply: Result<Option<(Seq<char>, bool)>, Seq<char>>,
) -> Result<(Generation, bool), Seq<char>> {
    match reply {
        Ok(row) => key_of_row(row),
        Err(e) => Err("read_generation("@ + key_id + "): "@ + e),
    }
}

/// The values bound when a key is written.
pub open spec fn key_params(key_id: Seq<char>, generation: Generation, now: i64) -> Seq<SqlParam> {
    seq![
        SqlParam::Text(key_id),
        SqlParam::Text(decimal(generation.0 as nat)),
        SqlParam::Integer(now as int),
    ]
}

/// The generation that an attempt is let through to store, if it is, once the
/// query for the key was answered with `read`.
pub open spec fn let_through(
    key_id: Seq<char>,
    expected: Generation,
    read: Result<Option<(Seq<char>, bool)>, Seq<char>>,
) -> Option<Generation> {
    match key_of_reply(key_id, read) {
        Ok((generation, is_tombstone)) => match cas_verdict(
            KeyState { generation, is_tombstone },
            expected,
        ) {
            Ok(CasOutcome::Committed { new_generation }) => Some(new_generation),
            _ => None,
        },
        Err(_) => None,
    }
}

/// What an attempt comes to, for each reply to the query for the key and to the
/// statement that stores it. What the rule refuses is returned as it stands.
pub open spec fn attempt_of_replies(
    label: Seq<char>,
    key_id: Seq<char>,
    expected: Generation,
    read: Result<Option<(Seq<char>, bool)>, Seq<char>>,
    wrote: Result<usize, Seq<char>>,
) -> Result<CasOutcome, Seq<char>> {
    match key_of_reply(key_id, read) {
        Err(message) => Err(message),
        Ok((generation, is_tombstone)) => match cas_verdict(
            KeyState { generation, is_tombstone },
            expected,
        ) {
            Ok(CasOutcome::Committed { new_generation }) => match wrote {
                Ok(_) => Ok(CasOutcome::Committed { new_generation }),
                Err(e) => Err(label + "("@ + key_id + "): "@ + e),
            },
            verdict => verdict,
        },
    }
}

/// The calls of an attempt to write a key by the statement `sql`: the key is
/// read, and only what the rule lets through is stored.
pub open spec fn attempt_calls(
    sql: Seq<char>,
    key_id: Seq<char>,
    expected: Generation,
    read: Result<Option<(Seq<char>, bool)>, Seq<char>>,
    now: i64,
    wrote: Result<usize, Seq<char>>,
) -> Seq<Call> {
    let query = Call::QueryKey { sql: READ_GENERATION_SQL@, key: key_id, reply: read };
    match let_through(key_id, expected, read) {
        Some(new_generation) => seq![
            query,
            Call::Execute { sql, params: key_params(key_id, new_generation, now), reply: wrote },
        ],
        None => seq![query],
    }
}

/// `made` are the calls of an attempt to write a key by the statement `sql`, and
/// `res` is what it came to.
pub open spec fn attempted(
    sql: Seq<char>,
    label: Seq<char>,
    key_id: Seq<char>,
    expected: Generation,
    made: Seq<Call>,
    res: Result<CasOutcome, Seq<char>>,
) -> bool {
    exists|
        read: Result<Option<(Seq<char>, bool)>, Seq<char>>,
        now: i64,
        wrote: Result<usize, Seq<char>>,
    |
        {
            &&& made == #[trigger] attempt_calls(sql, key_id, expected, read, now, wrote)
            &&& let_through(key_id, expected, read) is Some ==> is_stamp(now)
            &&& res == attempt_of_replies(label, key_id, expected, read, wrote)
        }
}

/// What a key's row says of it: the generation and the tombstone flag. A key
/// without a row has generation zero and no tombstone.
pub fn interpret_key(row: Option<(String, bool)>) -> (res: Result<(Generation, bool), String>)
    ensures
        outcome(res) == key_of_row(
            match row {
                Some((generation, is_tombstone)) => Some((generation@, is_tombstone)),
                None => None,
            },
        ),
{
    match row {
        None => Ok((Generation::zero(), false)),
        Some((generation, is_tombstone)) => match Generation::from_str(generation.as_str()) {
            Ok(g) => Ok((g, is_tombstone)),
            Err(message) => Err(message),
        },
    }
}

/// Reading a key, with the reply to it.
pub open spec fn read_calls(
    key_id: Seq<char>,
    reply: Result<Option<(Seq<char>, bool)>, Seq<char>>,
) -> Seq<Call> {
    seq![Call::QueryKey { sql: READ_GENERATION_SQL@, key: key_id, reply }]
}

/// Read the current generation for `key_id`.
/// Returns `(Generation::zero(), false)` when no row exists.
pub fn read_generation(journal: &mut Journal, key_id: &str) -> (res: Result<
    (Generation, bool),
    String,
>)
    ensures
        exists|reply: Result<Option<(Seq<char>, bool)>, Seq<char>>|
            {
                &&& continued(*old(journal), #[trigger] read_calls(key_id@, reply), *final(journal))
                &&& outcome(res) == key_of_reply(key_id@, reply)
            },
{
    let row = query_key(journal, READ_GENERATION_SQL, key_id);
    assert(continued(*old(journal), read_calls(key_id@, key_reply(row)), *journal));
    match row {
        Ok(found) => interpret_key(found),
        Err(e) => {
            let mut message = join3("read_generation(", key_id, "): ");
            message.append(e.as_str());
            Err(message)
        },
    }
}

/// Reads the key, judges the write, and stores it by `sql` if it is let
/// through.
fn write_key(
    journal: &mut Journal,
    sql: &str,
    label: &str,
    key_id: &str,
    expected: Generation,
) -> (res: Result<CasOutcome, String>)
    ensures
        exists|made: Seq<Call>|
            continued(*old(journal), made, *final(journal)) && #[trigger] attempted(
                sql@,
                label@,
                key_id@,
                expected,
                made,
                outcome(res),
            ),
{
    let ghost start = *journal;
    let known = read_generation(journal, key_id);
    let ghost read = choose|reply: Result<Option<(Seq<char>, bool)>, Seq<char>>|
        {
            &&& continued(start, #[trigger] read_calls(key_id@, reply), *journal)
            &&& outcome(known) == key_of_reply(key_id@, reply)
        };
    let ghost asked = *journal;
    let ghost refused = attempt_of_replies(label@, key_id@, expected, read, Ok(0));
    proof {
        if let_through(key_id@, expected, read) is None {
            let made = attempt_calls(sql@, key_id@, expected, read, 0, Ok(0));
            assert(made =~= read_calls(key_id@, read));
            assert(attempted(sql@, label@, key_id@, expected, made, refused));
        }
    }
    let (generation, is_tombstone) = match known {
        Ok(state) => state,
        Err(message) => {
            assert(refused == Err::<CasOutcome, Seq<char>>(message@));
            return Err(message);
        },
    };
    let verdict = judge_cas(KeyState { generation, is_tombstone }, expected);
    let new_generation = match verdict {
        Ok(CasOutcome::Committed { new_generation }) => new_generation,
        _ => {
            assert(refused == outcome(verdict));
            return verdict;
        },
    };
    let now: i64 = unix_now_secs();
    let stored = new_generation.to_db_str();
    let params = vec![text_value(key_id), SqlValue::Text(stored), SqlValue::Integer(now)];
    assert(params_of(params@) =~= key_params(key_id@, new_generation, now));
    let wrote = execute(journal, sql, &params);
    let res = match wrote {
        Ok(_) => Ok(CasOutcome::Committed { new_generation }),
        Err(e) => {
            let mut message = join3(label, "(", key_id);
            message.append("): ");
            message.append(e.as_str());
            Err(message)
        },
    };
    proof {
        let store = seq![
            Call::Execute {
                sql: sql@,
                params: key_params(key_id@, new_generation, now),
                reply: outcome(wrote),
            },
        ];
        let made = attempt_calls(sql@, key_id@, expected, read, now, outcome(wrote));
        lemma_continued(start, read_calls(key_id@, read), asked, store, *journal);
        assert(made =~= read_calls(key_id@, read) + store);
        assert(outcome(res) == attempt_of_replies(
            label@,
            key_id@,
            expected,
            read,
            outcome(wrote),
        ));
        assert(attempted(sql@, label@, key_id@, expected, made, outcome(res)));
    }
    res
}

/// Attempt a generation CAS on `key_id`.
///
/// If `expected` matches the stored generation (or key is absent and
/// `expected` is zero), advance to `expected.next()` and return
/// `CasOutcome::Committed`.  Tombstoned keys return `CasOutcome::Tombstoned`.
pub fn cas_generation(journal: &mut Journal, key_id: &str, expected: Generation) -> (res: Result<
    CasOutcome,
    String,
>)
    ensures
        exists|made: Seq<Call>|
            continued(*old(journal), made, *final(journal)) && #[trigger] attempted(
                CAS_GENERATION_SQL@,
                "cas_generation"@,
                key_id@,
                expected,
                made,
                outcome(res),
            ),
{
    write_key(journal, CAS_GENERATION_SQL, "cas_generation", key_id, expected)
}

/// Write a tombstone for `key_id` at `expected` generation.
/// Kept forever; `cas_generation` respects it to prevent ABA.
pub fn tombstone_key(journal: &mut Journal, key_id: &str, expected: Generation) -> (res: Result<
    CasOutcome,
    String,
>)
    ensures
        exists|made: Seq<Call>|
            continued(*old(journal), made, *final(journal)) && #[trigger] attempted(
                TOMBSTONE_KEY_SQL@,
                "tombstone_key"@,
                key_id@,
                expected,
                made,
                outcome(res),
            ),
{
    write_key(journal, TOMBSTONE_KEY_SQL, "tombstone_key", key_id, expected)
}

// ---- Laws ----------------------------------------------------------------

/// A row that holds the generation text a write binds, with the flag that the
/// write sets, reads back as that generation and that flag.
pub proof fn law_written_key_reads_back(
    key_id: Seq<char>,
    generation: Generation,
    now: i64,
    is_tombstone: bool,
)
    ensures
        key_params(key_id, generation, now)[1] matches SqlParam::Text(stored) && key_of_row(
            Some((stored, is_tombstone)),
        ) == Ok::<(Generation, bool), Seq<char>>((generation, is_tombstone)),
{
    law_generation_reads_back(generation);
}

/// Two attempts that expect the same generation: once the first is let through
/// and the second reads what the first stored, the second is refused, and the
/// query is its only call. It is told the generation that the first stored, as a
/// conflict behind an advance and as a tombstone behind a burial.
pub proof fn law_second_attempt_is_refused(
    sql: Seq<char>,
    label: Seq<char>,
    key_id: Seq<char>,
    expected: Generation,
    first: Result<Option<(Seq<char>, bool)>, Seq<char>>,
    new_generation: Generation,
    now: i64,
    is_tombstone: bool,
    made: Seq<Call>,
    res: Result<CasOutcome, Seq<char>>,
)
    requires
        let_through(key_id, expected, first) == Some(new_generation),
        attempted(sql, label, key_id, expected, made, res),
        key_params(key_id, new_generation, now)[1] matches SqlParam::Text(stored) && made[0] == (
        Call::QueryKey {
            sql: READ_GENERATION_SQL@,
            key: key_id,
            reply: Ok(Some((stored, is_tombstone))),
        }),
    ensures
        made.len() == 1,
        res == Ok::<CasOutcome, Seq<char>>(
            if is_tombstone {
                CasOutcome::Tombstoned { tombstone_generation: new_generation }
            } else {
                CasOutcome::Conflict { current: new_generation }
            },
        ),
{
    law_generation_reads_back(new_generation);
}

/// A stored tombstone is never overwritten: whatever an attempt on it expects,
/// the query is its only call, and it is told the tombstone's generation.
pub proof fn law_tombstone_is_never_overwritten(
    sql: Seq<char>,
    label: Seq<char>,
    key_id: Seq<char>,
    expected: Generation,
    stored: Seq<char>,
    made: Seq<Call>,
    res: Result<CasOutcome, Seq<char>>,
)
    requires
        attempted(sql, label, key_id, expected, made, res),
        made[0] == (Call::QueryKey {
            sql: READ_GENERATION_SQL@,
            key: key_id,
            reply: Ok(Some((stored, true))),
        }),
    ensures
        made.len() == 1,
        res == match generation_of_text(stored) {
            Ok(tombstone_generation) => Ok::<CasOutcome, Seq<char>>(
                CasOutcome::Tombstoned { tombstone_generation },
            ),
            Err(message) => Err::<CasOutcome, Seq<char>>(message),
        },
{
}

/// An attempt succeeds exactly when the expected generation is the stored one of
/// a live key, zero for a key without a row, and has a successor.
pub proof fn law_expected_generation_is_let_through(
    key_id: Seq<char>,
    expected: Generation,
    stored: Option<Generation>,
)
    ensures
        ({
            let read = Ok::<Option<(Seq<char>, bool)>, Seq<char>>(
                match stored {
                    Some(generation) => Some((decimal(generation.0 as nat), false)),
                    None => None,
                },
            );
            let current = match stored {
                Some(generation) => generation,
                None => Generation(0),
            };
            let_through(key_id, expected, read) == (if current == expected && expected.0
                < u64::MAX {
                Some(Generation((expected.0 + 1) as u64))
            } else {
                None
            })
        }),
{
    if let Some(generation) = stored {
        law_generation_reads_back(generation);
    }
}

/// Whatever the database replies, an attempt that does not commit stores nothing
/// or was told that its statement failed, and one that commits stores its own
/// key alone, at the generation after the expected one.
pub proof fn law_only_a_commit_stores(
    sql: Seq<char>,
    label: Seq<char>,
    key_id: Seq<char>,
    expected: Generation,
    made: Seq<Call>,
    res: Result<CasOutcome, Seq<char>>,
)
    requires
        attempted(sql, label, key_id, expected, made, res),
    ensures
        made[0] is QueryKey,
        match res {
            Ok(CasOutcome::Committed { new_generation }) => {
                &&& new_generation.0 == expected.0 + 1
                &&& made.len() == 2
                &&& made[1] matches Call::Execute { sql: stored_by, params, reply }
                &&& stored_by == sql
                &&& params[0] == SqlParam::Text(key_id)
                &&& params[1] == SqlParam::Text(decimal(new_generation.0 as nat))
                &&& exists|now: i64| #[trigger]
                    is_stamp(now) && params[2] == SqlParam::Integer(now as int)
                &&& params.len() == 3
                &&& reply is Ok
            },
            Ok(CasOutcome::Conflict { current }) => made.len() == 1 && current != expected,
            Ok(CasOutcome::Tombstoned { .. }) => made.len() == 1,
            Err(_) => made.len() == 1 || made.len() == 2 && (made[1] matches Call::Execute {
                reply: Err(_),
                ..
            }),
        },
{
}

/// What a key's row says: no row is generation zero and no tombstone, and a row
/// says its own number and flag, or that its text is no number.
pub proof fn law_row_says_its_own(stored: Seq<char>, is_tombstone: bool)
    ensures
        key_of_row(None) == Ok::<(Generation, bool), Seq<char>>((Generation(0), false)),
        match u64_of_text(stored) {
            Some(n) => key_of_row(Some((stored, is_tombstone))) == Ok::<
                (Generation, bool),
                Seq<char>,
            >((Generation(n), is_tombstone)),
            None => key_of_row(Some((stored, is_tombstone))) == Err::<
                (Generation, bool),
                Seq<char>,
            >("parse generation '"@ + stored + "': "@ + u64_parse_error(stored)),
        },
{
}

/// An attempt is answered by the row that its query found. A flagged row is a
/// tombstone at its own generation. A live row, or none at generation zero, is a
/// conflict with that generation unless it is the expected one. Nothing is
/// stored then. The expected generation is stored as the next one, and what the
/// statement is answered decides.
pub proof fn law_attempt_answers_by_the_row(
    sql: Seq<char>,
    label: Seq<char>,
    key_id: Seq<char>,
    expected: Generation,
    made: Seq<Call>,
    res: Result<CasOutcome, Seq<char>>,
    row: Option<(Seq<char>, bool)>,
    current: u64,
)
    requires
        attempted(sql, label, key_id, expected, made, res),
        made[0] matches Call::QueryKey { reply, .. } && reply == Ok::<
            Option<(Seq<char>, bool)>,
            Seq<char>,
        >(row),
        match row {
            None => current == 0,
            Some((stored, _)) => u64_of_text(stored) == Some(current),
        },
    ensures
        (row matches Some((_, flag)) && flag) ==> res == Ok::<CasOutcome, Seq<char>>(
            CasOutcome::Tombstoned { tombstone_generation: Generation(current) },
        ) && made.len() == 1,
        !(row matches Some((_, flag)) && flag) && current != expected.0 ==> res == Ok::<
            CasOutcome,
            Seq<char>,
        >(CasOutcome::Conflict { current: Generation(current) }) && made.len() == 1,
        !(row matches Some((_, flag)) && flag) && current == expected.0 && current < u64::MAX ==> {
            &&& made.len() == 2
            &&& made[1] matches Call::Execute { reply, .. }
            &&& match reply {
                Ok(_) => res == Ok::<CasOutcome, Seq<char>>(
                    CasOutcome::Committed { new_generation: Generation((current + 1) as u64) },
                ),
                Err(e) => res == Err::<CasOutcome, Seq<char>>(
                    label + "("@ + key_id + "): "@ + e,
                ),
            }
        },
        !(row matches Some((_, flag)) && flag) && current == expected.0 && current == u64::MAX
            ==> res is Err && made.len() == 1,
{
    if let Some((stored, _)) = row {
        law_stored_generation_is_its_number(stored, Generation(current));
    }
}

/// A key that could not be read, because the query failed or the stored text is
/// no number, is answered with the reason, and nothing is stored.
pub proof fn law_unreadable_key_is_an_error(
    sql: Seq<char>,
    label: Seq<char>,
    key_id: Seq<char>,
    expected: Generation,
    made: Seq<Call>,
    res: Result<CasOutcome, Seq<char>>,
)
    requires
        attempted(sql, label, key_id, expected, made, res),
    ensures
        made[0] matches Call::QueryKey { sql: query, key, reply } && {
            &&& query == READ_GENERATION_SQL@
            &&& key == key_id
            &&& reply matches Err(e) ==> made.len() == 1 && res == Err::<CasOutcome, Seq<char>>(
                "read_generation("@ + key_id + "): "@ + e,
            )
            &&& reply matches Ok(Some((stored, _))) ==> (u64_of_text(stored) is None
                ==> made.len() == 1 && res == Err::<CasOutcome, Seq<char>>(
                "parse generation '"@ + stored + "': "@ + u64_parse_error(stored),
            ))
        },
{
}

/// Reading a key is one query for it, and tells the row that was found or the
/// error of the query.
pub proof fn law_reading_tells_the_row(
    key_id: Seq<char>,
    reply: Result<Option<(Seq<char>, bool)>, Seq<char>>,
)
    ensures
        read_calls(key_id, reply) == seq![
            Call::QueryKey { sql: READ_GENERATION_SQL@, key: key_id, reply },
        ],
        reply matches Ok(None) ==> key_of_reply(key_id, reply) == Ok::<
            (Generation, bool),
            Seq<char>,
        >((Generation(0), false)),
        reply matches Ok(Some((stored, flag))) ==> match u64_of_text(stored) {
            Some(n) => key_of_reply(key_id, reply) == Ok::<(Generation, bool), Seq<char>>(
                (Generation(n), flag),
            ),
            None => key_of_reply(key_id, reply) is Err,
        },
        reply matches Err(e) ==> key_of_reply(key_id, reply) == Err::<
            (Generation, bool),
            Seq<char>,
        >("read_generation("@ + key_id + "): "@ + e),
{
}

} // verus!
