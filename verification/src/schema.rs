//! The journal's database: how it is set up when it is opened.

use vstd::prelude::*;

use crate::sql::{
    continued, execute_batch, join_path, lemma_continued, open, open_replies, path_joins,
    pragma_update, Call, Journal, SqlParam, SqlValue,
};
use crate::text::{join2, outcome};

verus! {

/// Journal filename, beside `managed-agents.json`.
pub const JOURNAL_FILENAME: &'static str = "store-journal.sqlite";

/// The tables of the journal.
pub const SCHEMA_SQL: &'static str = "
        -- Per-key generation / tombstone metadata.
        -- generation stored as TEXT to preserve full u64 range.
        -- is_tombstone=1: key deleted; generation kept forever (no GC).
        CREATE TABLE IF NOT EXISTS key_generations (
            key_id    TEXT NOT NULL PRIMARY KEY,
            generation TEXT NOT NULL,
            is_tombstone INTEGER NOT NULL DEFAULT 0,
            updated_at  INTEGER NOT NULL DEFAULT 0
        );

        -- Saga spine.  disposition: pending|committed|compensating|
        -- compensated|failed|uncertain|accepted.
        -- compensation_id/generation: phased claim fence.
        -- nonterminal_follow_up: 1 if uncertain/accepted needs a recheck.
        CREATE TABLE IF NOT EXISTS operations (
            operation_id TEXT NOT NULL PRIMARY KEY,
            kind         TEXT NOT NULL,
            key_id       TEXT NOT NULL,
            disposition  TEXT NOT NULL DEFAULT 'pending',
            generation   TEXT NOT NULL,
            compensation_id         TEXT,
            compensation_generation TEXT,
            nonterminal_follow_up   INTEGER NOT NULL DEFAULT 0,
            created_at   INTEGER NOT NULL,
            updated_at   INTEGER NOT NULL
        );

        -- Immutable outbox rows (written once; publication progress tracked
        -- via append-only operation/event phase transitions, not a mutable
        -- flag).
        -- published_state: 0=pending, 1=published, 2=uncertain, 3=accepted.
        -- Advancing published_state is a fenced CAS; see mark_outbox_published.
        CREATE TABLE IF NOT EXISTS outbox_events (
            event_id     TEXT NOT NULL PRIMARY KEY,
            operation_id TEXT NOT NULL
                REFERENCES operations(operation_id),
            payload      BLOB NOT NULL,
            published_state INTEGER NOT NULL DEFAULT 0,
            created_at   INTEGER NOT NULL
        );

        -- Immutable inbox rows (written once, never updated).
        CREATE TABLE IF NOT EXISTS inbox_events (
            event_id     TEXT NOT NULL PRIMARY KEY,
            operation_id TEXT NOT NULL
                REFERENCES operations(operation_id),
            payload      BLOB NOT NULL,
            received_at  INTEGER NOT NULL
        );
        ";

// ---- Setting up ----------------------------------------------------------

/// How many steps it takes to set up a journal.
pub open spec fn setup_steps() -> int {
    5
}

/// The first of the steps that apply the schema.
pub open spec fn schema_step() -> int {
    3
}

/// A step of setting up a journal, with the reply to it: a busy timeout of five
/// seconds, write-ahead logging, foreign keys, the tables, the schema's version.
pub open spec fn setup_call(step: int, reply: Result<(), Seq<char>>) -> Call {
    if step == 0 {
        Call::Pragma { name: "busy_timeout"@, value: SqlParam::Integer(5000), reply }
    } else if step == 1 {
        Call::Pragma { name: "journal_mode"@, value: SqlParam::Text("WAL"@), reply }
    } else if step == 2 {
        Call::Pragma { name: "foreign_keys"@, value: SqlParam::Text("ON"@), reply }
    } else if step == 3 {
        Call::Batch { sql: SCHEMA_SQL@, reply }
    } else {
        Call::Pragma { name: "user_version"@, value: SqlParam::Integer(1), reply }
    }
}

/// The words before the error of a step.
pub open spec fn setup_words(step: int) -> Seq<char> {
    if step == 0 {
        "set busy_timeout: "@
    } else if step == 1 {
        "set WAL mode: "@
    } else if step == 2 {
        "enable foreign_keys: "@
    } else if step == 3 {
        "apply journal schema: "@
    } else {
        "set schema user_version: "@
    }
}

/// The steps from `first` on, as far as there are replies.
pub open spec fn setup_calls(first: int, replies: Seq<Result<(), Seq<char>>>) -> Seq<Call> {
    Seq::new(replies.len(), |i: int| setup_call(first + i, replies[i]))
}

/// `res` is what the steps from `first` on come to, with these replies: each step
/// follows a step that was done, and the first that fails ends it.
pub open spec fn setup_ran(
    first: int,
    replies: Seq<Result<(), Seq<char>>>,
    res: Result<(), Seq<char>>,
) -> bool {
    &&& 0 < replies.len() <= setup_steps() - first
    &&& forall|i: int| 0 <= i < replies.len() - 1 ==> #[trigger] replies[i] is Ok
    &&& match replies.last() {
        Ok(_) => replies.len() == setup_steps() - first && res == Ok::<(), Seq<char>>(()),
        Err(e) => res == Err::<(), Seq<char>>(setup_words(first + replies.len() - 1) + e),
    }
}

/// The steps from `first` on were taken on the journal, and nothing else was
/// done to it; `res` is what they came to.
pub open spec fn set_up(
    first: int,
    before: Journal,
    after: Journal,
    res: Result<(), Seq<char>>,
) -> bool {
    exists|replies: Seq<Result<(), Seq<char>>>|
        continued(before, #[trigger] setup_calls(first, replies), after) && setup_ran(
            first,
            replies,
            res,
        )
}

/// One step, behind steps that were done.
proof fn lemma_one_more_step(
    first: int,
    before: Journal,
    done: Seq<Result<(), Seq<char>>>,
    between: Journal,
    reply: Result<(), Seq<char>>,
    after: Journal,
)
    requires
        continued(before, setup_calls(first, done), between),
        continued(between, seq![setup_call(first + done.len(), reply)], after),
    ensures
        continued(before, setup_calls(first, done.push(reply)), after),
{
    let call = setup_call(first + done.len(), reply);
    lemma_continued(before, setup_calls(first, done), between, seq![call], after);
    assert(setup_calls(first, done.push(reply)) =~= setup_calls(first, done) + seq![call]);
}

/// Sets a pragma.
fn set_pragma(journal: &mut Journal, name: &str, value: SqlValue, words: &str) -> (res: Result<
    (),
    String,
>)
    ensures
        exists|reply: Result<(), Seq<char>>|
            {
                &&& continued(
                    *old(journal),
                    seq![#[trigger] pragma_call(name@, value@, reply)],
                    *final(journal),
                )
                &&& outcome(res) == labelled(words@, reply)
            },
{
    let set = pragma_update(journal, name, &value);
    assert(continued(
        *old(journal),
        seq![pragma_call(name@, value@, outcome(set))],
        *journal,
    ));
    match set {
        Ok(_) => Ok(()),
        Err(e) => Err(join2(words, e.as_str())),
    }
}

/// Setting a pragma, with the reply to it.
spec fn pragma_call(name: Seq<char>, value: SqlParam, reply: Result<(), Seq<char>>) -> Call {
    Call::Pragma { name, value, reply }
}

/// A reply with `words` before its error.
spec fn labelled(words: Seq<char>, reply: Result<(), Seq<char>>) -> Result<(), Seq<char>> {
    match reply {
        Ok(_) => Ok(()),
        Err(e) => Err(words + e),
    }
}

/// Apply all journal schema migrations idempotently.
pub fn apply_journal_schema(journal: &mut Journal) -> (res: Result<(), String>)
    ensures
        set_up(schema_step(), *old(journal), *final(journal), outcome(res)),
{
    let ghost none = Seq::<Result<(), Seq<char>>>::empty();
    let ghost start = *journal;
    let made = execute_batch(journal, SCHEMA_SQL);
    let ghost tables = none.push(outcome(made));
    proof {
        assert(setup_calls(schema_step(), none) =~= Seq::empty());
        assert(start.calls() + Seq::<Call>::empty() =~= start.calls());
        lemma_one_more_step(schema_step(), start, none, start, outcome(made), *journal);
    }
    match made {
        Ok(_) => {},
        Err(e) => {
            let message = join2("apply journal schema: ", e.as_str());
            assert(setup_ran(schema_step(), tables, Err(message@)));
            return Err(message);
        },
    }
    let ghost between = *journal;
    let res = set_pragma(
        journal,
        "user_version",
        SqlValue::Integer(1),
        "set schema user_version: ",
    );
    proof {
        let reply = choose|reply: Result<(), Seq<char>>|
            {
                &&& continued(
                    between,
                    seq![#[trigger] pragma_call("user_version"@, SqlParam::Integer(1), reply)],
                    *journal,
                )
                &&& outcome(res) == labelled("set schema user_version: "@, reply)
            };
        lemma_one_more_step(schema_step(), start, tables, between, reply, *journal);
        assert(setup_ran(schema_step(), tables.push(reply), outcome(res)));
    }
    res
}

/// Apply all journal schema migrations idempotently.
pub fn apply_journal_schema_pub(journal: &mut Journal) -> (res: Result<(), String>)
    ensures
        set_up(schema_step(), *old(journal), *final(journal), outcome(res)),
{
    apply_journal_schema(journal)
}

/// Sets a pragma as the next step behind steps that were done.
fn set_next(
    journal: &mut Journal,
    Ghost(start): Ghost<Journal>,
    Ghost(done): Ghost<Seq<Result<(), Seq<char>>>>,
    name: &str,
    value: SqlValue,
    words: &str,
) -> (res: Result<(), String>)
    requires
        done.len() < schema_step(),
        forall|i: int| 0 <= i < done.len() ==> #[trigger] done[i] is Ok,
        continued(start, setup_calls(0, done), *old(journal)),
        forall|reply: Result<(), Seq<char>>|
            setup_call(done.len() as int, reply) == #[trigger] pragma_call(name@, value@, reply),
        setup_words(done.len() as int) == words@,
    ensures
        res is Ok ==> continued(start, setup_calls(0, done.push(Ok(()))), *final(journal)),
        res is Err ==> set_up(0, start, *final(journal), outcome(res)),
{
    let ghost between = *journal;
    let res = set_pragma(journal, name, value, words);
    proof {
        let reply = choose|reply: Result<(), Seq<char>>|
            {
                &&& continued(
                    between,
                    seq![#[trigger] pragma_call(name@, value@, reply)],
                    *journal,
                )
                &&& outcome(res) == labelled(words@, reply)
            };
        lemma_one_more_step(0, start, done, between, reply, *journal);
        match reply {
            Ok(unit) => assert(unit == ()),
            Err(_) => assert(setup_ran(0, done.push(reply), outcome(res))),
        }
    }
    res
}

/// Set up an opened journal (5 s busy timeout, WAL mode, foreign keys) and apply
/// the schema idempotently.
pub fn set_up_journal(journal: &mut Journal) -> (res: Result<(), String>)
    ensures
        set_up(0, *old(journal), *final(journal), outcome(res)),
{
    let ghost start = *journal;
    let ghost mut done = Seq::<Result<(), Seq<char>>>::empty();
    proof {
        assert(setup_calls(0, done) =~= Seq::empty());
        assert(start.calls() + Seq::<Call>::empty() =~= start.calls());
    }
    match set_next(
        journal,
        Ghost(start),
        Ghost(done),
        "busy_timeout",
        SqlValue::Integer(5000),
        "set busy_timeout: ",
    ) {
        Ok(_) => {},
        Err(message) => return Err(message),
    }
    proof {
        done = done.push(Ok(()));
    }
    match set_next(
        journal,
        Ghost(start),
        Ghost(done),
        "journal_mode",
        SqlValue::Text("WAL".to_owned()),
        "set WAL mode: ",
    ) {
        Ok(_) => {},
        Err(message) => return Err(message),
    }
    proof {
        done = done.push(Ok(()));
    }
    match set_next(
        journal,
        Ghost(start),
        Ghost(done),
        "foreign_keys",
        SqlValue::Text("ON".to_owned()),
        "enable foreign_keys: ",
    ) {
        Ok(_) => {},
        Err(message) => return Err(message),
    }
    proof {
        done = done.push(Ok(()));
    }
    let ghost between = *journal;
    let res = apply_journal_schema(journal);
    proof {
        let replies = choose|replies: Seq<Result<(), Seq<char>>>|
            continued(between, #[trigger] setup_calls(schema_step(), replies), *journal)
                && setup_ran(schema_step(), replies, outcome(res));
        let all = done + replies;
        lemma_continued(
            start,
            setup_calls(0, done),
            between,
            setup_calls(schema_step(), replies),
            *journal,
        );
        assert(setup_calls(0, all) =~= setup_calls(0, done) + setup_calls(schema_step(), replies));
        assert(all.last() == replies.last());
        assert(setup_ran(0, all, outcome(res)));
    }
    res
}

// ---- Opening -------------------------------------------------------------

/// Why there is no journal, with the connection as far as it was set up.
pub struct OpenFailure {
    pub message: String,
    pub journal: Option<Journal>,
}

/// What becomes of the journal once opening its file was answered with `opened`:
/// the opened connection on which nothing but the setup was done, or the first
/// error.
pub open spec fn opened_attempt(
    opened: Result<rusqlite::Connection, Seq<char>>,
    res: Result<Journal, OpenFailure>,
) -> bool {
    match opened {
        Err(e) => {
            &&& res matches Err(failure)
            &&& failure.journal is None
            &&& failure.message@ == "open store-journal.sqlite: "@ + e
        },
        Ok(conn) => match res {
            Ok(journal) => set_up_from(conn, journal, Ok(())),
            Err(failure) => failure.journal matches Some(journal) && set_up_from(
                conn,
                journal,
                Err(failure.message@),
            ),
        },
    }
}

/// The journal is the connection with nothing done to it but its setup, which
/// came to `res`.
pub open spec fn set_up_from(
    conn: rusqlite::Connection,
    journal: Journal,
    res: Result<(), Seq<char>>,
) -> bool {
    &&& journal.conn() == conn
    &&& exists|replies: Seq<Result<(), Seq<char>>>|
        journal.calls() == #[trigger] setup_calls(0, replies) && setup_ran(0, replies, res)
}

/// Set up a journal that was opened or not.
pub fn set_up_opened(opened: Result<rusqlite::Connection, String>) -> (res: Result<
    Journal,
    OpenFailure,
>)
    ensures
        opened_attempt(outcome(opened), res),
{
    let conn = match opened {
        Ok(c) => c,
        Err(e) => {
            return Err(
                OpenFailure {
                    message: join2("open store-journal.sqlite: ", e.as_str()),
                    journal: None,
                },
            );
        },
    };
    let mut journal = Journal::new(conn);
    let ghost fresh = journal;
    let done = set_up_journal(&mut journal);
    proof {
        let replies = choose|replies: Seq<Result<(), Seq<char>>>|
            continued(fresh, #[trigger] setup_calls(0, replies), journal) && setup_ran(
                0,
                replies,
                outcome(done),
            );
        assert(journal.calls() =~= setup_calls(0, replies));
    }
    match done {
        Ok(_) => Ok(journal),
        Err(message) => Err(OpenFailure { message, journal: Some(journal) }),
    }
}

/// What opening the journal at `anchor_dir` comes to, once creating the directory
/// came to `created`.
pub open spec fn journal_started(
    anchor_dir: std::path::PathBuf,
    created: Result<(), String>,
    res: Result<Journal, OpenFailure>,
) -> bool {
    match created {
        Err(e) => {
            &&& res matches Err(failure)
            &&& failure.journal is None
            &&& failure.message@ == "create anchor dir: "@ + e@
        },
        Ok(_) => exists|
            path: std::path::PathBuf,
            opened: Result<rusqlite::Connection, Seq<char>>,
        |
            path_joins(anchor_dir, JOURNAL_FILENAME@, path) && #[trigger] open_replies(
                path,
                opened,
            ) && opened_attempt(opened, res),
    }
}

/// Open (or create) `store-journal.sqlite` at `anchor_dir` (WAL mode, 5 s
/// busy timeout) and apply the schema idempotently. `created` is what creating
/// `anchor_dir` came to. A failure keeps the connection as far as it was set up.
pub fn start_journal(anchor_dir: &std::path::PathBuf, created: Result<(), String>) -> (res: Result<
    Journal,
    OpenFailure,
>)
    ensures
        journal_started(*anchor_dir, created, res),
{
    match created {
        Ok(_) => {},
        Err(e) => {
            return Err(
                OpenFailure { message: join2("create anchor dir: ", e.as_str()), journal: None },
            );
        },
    }
    let path = join_path(anchor_dir, JOURNAL_FILENAME);
    let opened = open(&path);
    assert(open_replies(path, outcome(opened)));
    set_up_opened(opened)
}

/// Open (or create) `store-journal.sqlite` at `anchor_dir` (WAL mode, 5 s
/// busy timeout) and apply the schema idempotently. `created` is what creating
/// `anchor_dir` came to.
pub fn open_journal(anchor_dir: &std::path::PathBuf, created: Result<(), String>) -> (res: Result<
    Journal,
    String,
>)
    ensures
        exists|started: Result<Journal, OpenFailure>|
            {
                &&& #[trigger] journal_started(*anchor_dir, created, started)
                &&& outcome(res) == match started {
                    Ok(journal) => Ok(journal),
                    Err(failure) => Err(failure.message@),
                }
            },
{
    let started = start_journal(anchor_dir, created);
    assert(journal_started(*anchor_dir, created, started));
    match started {
        Ok(journal) => Ok(journal),
        Err(failure) => Err(failure.message),
    }
}

// ---- Laws ----------------------------------------------------------------

/// Setting up a journal takes these steps, in this order, and no others.
pub proof fn law_setup_takes_these_steps(replies: Seq<Result<(), Seq<char>>>, i: int)
    requires
        0 <= i < replies.len() <= 5,
    ensures
        setup_calls(0, replies).len() == replies.len(),
        i == 0 ==> setup_calls(0, replies)[i] == (Call::Pragma {
            name: "busy_timeout"@,
            value: SqlParam::Integer(5000),
            reply: replies[i],
        }),
        i == 1 ==> setup_calls(0, replies)[i] == (Call::Pragma {
            name: "journal_mode"@,
            value: SqlParam::Text("WAL"@),
            reply: replies[i],
        }),
        i == 2 ==> setup_calls(0, replies)[i] == (Call::Pragma {
            name: "foreign_keys"@,
            value: SqlParam::Text("ON"@),
            reply: replies[i],
        }),
        i == 3 ==> setup_calls(0, replies)[i] == (Call::Batch {
            sql: SCHEMA_SQL@,
            reply: replies[i],
        }),
        i == 4 ==> setup_calls(0, replies)[i] == (Call::Pragma {
            name: "user_version"@,
            value: SqlParam::Integer(1),
            reply: replies[i],
        }),
        schema_step() == 3,
        setup_steps() == 5,
        setup_calls(3, replies).len() == replies.len(),
        i == 0 ==> setup_calls(3, replies)[i] == (Call::Batch {
            sql: SCHEMA_SQL@,
            reply: replies[i],
        }),
        i == 1 ==> setup_calls(3, replies)[i] == (Call::Pragma {
            name: "user_version"@,
            value: SqlParam::Integer(1),
            reply: replies[i],
        }),
{
}

/// Setting up succeeds exactly if every step was done, and otherwise stops at the
/// first that was not, with its error behind the words for it.
pub proof fn law_setup_tells_the_first_error(
    replies: Seq<Result<(), Seq<char>>>,
    res: Result<(), Seq<char>>,
)
    requires
        setup_ran(0, replies, res),
    ensures
        res is Ok <==> replies.len() == 5 && forall|i: int|
            0 <= i < 5 ==> #[trigger] replies[i] is Ok,
        res matches Err(message) ==> {
            &&& 0 < replies.len() <= 5
            &&& forall|i: int| 0 <= i < replies.len() - 1 ==> #[trigger] replies[i] is Ok
            &&& replies[replies.len() - 1] matches Err(e)
            &&& replies.len() == 1 ==> message == "set busy_timeout: "@ + e
            &&& replies.len() == 2 ==> message == "set WAL mode: "@ + e
            &&& replies.len() == 3 ==> message == "enable foreign_keys: "@ + e
            &&& replies.len() == 4 ==> message == "apply journal schema: "@ + e
            &&& replies.len() == 5 ==> message == "set schema user_version: "@ + e
        },
{
    if res is Ok {
        assert forall|i: int| 0 <= i < 5 implies #[trigger] replies[i] is Ok by {
            if i == 4 {
                assert(replies.last() is Ok);
            }
        }
    }
    if replies.len() == 5 && forall|i: int| 0 <= i < 5 ==> #[trigger] replies[i] is Ok {
        assert(replies[4] is Ok);
    }
}

/// Applying the schema succeeds exactly if both its steps were done.
pub proof fn law_schema_tells_the_first_error(
    replies: Seq<Result<(), Seq<char>>>,
    res: Result<(), Seq<char>>,
)
    requires
        setup_ran(schema_step(), replies, res),
    ensures
        res is Ok <==> replies.len() == 2 && replies[0] is Ok && replies[1] is Ok,
        res matches Err(message) ==> {
            ||| replies.len() == 1 && (replies[0] matches Err(e) && message
                == "apply journal schema: "@ + e)
            ||| replies.len() == 2 && replies[0] is Ok && (replies[1] matches Err(e) && message
                == "set schema user_version: "@ + e)
        },
{
    if replies.len() == 2 {
        assert(replies[0] is Ok);
    }
}

/// A directory that was not created, or a file that was not opened, is the
/// reason that is given, and then there is no connection. A journal that was
/// opened and set up is that connection.
pub proof fn law_opening_tells_the_first_error(
    anchor_dir: std::path::PathBuf,
    created: Result<(), String>,
    opened: Result<rusqlite::Connection, Seq<char>>,
    res: Result<Journal, OpenFailure>,
)
    ensures
        created matches Err(e) ==> (journal_started(anchor_dir, created, res) ==> (
        res matches Err(failure) && failure.message@ == "create anchor dir: "@ + e@
            && failure.journal is None)),
        created is Ok && journal_started(anchor_dir, created, res) ==> exists|
            path: std::path::PathBuf,
            answer: Result<rusqlite::Connection, Seq<char>>,
        |
            path_joins(anchor_dir, "store-journal.sqlite"@, path) && #[trigger] open_replies(
                path,
                answer,
            ) && opened_attempt(answer, res),
        opened matches Err(e) ==> (opened_attempt(opened, res) ==> (res matches Err(failure)
            && failure.message@ == "open store-journal.sqlite: "@ + e && failure.journal is None)),
        opened matches Ok(conn) ==> (opened_attempt(opened, res) ==> match res {
            Ok(journal) => journal.conn() == conn && journal.calls().len() == 5,
            Err(failure) => failure.journal matches Some(journal) && journal.conn() == conn && 0
                < journal.calls().len() <= 5,
        }),
{
}

/// Setting up adds its steps to the journal and nothing else, and tells what they
/// came to; applying the schema likewise.
pub proof fn law_setup_adds_its_steps(before: Journal, after: Journal, res: Result<(), Seq<char>>)
    ensures
        set_up(0, before, after, res) ==> exists|replies: Seq<Result<(), Seq<char>>>| #[trigger]
            setup_ran(0, replies, res) && continued(before, setup_calls(0, replies), after),
        set_up(3, before, after, res) ==> exists|replies: Seq<Result<(), Seq<char>>>| #[trigger]
            setup_ran(3, replies, res) && continued(before, setup_calls(3, replies), after),
{
    if set_up(0, before, after, res) {
        let replies = choose|replies: Seq<Result<(), Seq<char>>>|
            continued(before, #[trigger] setup_calls(0, replies), after) && setup_ran(
                0,
                replies,
                res,
            );
        assert(setup_ran(0, replies, res));
    }
    if set_up(3, before, after, res) {
        let replies = choose|replies: Seq<Result<(), Seq<char>>>|
            continued(before, #[trigger] setup_calls(3, replies), after) && setup_ran(
                3,
                replies,
                res,
            );
        assert(setup_ran(3, replies, res));
    }
}

} // verus!
