//! The journal and its database calls.
//!
//! The journal is a SQLite database that outlives the process and that other
//! processes write to, so one call may be answered differently each time it is
//! made. A [`Journal`] keeps a record of the calls that were made on it: what
//! each was given and what it was answered, in order. Every call in this file
//! adds itself to the record, and nothing else does. The contracts of the
//! callers say exactly which calls they add, and what becomes of each reply;
//! which reply comes is left open.

use vstd::prelude::*;

use crate::text::outcome;

verus! {

/// A connection to the journal's database.
#[verifier::external_type_specification]
#[verifier::external_body]
pub struct ExConnection(rusqlite::Connection);

/// A path of the file system.
#[verifier::external_type_specification]
#[verifier::external_body]
pub struct ExPathBuf(std::path::PathBuf);

// ---- Opening -------------------------------------------------------------

/// `path` is what `Path::join` gives for `dir` and `name`.
pub uninterp spec fn path_joins(
    dir: std::path::PathBuf,
    name: Seq<char>,
    path: std::path::PathBuf,
) -> bool;

/// `std::path::Path::join`. The contract claims only that the result is the
/// path of `name` in `dir`; how the system writes such a path is left unsaid.
#[verifier::external_body]
pub(crate) fn join_path(dir: &std::path::PathBuf, name: &str) -> (res: std::path::PathBuf)
    ensures
        path_joins(*dir, name@, res),
{
    dir.join(name)
}

/// `reply` is an answer of `Connection::open` to opening `path`: the connection,
/// or the error's text.
pub uninterp spec fn open_replies(
    path: std::path::PathBuf,
    reply: Result<rusqlite::Connection, Seq<char>>,
) -> bool;

/// `rusqlite::Connection::open`. The contract claims only that the result is an
/// answer to opening this path.
#[verifier::external_body]
pub(crate) fn open(path: &std::path::PathBuf) -> (res: Result<rusqlite::Connection, String>)
    ensures
        open_replies(*path, outcome(res)),
{
    rusqlite::Connection::open(path).map_err(|e| e.to_string())
}

// ---- The record of calls -------------------------------------------------

/// One call on the database: what it was given, and what it was answered.
pub enum Call {
    /// `Connection::execute`: the number of affected rows, or the error's text.
    Execute { sql: Seq<char>, params: Seq<SqlParam>, reply: Result<usize, Seq<char>> },
    /// `Connection::execute_batch`: done, or the error's text.
    Batch { sql: Seq<char>, reply: Result<(), Seq<char>> },
    /// `Connection::pragma_update` on the default schema: done, or the error's
    /// text.
    Pragma { name: Seq<char>, value: SqlParam, reply: Result<(), Seq<char>> },
    /// `Connection::query_row` for a key: the row's first two columns as text and
    /// flag, no row, or the error's text.
    QueryKey {
        sql: Seq<char>,
        key: Seq<char>,
        reply: Result<Option<(Seq<char>, bool)>, Seq<char>>,
    },
    /// `Connection::query_row` for an operation: the row's eight columns, no row,
    /// or the error's text.
    QueryOperation {
        sql: Seq<char>,
        operation_id: Seq<char>,
        reply: Result<Option<OperationCells>, Seq<char>>,
    },
    /// `Connection::query_row` for an event: the row's first two columns as text
    /// and bytes, no row, or the error's text.
    QueryIdentity {
        sql: Seq<char>,
        event_id: Seq<char>,
        reply: Result<Option<(Seq<char>, Seq<u8>)>, Seq<char>>,
    },
    /// `Connection::prepare` and `Statement::query_map` for operations.
    SelectOperations { sql: Seq<char>, reply: SelectReply<OperationCells> },
    /// The same for the outbox events of an operation.
    SelectOutbox {
        sql: Seq<char>,
        operation_id: Seq<char>,
        reply: SelectReply<(Seq<char>, Seq<u8>, i64)>,
    },
    /// The same for the inbox events of an operation.
    SelectInbox {
        sql: Seq<char>,
        operation_id: Seq<char>,
        reply: SelectReply<(Seq<char>, Seq<u8>)>,
    },
}

/// The journal: a connection to its database, with the record of the calls that
/// were made on it.
pub struct Journal {
    conn: rusqlite::Connection,
    calls: Ghost<Seq<Call>>,
}

impl Journal {
    /// The connection.
    pub closed spec fn conn(self) -> rusqlite::Connection {
        self.conn
    }

    /// The calls that were made, in order.
    pub closed spec fn calls(self) -> Seq<Call> {
        self.calls@
    }

    /// The journal behind a connection, on which no call was made yet.
    pub fn new(conn: rusqlite::Connection) -> (res: Self)
        ensures
            res.conn() == conn,
            res.calls() == Seq::<Call>::empty(),
    {
        Journal { conn, calls: Ghost(Seq::empty()) }
    }

    /// The connection, for what is not a call of this library. What is done with
    /// it is not recorded.
    pub fn connection(&self) -> (res: &rusqlite::Connection)
        ensures
            *res == self.conn(),
    {
        &self.conn
    }
}

/// `after` is the journal `before` once the calls `made` were made on it, and no
/// others.
pub open spec fn continued(before: Journal, made: Seq<Call>, after: Journal) -> bool {
    &&& after.conn() == before.conn()
    &&& after.calls() == before.calls() + made
}

/// The journal after some calls and some more.
pub proof fn lemma_continued(
    before: Journal,
    first: Seq<Call>,
    between: Journal,
    second: Seq<Call>,
    after: Journal,
)
    requires
        continued(before, first, between),
        continued(between, second, after),
    ensures
        continued(before, first + second, after),
{
    assert(before.calls() + first + second =~= before.calls() + (first + second));
}

// ---- Parameters ----------------------------------------------------------

/// A value bound to a parameter of a statement.
#[derive(Debug)]
pub enum SqlValue {
    Text(String),
    Integer(i64),
    Blob(Vec<u8>),
}

/// A bound value, by what it holds.
pub enum SqlParam {
    Text(Seq<char>),
    Integer(int),
    Blob(Seq<u8>),
}

impl View for SqlValue {
    type V = SqlParam;

    open spec fn view(&self) -> SqlParam {
        match self {
            SqlValue::Text(t) => SqlParam::Text(t@),
            SqlValue::Integer(i) => SqlParam::Integer(*i as int),
            SqlValue::Blob(b) => SqlParam::Blob(b@),
        }
    }
}

/// Bound values, by what they hold, in the order of the parameters.
pub open spec fn params_of(values: Seq<SqlValue>) -> Seq<SqlParam> {
    values.map_values(|v: SqlValue| v@)
}

/// A text to bind.
pub(crate) fn text_value(s: &str) -> (res: SqlValue)
    ensures
        res@ == SqlParam::Text(s@),
{
    SqlValue::Text(s.to_owned())
}

/// Bytes to bind.
pub(crate) fn blob_value(bytes: &[u8]) -> (res: SqlValue)
    ensures
        res@ == SqlParam::Blob(bytes@),
{
    SqlValue::Blob(vstd::slice::slice_to_vec(bytes))
}

// ---- Statements that write -----------------------------------------------

/// `rusqlite::Connection::execute`, with positional parameters. The contract
/// claims that this one call is made, with this statement, these values and the
/// result as its reply. How many rows a statement affects is SQLite's affair and
/// is left unsaid.
#[verifier::external_body]
pub(crate) fn execute(journal: &mut Journal, sql: &str, params: &Vec<SqlValue>) -> (res:
    Result<usize, String>)
    ensures
        continued(
            *old(journal),
            seq![Call::Execute { sql: sql@, params: params_of(params@), reply: outcome(res) }],
            *final(journal),
        ),
{
    let values = params.iter().map(
        |p|
            match p {
                SqlValue::Text(t) => rusqlite::types::Value::Text(t.clone()),
                SqlValue::Integer(i) => rusqlite::types::Value::Integer(*i),
                SqlValue::Blob(b) => rusqlite::types::Value::Blob(b.clone()),
            },
    );
    journal.conn.execute(sql, rusqlite::params_from_iter(values)).map_err(|e| e.to_string())
}

/// `rusqlite::Connection::execute_batch`. The contract claims that this one call
/// is made, with these statements and the result as its reply.
#[verifier::external_body]
pub(crate) fn execute_batch(journal: &mut Journal, sql: &str) -> (res: Result<(), String>)
    ensures
        continued(
            *old(journal),
            seq![Call::Batch { sql: sql@, reply: outcome(res) }],
            *final(journal),
        ),
{
    journal.conn.execute_batch(sql).map_err(|e| e.to_string())
}

/// `rusqlite::Connection::pragma_update` on the default schema. The contract
/// claims that this one call is made, with this pragma, this value and the
/// result as its reply.
#[verifier::external_body]
pub(crate) fn pragma_update(journal: &mut Journal, name: &str, value: &SqlValue) -> (res:
    Result<(), String>)
    ensures
        continued(
            *old(journal),
            seq![Call::Pragma { name: name@, value: value@, reply: outcome(res) }],
            *final(journal),
        ),
{
    let set = match value {
        SqlValue::Text(t) => rusqlite::types::Value::Text(t.clone()),
        SqlValue::Integer(i) => rusqlite::types::Value::Integer(*i),
        SqlValue::Blob(b) => rusqlite::types::Value::Blob(b.clone()),
    };
    journal.conn.pragma_update(None, name, set).map_err(|e| e.to_string())
}

// ---- Queries for one row -------------------------------------------------

/// The first two columns of a row that tells a key's generation: its text, and
/// the tombstone flag.
pub type KeyCells = (Seq<char>, bool);

/// What a query for a key's row gave, by what it holds.
pub open spec fn key_reply(res: Result<Option<(String, bool)>, String>) -> Result<
    Option<KeyCells>,
    Seq<char>,
> {
    match res {
        Ok(Some((generation, is_tombstone))) => Ok(Some((generation@, is_tombstone))),
        Ok(None) => Ok(None),
        Err(e) => Err(e@),
    }
}

/// `rusqlite::Connection::query_row` with `OptionalExtension::optional`, for
/// rows of a text and a flag. The contract claims that this one query is made,
/// with the result as its reply.
#[verifier::external_body]
pub(crate) fn query_key(journal: &mut Journal, sql: &str, key: &str) -> (res: Result<
    Option<(String, bool)>,
    String,
>)
    ensures
        continued(
            *old(journal),
            seq![Call::QueryKey { sql: sql@, key: key@, reply: key_reply(res) }],
            *final(journal),
        ),
{
    rusqlite::OptionalExtension::optional(
        journal.conn.query_row(sql, [key], |row| Ok((row.get(0)?, row.get(1)?))),
    ).map_err(|e| e.to_string())
}

/// A row of the `operations` table as it is stored.
#[derive(Debug)]
pub struct OperationRow {
    pub operation_id: String,
    pub kind: String,
    pub key_id: String,
    pub disposition: String,
    pub generation: String,
    pub compensation_id: Option<String>,
    pub compensation_generation: Option<String>,
    pub nonterminal_follow_up: bool,
}

/// A row of the `operations` table, by what it holds.
pub struct OperationCells {
    pub operation_id: Seq<char>,
    pub kind: Seq<char>,
    pub key_id: Seq<char>,
    pub disposition: Seq<char>,
    pub generation: Seq<char>,
    pub compensation_id: Option<Seq<char>>,
    pub compensation_generation: Option<Seq<char>>,
    pub nonterminal_follow_up: bool,
}

/// An optional text, by what it holds.
pub open spec fn optional_text(s: Option<String>) -> Option<Seq<char>> {
    match s {
        Some(t) => Some(t@),
        None => None,
    }
}

impl View for OperationRow {
    type V = OperationCells;

    open spec fn view(&self) -> OperationCells {
        OperationCells {
            operation_id: self.operation_id@,
            kind: self.kind@,
            key_id: self.key_id@,
            disposition: self.disposition@,
            generation: self.generation@,
            compensation_id: optional_text(self.compensation_id),
            compensation_generation: optional_text(self.compensation_generation),
            nonterminal_follow_up: self.nonterminal_follow_up,
        }
    }
}

/// What a query for an operation's row gave, by what it holds.
pub open spec fn operation_reply(res: Result<Option<OperationRow>, String>) -> Result<
    Option<OperationCells>,
    Seq<char>,
> {
    match res {
        Ok(Some(row)) => Ok(Some(row@)),
        Ok(None) => Ok(None),
        Err(e) => Err(e@),
    }
}

/// `rusqlite::Connection::query_row` with `OptionalExtension::optional`, for
/// rows of the eight columns of an operation. The contract claims that this one
/// query is made, with the result as its reply.
#[verifier::external_body]
pub(crate) fn query_operation(journal: &mut Journal, sql: &str, operation_id: &str) -> (res:
    Result<Option<OperationRow>, String>)
    ensures
        continued(
            *old(journal),
            seq![Call::QueryOperation {
                sql: sql@,
                operation_id: operation_id@,
                reply: operation_reply(res),
            }],
            *final(journal),
        ),
{
    let read = |row: &rusqlite::Row<'_>| Ok(OperationRow {
        operation_id: row.get(0)?,
        kind: row.get(1)?,
        key_id: row.get(2)?,
        disposition: row.get(3)?,
        generation: row.get(4)?,
        compensation_id: row.get(5)?,
        compensation_generation: row.get(6)?,
        nonterminal_follow_up: row.get(7)?,
    });
    rusqlite::OptionalExtension::optional(journal.conn.query_row(sql, [operation_id], read)).map_err(|e| e.to_string())
}

/// What a query for an event's identity gave, by what it holds.
pub open spec fn identity_reply(res: Result<Option<(String, Vec<u8>)>, String>) -> Result<
    Option<(Seq<char>, Seq<u8>)>,
    Seq<char>,
> {
    match res {
        Ok(Some((operation_id, payload))) => Ok(Some((operation_id@, payload@))),
        Ok(None) => Ok(None),
        Err(e) => Err(e@),
    }
}

/// `rusqlite::Connection::query_row` with `OptionalExtension::optional`, for
/// rows of a text and bytes. The contract claims that this one query is made,
/// with the result as its reply.
#[verifier::external_body]
pub(crate) fn query_identity(journal: &mut Journal, sql: &str, event_id: &str) -> (res:
    Result<Option<(String, Vec<u8>)>, String>)
    ensures
        continued(
            *old(journal),
            seq![Call::QueryIdentity {
                sql: sql@,
                event_id: event_id@,
                reply: identity_reply(res),
            }],
            *final(journal),
        ),
{
    rusqlite::OptionalExtension::optional(
        journal.conn.query_row(sql, [event_id], |row| Ok((row.get(0)?, row.get(1)?))),
    ).map_err(|e| e.to_string())
}

// ---- Queries for many rows -----------------------------------------------

/// What a query for many rows came to: the statement was not prepared, it was
/// not run, or these rows were read in turn, each with the error that reading
/// it gave.
#[derive(Debug)]
pub enum Selection<R> {
    Unprepared(String),
    Unqueried(String),
    Rows(Vec<Result<R, String>>),
}

/// A query for many rows, by what it came to.
pub enum SelectReply<R> {
    Unprepared(Seq<char>),
    Unqueried(Seq<char>),
    Rows(Seq<Result<R, Seq<char>>>),
}

/// The values of a row of results in order, or the first error among them.
pub open spec fn all_or_first_error<T>(results: Seq<Result<T, Seq<char>>>) -> Result<
    Seq<T>,
    Seq<char>,
>
    decreases results.len(),
{
    if results.len() == 0 {
        Ok(Seq::empty())
    } else {
        match all_or_first_error(results.drop_last()) {
            Err(message) => Err(message),
            Ok(before) => match results.last() {
                Err(message) => Err(message),
                Ok(value) => Ok(before.push(value)),
            },
        }
    }
}

/// What stands behind the first error does not change it.
pub proof fn lemma_first_error_stands<T>(results: Seq<Result<T, Seq<char>>>, n: int)
    requires
        0 <= n <= results.len(),
        all_or_first_error(results.take(n)) is Err,
    ensures
        all_or_first_error(results) == all_or_first_error(results.take(n)),
    decreases results.len(),
{
    if n < results.len() {
        assert(results.drop_last().take(n) =~= results.take(n));
        lemma_first_error_stands(results.drop_last(), n);
    } else {
        assert(results.take(n) =~= results);
    }
}

/// One row of a query for operations, by what it holds.
pub open spec fn operation_row_reply(row: Result<OperationRow, String>) -> Result<
    OperationCells,
    Seq<char>,
> {
    match row {
        Ok(r) => Ok(r@),
        Err(e) => Err(e@),
    }
}

/// What a query for operations came to, by what it holds.
pub open spec fn operations_reply(res: Selection<OperationRow>) -> SelectReply<OperationCells> {
    match res {
        Selection::Unprepared(e) => SelectReply::Unprepared(e@),
        Selection::Unqueried(e) => SelectReply::Unqueried(e@),
        Selection::Rows(rows) => SelectReply::Rows(
            rows@.map_values(|row: Result<OperationRow, String>| operation_row_reply(row)),
        ),
    }
}

/// `rusqlite::Connection::prepare`, then `Statement::query_map`, for rows of the
/// eight columns of an operation. The contract claims that this one query is
/// made, with the result as its reply.
#[verifier::external_body]
pub(crate) fn select_operations(journal: &mut Journal, sql: &str) -> (res: Selection<
    OperationRow,
>)
    ensures
        continued(
            *old(journal),
            seq![Call::SelectOperations { sql: sql@, reply: operations_reply(res) }],
            *final(journal),
        ),
{
    let mut stmt = match journal.conn.prepare(sql) {
        Ok(s) => s,
        Err(e) => return Selection::Unprepared(e.to_string()),
    };
    let rows = stmt.query_map([], |row| Ok(OperationRow {
        operation_id: row.get(0)?, kind: row.get(1)?, key_id: row.get(2)?, disposition: row.get(3)?,
        generation: row.get(4)?, compensation_id: row.get(5)?, compensation_generation: row.get(6)?,
        nonterminal_follow_up: row.get(7)?,
    }));
    match rows {
        Ok(found) => Selection::Rows(found.map(|r| r.map_err(|e| e.to_string())).collect()),
        Err(e) => Selection::Unqueried(e.to_string()),
    }
}

/// One row of a query for outbox events, by what it holds.
pub open spec fn outbox_row_reply(row: Result<(String, Vec<u8>, i64), String>) -> Result<
    (Seq<char>, Seq<u8>, i64),
    Seq<char>,
> {
    match row {
        Ok((event_id, payload, state)) => Ok((event_id@, payload@, state)),
        Err(e) => Err(e@),
    }
}

/// What a query for outbox events came to, by what it holds.
pub open spec fn outbox_reply(res: Selection<(String, Vec<u8>, i64)>) -> SelectReply<
    (Seq<char>, Seq<u8>, i64),
> {
    match res {
        Selection::Unprepared(e) => SelectReply::Unprepared(e@),
        Selection::Unqueried(e) => SelectReply::Unqueried(e@),
        Selection::Rows(rows) => SelectReply::Rows(
            rows@.map_values(|row: Result<(String, Vec<u8>, i64), String>| outbox_row_reply(row)),
        ),
    }
}

/// `rusqlite::Connection::prepare`, then `Statement::query_map`, for rows of a
/// text, bytes and an integer. The contract claims that this one query is made,
/// with the result as its reply.
#[verifier::external_body]
pub(crate) fn select_outbox(journal: &mut Journal, sql: &str, operation_id: &str) -> (res:
    Selection<(String, Vec<u8>, i64)>)
    ensures
        continued(
            *old(journal),
            seq![Call::SelectOutbox {
                sql: sql@,
                operation_id: operation_id@,
                reply: outbox_reply(res),
            }],
            *final(journal),
        ),
{
    let mut stmt = match journal.conn.prepare(sql) {
        Ok(s) => s,
        Err(e) => return Selection::Unprepared(e.to_string()),
    };
    let rows = stmt.query_map(
        [operation_id],
        |row| Ok((row.get(0)?, row.get(1)?, row.get(2)?)),
    );
    match rows {
        Ok(found) => Selection::Rows(found.map(|r| r.map_err(|e| e.to_string())).collect()),
        Err(e) => Selection::Unqueried(e.to_string()),
    }
}

/// One row of a query for inbox events, by what it holds.
pub open spec fn inbox_row_reply(row: Result<(String, Vec<u8>), String>) -> Result<
    (Seq<char>, Seq<u8>),
    Seq<char>,
> {
    match row {
        Ok((event_id, payload)) => Ok((event_id@, payload@)),
        Err(e) => Err(e@),
    }
}

/// What a query for inbox events came to, by what it holds.
pub open spec fn inbox_reply(res: Selection<(String, Vec<u8>)>) -> SelectReply<
    (Seq<char>, Seq<u8>),
> {
    match res {
        Selection::Unprepared(e) => SelectReply::Unprepared(e@),
        Selection::Unqueried(e) => SelectReply::Unqueried(e@),
        Selection::Rows(rows) => SelectReply::Rows(
            rows@.map_values(|row: Result<(String, Vec<u8>), String>| inbox_row_reply(row)),
        ),
    }
}

/// `rusqlite::Connection::prepare`, then `Statement::query_map`, for rows of a
/// text and bytes. The contract claims that this one query is made, with the
/// result as its reply.
#[verifier::external_body]
pub(crate) fn select_inbox(journal: &mut Journal, sql: &str, operation_id: &str) -> (res:
    Selection<(String, Vec<u8>)>)
    ensures
        continued(
            *old(journal),
            seq![Call::SelectInbox {
                sql: sql@,
                operation_id: operation_id@,
                reply: inbox_reply(res),
            }],
            *final(journal),
        ),
{
    let mut stmt = match journal.conn.prepare(sql) {
        Ok(s) => s,
        Err(e) => return Selection::Unprepared(e.to_string()),
    };
    let rows = stmt.query_map([operation_id], |row| Ok((row.get(0)?, row.get(1)?)));
    match rows {
        Ok(found) => Selection::Rows(found.map(|r| r.map_err(|e| e.to_string())).collect()),
        Err(e) => Selection::Unqueried(e.to_string()),
    }
}

// ---- Laws ----------------------------------------------------------------

/// A journal that was continued is the same connection, with exactly the new
/// calls behind the old ones.
pub proof fn law_continued_adds_exactly(before: Journal, made: Seq<Call>, after: Journal)
    requires
        continued(before, made, after),
    ensures
        after.conn() == before.conn(),
        after.calls().len() == before.calls().len() + made.len(),
        forall|i: int| 0 <= i < before.calls().len() ==> #[trigger] after.calls()[i] == before.calls()[i],
        forall|i: int|
            0 <= i < made.len() ==> after.calls()[before.calls().len() + i] == #[trigger] made[i],
{
}

/// Bound values are as many as were given, in order, and each holds what it was
/// made of.
pub proof fn law_values_hold_their_own(values: Seq<SqlValue>, i: int)
    requires
        0 <= i < values.len(),
    ensures
        params_of(values).len() == values.len(),
        values[i] matches SqlValue::Text(t) ==> params_of(values)[i] == SqlParam::Text(t@),
        values[i] matches SqlValue::Integer(n) ==> params_of(values)[i] == SqlParam::Integer(
            n as int,
        ),
        values[i] matches SqlValue::Blob(b) ==> params_of(values)[i] == SqlParam::Blob(b@),
{
}

/// A list without an error gives all its values, in order.
pub proof fn law_all_values_are_given<T>(results: Seq<Result<T, Seq<char>>>, values: Seq<T>)
    requires
        values.len() == results.len(),
        forall|i: int|
            0 <= i < results.len() ==> #[trigger] results[i] == Ok::<T, Seq<char>>(values[i]),
    ensures
        all_or_first_error(results) == Ok::<Seq<T>, Seq<char>>(values),
    decreases results.len(),
{
    if results.len() > 0 {
        let n = results.len() - 1;
        assert forall|i: int| 0 <= i < n implies #[trigger] results.drop_last()[i] == Ok::<
            T,
            Seq<char>,
        >(values.drop_last()[i]) by {
            assert(results[i] == Ok::<T, Seq<char>>(values[i]));
        }
        law_all_values_are_given(results.drop_last(), values.drop_last());
        assert(results[n] == Ok::<T, Seq<char>>(values[n]));
        assert(values.drop_last().push(values[n]) =~= values);
    } else {
        assert(values =~= Seq::<T>::empty());
    }
}

/// A list with an error gives the first one.
pub proof fn law_first_error_is_given<T>(
    results: Seq<Result<T, Seq<char>>>,
    k: int,
    message: Seq<char>,
)
    requires
        0 <= k < results.len(),
        forall|i: int| 0 <= i < k ==> #[trigger] results[i] is Ok,
        results[k] == Err::<T, Seq<char>>(message),
    ensures
        all_or_first_error(results) == Err::<Seq<T>, Seq<char>>(message),
{
    let values = Seq::new(k as nat, |i: int| results[i]->Ok_0);
    assert forall|i: int| 0 <= i < k implies #[trigger] results.take(k)[i] == Ok::<T, Seq<char>>(
        values[i],
    ) by {
        assert(results[i] is Ok);
    }
    law_all_values_are_given(results.take(k), values);
    assert(results.take(k + 1).drop_last() =~= results.take(k));
    assert(results.take(k + 1).last() == results[k]);
    lemma_first_error_stands(results, k + 1);
}

/// What a query gave is what it holds: every cell of a row, in its place, or the
/// error's whole text.
pub proof fn law_replies_hold_their_own(
    key: Result<Option<(String, bool)>, String>,
    operation: Result<Option<OperationRow>, String>,
    identity: Result<Option<(String, Vec<u8>)>, String>,
)
    ensures
        match key {
            Ok(Some((text, flag))) => key_reply(key) == Ok::<
                Option<(Seq<char>, bool)>,
                Seq<char>,
            >(Some((text@, flag))),
            Ok(None) => key_reply(key) == Ok::<Option<(Seq<char>, bool)>, Seq<char>>(None),
            Err(e) => key_reply(key) == Err::<Option<(Seq<char>, bool)>, Seq<char>>(e@),
        },
        match operation {
            Ok(Some(row)) => operation_reply(operation) == Ok::<Option<OperationCells>, Seq<char>>(
                Some(row@),
            ),
            Ok(None) => operation_reply(operation) == Ok::<Option<OperationCells>, Seq<char>>(None),
            Err(e) => operation_reply(operation) == Err::<Option<OperationCells>, Seq<char>>(e@),
        },
        match identity {
            Ok(Some((text, bytes))) => identity_reply(identity) == Ok::<
                Option<(Seq<char>, Seq<u8>)>,
                Seq<char>,
            >(Some((text@, bytes@))),
            Ok(None) => identity_reply(identity) == Ok::<Option<(Seq<char>, Seq<u8>)>, Seq<char>>(
                None,
            ),
            Err(e) => identity_reply(identity) == Err::<Option<(Seq<char>, Seq<u8>)>, Seq<char>>(
                e@,
            ),
        },
{
}

/// The same of queries for many rows: each row in its place.
pub proof fn law_selections_hold_their_own(
    operations: Selection<OperationRow>,
    outbox: Selection<(String, Vec<u8>, i64)>,
    inbox: Selection<(String, Vec<u8>)>,
    i: int,
)
    ensures
        match operations {
            Selection::Unprepared(e) => operations_reply(operations) == SelectReply::<
                OperationCells,
            >::Unprepared(e@),
            Selection::Unqueried(e) => operations_reply(operations) == SelectReply::<
                OperationCells,
            >::Unqueried(e@),
            Selection::Rows(rows) => operations_reply(operations) matches SelectReply::Rows(cells)
                && cells.len() == rows@.len() && (0 <= i < rows@.len() ==> match rows@[i] {
                Ok(row) => cells[i] == Ok::<OperationCells, Seq<char>>(row@),
                Err(e) => cells[i] == Err::<OperationCells, Seq<char>>(e@),
            }),
        },
        match outbox {
            Selection::Unprepared(e) => outbox_reply(outbox) == SelectReply::<
                (Seq<char>, Seq<u8>, i64),
            >::Unprepared(e@),
            Selection::Unqueried(e) => outbox_reply(outbox) == SelectReply::<
                (Seq<char>, Seq<u8>, i64),
            >::Unqueried(e@),
            Selection::Rows(rows) => outbox_reply(outbox) matches SelectReply::Rows(cells)
                && cells.len() == rows@.len() && (0 <= i < rows@.len() ==> match rows@[i] {
                Ok(row) => cells[i] == Ok::<(Seq<char>, Seq<u8>, i64), Seq<char>>(
                    (row.0@, row.1@, row.2),
                ),
                Err(e) => cells[i] == Err::<(Seq<char>, Seq<u8>, i64), Seq<char>>(e@),
            }),
        },
        match inbox {
            Selection::Unprepared(e) => inbox_reply(inbox) == SelectReply::<
                (Seq<char>, Seq<u8>),
            >::Unprepared(e@),
            Selection::Unqueried(e) => inbox_reply(inbox) == SelectReply::<
                (Seq<char>, Seq<u8>),
            >::Unqueried(e@),
            Selection::Rows(rows) => inbox_reply(inbox) matches SelectReply::Rows(cells)
                && cells.len() == rows@.len() && (0 <= i < rows@.len() ==> match rows@[i] {
                Ok(row) => cells[i] == Ok::<(Seq<char>, Seq<u8>), Seq<char>>((row.0@, row.1@)),
                Err(e) => cells[i] == Err::<(Seq<char>, Seq<u8>), Seq<char>>(e@),
            }),
        },
{
}

/// A stored operation's row holds each column as it was read.
pub proof fn law_cells_are_the_columns(row: OperationRow)
    ensures
        row@.operation_id == row.operation_id@,
        row@.kind == row.kind@,
        row@.key_id == row.key_id@,
        row@.disposition == row.disposition@,
        row@.generation == row.generation@,
        row@.compensation_id is Some <==> row.compensation_id is Some,
        row.compensation_id matches Some(id) ==> row@.compensation_id == Some(id@),
        row@.compensation_generation is Some <==> row.compensation_generation is Some,
        row.compensation_generation matches Some(g) ==> row@.compensation_generation == Some(g@),
        row@.nonterminal_follow_up == row.nonterminal_follow_up,
{
}

} // verus!
