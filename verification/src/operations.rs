//! Operations: the spine of the journal's sagas.

use vstd::prelude::*;

use crate::clock::{is_stamp, unix_now_secs};
use crate::disposition::{
    disposition_is_terminal, disposition_of_text, disposition_text, law_disposition_reads_back,
    law_terminal_texts, Disposition,
};
use crate::generation::{generation_of_text, law_generation_reads_back, Generation};
use crate::sql::{
    all_or_first_error, continued, execute, law_all_values_are_given, law_first_error_is_given,
    lemma_continued, lemma_first_error_stands,
    operation_reply, operation_row_reply, operations_reply, optional_text, params_of,
    query_operation, select_operations, text_value, Call, Journal, OperationCells, OperationRow,
    SelectReply, Selection, SqlParam, SqlValue,
};
use crate::text::{decimal, join2, join3, outcome, u64_of_text, u64_parse_error};

verus! {

/// Statement that stores a new operation.
pub const INSERT_OPERATION_SQL: &'static str = "INSERT INTO operations
             (operation_id, kind, key_id, disposition, generation, created_at, updated_at)
         VALUES (?1, ?2, ?3, 'pending', ?4, ?5, ?5)";

/// Query for one operation.
pub const READ_OPERATION_SQL: &'static str =
    "SELECT operation_id, kind, key_id, disposition, generation,
                    compensation_id, compensation_generation, nonterminal_follow_up
             FROM operations WHERE operation_id = ?1";

/// Query for the operations that are not at an end.
pub const READ_NONTERMINAL_SQL: &'static str =
    "SELECT operation_id, kind, key_id, disposition, generation,
                    compensation_id, compensation_generation, nonterminal_follow_up
             FROM operations
             WHERE disposition NOT IN ('committed', 'compensated', 'failed')";

/// Statement that moves an operation from one disposition to another.
pub const ADVANCE_DISPOSITION_SQL: &'static str =
    "UPDATE operations SET disposition = ?1, updated_at = ?2
             WHERE operation_id = ?3 AND disposition = ?4";

/// Statement that pins the compensation of a pending operation.
pub const PIN_COMPENSATION_SQL: &'static str = "UPDATE operations
             SET disposition            = 'compensating',
                 compensation_id        = ?1,
                 compensation_generation = ?2,
                 updated_at             = ?3
             WHERE operation_id = ?4 AND disposition = 'pending'";

/// Statement that marks an operation for a follow-up.
pub const SET_FOLLOW_UP_SQL: &'static str =
    "UPDATE operations SET nonterminal_follow_up = ?1, updated_at = ?2
             WHERE operation_id = ?3 AND disposition = ?4";

// ---- Records -------------------------------------------------------------

/// A record from the `operations` table.
#[derive(Debug, Clone)]
pub struct OperationRecord {
    pub operation_id: String,
    pub kind: String,
    pub key_id: String,
    pub disposition: Disposition,
    /// Current committed generation at operation record time.
    pub generation: Generation,
    /// UUID of the active compensation event, if in `Compensating` state.
    pub compensation_id: Option<String>,
    /// Generation snapshot at compensation start.
    pub compensation_generation: Option<Generation>,
    /// Whether a nonterminal follow-up is pending (uncertain/accepted publication).
    pub nonterminal_follow_up: bool,
}

/// An operation, by what its record holds.
pub struct Operation {
    pub operation_id: Seq<char>,
    pub kind: Seq<char>,
    pub key_id: Seq<char>,
    pub disposition: Disposition,
    pub generation: Generation,
    pub compensation_id: Option<Seq<char>>,
    pub compensation_generation: Option<Generation>,
    pub nonterminal_follow_up: bool,
}

impl View for OperationRecord {
    type V = Operation;

    open spec fn view(&self) -> Operation {
        Operation {
            operation_id: self.operation_id@,
            kind: self.kind@,
            key_id: self.key_id@,
            disposition: self.disposition,
            generation: self.generation,
            compensation_id: optional_text(self.compensation_id),
            compensation_generation: self.compensation_generation,
            nonterminal_follow_up: self.nonterminal_follow_up,
        }
    }
}

/// The generation that an optional stored text stands for.
pub open spec fn optional_generation(s: Option<Seq<char>>) -> Result<
    Option<Generation>,
    Seq<char>,
> {
    match s {
        None => Ok(None),
        Some(t) => match generation_of_text(t) {
            Ok(g) => Ok(Some(g)),
            Err(message) => Err(message),
        },
    }
}

/// The operation that a stored row stands for. The disposition is read first,
/// then the generation, then the compensation's generation; the first that
/// cannot be read is reported.
pub open spec fn operation_of_cells(cells: OperationCells) -> Result<Operation, Seq<char>> {
    match disposition_of_text(cells.disposition) {
        None => Err("unknown disposition '"@ + cells.disposition + "'"@),
        Some(disposition) => match generation_of_text(cells.generation) {
            Err(message) => Err(message),
            Ok(generation) => match optional_generation(cells.compensation_generation) {
                Err(message) => Err(message),
                Ok(compensation_generation) => Ok(
                    Operation {
                        operation_id: cells.operation_id,
                        kind: cells.kind,
                        key_id: cells.key_id,
                        disposition,
                        generation,
                        compensation_id: cells.compensation_id,
                        compensation_generation,
                        nonterminal_follow_up: cells.nonterminal_follow_up,
                    },
                ),
            },
        },
    }
}

/// One operation or an error, by what it holds.
pub open spec fn operation_outcome(res: Result<OperationRecord, String>) -> Result<
    Operation,
    Seq<char>,
> {
    match res {
        Ok(op) => Ok(op@),
        Err(e) => Err(e@),
    }
}

/// The operation that a stored row stands for.
pub fn decode_operation(row: OperationRow) -> (res: Result<OperationRecord, String>)
    ensures
        operation_outcome(res) == operation_of_cells(row@),
        res matches Ok(op) ==> {
            &&& op.operation_id@ == row.operation_id@
            &&& op.kind@ == row.kind@
            &&& op.key_id@ == row.key_id@
            &&& disposition_text(op.disposition) == row.disposition@
            &&& u64_of_text(row.generation@) == Some(op.generation.0)
            &&& op.compensation_id == row.compensation_id
            &&& op.compensation_generation is Some <==> row.compensation_generation is Some
            &&& row.compensation_generation matches Some(stored) ==> u64_of_text(stored@) == Some(
                (op.compensation_generation->0).0,
            )
            &&& op.nonterminal_follow_up == row.nonterminal_follow_up
        },
{
    let disposition = match Disposition::from_str(row.disposition.as_str()) {
        Some(d) => d,
        None => return Err(join3("unknown disposition '", row.disposition.as_str(), "'")),
    };
    proof {
        law_disposition_reads_back(disposition, row.disposition@);
    }
    let generation = match Generation::from_str(row.generation.as_str()) {
        Ok(g) => g,
        Err(message) => return Err(message),
    };
    let compensation_generation = match row.compensation_generation {
        None => None,
        Some(t) => match Generation::from_str(t.as_str()) {
            Ok(g) => Some(g),
            Err(message) => return Err(message),
        },
    };
    Ok(
        OperationRecord {
            operation_id: row.operation_id,
            kind: row.kind,
            key_id: row.key_id,
            disposition,
            generation,
            compensation_id: row.compensation_id,
            compensation_generation,
            nonterminal_follow_up: row.nonterminal_follow_up,
        },
    )
}

// ---- Insertion -----------------------------------------------------------

/// The values bound when an operation is inserted.
pub open spec fn insert_operation_params(
    operation_id: Seq<char>,
    kind: Seq<char>,
    key_id: Seq<char>,
    generation: Generation,
    now: i64,
) -> Seq<SqlParam> {
    seq![
        SqlParam::Text(operation_id),
        SqlParam::Text(kind),
        SqlParam::Text(key_id),
        SqlParam::Text(decimal(generation.0 as nat)),
        SqlParam::Integer(now as int),
    ]
}

/// What an insertion comes to, for each reply of the database.
pub open spec fn insertion_of_reply(
    operation_id: Seq<char>,
    reply: Result<usize, Seq<char>>,
) -> Result<(), Seq<char>> {
    match reply {
        Ok(_) => Ok(()),
        Err(e) => Err("insert_operation("@ + operation_id + "): "@ + e),
    }
}

/// The call of an insertion, with the reply to it.
pub open spec fn insert_operation_calls(
    operation_id: Seq<char>,
    kind: Seq<char>,
    key_id: Seq<char>,
    generation: Generation,
    now: i64,
    reply: Result<usize, Seq<char>>,
) -> Seq<Call> {
    seq![
        Call::Execute {
            sql: INSERT_OPERATION_SQL@,
            params: insert_operation_params(operation_id, kind, key_id, generation, now),
            reply,
        },
    ]
}

/// Insert a new `pending` operation record.
pub fn insert_operation(
    journal: &mut Journal,
    operation_id: &str,
    kind: &str,
    key_id: &str,
    generation: Generation,
) -> (res: Result<(), String>)
    ensures
        exists|now: i64, reply: Result<usize, Seq<char>>|
            {
                &&& is_stamp(now)
                &&& continued(
                    *old(journal),
                    #[trigger] insert_operation_calls(
                        operation_id@,
                        kind@,
                        key_id@,
                        generation,
                        now,
                        reply,
                    ),
                    *final(journal),
                )
                &&& outcome(res) == insertion_of_reply(operation_id@, reply)
            },
{
    let now: i64 = unix_now_secs();
    let params = vec![
        text_value(operation_id),
        text_value(kind),
        text_value(key_id),
        SqlValue::Text(generation.to_db_str()),
        SqlValue::Integer(now),
    ];
    assert(params_of(params@) =~= insert_operation_params(
        operation_id@,
        kind@,
        key_id@,
        generation,
        now,
    ));
    let inserted = execute(journal, INSERT_OPERATION_SQL, &params);
    assert(continued(
        *old(journal),
        insert_operation_calls(
            operation_id@,
            kind@,
            key_id@,
            generation,
            now,
            outcome(inserted),
        ),
        *journal,
    ));
    match inserted {
        Ok(_) => Ok(()),
        Err(e) => {
            let mut message = join3("insert_operation(", operation_id, "): ");
            message.append(e.as_str());
            Err(message)
        },
    }
}

// ---- Reading -------------------------------------------------------------

/// An optional operation or an error, by what it holds.
pub open spec fn found_outcome(res: Result<Option<OperationRecord>, String>) -> Result<
    Option<Operation>,
    Seq<char>,
> {
    match res {
        Ok(Some(op)) => Ok(Some(op@)),
        Ok(None) => Ok(None),
        Err(e) => Err(e@),
    }
}

/// What reading an operation comes to, for each reply of the database.
pub open spec fn operation_of_reply(
    operation_id: Seq<char>,
    reply: Result<Option<OperationCells>, Seq<char>>,
) -> Result<Option<Operation>, Seq<char>> {
    match reply {
        Err(e) => Err("read_operation("@ + operation_id + "): "@ + e),
        Ok(None) => Ok(None),
        Ok(Some(cells)) => match operation_of_cells(cells) {
            Ok(op) => Ok(Some(op)),
            Err(message) => Err(message),
        },
    }
}

/// Reading an operation, with the reply to it.
pub open spec fn read_operation_calls(
    operation_id: Seq<char>,
    reply: Result<Option<OperationCells>, Seq<char>>,
) -> Seq<Call> {
    seq![Call::QueryOperation { sql: READ_OPERATION_SQL@, operation_id, reply }]
}

/// Read one operation record.  Returns `None` when not found.
pub fn read_operation(journal: &mut Journal, operation_id: &str) -> (res: Result<
    Option<OperationRecord>,
    String,
>)
    ensures
        exists|reply: Result<Option<OperationCells>, Seq<char>>|
            {
                &&& continued(
                    *old(journal),
                    #[trigger] read_operation_calls(operation_id@, reply),
                    *final(journal),
                )
                &&& found_outcome(res) == operation_of_reply(operation_id@, reply)
            },
{
    let row = query_operation(journal, READ_OPERATION_SQL, operation_id);
    assert(continued(
        *old(journal),
        read_operation_calls(operation_id@, operation_reply(row)),
        *journal,
    ));
    match row {
        Ok(None) => Ok(None),
        Ok(Some(found)) => match decode_operation(found) {
            Ok(op) => Ok(Some(op)),
            Err(message) => Err(message),
        },
        Err(e) => {
            let mut message = join3("read_operation(", operation_id, "): ");
            message.append(e.as_str());
            Err(message)
        },
    }
}

/// What one row of a list of operations comes to.
pub open spec fn listed_operation(row: Result<OperationCells, Seq<char>>) -> Result<
    Operation,
    Seq<char>,
> {
    match row {
        Ok(cells) => operation_of_cells(cells),
        Err(e) => Err("read nonterminal op row: "@ + e),
    }
}

/// What a list of rows comes to: its operations in order, or the error of the
/// first row that is none.
pub open spec fn listed_operations(rows: Seq<Result<OperationCells, Seq<char>>>) -> Result<
    Seq<Operation>,
    Seq<char>,
> {
    all_or_first_error(
        rows.map_values(|row: Result<OperationCells, Seq<char>>| listed_operation(row)),
    )
}

/// What reading the operations that are not at an end comes to, for each reply
/// of the database.
pub open spec fn nonterminal_of_reply(reply: SelectReply<OperationCells>) -> Result<
    Seq<Operation>,
    Seq<char>,
> {
    match reply {
        SelectReply::Unprepared(e) => Err("prepare nonterminal ops: "@ + e),
        SelectReply::Unqueried(e) => Err("query nonterminal ops: "@ + e),
        SelectReply::Rows(rows) => listed_operations(rows),
    }
}

/// Operations or an error, by what they hold.
pub open spec fn list_outcome(res: Result<Vec<OperationRecord>, String>) -> Result<
    Seq<Operation>,
    Seq<char>,
> {
    match res {
        Ok(ops) => Ok(ops@.map_values(|op: OperationRecord| op@)),
        Err(e) => Err(e@),
    }
}

/// The operations that a list of stored rows stands for, or the error of the
/// first row that is none.
pub fn decode_operations(rows: Vec<Result<OperationRow, String>>) -> (res: Result<
    Vec<OperationRecord>,
    String,
>)
    ensures
        list_outcome(res) == listed_operations(
            rows@.map_values(|row: Result<OperationRow, String>| operation_row_reply(row)),
        ),
        res matches Ok(ops) ==> ops@.len() == rows@.len() && forall|i: int|
            0 <= i < rows@.len() ==> (#[trigger] rows@[i] matches Ok(row) && operation_of_cells(
                row@,
            ) == Ok::<Operation, Seq<char>>(ops@[i]@)),
{
    let ghost all = rows@.map_values(
        |row: Result<OperationRow, String>| operation_row_reply(row),
    ).map_values(|row: Result<OperationCells, Seq<char>>| listed_operation(row));
    let mut out: Vec<OperationRecord> = Vec::new();
    assert(all.take(0) =~= Seq::empty());
    assert(out@.map_values(|op: OperationRecord| op@) =~= Seq::empty());
    for row in iter: rows
        invariant
            iter.seq() == rows@,
            all == rows@.map_values(
                |row: Result<OperationRow, String>| operation_row_reply(row),
            ).map_values(|row: Result<OperationCells, Seq<char>>| listed_operation(row)),
            all_or_first_error(all.take(iter.index())) == Ok::<Seq<Operation>, Seq<char>>(
                out@.map_values(|op: OperationRecord| op@),
            ),
            out@.len() == iter.index(),
            forall|i: int|
                0 <= i < iter.index() ==> (#[trigger] rows@[i] matches Ok(row)
                    && operation_of_cells(row@) == Ok::<Operation, Seq<char>>(out@[i]@)),
    {
        let ghost k = iter.index();
        let ghost before = out@.map_values(|op: OperationRecord| op@);
        proof {
            assert(all.take(k + 1).drop_last() =~= all.take(k));
            assert(all.take(k + 1).last() == listed_operation(operation_row_reply(row)));
        }
        let decoded = match row {
            Ok(found) => decode_operation(found),
            Err(e) => Err(join2("read nonterminal op row: ", e.as_str())),
        };
        match decoded {
            Ok(op) => {
                out.push(op);
                assert(out@.map_values(|op: OperationRecord| op@) =~= before.push(op@));
            },
            Err(message) => {
                proof {
                    lemma_first_error_stands(all, k + 1);
                }
                return Err(message);
            },
        }
    }
    assert(all.take(rows@.len() as int) =~= all);
    Ok(out)
}

/// Reading the operations that are not at an end, with the reply to it.
pub open spec fn read_nonterminal_calls(reply: SelectReply<OperationCells>) -> Seq<Call> {
    seq![Call::SelectOperations { sql: READ_NONTERMINAL_SQL@, reply }]
}

/// Read all non-terminal operations for recovery.
pub fn read_nonterminal_operations(journal: &mut Journal) -> (res: Result<
    Vec<OperationRecord>,
    String,
>)
    ensures
        exists|reply: SelectReply<OperationCells>|
            {
                &&& continued(
                    *old(journal),
                    #[trigger] read_nonterminal_calls(reply),
                    *final(journal),
                )
                &&& list_outcome(res) == nonterminal_of_reply(reply)
            },
{
    let selected = select_operations(journal, READ_NONTERMINAL_SQL);
    assert(continued(
        *old(journal),
        read_nonterminal_calls(operations_reply(selected)),
        *journal,
    ));
    match selected {
        Selection::Unprepared(e) => Err(join2("prepare nonterminal ops: ", e.as_str())),
        Selection::Unqueried(e) => Err(join2("query nonterminal ops: ", e.as_str())),
        Selection::Rows(rows) => decode_operations(rows),
    }
}

// ---- Fenced transitions --------------------------------------------------

/// Outcome of a fenced disposition transition.
#[derive(Debug, PartialEq, Eq)]
pub enum TransitionOutcome {
    /// Transition succeeded; operation is now in `new_disposition`.
    Advanced,
    /// The stored disposition did not match `expected_disposition`; the
    /// operation is in `actual_disposition`.
    Conflict { actual_disposition: String },
    /// The operation was not found.
    NotFound,
}

/// Outcome of a fenced transition, by what it holds.
pub enum Transition {
    Advanced,
    Conflict { actual_disposition: Seq<char> },
    NotFound,
}

impl View for TransitionOutcome {
    type V = Transition;

    open spec fn view(&self) -> Transition {
        match self {
            TransitionOutcome::Advanced => Transition::Advanced,
            TransitionOutcome::Conflict { actual_disposition } => Transition::Conflict {
                actual_disposition: actual_disposition@,
            },
            TransitionOutcome::NotFound => Transition::NotFound,
        }
    }
}

/// A transition or an error, by what it holds.
pub open spec fn transition_outcome(res: Result<TransitionOutcome, String>) -> Result<
    Transition,
    Seq<char>,
> {
    match res {
        Ok(t) => Ok(t@),
        Err(e) => Err(e@),
    }
}

/// What is reported of an operation that a transition did not move.
pub open spec fn refusal(found: Option<Operation>) -> Transition {
    match found {
        None => Transition::NotFound,
        Some(op) => Transition::Conflict { actual_disposition: disposition_text(op.disposition) },
    }
}

/// What a transition that moved no operation comes to, for each reply to the
/// query for the operation.
pub open spec fn refusal_of_reply(
    operation_id: Seq<char>,
    reply: Result<Option<OperationCells>, Seq<char>>,
) -> Result<Transition, Seq<char>> {
    match operation_of_reply(operation_id, reply) {
        Ok(found) => Ok(refusal(found)),
        Err(message) => Err(message),
    }
}

/// What a transition comes to, for each reply to its statement and to the query
/// for the operation. Exactly one affected row is success; otherwise what the
/// query found is reported.
pub open spec fn transition_of_replies(
    label: Seq<char>,
    operation_id: Seq<char>,
    wrote: Result<usize, Seq<char>>,
    reply: Result<Option<OperationCells>, Seq<char>>,
) -> Result<Transition, Seq<char>> {
    match wrote {
        Err(e) => Err(label + "("@ + operation_id + "): "@ + e),
        Ok(affected) => if affected == 1 {
            Ok(Transition::Advanced)
        } else {
            refusal_of_reply(operation_id, reply)
        },
    }
}

/// Whether a statement was run and did not affect exactly one row.
pub open spec fn moved_none(wrote: Result<usize, Seq<char>>) -> bool {
    wrote matches Ok(affected) && affected != 1
}

/// The calls of a transition by the statement `sql` with the bound values
/// `params`: the statement, and the query for the operation only if the
/// statement did not affect exactly one row.
pub open spec fn transition_calls(
    sql: Seq<char>,
    params: Seq<SqlParam>,
    operation_id: Seq<char>,
    wrote: Result<usize, Seq<char>>,
    reply: Result<Option<OperationCells>, Seq<char>>,
) -> Seq<Call> {
    let update = Call::Execute { sql, params, reply: wrote };
    if moved_none(wrote) {
        seq![update] + read_operation_calls(operation_id, reply)
    } else {
        seq![update]
    }
}

/// `made` are the calls of a transition by the statement `sql` with the bound
/// values `params`, and `res` is what it came to.
pub open spec fn transitioned(
    sql: Seq<char>,
    params: Seq<SqlParam>,
    label: Seq<char>,
    operation_id: Seq<char>,
    made: Seq<Call>,
    res: Result<Transition, Seq<char>>,
) -> bool {
    exists|wrote: Result<usize, Seq<char>>, reply: Result<Option<OperationCells>, Seq<char>>|
        {
            &&& made == #[trigger] transition_calls(sql, params, operation_id, wrote, reply)
            &&& res == transition_of_replies(label, operation_id, wrote, reply)
        }
}

/// What is reported of an operation that a transition did not move: that it is
/// not there, or where it stands.
pub fn report_refusal(found: Option<OperationRecord>) -> (res: TransitionOutcome)
    ensures
        res@ == refusal(
            match found {
                Some(op) => Some(op@),
                None => None,
            },
        ),
{
    match found {
        None => TransitionOutcome::NotFound,
        Some(op) => TransitionOutcome::Conflict {
            actual_disposition: op.disposition.as_str().to_owned(),
        },
    }
}

/// Runs a transition's statement and reports what it came to.
fn run_transition(
    journal: &mut Journal,
    sql: &str,
    params: &Vec<SqlValue>,
    label: &str,
    operation_id: &str,
) -> (res: Result<TransitionOutcome, String>)
    ensures
        exists|made: Seq<Call>|
            continued(*old(journal), made, *final(journal)) && #[trigger] transitioned(
                sql@,
                params_of(params@),
                label@,
                operation_id@,
                made,
                transition_outcome(res),
            ),
{
    let ghost start = *journal;
    let wrote = execute(journal, sql, params);
    let ghost updated = *journal;
    let ghost update = transition_calls(
        sql@,
        params_of(params@),
        operation_id@,
        outcome(wrote),
        Ok(None),
    );
    let ghost settled = transition_of_replies(label@, operation_id@, outcome(wrote), Ok(None));
    proof {
        assert(transitioned(
            sql@,
            params_of(params@),
            label@,
            operation_id@,
            update,
            settled,
        ));
    }
    let affected: usize = match wrote {
        Ok(n) => n,
        Err(e) => {
            let mut message = join3(label, "(", operation_id);
            message.append("): ");
            message.append(e.as_str());
            assert(settled == Err::<Transition, Seq<char>>(message@));
            return Err(message);
        },
    };
    if affected == 1 {
        assert(settled == Ok::<Transition, Seq<char>>(Transition::Advanced));
        return Ok(TransitionOutcome::Advanced);
    }
    let found = read_operation(journal, operation_id);
    let res = match found {
        Ok(op) => Ok(report_refusal(op)),
        Err(message) => Err(message),
    };
    proof {
        let reply = choose|reply: Result<Option<OperationCells>, Seq<char>>|
            {
                &&& continued(
                    updated,
                    #[trigger] read_operation_calls(operation_id@, reply),
                    *journal,
                )
                &&& found_outcome(found) == operation_of_reply(operation_id@, reply)
            };
        let made = transition_calls(
            sql@,
            params_of(params@),
            operation_id@,
            outcome(wrote),
            reply,
        );
        lemma_continued(
            start,
            seq![Call::Execute { sql: sql@, params: params_of(params@), reply: outcome(wrote) }],
            updated,
            read_operation_calls(operation_id@, reply),
            *journal,
        );
        assert(transition_outcome(res) == transition_of_replies(
            label@,
            operation_id@,
            outcome(wrote),
            reply,
        ));
        assert(transitioned(
            sql@,
            params_of(params@),
            label@,
            operation_id@,
            made,
            transition_outcome(res),
        ));
    }
    res
}

/// The values bound when an operation's disposition is advanced.
pub open spec fn advance_params(
    operation_id: Seq<char>,
    expected: Disposition,
    new: Disposition,
    now: i64,
) -> Seq<SqlParam> {
    seq![
        SqlParam::Text(disposition_text(new)),
        SqlParam::Integer(now as int),
        SqlParam::Text(operation_id),
        SqlParam::Text(disposition_text(expected)),
    ]
}

/// Advance an operation's disposition via SQL CAS on (operation_id,
/// expected_disposition).  Requires exactly one affected row and reports
/// `Conflict` or `NotFound` distinctly — never a silent no-op.
pub fn advance_disposition(
    journal: &mut Journal,
    operation_id: &str,
    expected_disposition: &Disposition,
    new_disposition: &Disposition,
) -> (res: Result<TransitionOutcome, String>)
    ensures
        exists|now: i64, made: Seq<Call>|
            {
                &&& is_stamp(now)
                &&& continued(*old(journal), made, *final(journal))
                &&& #[trigger] transitioned(
                    ADVANCE_DISPOSITION_SQL@,
                    advance_params(
                        operation_id@,
                        *expected_disposition,
                        *new_disposition,
                        now,
                    ),
                    "advance_disposition"@,
                    operation_id@,
                    made,
                    transition_outcome(res),
                )
            },
{
    let now: i64 = unix_now_secs();
    let params = vec![
        text_value(new_disposition.as_str()),
        SqlValue::Integer(now),
        text_value(operation_id),
        text_value(expected_disposition.as_str()),
    ];
    assert(params_of(params@) =~= advance_params(
        operation_id@,
        *expected_disposition,
        *new_disposition,
        now,
    ));
    run_transition(journal, ADVANCE_DISPOSITION_SQL, &params, "advance_disposition", operation_id)
}

/// The values bound when an operation's compensation is pinned.
pub open spec fn pin_params(
    operation_id: Seq<char>,
    compensation_id: Seq<char>,
    compensation_generation: Generation,
    now: i64,
) -> Seq<SqlParam> {
    seq![
        SqlParam::Text(compensation_id),
        SqlParam::Text(decimal(compensation_generation.0 as nat)),
        SqlParam::Integer(now as int),
        SqlParam::Text(operation_id),
    ]
}

/// Pin the active compensation event for an operation (claim fence).
/// Only allowed when disposition is exactly `Pending` — transitions to
/// `Compensating`.  Requires exactly one affected row.
pub fn pin_compensation(
    journal: &mut Journal,
    operation_id: &str,
    compensation_id: &str,
    compensation_generation: Generation,
) -> (res: Result<TransitionOutcome, String>)
    ensures
        exists|now: i64, made: Seq<Call>|
            {
                &&& is_stamp(now)
                &&& continued(*old(journal), made, *final(journal))
                &&& #[trigger] transitioned(
                    PIN_COMPENSATION_SQL@,
                    pin_params(
                        operation_id@,
                        compensation_id@,
                        compensation_generation,
                        now,
                    ),
                    "pin_compensation"@,
                    operation_id@,
                    made,
                    transition_outcome(res),
                )
            },
{
    let now: i64 = unix_now_secs();
    let params = vec![
        text_value(compensation_id),
        SqlValue::Text(compensation_generation.to_db_str()),
        SqlValue::Integer(now),
        text_value(operation_id),
    ];
    assert(params_of(params@) =~= pin_params(
        operation_id@,
        compensation_id@,
        compensation_generation,
        now,
    ));
    run_transition(journal, PIN_COMPENSATION_SQL, &params, "pin_compensation", operation_id)
}

/// The values bound when an operation is marked for a follow-up.
pub open spec fn follow_up_params(
    operation_id: Seq<char>,
    expected: Disposition,
    required: bool,
    now: i64,
) -> Seq<SqlParam> {
    seq![
        SqlParam::Integer(
            if required {
                1
            } else {
                0
            },
        ),
        SqlParam::Integer(now as int),
        SqlParam::Text(operation_id),
        SqlParam::Text(disposition_text(expected)),
    ]
}

/// Mark that a nonterminal follow-up is required (uncertain/accepted
/// publication outcome).  CAS on expected disposition.
pub fn set_nonterminal_follow_up(
    journal: &mut Journal,
    operation_id: &str,
    expected_disposition: &Disposition,
    required: bool,
) -> (res: Result<TransitionOutcome, String>)
    ensures
        exists|now: i64, made: Seq<Call>|
            {
                &&& is_stamp(now)
                &&& continued(*old(journal), made, *final(journal))
                &&& #[trigger] transitioned(
                    SET_FOLLOW_UP_SQL@,
                    follow_up_params(operation_id@, *expected_disposition, required, now),
                    "set_nonterminal_follow_up"@,
                    operation_id@,
                    made,
                    transition_outcome(res),
                )
            },
{
    let now: i64 = unix_now_secs();
    let flag: i64 = if required {
        1
    } else {
        0
    };
    let params = vec![
        SqlValue::Integer(flag),
        SqlValue::Integer(now),
        text_value(operation_id),
        text_value(expected_disposition.as_str()),
    ];
    assert(params_of(params@) =~= follow_up_params(
        operation_id@,
        *expected_disposition,
        required,
        now,
    ));
    run_transition(journal, SET_FOLLOW_UP_SQL, &params, "set_nonterminal_follow_up", operation_id)
}

// ---- Boot recovery -------------------------------------------------------

/// How one operation was marked as failed: the stamp, the reply to the
/// statement, and the reply to the query that may follow it.
pub struct Marking {
    pub now: i64,
    pub wrote: Result<usize, Seq<char>>,
    pub reply: Result<Option<OperationCells>, Seq<char>>,
}

/// The calls that mark one operation as failed, from where it stands.
pub open spec fn marking_calls(op: Operation, marking: Marking) -> Seq<Call> {
    transition_calls(
        ADVANCE_DISPOSITION_SQL@,
        advance_params(op.operation_id, op.disposition, Disposition::Failed, marking.now),
        op.operation_id,
        marking.wrote,
        marking.reply,
    )
}

/// The calls that mark operations as failed, one after the other.
pub open spec fn all_marking_calls(ops: Seq<Operation>, markings: Seq<Marking>) -> Seq<Call>
    decreases ops.len(),
{
    if ops.len() == 0 {
        Seq::empty()
    } else {
        all_marking_calls(ops.drop_last(), markings.drop_last()) + marking_calls(
            ops.last(),
            markings.last(),
        )
    }
}

/// `made` are the calls of boot recovery, and `res` is what it came to: the
/// operations that are not at an end are read, then each is marked as failed, in
/// order, and nothing else is done.
pub open spec fn recovered(made: Seq<Call>, res: Result<Seq<Operation>, Seq<char>>) -> bool {
    exists|reply: SelectReply<OperationCells>, markings: Seq<Marking>|
        {
            &&& res == nonterminal_of_reply(reply)
            &&& made == #[trigger] recovery_calls(reply, markings)
            &&& res matches Ok(ops) ==> markings.len() == ops.len()
            &&& forall|i: int| 0 <= i < markings.len() ==> is_stamp((#[trigger] markings[i]).now)
        }
}

/// The calls of boot recovery, with the replies to them.
pub open spec fn recovery_calls(
    reply: SelectReply<OperationCells>,
    markings: Seq<Marking>,
) -> Seq<Call> {
    match nonterminal_of_reply(reply) {
        Ok(ops) => read_nonterminal_calls(reply) + all_marking_calls(ops, markings),
        Err(_) => read_nonterminal_calls(reply),
    }
}

/// Marks one operation as failed, from where it stands. What that comes to is
/// not looked at: an operation that has moved meanwhile is left where it is.
fn mark_failed(journal: &mut Journal, op: &OperationRecord) -> (marking: Ghost<Marking>)
    ensures
        is_stamp(marking@.now),
        continued(*old(journal), marking_calls(op@, marking@), *final(journal)),
{
    let ghost start = *journal;
    let moved = advance_disposition(
        journal,
        op.operation_id.as_str(),
        &op.disposition,
        &Disposition::Failed,
    );
    let ghost (now, made) = choose|now: i64, made: Seq<Call>|
        {
            &&& is_stamp(now)
            &&& continued(start, made, *journal)
            &&& #[trigger] transitioned(
                ADVANCE_DISPOSITION_SQL@,
                advance_params(op.operation_id@, op.disposition, Disposition::Failed, now),
                "advance_disposition"@,
                op.operation_id@,
                made,
                transition_outcome(moved),
            )
        };
    let ghost (wrote, reply) = choose|
        wrote: Result<usize, Seq<char>>,
        reply: Result<Option<OperationCells>, Seq<char>>,
    |
        {
            &&& made == #[trigger] transition_calls(
                ADVANCE_DISPOSITION_SQL@,
                advance_params(op.operation_id@, op.disposition, Disposition::Failed, now),
                op.operation_id@,
                wrote,
                reply,
            )
            &&& transition_outcome(moved) == transition_of_replies(
                "advance_disposition"@,
                op.operation_id@,
                wrote,
                reply,
            )
        };
    Ghost(Marking { now, wrote, reply })
}

/// Boot recovery: read any nonterminal operations and mark them as failed, each
/// once `report` was called on it.
///
/// Nonterminal operations (pending, compensating, uncertain, accepted) may
/// represent interrupted publishes or partial mutations from a previous crash.
/// They are marked as `failed` so that they do not accumulate.
pub fn run_boot_recovery<F: Fn(&OperationRecord)>(journal: &mut Journal, report: F) -> (res: Result<
    Vec<OperationRecord>,
    String,
>)
    requires
        forall|op: &OperationRecord| call_requires(report, (op,)),
    ensures
        res matches Ok(ops) ==> forall|i: int|
            0 <= i < ops@.len() ==> call_ensures(report, (&(#[trigger] ops@[i]),), ()),
        exists|made: Seq<Call>|
            continued(*old(journal), made, *final(journal)) && #[trigger] recovered(
                made,
                list_outcome(res),
            ),
{
    let ghost start = *journal;
    let listed = read_nonterminal_operations(journal);
    let ghost selected = *journal;
    let ghost reply = choose|reply: SelectReply<OperationCells>|
        {
            &&& continued(start, #[trigger] read_nonterminal_calls(reply), selected)
            &&& list_outcome(listed) == nonterminal_of_reply(reply)
        };
    let ops = match listed {
        Ok(found) => found,
        Err(message) => {
            assert(recovered(recovery_calls(reply, Seq::empty()), Err(message@)));
            return Err(message);
        },
    };
    let ghost all = ops@.map_values(|op: OperationRecord| op@);
    let ghost mut markings: Seq<Marking> = Seq::empty();
    let mut i: usize = 0;
    proof {
        assert(selected.calls() + Seq::<Call>::empty() =~= selected.calls());
        assert(all.take(0) =~= Seq::empty());
    }
    while i < ops.len()
        invariant
            i <= ops@.len(),
            forall|op: &OperationRecord| call_requires(report, (op,)),
            forall|j: int| 0 <= j < i ==> call_ensures(report, (&(#[trigger] ops@[j]),), ()),
            all == ops@.map_values(|op: OperationRecord| op@),
            markings.len() == i,
            forall|j: int| 0 <= j < i ==> is_stamp((#[trigger] markings[j]).now),
            continued(selected, all_marking_calls(all.take(i as int), markings), *journal),
        decreases ops@.len() - i,
    {
        let ghost between = *journal;
        let ghost before = markings;
        report(&ops[i]);
        let marking = mark_failed(journal, &ops[i]);
        proof {
            markings = before.push(marking@);
            let done = all.take(i as int);
            let next = all.take(i + 1);
            assert(next.drop_last() =~= done);
            assert(next.last() == ops@[i as int]@);
            assert(markings.drop_last() =~= before);
            lemma_continued(
                selected,
                all_marking_calls(done, before),
                between,
                marking_calls(ops@[i as int]@, marking@),
                *journal,
            );
        }
        i = i + 1;
    }
    proof {
        assert(all.take(ops@.len() as int) =~= all);
        lemma_continued(
            start,
            read_nonterminal_calls(reply),
            selected,
            all_marking_calls(all, markings),
            *journal,
        );
        assert(recovered(recovery_calls(reply, markings), Ok(all)));
    }
    Ok(ops)
}

// ---- Laws ----------------------------------------------------------------

/// A row with the values that an insertion binds, in `pending` and without a
/// compensation, reads back as the operation that was inserted.
pub proof fn law_inserted_operation_reads_back(
    operation_id: Seq<char>,
    kind: Seq<char>,
    key_id: Seq<char>,
    generation: Generation,
    now: i64,
    cells: OperationCells,
)
    requires
        ({
            let params = insert_operation_params(operation_id, kind, key_id, generation, now);
            &&& params[0] == SqlParam::Text(cells.operation_id)
            &&& params[1] == SqlParam::Text(cells.kind)
            &&& params[2] == SqlParam::Text(cells.key_id)
            &&& params[3] == SqlParam::Text(cells.generation)
        }),
        cells.disposition == "pending"@,
        cells.compensation_id is None,
        cells.compensation_generation is None,
        !cells.nonterminal_follow_up,
    ensures
        operation_of_cells(cells) == Ok::<Operation, Seq<char>>(
            Operation {
                operation_id,
                kind,
                key_id,
                disposition: Disposition::Pending,
                generation,
                compensation_id: None,
                compensation_generation: None,
                nonterminal_follow_up: false,
            },
        ),
{
    law_generation_reads_back(generation);
}

/// A row to which a pin bound its values reads back as the same operation,
/// compensating, with the pinned event and generation.
pub proof fn law_pinned_compensation_reads_back(
    before: OperationCells,
    op: Operation,
    compensation_id: Seq<char>,
    compensation_generation: Generation,
    now: i64,
)
    requires
        operation_of_cells(before) == Ok::<Operation, Seq<char>>(op),
    ensures
        ({
            let params = pin_params(op.operation_id, compensation_id, compensation_generation, now);
            &&& params[0] matches SqlParam::Text(stored_id)
            &&& params[1] matches SqlParam::Text(stored_generation)
            &&& operation_of_cells(
                OperationCells {
                    disposition: "compensating"@,
                    compensation_id: Some(stored_id),
                    compensation_generation: Some(stored_generation),
                    ..before
                },
            ) == Ok::<Operation, Seq<char>>(
                Operation {
                    disposition: Disposition::Compensating,
                    compensation_id: Some(compensation_id),
                    compensation_generation: Some(compensation_generation),
                    ..op
                },
            )
        }),
{
    law_generation_reads_back(compensation_generation);
    law_disposition_reads_back(Disposition::Compensating, "compensating"@);
}

/// A row to which a transition bound its new disposition reads back as the same
/// operation with that disposition.
pub proof fn law_advanced_operation_reads_back(
    before: OperationCells,
    op: Operation,
    new: Disposition,
    now: i64,
)
    requires
        operation_of_cells(before) == Ok::<Operation, Seq<char>>(op),
    ensures
        advance_params(op.operation_id, op.disposition, new, now)[0] matches SqlParam::Text(stored)
            && operation_of_cells(OperationCells { disposition: stored, ..before }) == Ok::<
            Operation,
            Seq<char>,
        >(Operation { disposition: new, ..op }),
{
    law_disposition_reads_back(new, disposition_text(new));
}

/// A transition is never a silent no-op, and a refused one changes nothing
/// behind the fence: its statement is the only one it runs. Success is reported
/// only for exactly one affected row, and a refusal only together with what the
/// query found.
pub proof fn law_transition_is_never_silent(
    sql: Seq<char>,
    params: Seq<SqlParam>,
    label: Seq<char>,
    operation_id: Seq<char>,
    made: Seq<Call>,
    res: Result<Transition, Seq<char>>,
)
    requires
        transitioned(sql, params, label, operation_id, made, res),
    ensures
        1 <= made.len() <= 2,
        made[0] matches Call::Execute { sql: run, params: bound, .. } && run == sql && bound
            == params,
        made.len() == 2 ==> (made[1] matches Call::QueryOperation { sql: query, operation_id: id, .. }
            && query == READ_OPERATION_SQL@ && id == operation_id),
        made.len() == 2 <==> (made[0] matches Call::Execute { reply: Ok(affected), .. } && affected
            != 1),
        res matches Ok(Transition::Advanced) ==> made.len() == 1 && (made[0] matches Call::Execute {
            reply: Ok(affected),
            ..
        } && affected == 1),
        res matches Ok(Transition::NotFound) ==> made.len() == 2 && made[1] == (
        Call::QueryOperation { sql: READ_OPERATION_SQL@, operation_id, reply: Ok(None) }),
        res matches Ok(Transition::Conflict { actual_disposition }) ==> {
            &&& made.len() == 2
            &&& made[1] matches Call::QueryOperation { reply: Ok(Some(cells)), .. }
            &&& cells.disposition == actual_disposition
        },
{
    let (wrote, reply) = choose|
        wrote: Result<usize, Seq<char>>,
        reply: Result<Option<OperationCells>, Seq<char>>,
    |
        {
            &&& made == #[trigger] transition_calls(sql, params, operation_id, wrote, reply)
            &&& res == transition_of_replies(label, operation_id, wrote, reply)
        };
    if let Ok(Some(cells)) = reply {
        if let Ok(op) = operation_of_cells(cells) {
            law_disposition_reads_back(op.disposition, cells.disposition);
        }
    }
}

/// The list of operations and the reading of one agree: the same row gives the
/// same operation, and an operation is listed by the query's filter exactly if
/// it is not at an end.
pub proof fn law_list_agrees_with_reading(operation_id: Seq<char>, cells: OperationCells)
    ensures
        operation_of_reply(operation_id, Ok(Some(cells))) == match listed_operation(Ok(cells)) {
            Ok(op) => Ok::<Option<Operation>, Seq<char>>(Some(op)),
            Err(message) => Err::<Option<Operation>, Seq<char>>(message),
        },
        operation_of_cells(cells) matches Ok(op) ==> (is_terminal_text(cells.disposition)
            <==> disposition_is_terminal(op.disposition)),
{
    if let Ok(op) = operation_of_cells(cells) {
        law_disposition_reads_back(op.disposition, cells.disposition);
        law_terminal_texts(op.disposition);
    }
}

/// The stored dispositions that the query for operations not at an end leaves
/// out.
pub open spec fn is_terminal_text(disposition: Seq<char>) -> bool {
    disposition == "committed"@ || disposition == "compensated"@ || disposition == "failed"@
}

/// Whether a stored row stands at the disposition `expected`.
pub open spec fn stands_at(stored: Option<OperationCells>, expected: Disposition) -> bool {
    stored matches Some(cells) && cells.disposition == disposition_text(expected)
}

/// A transition is fenced by the expected disposition. Where the statement moves
/// the stored row exactly if it stands there, and the query finds the row as it
/// stands, the transition succeeds exactly if the operation stands at the
/// expected disposition, is in conflict with the actual one otherwise, and finds
/// no operation exactly if none is stored.
pub proof fn law_transition_is_fenced(
    label: Seq<char>,
    operation_id: Seq<char>,
    stored: Option<OperationCells>,
    expected: Disposition,
)
    requires
        stored matches Some(cells) ==> operation_of_cells(cells) is Ok,
    ensures
        ({
            let wrote = Ok::<usize, Seq<char>>(
                if stands_at(stored, expected) {
                    1
                } else {
                    0
                },
            );
            let reply = Ok::<Option<OperationCells>, Seq<char>>(stored);
            transition_of_replies(label, operation_id, wrote, reply) == Ok::<Transition, Seq<char>>(
                match stored {
                    None => Transition::NotFound,
                    Some(cells) => if stands_at(stored, expected) {
                        Transition::Advanced
                    } else {
                        Transition::Conflict { actual_disposition: cells.disposition }
                    },
                },
            )
        }),
{
    if let Some(cells) = stored {
        if let Ok(op) = operation_of_cells(cells) {
            law_disposition_reads_back(op.disposition, cells.disposition);
        }
    }
}

/// An operation that recovery has moved is at an end: its stored row reads back
/// as a terminal operation.
pub proof fn law_recovered_operation_is_terminal(before: OperationCells, op: Operation, now: i64)
    requires
        operation_of_cells(before) == Ok::<Operation, Seq<char>>(op),
    ensures
        advance_params(op.operation_id, op.disposition, Disposition::Failed, now)[0] matches
            SqlParam::Text(stored) && operation_of_cells(
            OperationCells { disposition: stored, ..before },
        ) matches Ok(moved) && disposition_is_terminal(moved.disposition),
{
    law_advanced_operation_reads_back(before, op, Disposition::Failed, now);
}

/// An operation's record holds what its fields hold.
pub proof fn law_record_holds_its_fields(op: OperationRecord)
    ensures
        op@.operation_id == op.operation_id@,
        op@.kind == op.kind@,
        op@.key_id == op.key_id@,
        op@.disposition == op.disposition,
        op@.generation == op.generation,
        op@.compensation_id is Some <==> op.compensation_id is Some,
        op.compensation_id matches Some(id) ==> op@.compensation_id == Some(id@),
        op@.compensation_generation == op.compensation_generation,
        op@.nonterminal_follow_up == op.nonterminal_follow_up,
{
}

/// Every stored field comes back as it was stored, whatever the others are: the
/// texts and the mark are the row's own, and the disposition and the generations
/// are those that the row's texts stand for.
pub proof fn law_every_field_comes_back(cells: OperationCells, op: Operation)
    requires
        operation_of_cells(cells) == Ok::<Operation, Seq<char>>(op),
    ensures
        op.operation_id == cells.operation_id,
        op.kind == cells.kind,
        op.key_id == cells.key_id,
        disposition_text(op.disposition) == cells.disposition,
        u64_of_text(cells.generation) == Some(op.generation.0),
        op.compensation_id == cells.compensation_id,
        op.compensation_generation is Some <==> cells.compensation_generation is Some,
        cells.compensation_generation matches Some(stored) ==> u64_of_text(stored) == Some(
            (op.compensation_generation->0).0,
        ),
        op.nonterminal_follow_up == cells.nonterminal_follow_up,
{
    law_disposition_reads_back(op.disposition, cells.disposition);
}

/// A row can be read exactly if its disposition is one of the seven, its
/// generation is a number, and its compensation's generation is a number or not
/// there. Otherwise the first of these that fails is named, never a default.
pub proof fn law_row_is_readable(cells: OperationCells)
    ensures
        operation_of_cells(cells) is Ok <==> {
            &&& {
                ||| cells.disposition == "pending"@
                ||| cells.disposition == "committed"@
                ||| cells.disposition == "compensating"@
                ||| cells.disposition == "compensated"@
                ||| cells.disposition == "failed"@
                ||| cells.disposition == "uncertain"@
                ||| cells.disposition == "accepted"@
            }
            &&& u64_of_text(cells.generation) is Some
            &&& cells.compensation_generation matches Some(stored) ==> u64_of_text(stored) is Some
        },
        disposition_of_text(cells.disposition) is None ==> operation_of_cells(cells) == Err::<
            Operation,
            Seq<char>,
        >("unknown disposition '"@ + cells.disposition + "'"@),
        disposition_of_text(cells.disposition) is Some && u64_of_text(cells.generation) is None
            ==> operation_of_cells(cells) == Err::<Operation, Seq<char>>(
            "parse generation '"@ + cells.generation + "': "@ + u64_parse_error(cells.generation),
        ),
        disposition_of_text(cells.disposition) is Some && u64_of_text(cells.generation) is Some ==> (
        cells.compensation_generation matches Some(stored) ==> (u64_of_text(stored) is None
            ==> operation_of_cells(cells) == Err::<Operation, Seq<char>>(
            "parse generation '"@ + stored + "': "@ + u64_parse_error(stored),
        ))),
{
}

/// A row to which the follow-up mark was bound reads back as the same operation
/// with only the mark changed.
pub proof fn law_follow_up_reads_back(
    before: OperationCells,
    op: Operation,
    required: bool,
    now: i64,
)
    requires
        operation_of_cells(before) == Ok::<Operation, Seq<char>>(op),
    ensures
        follow_up_params(op.operation_id, op.disposition, required, now)[0] == SqlParam::Integer(
            if required {
                1
            } else {
                0
            },
        ),
        operation_of_cells(OperationCells { nonterminal_follow_up: required, ..before }) == Ok::<
            Operation,
            Seq<char>,
        >(Operation { nonterminal_follow_up: required, ..op }),
{
}

/// Reading an operation is one query for its id, and tells what was found: no
/// operation, the operation, or why it cannot be read.
pub proof fn law_reading_tells_what_was_found(
    operation_id: Seq<char>,
    reply: Result<Option<OperationCells>, Seq<char>>,
)
    ensures
        read_operation_calls(operation_id, reply) == seq![
            Call::QueryOperation { sql: READ_OPERATION_SQL@, operation_id, reply },
        ],
        operation_of_reply(operation_id, reply) == Ok::<Option<Operation>, Seq<char>>(None)
            <==> reply == Ok::<Option<OperationCells>, Seq<char>>(None),
        reply matches Ok(Some(cells)) ==> match operation_of_cells(cells) {
            Ok(op) => operation_of_reply(operation_id, reply) == Ok::<
                Option<Operation>,
                Seq<char>,
            >(Some(op)),
            Err(message) => operation_of_reply(operation_id, reply) == Err::<
                Option<Operation>,
                Seq<char>,
            >(message),
        },
        reply matches Err(e) ==> operation_of_reply(operation_id, reply) == Err::<
            Option<Operation>,
            Seq<char>,
        >("read_operation("@ + operation_id + "): "@ + e),
{
}

/// What a transition is answered decides what it reports: an error with the
/// call's name, success for exactly one row, and otherwise what the query found.
pub proof fn law_transition_reports_its_replies(
    label: Seq<char>,
    operation_id: Seq<char>,
    wrote: Result<usize, Seq<char>>,
    reply: Result<Option<OperationCells>, Seq<char>>,
)
    ensures
        wrote matches Err(e) ==> transition_of_replies(label, operation_id, wrote, reply) == Err::<
            Transition,
            Seq<char>,
        >(label + "("@ + operation_id + "): "@ + e),
        transition_of_replies(label, operation_id, wrote, reply) == Ok::<Transition, Seq<char>>(
            Transition::Advanced,
        ) <==> wrote == Ok::<usize, Seq<char>>(1),
        wrote matches Ok(affected) ==> (affected != 1 ==> match reply {
            Err(e) => transition_of_replies(label, operation_id, wrote, reply) == Err::<
                Transition,
                Seq<char>,
            >("read_operation("@ + operation_id + "): "@ + e),
            Ok(None) => transition_of_replies(label, operation_id, wrote, reply) == Ok::<
                Transition,
                Seq<char>,
            >(Transition::NotFound),
            Ok(Some(cells)) => match operation_of_cells(cells) {
                Ok(_) => transition_of_replies(label, operation_id, wrote, reply) == Ok::<
                    Transition,
                    Seq<char>,
                >(Transition::Conflict { actual_disposition: cells.disposition }),
                Err(message) => transition_of_replies(label, operation_id, wrote, reply) == Err::<
                    Transition,
                    Seq<char>,
                >(message),
            },
        }),
{
    if let Ok(Some(cells)) = reply {
        if let Ok(op) = operation_of_cells(cells) {
            law_disposition_reads_back(op.disposition, cells.disposition);
        }
    }
}

/// A transition's outcome holds what it says.
pub proof fn law_transition_holds_its_own(
    res: Result<TransitionOutcome, String>,
    one: Result<OperationRecord, String>,
    found: Result<Option<OperationRecord>, String>,
    list: Result<Vec<OperationRecord>, String>,
    i: int,
)
    ensures
        match one {
            Ok(op) => operation_outcome(one) == Ok::<Operation, Seq<char>>(op@),
            Err(e) => operation_outcome(one) == Err::<Operation, Seq<char>>(e@),
        },
        match res {
            Ok(TransitionOutcome::Advanced) => transition_outcome(res) == Ok::<
                Transition,
                Seq<char>,
            >(Transition::Advanced),
            Ok(TransitionOutcome::NotFound) => transition_outcome(res) == Ok::<
                Transition,
                Seq<char>,
            >(Transition::NotFound),
            Ok(TransitionOutcome::Conflict { actual_disposition }) => transition_outcome(res)
                == Ok::<Transition, Seq<char>>(
                Transition::Conflict { actual_disposition: actual_disposition@ },
            ),
            Err(e) => transition_outcome(res) == Err::<Transition, Seq<char>>(e@),
        },
        match found {
            Ok(Some(op)) => found_outcome(found) == Ok::<Option<Operation>, Seq<char>>(Some(op@)),
            Ok(None) => found_outcome(found) == Ok::<Option<Operation>, Seq<char>>(None),
            Err(e) => found_outcome(found) == Err::<Option<Operation>, Seq<char>>(e@),
        },
        match list {
            Ok(ops) => list_outcome(list) matches Ok(held) && held.len() == ops@.len() && (0 <= i
                < ops@.len() ==> held[i] == ops@[i]@),
            Err(e) => list_outcome(list) == Err::<Seq<Operation>, Seq<char>>(e@),
        },
{
}

/// What a list of stored rows comes to: if every row can be read, their
/// operations in order; otherwise why the first that cannot be read cannot, and
/// the stage at which the query failed, if it failed.
pub proof fn law_list_tells_all_or_the_first_error(
    reply: SelectReply<OperationCells>,
    ops: Seq<Operation>,
    k: int,
)
    ensures
        reply matches SelectReply::Unprepared(e) ==> nonterminal_of_reply(reply) == Err::<
            Seq<Operation>,
            Seq<char>,
        >("prepare nonterminal ops: "@ + e),
        reply matches SelectReply::Unqueried(e) ==> nonterminal_of_reply(reply) == Err::<
            Seq<Operation>,
            Seq<char>,
        >("query nonterminal ops: "@ + e),
        reply matches SelectReply::Rows(rows) ==> {
            &&& ops.len() == rows.len() && (forall|i: int|
                0 <= i < rows.len() ==> (#[trigger] rows[i] matches Ok(cells)
                    && operation_of_cells(cells) == Ok::<Operation, Seq<char>>(ops[i])))
                ==> nonterminal_of_reply(reply) == Ok::<Seq<Operation>, Seq<char>>(ops)
            &&& 0 <= k < rows.len() && (forall|i: int|
                0 <= i < k ==> (#[trigger] rows[i] matches Ok(cells) && operation_of_cells(
                    cells,
                ) is Ok)) ==> match rows[k] {
                Err(e) => nonterminal_of_reply(reply) == Err::<Seq<Operation>, Seq<char>>(
                    "read nonterminal op row: "@ + e,
                ),
                Ok(cells) => operation_of_cells(cells) matches Err(message)
                    ==> nonterminal_of_reply(reply) == Err::<Seq<Operation>, Seq<char>>(message),
            }
        },
{
    if let SelectReply::Rows(rows) = reply {
        let results = rows.map_values(
            |row: Result<OperationCells, Seq<char>>| listed_operation(row),
        );
        if ops.len() == rows.len() && (forall|i: int|
            0 <= i < rows.len() ==> (#[trigger] rows[i] matches Ok(cells) && operation_of_cells(
                cells,
            ) == Ok::<Operation, Seq<char>>(ops[i]))) {
            assert forall|i: int| 0 <= i < results.len() implies #[trigger] results[i] == Ok::<
                Operation,
                Seq<char>,
            >(ops[i]) by {
                assert(rows[i] is Ok);
            }
            law_all_values_are_given(results, ops);
        }
        if 0 <= k < rows.len() && (forall|i: int|
            0 <= i < k ==> (#[trigger] rows[i] matches Ok(cells) && operation_of_cells(
                cells,
            ) is Ok)) && listed_operation(rows[k]) is Err {
            assert forall|i: int| 0 <= i < k implies #[trigger] results[i] is Ok by {
                assert(rows[i] is Ok);
            }
            law_first_error_is_given(results, k, results[k]->Err_0);
        }
    }
}

/// An insertion is answered with success or with its call's name and the error.
pub proof fn law_insertion_tells_its_reply(operation_id: Seq<char>, reply: Result<usize, Seq<char>>)
    ensures
        reply is Ok <==> insertion_of_reply(operation_id, reply) is Ok,
        reply matches Err(e) ==> insertion_of_reply(operation_id, reply) == Err::<(), Seq<char>>(
            "insert_operation("@ + operation_id + "): "@ + e,
        ),
{
}

/// Every statement on operations is bound its values in their places, the stamp
/// among them, and no others.
pub proof fn law_operation_values_have_their_places(
    operation_id: Seq<char>,
    kind: Seq<char>,
    key_id: Seq<char>,
    generation: Generation,
    expected: Disposition,
    new: Disposition,
    required: bool,
    now: i64,
)
    ensures
        insert_operation_params(operation_id, kind, key_id, generation, now) == seq![
            SqlParam::Text(operation_id),
            SqlParam::Text(kind),
            SqlParam::Text(key_id),
            SqlParam::Text(decimal(generation.0 as nat)),
            SqlParam::Integer(now as int),
        ],
        advance_params(operation_id, expected, new, now) == seq![
            SqlParam::Text(disposition_text(new)),
            SqlParam::Integer(now as int),
            SqlParam::Text(operation_id),
            SqlParam::Text(disposition_text(expected)),
        ],
        pin_params(operation_id, key_id, generation, now) == seq![
            SqlParam::Text(key_id),
            SqlParam::Text(decimal(generation.0 as nat)),
            SqlParam::Integer(now as int),
            SqlParam::Text(operation_id),
        ],
        follow_up_params(operation_id, expected, required, now).len() == 4,
        follow_up_params(operation_id, expected, required, now)[1] == SqlParam::Integer(now as int),
{
}

/// Recovery begins with the one query for the operations that are not at an end.
/// If that gives no list, nothing else is done, and the reason is passed on.
pub proof fn law_recovery_begins_with_the_list(
    made: Seq<Call>,
    res: Result<Seq<Operation>, Seq<char>>,
)
    requires
        recovered(made, res),
    ensures
        made.len() > 0,
        made[0] matches Call::SelectOperations { sql, reply } && sql == READ_NONTERMINAL_SQL@ && res
            == nonterminal_of_reply(reply),
        res is Err ==> made.len() == 1,
{
}

/// Whether `call` moves one of `ops` from where it stands to failed, or looks it
/// up.
pub open spec fn is_marking_call(call: Call, ops: Seq<Operation>) -> bool {
    exists|i: int|
        0 <= i < ops.len() && match call {
            Call::Execute { sql, params, .. } => {
                &&& sql == ADVANCE_DISPOSITION_SQL@
                &&& params.len() == 4
                &&& params[0] == SqlParam::Text("failed"@)
                &&& exists|now: i64| #[trigger]
                    is_stamp(now) && params[1] == SqlParam::Integer(now as int)
                &&& params[2] == SqlParam::Text((#[trigger] ops[i]).operation_id)
                &&& params[3] == SqlParam::Text(disposition_text(ops[i].disposition))
            },
            Call::QueryOperation { operation_id, .. } => operation_id == ops[i].operation_id,
            _ => false,
        }
}

/// Behind the list, recovery makes no call but those that mark a listed operation
/// as failed from where it stands, at the time the clock shows, or look it up,
/// and at most two for each.
pub proof fn law_recovery_only_marks_the_listed(made: Seq<Call>, ops: Seq<Operation>, k: int)
    requires
        recovered(made, Ok(ops)),
        1 <= k < made.len(),
    ensures
        is_marking_call(made[k], ops),
        1 + ops.len() <= made.len() <= 1 + 2 * ops.len(),
{
    let (reply, markings) = choose|reply: SelectReply<OperationCells>, markings: Seq<Marking>|
        {
            &&& Ok::<Seq<Operation>, Seq<char>>(ops) == nonterminal_of_reply(reply)
            &&& made == #[trigger] recovery_calls(reply, markings)
            &&& markings.len() == ops.len()
            &&& forall|i: int| 0 <= i < markings.len() ==> is_stamp((#[trigger] markings[i]).now)
        };
    lemma_marking_calls(ops, markings, k - 1);
    assert(made[k] == all_marking_calls(ops, markings)[k - 1]);
}

/// The calls that mark operations are calls that mark one of them.
proof fn lemma_marking_calls(ops: Seq<Operation>, markings: Seq<Marking>, k: int)
    requires
        ops.len() == markings.len(),
        forall|i: int| 0 <= i < markings.len() ==> is_stamp((#[trigger] markings[i]).now),
    ensures
        ops.len() <= all_marking_calls(ops, markings).len() <= 2 * ops.len(),
        0 <= k < all_marking_calls(ops, markings).len() ==> is_marking_call(
            all_marking_calls(ops, markings)[k],
            ops,
        ),
    decreases ops.len(),
{
    if ops.len() > 0 {
        let before = all_marking_calls(ops.drop_last(), markings.drop_last());
        let last = marking_calls(ops.last(), markings.last());
        lemma_marking_calls(ops.drop_last(), markings.drop_last(), k);
        let all = all_marking_calls(ops, markings);
        if 0 <= k < before.len() {
            assert(all[k] == before[k]);
            let i = choose|i: int|
                0 <= i < ops.drop_last().len() && match all[k] {
                    Call::Execute { sql, params, .. } => {
                        &&& sql == ADVANCE_DISPOSITION_SQL@
                        &&& params.len() == 4
                        &&& params[0] == SqlParam::Text("failed"@)
                        &&& exists|now: i64| #[trigger]
                            is_stamp(now) && params[1] == SqlParam::Integer(now as int)
                        &&& params[2] == SqlParam::Text(
                            (#[trigger] ops.drop_last()[i]).operation_id,
                        )
                        &&& params[3] == SqlParam::Text(
                            disposition_text(ops.drop_last()[i].disposition),
                        )
                    },
                    Call::QueryOperation { operation_id, .. } => operation_id
                        == ops.drop_last()[i].operation_id,
                    _ => false,
                };
            assert(ops[i] == ops.drop_last()[i]);
        } else if k < all.len() && k >= before.len() {
            assert(all[k] == last[k - before.len()]);
            assert(is_stamp(markings[markings.len() - 1].now));
            assert(ops[ops.len() - 1] == ops.last());
        }
    }
}

/// Reading the operations that are not at an end is one query.
pub proof fn law_list_is_one_query(reply: SelectReply<OperationCells>)
    ensures
        read_nonterminal_calls(reply) == seq![
            Call::SelectOperations { sql: READ_NONTERMINAL_SQL@, reply },
        ],
{
}

} // verus!
