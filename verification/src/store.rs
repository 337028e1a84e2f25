//! The lock sequence under which the store is read and mutated: which steps are
//! taken, in what order, and what each answer leads to.
//!
//! Anchored OS advisory lock, then a fresh fail-closed decode of both files, then
//! the journal, then the caller's closure, then, for a mutation, both files
//! written back. The in-process mutex is the caller's and is held throughout.

use vstd::prelude::*;

use crate::codec::StoreDecodeError;
use crate::text::join2;

verus! {

/// The file of the agent records.
pub const AGENTS_FILENAME: &'static str = "managed-agents.json";

/// The file of the team records.
pub const TEAMS_FILENAME: &'static str = "teams.json";

/// Whether the store is written back.
#[derive(Debug, Clone, Copy)]
pub enum StoreMode {
    Mutate,
    Read,
}

/// What to do next, with the records and bytes that it is done to.
#[derive(Debug)]
pub enum StoreAction<A, T> {
    /// Resolve the anchor directory.
    ResolveAnchor,
    /// Create the anchor directory.
    CreateAnchorDir,
    /// Acquire the advisory lock.
    AcquireLock,
    /// See whether the agents' file exists.
    CheckAgents,
    /// Read the agents' file.
    ReadAgents,
    /// Decode the agents' file.
    DecodeAgents { bytes: Vec<u8> },
    /// Back up the agents' file, which could not be decoded, then fail.
    BackUpAgents { message: String },
    /// See whether the teams' file exists.
    CheckTeams { agents: Vec<A> },
    /// Read the teams' file.
    ReadTeams { agents: Vec<A> },
    /// Decode the teams' file.
    DecodeTeams { agents: Vec<A>, bytes: Vec<u8> },
    /// Back up the teams' file, which could not be decoded, then fail.
    BackUpTeams { message: String },
    /// Open the journal.
    OpenJournal { agents: Vec<A>, teams: Vec<T> },
    /// Run the caller's closure on the decoded records.
    RunClosure { agents: Vec<A>, teams: Vec<T> },
    /// Serialize the new agents.
    SerializeAgents { agents: Vec<A>, teams: Vec<T> },
    /// Replace the agents' file.
    WriteAgents { payload: Vec<u8>, teams: Vec<T> },
    /// Serialize the new teams.
    SerializeTeams { teams: Vec<T> },
    /// Replace the teams' file.
    WriteTeams { payload: Vec<u8> },
    /// All is done.
    Finish,
    /// It failed with this message.
    Fail(String),
}

/// What an action came to.
#[derive(Debug)]
pub enum StoreEvent<A, T> {
    /// It was done, or why not.
    Io(Result<(), String>),
    /// Whether the file exists.
    Present(bool),
    /// The bytes that were read or serialized, or why there are none.
    Bytes(Result<Vec<u8>, String>),
    /// The decoded agents.
    Agents(Result<Vec<A>, StoreDecodeError>),
    /// The decoded teams.
    Teams(Result<Vec<T>, StoreDecodeError>),
    /// The file was backed up, as far as that went.
    BackedUp,
    /// The records that a mutation leaves, or why it failed.
    Mutated(Result<(Vec<A>, Vec<T>), String>),
    /// A reader is done, or why it failed.
    Seen(Result<(), String>),
}

/// Whether `event` answers `at`.
pub open spec fn store_fits<A, T>(
    mode: StoreMode,
    at: StoreAction<A, T>,
    event: StoreEvent<A, T>,
) -> bool {
    match at {
        StoreAction::ResolveAnchor => event is Io,
        StoreAction::CreateAnchorDir => event is Io,
        StoreAction::AcquireLock => event is Io,
        StoreAction::CheckAgents => event is Present,
        StoreAction::ReadAgents => event is Bytes,
        StoreAction::DecodeAgents { .. } => event is Agents,
        StoreAction::BackUpAgents { .. } => event is BackedUp,
        StoreAction::CheckTeams { .. } => event is Present,
        StoreAction::ReadTeams { .. } => event is Bytes,
        StoreAction::DecodeTeams { .. } => event is Teams,
        StoreAction::BackUpTeams { .. } => event is BackedUp,
        StoreAction::OpenJournal { .. } => event is Io,
        StoreAction::RunClosure { .. } => match mode {
            StoreMode::Mutate => event is Mutated,
            StoreMode::Read => event is Seen,
        },
        StoreAction::SerializeAgents { .. } => event is Bytes,
        StoreAction::WriteAgents { .. } => event is Io,
        StoreAction::SerializeTeams { .. } => event is Bytes,
        StoreAction::WriteTeams { .. } => event is Io,
        StoreAction::Finish | StoreAction::Fail(_) => false,
    }
}

/// The message of the error that `event` reports, if it reports one.
pub open spec fn store_error<A, T>(at: StoreAction<A, T>, event: StoreEvent<A, T>) -> Option<
    Seq<char>,
> {
    match event {
        StoreEvent::Io(Err(e)) => Some(
            if at is CreateAnchorDir {
                "create anchor dir: "@ + e@
            } else {
                e@
            },
        ),
        StoreEvent::Bytes(Err(e)) => Some(
            if at is ReadAgents {
                "read managed-agents.json: "@ + e@
            } else if at is ReadTeams {
                "read teams.json: "@ + e@
            } else if at is SerializeAgents {
                "serialize managed-agents.json: "@ + e@
            } else {
                "serialize teams.json: "@ + e@
            },
        ),
        StoreEvent::Agents(Err(error)) => Some(error.message@),
        StoreEvent::Teams(Err(error)) => Some(error.message@),
        StoreEvent::Mutated(Err(e)) => Some(e@),
        StoreEvent::Seen(Err(e)) => Some(e@),
        _ => None,
    }
}

/// What follows a step that did not fail.
pub open spec fn store_goes_on<A, T>(
    at: StoreAction<A, T>,
    event: StoreEvent<A, T>,
    next: StoreAction<A, T>,
) -> bool {
    match (at, event) {
        (StoreAction::ResolveAnchor, _) => next is CreateAnchorDir,
        (StoreAction::CreateAnchorDir, _) => next is AcquireLock,
        (StoreAction::AcquireLock, _) => next is CheckAgents,
        (StoreAction::CheckAgents, StoreEvent::Present(true)) => next is ReadAgents,
        (StoreAction::CheckAgents, StoreEvent::Present(false)) => {
            next matches StoreAction::CheckTeams { agents } && agents@.len() == 0
        },
        (StoreAction::ReadAgents, StoreEvent::Bytes(Ok(bytes))) => {
            next == StoreAction::<A, T>::DecodeAgents { bytes }
        },
        (StoreAction::DecodeAgents { .. }, StoreEvent::Agents(Ok(agents))) => {
            next == StoreAction::<A, T>::CheckTeams { agents }
        },
        (StoreAction::BackUpAgents { message }, _) => next == StoreAction::<A, T>::Fail(message),
        (StoreAction::CheckTeams { agents }, StoreEvent::Present(true)) => {
            next == StoreAction::<A, T>::ReadTeams { agents }
        },
        (StoreAction::CheckTeams { agents: read }, StoreEvent::Present(false)) => {
            next matches StoreAction::OpenJournal { agents, teams } && agents == read
                && teams@.len() == 0
        },
        (StoreAction::ReadTeams { agents }, StoreEvent::Bytes(Ok(bytes))) => {
            next == StoreAction::<A, T>::DecodeTeams { agents, bytes }
        },
        (StoreAction::DecodeTeams { agents, .. }, StoreEvent::Teams(Ok(teams))) => {
            next == StoreAction::<A, T>::OpenJournal { agents, teams }
        },
        (StoreAction::BackUpTeams { message }, _) => next == StoreAction::<A, T>::Fail(message),
        (StoreAction::OpenJournal { agents, teams }, _) => {
            next == StoreAction::<A, T>::RunClosure { agents, teams }
        },
        (StoreAction::RunClosure { .. }, StoreEvent::Mutated(Ok((agents, teams)))) => {
            next == StoreAction::<A, T>::SerializeAgents { agents, teams }
        },
        (StoreAction::RunClosure { .. }, StoreEvent::Seen(Ok(_))) => next is Finish,
        (StoreAction::SerializeAgents { teams, .. }, StoreEvent::Bytes(Ok(payload))) => {
            next == StoreAction::<A, T>::WriteAgents { payload, teams }
        },
        (StoreAction::WriteAgents { teams, .. }, _) => {
            next == StoreAction::<A, T>::SerializeTeams { teams }
        },
        (StoreAction::SerializeTeams { .. }, StoreEvent::Bytes(Ok(payload))) => {
            next == StoreAction::<A, T>::WriteTeams { payload }
        },
        (StoreAction::WriteTeams { .. }, _) => next is Finish,
        _ => false,
    }
}

/// `next` is what follows once `at` was answered with `event`: an error ends the
/// run with its message, after a backup if a file could not be decoded.
pub open spec fn store_stepped<A, T>(
    mode: StoreMode,
    at: StoreAction<A, T>,
    event: StoreEvent<A, T>,
    next: StoreAction<A, T>,
) -> bool {
    &&& store_fits(mode, at, event)
    &&& match store_error(at, event) {
        None => store_goes_on(at, event, next),
        Some(error) => match at {
            StoreAction::DecodeAgents { .. } => {
                next matches StoreAction::BackUpAgents { message } && message@ == error
            },
            StoreAction::DecodeTeams { .. } => {
                next matches StoreAction::BackUpTeams { message } && message@ == error
            },
            _ => next matches StoreAction::Fail(message) && message@ == error,
        },
    }
}

/// What to do next once `at` was answered with `event`.
pub fn store_step<A, T>(
    mode: StoreMode,
    at: StoreAction<A, T>,
    event: StoreEvent<A, T>,
) -> (next: StoreAction<A, T>)
    requires
        store_fits(mode, at, event),
    ensures
        store_stepped(mode, at, event, next),
{
    match (at, event) {
        (StoreAction::ResolveAnchor, StoreEvent::Io(Ok(_))) => StoreAction::CreateAnchorDir,
        (StoreAction::CreateAnchorDir, StoreEvent::Io(Ok(_))) => StoreAction::AcquireLock,
        (StoreAction::CreateAnchorDir, StoreEvent::Io(Err(e))) => StoreAction::Fail(
            join2("create anchor dir: ", e.as_str()),
        ),
        (StoreAction::AcquireLock, StoreEvent::Io(Ok(_))) => StoreAction::CheckAgents,
        (StoreAction::CheckAgents, StoreEvent::Present(present)) => if present {
            StoreAction::ReadAgents
        } else {
            StoreAction::CheckTeams { agents: Vec::new() }
        },
        (StoreAction::ReadAgents, StoreEvent::Bytes(read)) => match read {
            Ok(bytes) => StoreAction::DecodeAgents { bytes },
            Err(e) => StoreAction::Fail(join2("read managed-agents.json: ", e.as_str())),
        },
        (StoreAction::DecodeAgents { .. }, StoreEvent::Agents(decoded)) => match decoded {
            Ok(agents) => StoreAction::CheckTeams { agents },
            Err(error) => StoreAction::BackUpAgents { message: error.message },
        },
        (StoreAction::BackUpAgents { message }, _) => StoreAction::Fail(message),
        (StoreAction::CheckTeams { agents }, StoreEvent::Present(present)) => if present {
            StoreAction::ReadTeams { agents }
        } else {
            StoreAction::OpenJournal { agents, teams: Vec::new() }
        },
        (StoreAction::ReadTeams { agents }, StoreEvent::Bytes(read)) => match read {
            Ok(bytes) => StoreAction::DecodeTeams { agents, bytes },
            Err(e) => StoreAction::Fail(join2("read teams.json: ", e.as_str())),
        },
        (StoreAction::DecodeTeams { agents, .. }, StoreEvent::Teams(decoded)) => match decoded {
            Ok(teams) => StoreAction::OpenJournal { agents, teams },
            Err(error) => StoreAction::BackUpTeams { message: error.message },
        },
        (StoreAction::BackUpTeams { message }, _) => StoreAction::Fail(message),
        (StoreAction::OpenJournal { agents, teams }, StoreEvent::Io(Ok(_))) => {
            StoreAction::RunClosure { agents, teams }
        },
        (StoreAction::RunClosure { .. }, StoreEvent::Mutated(mutated)) => match mutated {
            Ok((agents, teams)) => StoreAction::SerializeAgents { agents, teams },
            Err(e) => StoreAction::Fail(e),
        },
        (StoreAction::RunClosure { .. }, StoreEvent::Seen(seen)) => match seen {
            Ok(_) => StoreAction::Finish,
            Err(e) => StoreAction::Fail(e),
        },
        (StoreAction::SerializeAgents { teams, .. }, StoreEvent::Bytes(serialized)) => {
            match serialized {
                Ok(payload) => StoreAction::WriteAgents { payload, teams },
                Err(e) => StoreAction::Fail(join2("serialize managed-agents.json: ", e.as_str())),
            }
        },
        (StoreAction::WriteAgents { teams, .. }, StoreEvent::Io(Ok(_))) => {
            StoreAction::SerializeTeams { teams }
        },
        (StoreAction::SerializeTeams { .. }, StoreEvent::Bytes(serialized)) => match serialized {
            Ok(payload) => StoreAction::WriteTeams { payload },
            Err(e) => StoreAction::Fail(join2("serialize teams.json: ", e.as_str())),
        },
        (StoreAction::WriteTeams { .. }, StoreEvent::Io(Ok(_))) => StoreAction::Finish,
        (_, StoreEvent::Io(Err(e))) => StoreAction::Fail(e),
        (over, _) => over,
    }
}

// ---- Laws ----------------------------------------------------------------

/// A run: the first action is to resolve the anchor, and each later one follows
/// from the event that answered the one before it.
pub open spec fn store_run<A, T>(
    mode: StoreMode,
    actions: Seq<StoreAction<A, T>>,
    events: Seq<StoreEvent<A, T>>,
) -> bool {
    &&& actions.len() == events.len() + 1
    &&& actions[0] is ResolveAnchor
    &&& forall|i: int|
        0 <= i < events.len() ==> store_stepped(
            mode,
            actions[i],
            #[trigger] events[i],
            actions[i + 1],
        )
}

/// Whether an action belongs to a run that met an error.
pub open spec fn is_failing<A, T>(at: StoreAction<A, T>) -> bool {
    at is BackUpAgents || at is BackUpTeams || at is Fail
}

/// Whether an action replaces a file of the store.
pub open spec fn is_write<A, T>(at: StoreAction<A, T>) -> bool {
    at is WriteAgents || at is WriteTeams
}

/// The place of an action in the sequence.
pub open spec fn store_rank<A, T>(at: StoreAction<A, T>) -> int {
    match at {
        StoreAction::ResolveAnchor => 0,
        StoreAction::CreateAnchorDir => 1,
        StoreAction::AcquireLock => 2,
        StoreAction::CheckAgents => 3,
        StoreAction::ReadAgents => 4,
        StoreAction::DecodeAgents { .. } => 5,
        StoreAction::CheckTeams { .. } => 6,
        StoreAction::ReadTeams { .. } => 7,
        StoreAction::DecodeTeams { .. } => 8,
        StoreAction::OpenJournal { .. } => 9,
        StoreAction::RunClosure { .. } => 10,
        StoreAction::SerializeAgents { .. } => 11,
        StoreAction::WriteAgents { .. } => 12,
        StoreAction::SerializeTeams { .. } => 13,
        StoreAction::WriteTeams { .. } => 14,
        StoreAction::BackUpAgents { .. } => 15,
        StoreAction::BackUpTeams { .. } => 15,
        StoreAction::Finish => 15,
        StoreAction::Fail(_) => 16,
    }
}

/// The sequence only goes forward, so no action is taken twice and a run ends
/// after at most sixteen steps.
pub proof fn law_store_sequence_goes_forward<A, T>(
    mode: StoreMode,
    actions: Seq<StoreAction<A, T>>,
    events: Seq<StoreEvent<A, T>>,
    j: int,
    k: int,
)
    requires
        store_run(mode, actions, events),
        0 <= j < k < actions.len(),
    ensures
        store_rank(actions[j]) < store_rank(actions[k]),
        events.len() <= 16,
{
    lemma_rank_grows(mode, actions, events, j, k);
    lemma_rank_grows(mode, actions, events, 0, actions.len() - 1);
}

/// Each step takes the sequence forward.
proof fn lemma_rank_grows<A, T>(
    mode: StoreMode,
    actions: Seq<StoreAction<A, T>>,
    events: Seq<StoreEvent<A, T>>,
    j: int,
    k: int,
)
    requires
        store_run(mode, actions, events),
        0 <= j <= k < actions.len(),
    ensures
        store_rank(actions[k]) >= store_rank(actions[j]) + (k - j),
    decreases k - j,
{
    if j < k {
        lemma_rank_grows(mode, actions, events, j, k - 1);
        assert(store_stepped(mode, actions[k - 1], events[k - 1], actions[k]));
    }
}

/// Whether every run of `mode` that gets beyond the place `rank` has an action
/// in that place: the others are those on files that may be absent, and those
/// that write back.
pub open spec fn is_mandatory(mode: StoreMode, rank: int) -> bool {
    0 <= rank <= 3 || rank == 6 || rank == 9 || rank == 10 || (mode is Mutate && 11 <= rank <= 14)
}

/// No error came before an action of a run that has not failed, and each
/// mandatory action of a lower place did.
proof fn lemma_passed<A, T>(
    mode: StoreMode,
    actions: Seq<StoreAction<A, T>>,
    events: Seq<StoreEvent<A, T>>,
    k: int,
    rank: int,
) -> (j: int)
    requires
        store_run(mode, actions, events),
        0 <= k < actions.len(),
        !is_failing(actions[k]),
    ensures
        forall|i: int| 0 <= i < k ==> store_error(actions[i], #[trigger] events[i]) is None,
        is_mandatory(mode, rank) && store_rank(actions[k]) > rank ==> 0 <= j < k && store_rank(
            actions[j],
        ) == rank && !is_failing(actions[j]),
    decreases k,
{
    if k > 0 {
        assert(store_stepped(mode, actions[k - 1], events[k - 1], actions[k]));
        let j = lemma_passed(mode, actions, events, k - 1, rank);
        if store_rank(actions[k - 1]) == rank {
            k - 1
        } else {
            j
        }
    } else {
        0
    }
}

/// The store's files and the journal are touched only under the advisory lock:
/// it was acquired before.
pub proof fn law_nothing_is_touched_without_the_lock<A, T>(
    mode: StoreMode,
    actions: Seq<StoreAction<A, T>>,
    events: Seq<StoreEvent<A, T>>,
    k: int,
)
    requires
        store_run(mode, actions, events),
        3 <= k < actions.len(),
        actions[k] !is Fail,
    ensures
        actions[2] is AcquireLock,
        events[2] matches StoreEvent::Io(Ok(_)),
{
    assert(store_stepped(mode, actions[0], events[0], actions[1]));
    assert(store_stepped(mode, actions[1], events[1], actions[2]));
    assert(store_stepped(mode, actions[2], events[2], actions[3]));
    if k > 3 {
        assert(store_stepped(mode, actions[3], events[3], actions[4]));
    }
}

/// A file is replaced only by a mutation, and only after the lock was acquired,
/// both files were decoded or found absent, the journal was opened and the
/// closure succeeded, with no error before it.
pub proof fn law_writes_come_last<A, T>(
    mode: StoreMode,
    actions: Seq<StoreAction<A, T>>,
    events: Seq<StoreEvent<A, T>>,
    k: int,
)
    requires
        store_run(mode, actions, events),
        0 <= k < actions.len(),
        is_write(actions[k]),
    ensures
        mode is Mutate,
        forall|i: int| 0 <= i < k ==> store_error(actions[i], #[trigger] events[i]) is None,
        exists|j: int| 0 <= j < k && #[trigger] actions[j] is AcquireLock,
        exists|j: int| 0 <= j < k && #[trigger] actions[j] is CheckAgents,
        exists|j: int| 0 <= j < k && #[trigger] actions[j] is CheckTeams,
        exists|j: int| 0 <= j < k && #[trigger] actions[j] is OpenJournal,
        exists|j: int| 0 <= j < k && #[trigger] actions[j] is RunClosure,
{
    let lock = lemma_passed(mode, actions, events, k, 2);
    let agents = lemma_passed(mode, actions, events, k, 3);
    let teams = lemma_passed(mode, actions, events, k, 6);
    let journal = lemma_passed(mode, actions, events, k, 9);
    let closure = lemma_passed(mode, actions, events, k, 10);
    assert(actions[lock] is AcquireLock);
    assert(actions[agents] is CheckAgents);
    assert(actions[teams] is CheckTeams);
    assert(actions[journal] is OpenJournal);
    assert(actions[closure] is RunClosure);
    lemma_rank_grows(mode, actions, events, closure + 1, k);
    assert(store_stepped(mode, actions[closure], events[closure], actions[closure + 1]));
}

/// Reading the store replaces no file.
pub proof fn law_reading_writes_nothing<A, T>(
    actions: Seq<StoreAction<A, T>>,
    events: Seq<StoreEvent<A, T>>,
    k: int,
)
    requires
        store_run(StoreMode::Read, actions, events),
        0 <= k < actions.len(),
    ensures
        !is_write(actions[k]),
{
    if is_write(actions[k]) {
        law_writes_come_last(StoreMode::Read, actions, events, k);
    }
}

/// A decode error stops everything: no file is replaced, the journal is not
/// opened and the closure does not run, at any time in the run. The file is
/// backed up, and the run fails with the error's message.
pub proof fn law_decode_error_stops_everything<A, T>(
    mode: StoreMode,
    actions: Seq<StoreAction<A, T>>,
    events: Seq<StoreEvent<A, T>>,
    j: int,
    k: int,
)
    requires
        store_run(mode, actions, events),
        0 <= j < events.len(),
        (events[j] matches StoreEvent::Agents(Err(_))) || (events[j] matches StoreEvent::Teams(
            Err(_),
        )),
        0 <= k < actions.len(),
    ensures
        !is_write(actions[k]),
        actions[k] !is OpenJournal,
        actions[k] !is RunClosure,
        k == j + 1 ==> actions[k] is BackUpAgents || actions[k] is BackUpTeams,
        k > j + 1 ==> k == j + 2 && (actions[k] matches StoreAction::Fail(message) && Some(message@)
            == store_error(actions[j], events[j])),
{
    assert(store_stepped(mode, actions[j], events[j], actions[j + 1]));
    if k <= j {
        lemma_rank_grows(mode, actions, events, k, j);
    } else {
        if k > j + 1 {
            assert(store_stepped(mode, actions[j + 1], events[j + 1], actions[j + 2]));
            if k > j + 2 {
                assert(store_stepped(mode, actions[j + 2], events[j + 2], actions[j + 3]));
            }
        }
    }
}

/// Any error is the last thing that happens: after it comes at most a backup,
/// and the failure with the error's message. A run fails for no other reason.
pub proof fn law_first_error_is_reported<A, T>(
    mode: StoreMode,
    actions: Seq<StoreAction<A, T>>,
    events: Seq<StoreEvent<A, T>>,
)
    requires
        store_run(mode, actions, events),
    ensures
        forall|j: int|
            0 <= j < events.len() && store_error(actions[j], #[trigger] events[j]) is Some
                ==> j + 1 < actions.len() <= j + 3 && is_failing(actions.last()),
        actions.last() matches StoreAction::Fail(message) ==> exists|j: int|
            0 <= j < events.len() && store_error(actions[j], #[trigger] events[j]) == Some(
                message@,
            ),
{
    let last: int = actions.len() - 1;
    assert forall|j: int| 0 <= j < events.len() && store_error(actions[j], #[trigger] events[j])
        is Some implies j + 1 < actions.len() <= j + 3 && is_failing(actions.last()) by {
        assert(store_stepped(mode, actions[j], events[j], actions[j + 1]));
        if last > j + 1 {
            assert(store_stepped(mode, actions[j + 1], events[j + 1], actions[j + 2]));
            if last > j + 2 {
                assert(store_stepped(mode, actions[j + 2], events[j + 2], actions[j + 3]));
            }
        }
    }
    if actions.last() is Fail {
        assert(last > 0);
        assert(store_stepped(mode, actions[last - 1], events[last - 1], actions[last]));
        if store_error(actions[last - 1], events[last - 1]) is None {
            assert(last > 1);
            assert(store_stepped(mode, actions[last - 2], events[last - 2], actions[last - 1]));
        }
    }
}

/// `agents` is what the agents' file held when it was decoded before `k`, or
/// empty if it was absent.
pub open spec fn agents_were_read<A, T>(
    actions: Seq<StoreAction<A, T>>,
    events: Seq<StoreEvent<A, T>>,
    k: int,
    agents: Vec<A>,
) -> bool {
    exists|j: int|
        0 <= j < k && #[trigger] actions[j] is CheckAgents && match events[j] {
            StoreEvent::Present(false) => agents@.len() == 0,
            _ => {
                &&& j + 2 < k
                &&& actions[j + 1] is ReadAgents
                &&& events[j + 1] matches StoreEvent::Bytes(Ok(read))
                &&& actions[j + 2] == StoreAction::<A, T>::DecodeAgents { bytes: read }
                &&& events[j + 2] == StoreEvent::<A, T>::Agents(Ok(agents))
            },
        }
}

/// `teams` is what the teams' file held when it was decoded before `k`, or empty
/// if it was absent.
pub open spec fn teams_were_read<A, T>(
    actions: Seq<StoreAction<A, T>>,
    events: Seq<StoreEvent<A, T>>,
    k: int,
    teams: Vec<T>,
) -> bool {
    exists|j: int|
        0 <= j < k && #[trigger] actions[j] is CheckTeams && match events[j] {
            StoreEvent::Present(false) => teams@.len() == 0,
            _ => {
                &&& j + 2 < k
                &&& actions[j + 1] is ReadTeams
                &&& events[j + 1] matches StoreEvent::Bytes(Ok(read))
                &&& actions[j + 2] matches StoreAction::DecodeTeams { bytes, .. }
                &&& bytes == read
                &&& events[j + 2] == StoreEvent::<A, T>::Teams(Ok(teams))
            },
        }
}

/// The agents that an action carries between decoding and the closure.
spec fn carried_agents<A, T>(at: StoreAction<A, T>) -> Option<Vec<A>> {
    match at {
        StoreAction::CheckTeams { agents } => Some(agents),
        StoreAction::ReadTeams { agents } => Some(agents),
        StoreAction::DecodeTeams { agents, .. } => Some(agents),
        StoreAction::OpenJournal { agents, .. } => Some(agents),
        StoreAction::RunClosure { agents, .. } => Some(agents),
        _ => None,
    }
}

/// The teams that an action carries between decoding and the closure.
spec fn carried_teams<A, T>(at: StoreAction<A, T>) -> Option<Vec<T>> {
    match at {
        StoreAction::OpenJournal { teams, .. } => Some(teams),
        StoreAction::RunClosure { teams, .. } => Some(teams),
        _ => None,
    }
}

/// What is carried to the closure was read before.
proof fn lemma_carried<A, T>(
    mode: StoreMode,
    actions: Seq<StoreAction<A, T>>,
    events: Seq<StoreEvent<A, T>>,
    k: int,
)
    requires
        store_run(mode, actions, events),
        0 <= k < actions.len(),
    ensures
        carried_agents(actions[k]) matches Some(agents) ==> agents_were_read(
            actions,
            events,
            k,
            agents,
        ),
        carried_teams(actions[k]) matches Some(teams) ==> teams_were_read(
            actions,
            events,
            k,
            teams,
        ),
        actions[k] is ReadAgents || actions[k] is ReadTeams ==> k > 0 && events[k - 1]
            == StoreEvent::<A, T>::Present(true),
        actions[k] is ReadAgents ==> actions[k - 1] is CheckAgents,
        actions[k] is ReadTeams ==> actions[k - 1] is CheckTeams,
        actions[k] matches StoreAction::DecodeAgents { bytes } ==> k > 1 && actions[k - 1]
            is ReadAgents && events[k - 1] == StoreEvent::<A, T>::Bytes(Ok(bytes)) && events[k - 2]
            == StoreEvent::<A, T>::Present(true) && actions[k - 2] is CheckAgents,
        actions[k] matches StoreAction::DecodeTeams { bytes, .. } ==> k > 1 && actions[k - 1]
            is ReadTeams && events[k - 1] == StoreEvent::<A, T>::Bytes(Ok(bytes)) && events[k - 2]
            == StoreEvent::<A, T>::Present(true) && actions[k - 2] is CheckTeams,
    decreases k,
{
    if k > 0 {
        lemma_carried(mode, actions, events, k - 1);
        assert(store_stepped(mode, actions[k - 1], events[k - 1], actions[k]));
        if carried_agents(actions[k]) is Some {
            let agents = carried_agents(actions[k])->0;
            if carried_agents(actions[k - 1]) is Some {
                assert(agents_were_read(actions, events, k, agents));
            } else if actions[k - 1] is CheckAgents {
                assert(agents_were_read(actions, events, k, agents));
            } else {
                assert(actions[k - 3] is CheckAgents);
                assert(agents_were_read(actions, events, k, agents));
            }
        }
        if carried_teams(actions[k]) is Some {
            let teams = carried_teams(actions[k])->0;
            if carried_teams(actions[k - 1]) is Some {
                assert(teams_were_read(actions, events, k, teams));
            } else if actions[k - 1] is CheckTeams {
                assert(teams_were_read(actions, events, k, teams));
            } else {
                assert(actions[k - 3] is CheckTeams);
                assert(teams_were_read(actions, events, k, teams));
            }
        }
    }
}

/// The closure sees a fresh decode of both files, made under the lock: what
/// each held, or no record where there is no file.
pub proof fn law_closure_sees_what_was_read<A, T>(
    mode: StoreMode,
    actions: Seq<StoreAction<A, T>>,
    events: Seq<StoreEvent<A, T>>,
    k: int,
)
    requires
        store_run(mode, actions, events),
        0 <= k < actions.len(),
        actions[k] is RunClosure,
    ensures
        agents_were_read(actions, events, k, actions[k]->RunClosure_agents),
        teams_were_read(actions, events, k, actions[k]->RunClosure_teams),
{
    lemma_carried(mode, actions, events, k);
}

/// What is written is the serialization of what the closure returned, the agents
/// first, and the teams only after the agents were written.
pub proof fn law_closures_result_is_written<A, T>(
    mode: StoreMode,
    actions: Seq<StoreAction<A, T>>,
    events: Seq<StoreEvent<A, T>>,
    k: int,
)
    requires
        store_run(mode, actions, events),
        0 <= k < actions.len(),
    ensures
        actions[k] matches StoreAction::WriteAgents { payload, .. } ==> {
            &&& k >= 2
            &&& actions[k - 2] is RunClosure
            &&& events[k - 2] matches StoreEvent::Mutated(Ok(returned))
            &&& actions[k - 1] == StoreAction::<A, T>::SerializeAgents {
                agents: returned.0,
                teams: returned.1,
            }
            &&& events[k - 1] == StoreEvent::<A, T>::Bytes(Ok(payload))
        },
        actions[k] matches StoreAction::WriteTeams { payload } ==> {
            &&& k >= 4
            &&& actions[k - 4] is RunClosure
            &&& events[k - 4] matches StoreEvent::Mutated(Ok(returned))
            &&& actions[k - 2] is WriteAgents
            &&& events[k - 2] matches StoreEvent::Io(Ok(_))
            &&& actions[k - 1] == StoreAction::<A, T>::SerializeTeams { teams: returned.1 }
            &&& events[k - 1] == StoreEvent::<A, T>::Bytes(Ok(payload))
        },
{
    if is_write(actions[k]) {
        assert(store_stepped(mode, actions[k - 1], events[k - 1], actions[k]));
        assert(k >= 2) by {
            lemma_rank_grows(mode, actions, events, 0, k);
            if k == 1 {
                assert(store_stepped(mode, actions[0], events[0], actions[1]));
            }
        }
        assert(store_stepped(mode, actions[k - 2], events[k - 2], actions[k - 1]));
        if actions[k] is WriteTeams {
            assert(k >= 4) by {
                if k == 2 {
                    assert(actions[0] is ResolveAnchor);
                }
                if k == 3 {
                    assert(store_stepped(mode, actions[0], events[0], actions[1]));
                }
            }
            assert(store_stepped(mode, actions[k - 3], events[k - 3], actions[k - 2]));
            assert(store_stepped(mode, actions[k - 4], events[k - 4], actions[k - 3]));
        }
    }
}

/// A mutation that finishes has replaced both files.
pub proof fn law_finished_mutation_is_written<A, T>(
    actions: Seq<StoreAction<A, T>>,
    events: Seq<StoreEvent<A, T>>,
)
    requires
        store_run(StoreMode::Mutate, actions, events),
        actions.last() is Finish,
    ensures
        exists|j: int|
            0 <= j < events.len() && #[trigger] actions[j] is WriteAgents && (events[j] matches StoreEvent::Io(
                Ok(_),
            )),
        exists|j: int|
            0 <= j < events.len() && #[trigger] actions[j] is WriteTeams && (events[j] matches StoreEvent::Io(
                Ok(_),
            )),
{
    let last: int = actions.len() - 1;
    let agents = lemma_passed(StoreMode::Mutate, actions, events, last, 12);
    let teams = lemma_passed(StoreMode::Mutate, actions, events, last, 14);
    assert(actions[agents] is WriteAgents);
    assert(actions[teams] is WriteTeams);
    assert(store_stepped(StoreMode::Mutate, actions[agents], events[agents], actions[agents + 1]));
    assert(store_stepped(StoreMode::Mutate, actions[teams], events[teams], actions[teams + 1]));
    assert(store_error(actions[agents], events[agents]) is None);
    assert(store_error(actions[teams], events[teams]) is None);
}

/// What went wrong is told with the file and the step that it went wrong at, and
/// what did not go wrong is no error. What the lock, the journal, the writes and
/// the closure say is passed on as it is.
pub proof fn law_store_errors_name_their_step<A, T>(
    at: StoreAction<A, T>,
    event: StoreEvent<A, T>,
    mode: StoreMode,
)
    requires
        store_fits(mode, at, event),
    ensures
        event matches StoreEvent::Io(Err(e)) ==> store_error(at, event) == Some(
            if at is CreateAnchorDir {
                "create anchor dir: "@ + e@
            } else {
                e@
            },
        ),
        event matches StoreEvent::Bytes(Err(e)) ==> {
            &&& at is ReadAgents ==> store_error(at, event) == Some(
                "read managed-agents.json: "@ + e@,
            )
            &&& at is ReadTeams ==> store_error(at, event) == Some("read teams.json: "@ + e@)
            &&& at is SerializeAgents ==> store_error(at, event) == Some(
                "serialize managed-agents.json: "@ + e@,
            )
            &&& at is SerializeTeams ==> store_error(at, event) == Some(
                "serialize teams.json: "@ + e@,
            )
        },
        event matches StoreEvent::Agents(Err(error)) ==> store_error(at, event) == Some(
            error.message@,
        ),
        event matches StoreEvent::Teams(Err(error)) ==> store_error(at, event) == Some(
            error.message@,
        ),
        event matches StoreEvent::Mutated(Err(e)) ==> store_error(at, event) == Some(e@),
        event matches StoreEvent::Seen(Err(e)) ==> store_error(at, event) == Some(e@),
        store_error(at, event) is None <==> match event {
            StoreEvent::Io(done) => done is Ok,
            StoreEvent::Present(_) => true,
            StoreEvent::Bytes(bytes) => bytes is Ok,
            StoreEvent::Agents(agents) => agents is Ok,
            StoreEvent::Teams(teams) => teams is Ok,
            StoreEvent::BackedUp => true,
            StoreEvent::Mutated(records) => records is Ok,
            StoreEvent::Seen(seen) => seen is Ok,
        },
{
}

/// A run on which nothing goes wrong does not fail, and is over only when it is
/// finished.
pub proof fn law_untroubled_run_does_not_fail<A, T>(
    mode: StoreMode,
    actions: Seq<StoreAction<A, T>>,
    events: Seq<StoreEvent<A, T>>,
)
    requires
        store_run(mode, actions, events),
        forall|i: int| 0 <= i < events.len() ==> store_error(actions[i], #[trigger] events[i]) is None,
    ensures
        !is_failing(actions.last()),
        (forall|other: StoreEvent<A, T>| !#[trigger] store_fits(mode, actions.last(), other))
            ==> actions.last() is Finish,
    decreases events.len(),
{
    let last: int = actions.len() - 1;
    if last > 0 {
        let before = actions.drop_last();
        let earlier = events.drop_last();
        assert forall|i: int| 0 <= i < earlier.len() implies store_stepped(
            mode,
            before[i],
            #[trigger] earlier[i],
            before[i + 1],
        ) && store_error(before[i], earlier[i]) is None by {
            assert(earlier[i] == events[i]);
        }
        law_untroubled_run_does_not_fail(mode, before, earlier);
        assert(store_stepped(mode, actions[last - 1], events[last - 1], actions[last]));
    }
    let at = actions.last();
    assert(at !is Finish ==> {
        ||| store_fits(mode, at, StoreEvent::Io(Ok(())))
        ||| store_fits(mode, at, StoreEvent::Present(true))
        ||| store_fits(mode, at, StoreEvent::Bytes(Err(arbitrary())))
        ||| store_fits(mode, at, StoreEvent::Agents(Err(arbitrary())))
        ||| store_fits(mode, at, StoreEvent::Teams(Err(arbitrary())))
        ||| store_fits(mode, at, StoreEvent::Mutated(Err(arbitrary())))
        ||| store_fits(mode, at, StoreEvent::Seen(Ok(())))
    });
}

/// A run that finishes has acquired the lock, looked for both files, opened the
/// journal and run the closure, whose success is what finishes a reading.
pub proof fn law_finished_run_ran_the_closure<A, T>(
    mode: StoreMode,
    actions: Seq<StoreAction<A, T>>,
    events: Seq<StoreEvent<A, T>>,
)
    requires
        store_run(mode, actions, events),
        actions.last() is Finish,
    ensures
        exists|j: int| 0 <= j < events.len() && #[trigger] actions[j] is AcquireLock,
        exists|j: int| 0 <= j < events.len() && #[trigger] actions[j] is CheckAgents,
        exists|j: int| 0 <= j < events.len() && #[trigger] actions[j] is CheckTeams,
        exists|j: int| 0 <= j < events.len() && #[trigger] actions[j] is OpenJournal,
        exists|j: int| 0 <= j < events.len() && #[trigger] actions[j] is RunClosure,
        mode is Read ==> events.len() > 0 && actions[actions.len() - 2] is RunClosure
            && (events.last() matches StoreEvent::Seen(Ok(_))),
        forall|i: int| 0 <= i < events.len() ==> store_error(actions[i], #[trigger] events[i]) is None,
{
    let last: int = actions.len() - 1;
    let lock = lemma_passed(mode, actions, events, last, 2);
    let agents = lemma_passed(mode, actions, events, last, 3);
    let teams = lemma_passed(mode, actions, events, last, 6);
    let journal = lemma_passed(mode, actions, events, last, 9);
    let closure = lemma_passed(mode, actions, events, last, 10);
    assert(actions[lock] is AcquireLock);
    assert(actions[agents] is CheckAgents);
    assert(actions[teams] is CheckTeams);
    assert(actions[journal] is OpenJournal);
    assert(actions[closure] is RunClosure);
    assert(store_stepped(mode, actions[last - 1], events[last - 1], actions[last]));
    if mode is Read {
        if actions[last - 1] is WriteTeams {
            law_reading_writes_nothing(actions, events, last - 1);
        }
    }
}

/// The files of the store, of its lock and of its writes have these names.
pub proof fn law_files_have_their_names()
    ensures
        AGENTS_FILENAME@ == "managed-agents.json"@,
        TEAMS_FILENAME@ == "teams.json"@,
        crate::schema::JOURNAL_FILENAME@ == "store-journal.sqlite"@,
        crate::lock::ADVISORY_LOCK_FILENAME@ == "store-journal.lock"@,
        crate::write::TEMP_EXTENSION@ == "json.tmp"@,
        crate::write::RESTRICTED_MODE == 0o600,
{
}

} // verus!
