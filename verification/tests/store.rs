use store_journal::codec::StoreDecodeError;
use store_journal::store::{store_step, StoreAction, StoreEvent, StoreMode};

type Action = StoreAction<u32, char>;
type Event = StoreEvent<u32, char>;

fn ok() -> Event {
    StoreEvent::Io(Ok(()))
}

fn run(mode: StoreMode, events: Vec<Event>) -> Action {
    let mut at = StoreAction::ResolveAnchor;
    for event in events {
        at = store_step(mode, at, event);
    }
    at
}

fn fails(at: Action, expected: &str) {
    match at {
        StoreAction::Fail(message) => assert_eq!(message, expected),
        other => panic!("{other:?}"),
    }
}

#[test]
fn mutation_of_an_existing_store() {
    let mode = StoreMode::Mutate;
    let at = run(
        mode,
        vec![
            ok(),
            ok(),
            ok(),
            StoreEvent::Present(true),
            StoreEvent::Bytes(Ok(vec![1])),
            StoreEvent::Agents(Ok(vec![10, 20])),
            StoreEvent::Present(true),
            StoreEvent::Bytes(Ok(vec![2])),
            StoreEvent::Teams(Ok(vec!['t'])),
            ok(),
        ],
    );
    match &at {
        StoreAction::RunClosure { agents, teams } => {
            assert_eq!(agents, &vec![10, 20]);
            assert_eq!(teams, &vec!['t']);
        }
        other => panic!("{other:?}"),
    }
    let at = store_step(mode, at, StoreEvent::Mutated(Ok((vec![30], vec!['u']))));
    match &at {
        StoreAction::SerializeAgents { agents, teams } => {
            assert_eq!(agents, &vec![30]);
            assert_eq!(teams, &vec!['u']);
        }
        other => panic!("{other:?}"),
    }
    let at = store_step(mode, at, StoreEvent::Bytes(Ok(vec![3])));
    match &at {
        StoreAction::WriteAgents { payload, .. } => assert_eq!(payload, &vec![3]),
        other => panic!("{other:?}"),
    }
    let at = store_step(mode, at, ok());
    match &at {
        StoreAction::SerializeTeams { teams } => assert_eq!(teams, &vec!['u']),
        other => panic!("{other:?}"),
    }
    let at = store_step(mode, at, StoreEvent::Bytes(Ok(vec![4])));
    match &at {
        StoreAction::WriteTeams { payload } => assert_eq!(payload, &vec![4]),
        other => panic!("{other:?}"),
    }
    assert!(matches!(store_step(mode, at, ok()), StoreAction::Finish));
}

#[test]
fn reading_an_absent_store() {
    let at = run(
        StoreMode::Read,
        vec![ok(), ok(), ok(), StoreEvent::Present(false), StoreEvent::Present(false), ok()],
    );
    match &at {
        StoreAction::RunClosure { agents, teams } => {
            assert!(agents.is_empty());
            assert!(teams.is_empty());
        }
        other => panic!("{other:?}"),
    }
    let at = store_step(StoreMode::Read, at, StoreEvent::Seen(Ok(())));
    assert!(matches!(at, StoreAction::Finish));
}

#[test]
fn decode_error_ends_in_a_backup_and_the_message() {
    let error = || StoreDecodeError { message: "bad".to_string() };
    let mut events = vec![
        ok(),
        ok(),
        ok(),
        StoreEvent::Present(true),
        StoreEvent::Bytes(Ok(vec![1])),
        StoreEvent::Agents(Err(error())),
    ];
    let at = run(StoreMode::Mutate, events);
    assert!(matches!(at, StoreAction::BackUpAgents { .. }));
    fails(store_step(StoreMode::Mutate, at, StoreEvent::BackedUp), "bad");
    events = vec![
        ok(),
        ok(),
        ok(),
        StoreEvent::Present(false),
        StoreEvent::Present(true),
        StoreEvent::Bytes(Ok(vec![1])),
        StoreEvent::Teams(Err(error())),
    ];
    let at = run(StoreMode::Read, events);
    assert!(matches!(at, StoreAction::BackUpTeams { .. }));
    fails(store_step(StoreMode::Read, at, StoreEvent::BackedUp), "bad");
}

#[test]
fn store_errors() {
    let mode = StoreMode::Mutate;
    let io = || -> Event { StoreEvent::Io(Err("e".to_string())) };
    let bytes = || -> Event { StoreEvent::Bytes(Err("e".to_string())) };
    fails(store_step(mode, StoreAction::ResolveAnchor, io()), "e");
    fails(store_step(mode, StoreAction::CreateAnchorDir, io()), "create anchor dir: e");
    fails(store_step(mode, StoreAction::AcquireLock, io()), "e");
    fails(store_step(mode, StoreAction::ReadAgents, bytes()), "read managed-agents.json: e");
    fails(
        store_step(mode, StoreAction::ReadTeams { agents: vec![] }, bytes()),
        "read teams.json: e",
    );
    fails(
        store_step(mode, StoreAction::OpenJournal { agents: vec![], teams: vec![] }, io()),
        "e",
    );
    let closure = || -> Action { StoreAction::RunClosure { agents: vec![], teams: vec![] } };
    fails(store_step(mode, closure(), StoreEvent::Mutated(Err("e".to_string()))), "e");
    fails(store_step(StoreMode::Read, closure(), StoreEvent::Seen(Err("e".to_string()))), "e");
    fails(
        store_step(mode, StoreAction::SerializeAgents { agents: vec![], teams: vec![] }, bytes()),
        "serialize managed-agents.json: e",
    );
    fails(
        store_step(mode, StoreAction::WriteAgents { payload: vec![], teams: vec![] }, io()),
        "e",
    );
    fails(
        store_step(mode, StoreAction::SerializeTeams { teams: vec![] }, bytes()),
        "serialize teams.json: e",
    );
    fails(store_step(mode, StoreAction::WriteTeams { payload: vec![] }, io()), "e");
}
