use store_journal::effort::{
    effort_tier_alias, resolve_effective_agent_env, resolve_thinking_effort, AgentDefinition,
    GlobalAgentConfig, KnownAcpRuntime, ManagedAgentRecord, LEGACY_THINKING_EFFORT_KEY,
};
use store_journal::env_vars::EnvVars;

/// Minimal Goose-like runtime with native effort key and accepted-value set.
fn goose_rt() -> KnownAcpRuntime {
    KnownAcpRuntime {
        thinking_env_var: Some("GOOSE_THINKING_EFFORT"),
        accepted_effort_values: Some(&["none", "low", "medium", "high", "xhigh", "max"]),
    }
}

fn vars(pairs: &[(&str, &str)]) -> EnvVars {
    let mut env_vars = EnvVars::new();
    for (k, v) in pairs {
        env_vars.insert(k.to_string(), v.to_string());
    }
    env_vars
}

/// Build a minimal `ManagedAgentRecord` with the given env_vars.
fn record_with(pairs: &[(&str, &str)]) -> ManagedAgentRecord {
    ManagedAgentRecord { persona_id: None, env_vars: vars(pairs) }
}

fn spawn(
    record: &ManagedAgentRecord,
    global: &GlobalAgentConfig,
    personas: &[AgentDefinition],
) -> EnvVars {
    resolve_effective_agent_env(record, personas, Some(&goose_rt()), global).env
}

// Bridge: legacy-only record -> native key appears

#[test]
fn legacy_only_record_env_bridges_to_native_key() {
    let record = record_with(&[(LEGACY_THINKING_EFFORT_KEY, "high")]);
    let env = spawn(&record, &Default::default(), &[]);
    assert_eq!(
        env.get("GOOSE_THINKING_EFFORT").map(String::as_str),
        Some("high"),
        "legacy record value must be bridged to native key"
    );
}

// Bridge: native key already present -> no double-write

#[test]
fn native_and_legacy_in_record_native_wins_no_double_write() {
    let record = record_with(&[
        ("GOOSE_THINKING_EFFORT", "medium"),
        (LEGACY_THINKING_EFFORT_KEY, "high"),
    ]);
    let env = spawn(&record, &Default::default(), &[]);
    assert_eq!(
        env.get("GOOSE_THINKING_EFFORT").map(String::as_str),
        Some("medium"),
        "native key must win over legacy when both present in record"
    );
}

// Bridge: invalid legacy value -> key absent (harness default)

#[test]
fn invalid_legacy_value_in_record_not_bridged() {
    let record = record_with(&[(LEGACY_THINKING_EFFORT_KEY, "minimal")]);
    let env = spawn(&record, &Default::default(), &[]);
    assert!(
        !env.contains_key("GOOSE_THINKING_EFFORT"),
        "invalid legacy value 'minimal' must not be bridged to native key"
    );
}

// Bridge: global-tier legacy NOT bridged

#[test]
fn global_legacy_effort_is_not_bridged_to_native_key() {
    let record = record_with(&[]); // no record-level effort
    let mut global = GlobalAgentConfig::default();
    global
        .env_vars
        .insert(LEGACY_THINKING_EFFORT_KEY.to_string(), "high".to_string());
    let env = spawn(&record, &global, &[]);
    assert!(
        !env.contains_key("GOOSE_THINKING_EFFORT"),
        "global legacy effort must not be bridged (could be a buzz-agent default)"
    );
}

// Bridge: tier-first, record legacy beats persona native

#[test]
fn record_legacy_beats_persona_native_in_spawn() {
    let mut persona = AgentDefinition { id: "p1".to_string(), env_vars: EnvVars::new() };
    persona
        .env_vars
        .insert("GOOSE_THINKING_EFFORT".to_string(), "low".to_string());
    let mut record = record_with(&[(LEGACY_THINKING_EFFORT_KEY, "high")]);
    record.persona_id = Some("p1".to_string());
    let env = spawn(&record, &Default::default(), &[persona]);
    assert_eq!(
        env.get("GOOSE_THINKING_EFFORT").map(String::as_str),
        Some("high"),
        "record legacy (tier-first) must beat persona native"
    );
}

const ACCEPTED: [&str; 3] = ["low", "medium", "high"];

#[test]
fn native_value_is_returned_as_it_is() {
    let map = vars(&[("NATIVE", "unheard of"), (LEGACY_THINKING_EFFORT_KEY, "low")]);
    assert_eq!(
        effort_tier_alias(&map, "NATIVE", &ACCEPTED, false),
        Some("unheard of".to_string())
    );
    assert_eq!(
        effort_tier_alias(&map, "NATIVE", &ACCEPTED, true),
        Some("unheard of".to_string())
    );
}

#[test]
fn legacy_value_stands_in_only_where_it_may() {
    let map = vars(&[(LEGACY_THINKING_EFFORT_KEY, "low")]);
    assert_eq!(effort_tier_alias(&map, "NATIVE", &ACCEPTED, false), Some("low".to_string()));
    assert_eq!(effort_tier_alias(&map, "NATIVE", &ACCEPTED, true), None);
    assert_eq!(effort_tier_alias(&map, "NATIVE", &["high"], false), None);
    assert_eq!(effort_tier_alias(&map, "NATIVE", &[], false), None);
}

#[test]
fn buzz_agents_own_key_needs_no_alias() {
    let map = vars(&[(LEGACY_THINKING_EFFORT_KEY, "minimal")]);
    assert_eq!(
        effort_tier_alias(&map, LEGACY_THINKING_EFFORT_KEY, &ACCEPTED, false),
        Some("minimal".to_string())
    );
    assert_eq!(
        effort_tier_alias(&EnvVars::new(), LEGACY_THINKING_EFFORT_KEY, &ACCEPTED, false),
        None
    );
}

#[test]
fn invalid_legacy_value_leaves_the_next_tier_to_decide() {
    let persona = AgentDefinition {
        id: "p1".to_string(),
        env_vars: vars(&[(LEGACY_THINKING_EFFORT_KEY, "max")]),
    };
    let mut record = record_with(&[(LEGACY_THINKING_EFFORT_KEY, "minimal")]);
    record.persona_id = Some("p1".to_string());
    let env = spawn(&record, &Default::default(), &[persona]);
    assert_eq!(env.get("GOOSE_THINKING_EFFORT").map(String::as_str), Some("max"));
}

#[test]
fn global_native_value_is_the_last_resort() {
    let global = GlobalAgentConfig { env_vars: vars(&[("GOOSE_THINKING_EFFORT", "low")]) };
    let env = spawn(&record_with(&[]), &global, &[]);
    assert_eq!(env.get("GOOSE_THINKING_EFFORT").map(String::as_str), Some("low"));
    let env = spawn(&record_with(&[(LEGACY_THINKING_EFFORT_KEY, "xhigh")]), &global, &[]);
    assert_eq!(env.get("GOOSE_THINKING_EFFORT").map(String::as_str), Some("xhigh"));
}

#[test]
fn unknown_runtime_bridges_nothing() {
    let record = record_with(&[(LEGACY_THINKING_EFFORT_KEY, "high"), ("OTHER", "x")]);
    let env = resolve_effective_agent_env(&record, &[], None, &Default::default()).env;
    assert!(!env.contains_key("GOOSE_THINKING_EFFORT"));
    assert_eq!(env.get("OTHER").map(String::as_str), Some("x"));
    assert_eq!(env.get(LEGACY_THINKING_EFFORT_KEY).map(String::as_str), Some("high"));
}

#[test]
fn nearer_tier_overrides_the_farther_one() {
    let personas = [
        AgentDefinition { id: "other".to_string(), env_vars: vars(&[("A", "other")]) },
        AgentDefinition { id: "p1".to_string(), env_vars: vars(&[("A", "persona"), ("B", "persona")]) },
    ];
    let global = GlobalAgentConfig {
        env_vars: vars(&[("A", "global"), ("B", "global"), ("C", "global")]),
    };
    let mut record = record_with(&[("A", "record")]);
    record.persona_id = Some("p1".to_string());
    let env = spawn(&record, &global, &personas);
    assert_eq!(env.get("A").map(String::as_str), Some("record"));
    assert_eq!(env.get("B").map(String::as_str), Some("persona"));
    assert_eq!(env.get("C").map(String::as_str), Some("global"));
    assert_eq!(env.get("D"), None);
}

#[test]
fn inserting_a_name_again_replaces_its_value() {
    let mut map = vars(&[("A", "1"), ("B", "2")]);
    map.insert("A".to_string(), "3".to_string());
    assert_eq!(map.get("A").map(String::as_str), Some("3"));
    assert_eq!(map.get("B").map(String::as_str), Some("2"));
    assert!(!map.contains_key("a"));
}
