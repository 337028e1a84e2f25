//! Thinking effort of an agent, under its native name or its legacy one.
//!
//! An agent's environment comes in tiers: its own record, the persona it was
//! made from, and the global defaults. Within a tier the harness's native
//! variable counts before the legacy one; between tiers the nearer one counts.

use vstd::prelude::*;

use crate::env_vars::EnvVars;
use crate::text::same_text;

verus! {

/// The legacy effort env key.
///
/// Harnesses whose native `thinking_env_var` differs from this constant
/// (currently: Goose uses `GOOSE_THINKING_EFFORT`) need the alias resolver
/// below to translate old saves.  buzz-agent's native key equals this constant,
/// so no aliasing applies there.
pub const LEGACY_THINKING_EFFORT_KEY: &'static str = "BUZZ_AGENT_THINKING_EFFORT";

/// Texts, by what they hold.
pub open spec fn texts(list: Seq<&str>) -> Seq<Seq<char>> {
    list.map_values(|s: &str| s@)
}

/// The effort that one tier asks for. The native variable counts as it stands.
/// Without it the legacy variable counts, unless this is the global tier or the
/// two names are one, and only with an accepted value.
pub open spec fn tier_effort(
    vars: Map<Seq<char>, Seq<char>>,
    native_key: Seq<char>,
    accepted: Seq<Seq<char>>,
    global_tier: bool,
) -> Option<Seq<char>> {
    let legacy_key = LEGACY_THINKING_EFFORT_KEY@;
    if vars.contains_key(native_key) {
        Some(vars[native_key])
    } else if !global_tier && native_key != legacy_key && vars.contains_key(legacy_key)
        && accepted.contains(vars[legacy_key]) {
        Some(vars[legacy_key])
    } else {
        None
    }
}

/// An optional text, by what it holds.
pub open spec fn effort_of(res: Option<String>) -> Option<Seq<char>> {
    match res {
        Some(v) => Some(v@),
        None => None,
    }
}

/// Whether `value` is among `accepted`.
fn is_accepted(value: &str, accepted: &[&str]) -> (res: bool)
    ensures
        res == texts(accepted@).contains(value@),
{
    let mut i: usize = 0;
    while i < accepted.len()
        invariant
            i <= accepted@.len(),
            forall|j: int| 0 <= j < i ==> (#[trigger] accepted@[j])@ != value@,
        decreases accepted@.len() - i,
    {
        if same_text(accepted[i], value) {
            assert(texts(accepted@)[i as int] == value@);
            return true;
        }
        i = i + 1;
    }
    assert(forall|j: int|
        0 <= j < accepted@.len() ==> #[trigger] texts(accepted@)[j] == accepted@[j]@);
    false
}

/// Resolve the thinking-effort value for a single env-var tier map, with
/// within-tier legacy aliasing.
///
/// Lookup order for each tier (applied independently per tier, not globally):
///   1. Native key (`native_key`) — returned as-is; UI never writes invalid values.
///   2. Legacy key (`BUZZ_AGENT_THINKING_EFFORT`) — honoured only when `native_key`
///      differs from the legacy key **and** the value is in `accepted`.
///      An invalid legacy value is skipped (yields `None` for this tier) so the
///      next tier can supply a valid candidate.
///
/// `global_tier` must be `true` for global-env maps: the legacy key is left out
/// of the global tier to avoid attributing a Buzz-agent default to a Goose
/// intent.
pub fn effort_tier_alias(
    map: &EnvVars,
    native_key: &str,
    accepted: &[&str],
    global_tier: bool,
) -> (res: Option<String>)
    ensures
        effort_of(res) == tier_effort(map@, native_key@, texts(accepted@), global_tier),
{
    if let Some(v) = map.get(native_key) {
        return Some(v.clone());
    }
    if !global_tier && !same_text(native_key, LEGACY_THINKING_EFFORT_KEY) {
        if let Some(v) = map.get(LEGACY_THINKING_EFFORT_KEY) {
            if is_accepted(v.as_str(), accepted) {
                return Some(v.clone());
            }
        }
    }
    None
}

// ---- Tiers ---------------------------------------------------------------

/// What an agent's own record says of its environment.
pub struct ManagedAgentRecord {
    pub persona_id: Option<String>,
    pub env_vars: EnvVars,
}

/// What a persona says of its agents' environment.
pub struct AgentDefinition {
    pub id: String,
    pub env_vars: EnvVars,
}

/// What the global defaults say of every agent's environment.
pub struct GlobalAgentConfig {
    pub env_vars: EnvVars,
}

impl Default for GlobalAgentConfig {
    fn default() -> (res: Self)
        ensures
            res.env_vars@ == Map::<Seq<char>, Seq<char>>::empty(),
    {
        GlobalAgentConfig { env_vars: EnvVars::new() }
    }
}

/// How a harness takes the thinking effort: its native variable, and the values
/// it accepts.
pub struct KnownAcpRuntime {
    pub thinking_env_var: Option<&'static str>,
    pub accepted_effort_values: Option<&'static [&'static str]>,
}

/// The environment that an agent is started with.
pub struct EffectiveAgentEnv {
    pub env: EnvVars,
}

/// The variables of the persona with the id `persona_id`: of the first one, if
/// there are several, and none if there is none.
pub open spec fn persona_vars(
    personas: Seq<AgentDefinition>,
    persona_id: Option<Seq<char>>,
) -> Map<Seq<char>, Seq<char>>
    decreases personas.len(),
{
    if personas.len() == 0 {
        Map::empty()
    } else if persona_id == Some(personas[0].id@) {
        personas[0].env_vars@
    } else {
        persona_vars(personas.skip(1), persona_id)
    }
}

/// The effort that the tiers together ask for: that of the nearest tier that
/// asks for one.
pub open spec fn tiered_effort(
    record: Map<Seq<char>, Seq<char>>,
    persona: Map<Seq<char>, Seq<char>>,
    global: Map<Seq<char>, Seq<char>>,
    native_key: Seq<char>,
    accepted: Seq<Seq<char>>,
) -> Option<Seq<char>> {
    match tier_effort(record, native_key, accepted, false) {
        Some(v) => Some(v),
        None => match tier_effort(persona, native_key, accepted, false) {
            Some(v) => Some(v),
            None => tier_effort(global, native_key, accepted, true),
        },
    }
}

/// The values that a harness accepts.
pub open spec fn accepted_by(runtime: KnownAcpRuntime) -> Seq<Seq<char>> {
    match runtime.accepted_effort_values {
        Some(list) => texts(list@),
        None => Seq::empty(),
    }
}

/// The environment that the tiers together give: each variable from the nearest
/// tier that sets it, and the effort that they ask for under the harness's
/// native name.
pub open spec fn effective_env(
    record: Map<Seq<char>, Seq<char>>,
    persona: Map<Seq<char>, Seq<char>>,
    global: Map<Seq<char>, Seq<char>>,
    runtime: Option<KnownAcpRuntime>,
) -> Map<Seq<char>, Seq<char>> {
    let layered = global.union_prefer_right(persona).union_prefer_right(record);
    match runtime {
        Some(rt) => match rt.thinking_env_var {
            Some(native_key) => match tiered_effort(
                record,
                persona,
                global,
                native_key@,
                accepted_by(rt),
            ) {
                Some(v) => layered.insert(native_key@, v),
                None => layered,
            },
            None => layered,
        },
        None => layered,
    }
}

/// The variables of the record's persona.
fn persona_env(record: &ManagedAgentRecord, personas: &[AgentDefinition]) -> (res: EnvVars)
    ensures
        res@ == persona_vars(personas@, effort_of(record.persona_id)),
{
    let mut env = EnvVars::new();
    let wanted = match &record.persona_id {
        Some(id) => id,
        None => {
            proof {
                lemma_no_persona(personas@);
            }
            return env;
        },
    };
    let mut i: usize = 0;
    assert(personas@.skip(0) =~= personas@);
    while i < personas.len()
        invariant
            i <= personas@.len(),
            env@ == Map::<Seq<char>, Seq<char>>::empty(),
            effort_of(record.persona_id) == Some(wanted@),
            persona_vars(personas@, Some(wanted@)) == persona_vars(
                personas@.skip(i as int),
                Some(wanted@),
            ),
        decreases personas@.len() - i,
    {
        assert(personas@.skip(i as int)[0] == personas@[i as int]);
        assert(personas@.skip(i as int).skip(1) =~= personas@.skip(i + 1));
        if same_text(personas[i].id.as_str(), wanted.as_str()) {
            env.overlay(&personas[i].env_vars);
            assert(env@ =~= personas@[i as int].env_vars@);
            return env;
        }
        i = i + 1;
    }
    env
}

/// A record without a persona has no variables from one.
proof fn lemma_no_persona(personas: Seq<AgentDefinition>)
    ensures
        persona_vars(personas, None) == Map::<Seq<char>, Seq<char>>::empty(),
    decreases personas.len(),
{
    if personas.len() > 0 {
        lemma_no_persona(personas.skip(1));
    }
}

/// The effort that the tiers together ask for.
pub fn resolve_thinking_effort(
    record: &EnvVars,
    persona: &EnvVars,
    global: &EnvVars,
    native_key: &str,
    accepted: &[&str],
) -> (res: Option<String>)
    ensures
        effort_of(res) == tiered_effort(
            record@,
            persona@,
            global@,
            native_key@,
            texts(accepted@),
        ),
{
    if let Some(v) = effort_tier_alias(record, native_key, accepted, false) {
        return Some(v);
    }
    if let Some(v) = effort_tier_alias(persona, native_key, accepted, false) {
        return Some(v);
    }
    effort_tier_alias(global, native_key, accepted, true)
}

/// The environment that an agent is started with.
pub fn resolve_effective_agent_env(
    record: &ManagedAgentRecord,
    personas: &[AgentDefinition],
    runtime: Option<&KnownAcpRuntime>,
    global: &GlobalAgentConfig,
) -> (res: EffectiveAgentEnv)
    ensures
        res.env@ == effective_env(
            record.env_vars@,
            persona_vars(personas@, effort_of(record.persona_id)),
            global.env_vars@,
            match runtime {
                Some(rt) => Some(*rt),
                None => None,
            },
        ),
{
    let persona = persona_env(record, personas);
    let mut env = EnvVars::new();
    env.overlay(&global.env_vars);
    assert(env@ =~= global.env_vars@);
    env.overlay(&persona);
    env.overlay(&record.env_vars);
    if let Some(rt) = runtime {
        if let Some(native_key) = rt.thinking_env_var {
            let none: [&'static str; 0] = [];
            let accepted: &[&str] = match rt.accepted_effort_values {
                Some(list) => list,
                None => &none,
            };
            assert(texts(accepted@) =~= accepted_by(*rt));
            match resolve_thinking_effort(
                &record.env_vars,
                &persona,
                &global.env_vars,
                native_key,
                accepted,
            ) {
                Some(v) => env.insert(native_key.to_owned(), v),
                None => {},
            }
        }
    }
    EffectiveAgentEnv { env }
}

// ---- Laws ----------------------------------------------------------------

/// Within a tier the native variable always counts, whatever its value and
/// whatever the legacy variable says.
pub proof fn law_native_key_wins(
    vars: Map<Seq<char>, Seq<char>>,
    native_key: Seq<char>,
    accepted: Seq<Seq<char>>,
    global_tier: bool,
)
    requires
        vars.contains_key(native_key),
    ensures
        tier_effort(vars, native_key, accepted, global_tier) == Some(vars[native_key]),
{
}

/// The global tier never speaks through the legacy variable: what it asks for
/// is what it sets under the native name.
pub proof fn law_global_tier_has_no_alias(
    vars: Map<Seq<char>, Seq<char>>,
    native_key: Seq<char>,
    accepted: Seq<Seq<char>>,
)
    ensures
        tier_effort(vars, native_key, accepted, true) == (if vars.contains_key(native_key) {
            Some(vars[native_key])
        } else {
            None
        }),
{
}

/// A harness whose native variable is the legacy one has no alias: a tier asks
/// for what it sets under that name, accepted or not.
pub proof fn law_own_key_needs_no_alias(
    vars: Map<Seq<char>, Seq<char>>,
    accepted: Seq<Seq<char>>,
    global_tier: bool,
)
    ensures
        tier_effort(vars, LEGACY_THINKING_EFFORT_KEY@, accepted, global_tier) == (
        if vars.contains_key(LEGACY_THINKING_EFFORT_KEY@) {
            Some(vars[LEGACY_THINKING_EFFORT_KEY@])
        } else {
            None
        }),
{
}

/// An effort that no tier sets under the native name is an accepted one.
pub proof fn law_aliased_effort_is_accepted(
    record: Map<Seq<char>, Seq<char>>,
    persona: Map<Seq<char>, Seq<char>>,
    global: Map<Seq<char>, Seq<char>>,
    native_key: Seq<char>,
    accepted: Seq<Seq<char>>,
    effort: Seq<char>,
)
    requires
        tiered_effort(record, persona, global, native_key, accepted) == Some(effort),
        !record.contains_key(native_key),
        !persona.contains_key(native_key),
        !global.contains_key(native_key),
    ensures
        accepted.contains(effort),
{
}

/// An invalid legacy value in a tier leaves the choice to the tiers behind it.
pub proof fn law_invalid_legacy_is_skipped(
    record: Map<Seq<char>, Seq<char>>,
    persona: Map<Seq<char>, Seq<char>>,
    global: Map<Seq<char>, Seq<char>>,
    native_key: Seq<char>,
    accepted: Seq<Seq<char>>,
)
    requires
        !record.contains_key(native_key),
        record.contains_key(LEGACY_THINKING_EFFORT_KEY@),
        !accepted.contains(record[LEGACY_THINKING_EFFORT_KEY@]),
    ensures
        tiered_effort(record, persona, global, native_key, accepted) == tiered_effort(
            Map::empty(),
            persona,
            global,
            native_key,
            accepted,
        ),
{
}

/// The nearer tier counts first: what the record asks for, be it through the
/// legacy variable, comes before what the persona sets, be it under the native
/// name.
pub proof fn law_nearer_tier_wins(
    record: Map<Seq<char>, Seq<char>>,
    persona: Map<Seq<char>, Seq<char>>,
    global: Map<Seq<char>, Seq<char>>,
    native_key: Seq<char>,
    accepted: Seq<Seq<char>>,
)
    ensures
        tier_effort(record, native_key, accepted, false) is Some ==> tiered_effort(
            record,
            persona,
            global,
            native_key,
            accepted,
        ) == tier_effort(record, native_key, accepted, false),
        tier_effort(record, native_key, accepted, false) is None && tier_effort(
            persona,
            native_key,
            accepted,
            false,
        ) is Some ==> tiered_effort(record, persona, global, native_key, accepted) == tier_effort(
            persona,
            native_key,
            accepted,
            false,
        ),
{
}

/// The started agent finds its effort under the native name exactly when the
/// tiers ask for one, and every other variable as the tiers set it.
pub proof fn law_effort_is_bridged(
    record: Map<Seq<char>, Seq<char>>,
    persona: Map<Seq<char>, Seq<char>>,
    global: Map<Seq<char>, Seq<char>>,
    runtime: KnownAcpRuntime,
    native_key: &'static str,
    other: Seq<char>,
)
    requires
        runtime.thinking_env_var == Some(native_key),
        other != native_key@,
    ensures
        ({
            let env = effective_env(record, persona, global, Some(runtime));
            let layered = global.union_prefer_right(persona).union_prefer_right(record);
            let effort = tiered_effort(
                record,
                persona,
                global,
                native_key@,
                accepted_by(runtime),
            );
            &&& env.contains_key(native_key@) <==> effort is Some
            &&& effort is Some ==> env[native_key@] == effort->0
            &&& env.contains_key(other) <==> layered.contains_key(other)
            &&& layered.contains_key(other) ==> env[other] == layered[other]
        }),
{
}

/// Texts keep their number, their order and what they hold.
pub proof fn law_texts_hold_their_own(list: Seq<&str>, i: int, res: Option<String>)
    ensures
        texts(list).len() == list.len(),
        0 <= i < list.len() ==> texts(list)[i] == list[i]@,
        res is None <==> effort_of(res) is None,
        res matches Some(v) ==> effort_of(res) == Some(v@),
{
}

/// In every tier but the global one an accepted legacy value counts where the
/// native variable is not set, if the harness has another native variable.
pub proof fn law_accepted_legacy_counts(
    vars: Map<Seq<char>, Seq<char>>,
    native_key: Seq<char>,
    accepted: Seq<Seq<char>>,
    i: int,
)
    requires
        native_key != "BUZZ_AGENT_THINKING_EFFORT"@,
        !vars.contains_key(native_key),
        vars.contains_key("BUZZ_AGENT_THINKING_EFFORT"@),
        0 <= i < accepted.len(),
        vars["BUZZ_AGENT_THINKING_EFFORT"@] == accepted[i],
    ensures
        tier_effort(vars, native_key, accepted, false) == Some(accepted[i]),
        tier_effort(vars, native_key, accepted, true) is None,
{
    assert(accepted.contains(accepted[i]));
}

/// A tier that sets neither variable, or only a legacy value that is not
/// accepted, asks for nothing.
pub proof fn law_tier_asks_for_nothing(
    vars: Map<Seq<char>, Seq<char>>,
    native_key: Seq<char>,
    accepted: Seq<Seq<char>>,
    global_tier: bool,
)
    requires
        !vars.contains_key(native_key),
        vars.contains_key("BUZZ_AGENT_THINKING_EFFORT"@) ==> forall|i: int|
            0 <= i < accepted.len() ==> #[trigger] accepted[i]
                != vars["BUZZ_AGENT_THINKING_EFFORT"@],
    ensures
        tier_effort(vars, native_key, accepted, global_tier) is None,
{
}

/// The global tier is asked when no nearer one asks for anything.
pub proof fn law_global_tier_is_asked_last(
    record: Map<Seq<char>, Seq<char>>,
    persona: Map<Seq<char>, Seq<char>>,
    global: Map<Seq<char>, Seq<char>>,
    native_key: Seq<char>,
    accepted: Seq<Seq<char>>,
)
    requires
        tier_effort(record, native_key, accepted, false) is None,
        tier_effort(persona, native_key, accepted, false) is None,
    ensures
        global.contains_key(native_key) ==> tiered_effort(
            record,
            persona,
            global,
            native_key,
            accepted,
        ) == Some(global[native_key]),
        !global.contains_key(native_key) ==> tiered_effort(
            record,
            persona,
            global,
            native_key,
            accepted,
        ) is None,
{
}

/// Every value of the harness's own list is bridged: a record that does not set
/// the native variable and whose legacy value is any of them starts its agent
/// with that value under the native name. The same holds of a persona behind a
/// record that sets neither.
pub proof fn law_listed_legacy_value_is_bridged(
    record: Map<Seq<char>, Seq<char>>,
    persona: Map<Seq<char>, Seq<char>>,
    global: Map<Seq<char>, Seq<char>>,
    runtime: KnownAcpRuntime,
    native_key: &'static str,
    list: &'static [&'static str],
    i: int,
)
    requires
        runtime.thinking_env_var == Some(native_key),
        runtime.accepted_effort_values == Some(list),
        native_key@ != "BUZZ_AGENT_THINKING_EFFORT"@,
        0 <= i < list@.len(),
    ensures
        ({
            let legacy = "BUZZ_AGENT_THINKING_EFFORT"@;
            let env = effective_env(record, persona, global, Some(runtime));
            &&& !record.contains_key(native_key@) && record.contains_key(legacy) && record[legacy]
                == list@[i]@ ==> env.contains_key(native_key@) && env[native_key@] == list@[i]@
            &&& !record.contains_key(native_key@) && !record.contains_key(legacy)
                && !persona.contains_key(native_key@) && persona.contains_key(legacy)
                && persona[legacy] == list@[i]@ ==> env.contains_key(native_key@)
                && env[native_key@] == list@[i]@
        }),
{
    let accepted = accepted_by(runtime);
    assert(accepted[i] == list@[i]@);
    assert(accepted.contains(list@[i]@));
}

/// A legacy value that is not in the harness's list is not bridged, and without a
/// list none is: where no tier sets the native variable, the agent is started
/// without it.
pub proof fn law_unlisted_legacy_value_is_not_bridged(
    record: Map<Seq<char>, Seq<char>>,
    persona: Map<Seq<char>, Seq<char>>,
    global: Map<Seq<char>, Seq<char>>,
    runtime: KnownAcpRuntime,
    native_key: &'static str,
)
    requires
        runtime.thinking_env_var == Some(native_key),
        !record.contains_key(native_key@),
        !persona.contains_key(native_key@),
        !global.contains_key(native_key@),
        runtime.accepted_effort_values matches Some(list) ==> forall|i: int|
            0 <= i < list@.len() ==> {
                &&& record.contains_key("BUZZ_AGENT_THINKING_EFFORT"@) ==> (#[trigger] list@[i])@
                    != record["BUZZ_AGENT_THINKING_EFFORT"@]
                &&& persona.contains_key("BUZZ_AGENT_THINKING_EFFORT"@) ==> list@[i]@
                    != persona["BUZZ_AGENT_THINKING_EFFORT"@]
            },
    ensures
        !effective_env(record, persona, global, Some(runtime)).contains_key(native_key@),
{
    let accepted = accepted_by(runtime);
    if let Some(list) = runtime.accepted_effort_values {
        assert forall|i: int| 0 <= i < accepted.len() implies {
            &&& record.contains_key("BUZZ_AGENT_THINKING_EFFORT"@) ==> #[trigger] accepted[i]
                != record["BUZZ_AGENT_THINKING_EFFORT"@]
            &&& persona.contains_key("BUZZ_AGENT_THINKING_EFFORT"@) ==> accepted[i]
                != persona["BUZZ_AGENT_THINKING_EFFORT"@]
        } by {
            assert(accepted[i] == list@[i]@);
        }
    }
}

/// The nearest tier that sets the native variable has its value in the agent's
/// environment, unless a nearer one asks through the legacy variable; so the
/// record's own native value always stands.
pub proof fn law_own_native_value_stands(
    record: Map<Seq<char>, Seq<char>>,
    persona: Map<Seq<char>, Seq<char>>,
    global: Map<Seq<char>, Seq<char>>,
    runtime: KnownAcpRuntime,
    native_key: &'static str,
)
    requires
        runtime.thinking_env_var == Some(native_key),
    ensures
        ({
            let legacy = "BUZZ_AGENT_THINKING_EFFORT"@;
            let env = effective_env(record, persona, global, Some(runtime));
            &&& record.contains_key(native_key@) ==> env.contains_key(native_key@)
                && env[native_key@] == record[native_key@]
            &&& !record.contains_key(native_key@) && !record.contains_key(legacy)
                && persona.contains_key(native_key@) ==> env.contains_key(native_key@)
                && env[native_key@] == persona[native_key@]
            &&& !record.contains_key(native_key@) && !record.contains_key(legacy)
                && !persona.contains_key(native_key@) && !persona.contains_key(legacy)
                && global.contains_key(native_key@) ==> env.contains_key(native_key@)
                && env[native_key@] == global[native_key@]
        }),
{
}

/// Every other variable comes from the nearest tier that sets it, and one that no
/// tier sets is not there. A harness that is not known, or has no variable for
/// the effort, changes none.
pub proof fn law_variables_come_from_the_nearest_tier(
    record: Map<Seq<char>, Seq<char>>,
    persona: Map<Seq<char>, Seq<char>>,
    global: Map<Seq<char>, Seq<char>>,
    runtime: Option<KnownAcpRuntime>,
    key: Seq<char>,
)
    requires
        runtime matches Some(rt) ==> (rt.thinking_env_var matches Some(native_key) ==> native_key@
            != key),
    ensures
        ({
            let env = effective_env(record, persona, global, runtime);
            &&& record.contains_key(key) ==> env.contains_key(key) && env[key] == record[key]
            &&& !record.contains_key(key) && persona.contains_key(key) ==> env.contains_key(key)
                && env[key] == persona[key]
            &&& !record.contains_key(key) && !persona.contains_key(key) && global.contains_key(key)
                ==> env.contains_key(key) && env[key] == global[key]
            &&& !record.contains_key(key) && !persona.contains_key(key) && !global.contains_key(key)
                ==> !env.contains_key(key)
        }),
{
}

/// The persona of a record is the first one with its id; without such a persona,
/// or without an id, there are no variables from one.
pub proof fn law_persona_is_the_first_of_its_id(
    personas: Seq<AgentDefinition>,
    persona_id: Option<Seq<char>>,
    k: int,
)
    ensures
        0 <= k < personas.len() && persona_id == Some(personas[k].id@) && (forall|j: int|
            0 <= j < k ==> persona_id != Some((#[trigger] personas[j]).id@)) ==> persona_vars(
            personas,
            persona_id,
        ) == personas[k].env_vars@,
        (forall|j: int|
            0 <= j < personas.len() ==> persona_id != Some((#[trigger] personas[j]).id@))
            ==> persona_vars(personas, persona_id) == Map::<Seq<char>, Seq<char>>::empty(),
        persona_id is None ==> persona_vars(personas, persona_id) == Map::<
            Seq<char>,
            Seq<char>,
        >::empty(),
    decreases personas.len(),
{
    if personas.len() > 0 && persona_id != Some(personas[0].id@) {
        let rest = personas.skip(1);
        law_persona_is_the_first_of_its_id(rest, persona_id, k - 1);
        assert(forall|j: int| 0 <= j < rest.len() ==> #[trigger] rest[j] == personas[j + 1]);
        if 0 < k < personas.len() && (forall|j: int|
            0 <= j < k ==> persona_id != Some((#[trigger] personas[j]).id@)) {
            assert forall|j: int| 0 <= j < k - 1 implies persona_id != Some(
                (#[trigger] rest[j]).id@,
            ) by {
                assert(personas[j + 1].id@ == rest[j].id@);
            }
        }
        if forall|j: int|
            0 <= j < personas.len() ==> persona_id != Some((#[trigger] personas[j]).id@) {
            assert forall|j: int| 0 <= j < rest.len() implies persona_id != Some(
                (#[trigger] rest[j]).id@,
            ) by {
                assert(personas[j + 1].id@ == rest[j].id@);
            }
        }
    }
}

} // verus!
