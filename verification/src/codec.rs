//! Fail-closed decoding of the store's files.

use vstd::prelude::*;

use crate::text::{join2, same_text};

verus! {

/// Parse error type. The raw bytes are never silently discarded — callers
/// receive this error and MUST NOT proceed with mutation.
#[derive(Debug)]
pub struct StoreDecodeError {
    pub message: String,
}

impl StoreDecodeError {
    /// The text that is shown for the error.
    pub fn text(&self) -> (res: String)
        ensures
            res@ == self.message@,
    {
        self.message.clone()
    }
}

/// What decoding a file comes to: the records as they were parsed, or the
/// parser's message behind the words for the file.
pub open spec fn decoded<R>(
    words: Seq<char>,
    parsed: Result<Vec<R>, String>,
    res: Result<Vec<R>, StoreDecodeError>,
) -> bool {
    match parsed {
        Ok(records) => res == Ok::<Vec<R>, StoreDecodeError>(records),
        Err(e) => res matches Err(error) && error.message@ == words + e@,
    }
}

/// Decode `managed-agents.json` bytes using the fail-closed codec. `parse` reads
/// the JSON of a list of records, or gives the text of its error.
///
/// Returns `Ok(records)` or `Err(StoreDecodeError)`. The caller MUST NOT proceed
/// with any mutation when this returns `Err`.
pub fn decode_agent_store<R, F: Fn(&[u8]) -> Result<Vec<R>, String>>(bytes: &[u8], parse: F) -> (res: Result<
    Vec<R>,
    StoreDecodeError,
>)
    requires
        call_requires(parse, (bytes,)),
    ensures
        exists|parsed: Result<Vec<R>, String>| #[trigger]
            call_ensures(parse, (bytes,), parsed) && decoded("agent store decode failed: "@, parsed, res),
        res matches Ok(records) ==> call_ensures(parse, (bytes,), Ok::<Vec<R>, String>(records)),
        res matches Err(error) ==> exists|e: String| #[trigger]
            call_ensures(parse, (bytes,), Err::<Vec<R>, String>(e)) && error.message@
                == "agent store decode failed: "@ + e@,
{
    let parsed = parse(bytes);
    match parsed {
        Ok(records) => Ok(records),
        Err(e) => Err(
            StoreDecodeError { message: join2("agent store decode failed: ", e.as_str()) },
        ),
    }
}

/// Decode `teams.json` bytes using the fail-closed codec. `parse` reads the JSON
/// of a list of records, or gives the text of its error.
pub fn decode_team_store<R, F: Fn(&[u8]) -> Result<Vec<R>, String>>(bytes: &[u8], parse: F) -> (res: Result<
    Vec<R>,
    StoreDecodeError,
>)
    requires
        call_requires(parse, (bytes,)),
    ensures
        exists|parsed: Result<Vec<R>, String>| #[trigger]
            call_ensures(parse, (bytes,), parsed) && decoded("team store decode failed: "@, parsed, res),
        res matches Ok(records) ==> call_ensures(parse, (bytes,), Ok::<Vec<R>, String>(records)),
        res matches Err(error) ==> exists|e: String| #[trigger]
            call_ensures(parse, (bytes,), Err::<Vec<R>, String>(e)) && error.message@
                == "team store decode failed: "@ + e@,
{
    let parsed = parse(bytes);
    match parsed {
        Ok(records) => Ok(records),
        Err(e) => Err(
            StoreDecodeError { message: join2("team store decode failed: ", e.as_str()) },
        ),
    }
}

// ---- Permissive decoding of one record -----------------------------------

/// A JSON value.
#[verifier::external_type_specification]
#[verifier::external_body]
pub struct ExValue(serde_json::Value);

/// Whether a JSON value is an object.
pub uninterp spec fn json_is_object(v: serde_json::Value) -> bool;

/// The fields of a JSON object.
pub uninterp spec fn json_fields(v: serde_json::Value) -> Map<Seq<char>, serde_json::Value>;

/// `serde_json::Value::as_object_mut` and `serde_json::Map::remove`: an object
/// loses the field, if it has it, and keeps the others; any other value is left
/// as it is. The result tells whether the value is an object.
#[verifier::external_body]
fn remove_field(v: &mut serde_json::Value, field: &str) -> (res: bool)
    ensures
        res == json_is_object(*old(v)),
        json_is_object(*final(v)) == json_is_object(*old(v)),
        res ==> json_fields(*final(v)) == json_fields(*old(v)).remove(field@),
        !res ==> *final(v) == *old(v),
{
    match v.as_object_mut() {
        Some(fields) => {
            fields.remove(field);
            true
        },
        None => false,
    }
}

/// The words with which the parser reports a field that it does not know.
pub const UNKNOWN_FIELD: &'static str = "unknown field `";

/// The part of `s` before the first `c`; all of `s` if there is none.
pub open spec fn text_before(s: Seq<char>, c: char) -> Seq<char>
    decreases s.len(),
{
    if s.len() == 0 || s[0] == c {
        Seq::empty()
    } else {
        seq![s[0]] + text_before(s.skip(1), c)
    }
}

/// The field that the parser's message names as unknown, if it names one.
pub open spec fn unknown_field(message: Seq<char>) -> Option<Seq<char>> {
    if UNKNOWN_FIELD@.is_prefix_of(message) {
        Some(text_before(message.skip(UNKNOWN_FIELD@.len() as int), '`'))
    } else {
        None
    }
}

/// The part of a text before a character ends at the first position that holds
/// it, or at the end.
proof fn lemma_text_before(s: Seq<char>, c: char, n: int)
    requires
        0 <= n <= s.len(),
        forall|i: int| 0 <= i < n ==> s[i] != c,
        n < s.len() ==> s[n] == c,
    ensures
        text_before(s, c) == s.take(n),
    decreases n,
{
    if n > 0 {
        lemma_text_before(s.skip(1), c, n - 1);
        assert(s.take(n) =~= seq![s[0]] + s.skip(1).take(n - 1));
    } else {
        assert(s.take(0) =~= Seq::empty());
    }
}

/// The field that the parser's message names as unknown, if it names one.
pub fn unknown_field_name(message: &str) -> (res: Option<String>)
    ensures
        match res {
            Some(name) => unknown_field(message@) == Some(name@),
            None => unknown_field(message@) is None,
        },
{
    let start: usize = UNKNOWN_FIELD.unicode_len();
    let n: usize = message.unicode_len();
    if n < start {
        return None;
    }
    if !same_text(message.substring_char(0, start), UNKNOWN_FIELD) {
        return None;
    }
    assert(message@.subrange(0, start as int) =~= message@.take(start as int));
    let mut end: usize = start;
    while end < n && message.get_char(end) != '`'
        invariant
            start <= end <= n,
            n == message@.len(),
            forall|i: int| start <= i < end ==> message@[i] != '`',
        decreases n - end,
    {
        end = end + 1;
    }
    proof {
        lemma_text_before(message@.skip(start as int), '`', end - start);
        assert(message@.skip(start as int).take(end - start) =~= message@.subrange(
            start as int,
            end as int,
        ));
    }
    Some(message.substring_char(start, end).to_owned())
}

/// `res` is what decoding `v` comes to within `attempts` attempts. An attempt
/// that fails on an unknown field is made again without that field; any other
/// failure, and a value that is no object, ends it.
pub open spec fn permissive<R, F: Fn(&serde_json::Value) -> Result<R, String>>(
    decode: F,
    v: serde_json::Value,
    attempts: nat,
    res: Option<R>,
) -> bool
    decreases attempts,
{
    if attempts == 0 {
        res is None
    } else {
        exists|tried: Result<R, String>|
            {
                &&& #[trigger] call_ensures(decode, (&v,), tried)
                &&& match tried {
                    Ok(record) => res == Some(record),
                    Err(message) => match unknown_field(message@) {
                        None => res is None,
                        Some(name) => if json_is_object(v) {
                            exists|w: serde_json::Value|
                                {
                                    &&& #[trigger] without_field(v, name, w)
                                    &&& permissive(decode, w, (attempts - 1) as nat, res)
                                }
                        } else {
                            res is None
                        },
                    },
                }
            }
    }
}

/// `w` is the object `v` without the field `name`.
pub open spec fn without_field(v: serde_json::Value, name: Seq<char>, w: serde_json::Value) -> bool {
    json_is_object(w) && json_fields(w) == json_fields(v).remove(name)
}

/// One more attempt, after one that failed on an unknown field.
proof fn lemma_one_more_attempt<R, F: Fn(&serde_json::Value) -> Result<R, String>>(
    decode: F,
    v: serde_json::Value,
    message: String,
    name: Seq<char>,
    w: serde_json::Value,
    attempts: nat,
    res: Option<R>,
)
    requires
        call_ensures(decode, (&v,), Err::<R, String>(message)),
        unknown_field(message@) == Some(name),
        json_is_object(v),
        without_field(v, name, w),
        permissive(decode, w, attempts, res),
    ensures
        permissive(decode, v, attempts + 1, res),
{
    let more = attempts + 1;
    assert((more - 1) as nat == attempts);
    assert(without_field(v, unknown_field(message@)->0, w));
    assert(permissive(decode, v, more, res));
}

/// How often a record is tried.
pub const PERMISSIVE_ATTEMPTS: u32 = 32;

/// Leniently decode a single record from a JSON value that may contain unknown
/// fields from a future schema version. `decode` is the strict decoder; it
/// gives the record or the parser's message.
///
/// Intended for **read-only** migration helpers that compute hashes or
/// inspect existing store records — not for decoding user-provided or
/// externally-sourced data (use `decode_agent_store` for those paths).
///
/// Repeatedly strips unrecognized fields (identified from the parser's
/// message) and retries until decode succeeds or the attempts are exhausted.
/// Returns `None` when the record is structurally invalid (missing required
/// fields, wrong types) after stripping.
pub fn decode_agent_record_permissive<R, F: Fn(&serde_json::Value) -> Result<R, String>>(
    v: serde_json::Value,
    decode: F,
) -> (res: Option<R>)
    requires
        forall|w: serde_json::Value| call_requires(decode, (&w,)),
    ensures
        permissive(decode, v, PERMISSIVE_ATTEMPTS as nat, res),
{
    let mut current = v;
    let mut left: u32 = PERMISSIVE_ATTEMPTS;
    while left > 0
        invariant
            forall|w: serde_json::Value| call_requires(decode, (&w,)),
            forall|res: Option<R>|
                permissive(decode, current, left as nat, res) ==> #[trigger] permissive(
                    decode,
                    v,
                    PERMISSIVE_ATTEMPTS as nat,
                    res,
                ),
        decreases left,
    {
        let ghost before = current;
        let tried = decode(&current);
        assert(call_ensures(decode, (&before,), tried));
        match tried {
            Ok(record) => {
                assert(permissive(decode, before, left as nat, Some(record)));
                return Some(record);
            },
            Err(message) => {
                let name = match unknown_field_name(message.as_str()) {
                    Some(name) => name,
                    None => {
                        assert(permissive(decode, before, left as nat, None::<R>));
                        return None;
                    },
                };
                if !remove_field(&mut current, name.as_str()) {
                    assert(permissive(decode, before, left as nat, None::<R>));
                    return None;
                }
                assert(without_field(before, name@, current));
                assert forall|res: Option<R>|
                    permissive(decode, current, (left - 1) as nat, res) implies #[trigger] permissive(
                    decode,
                    v,
                    PERMISSIVE_ATTEMPTS as nat,
                    res,
                ) by {
                    lemma_one_more_attempt(
                        decode,
                        before,
                        message,
                        name@,
                        current,
                        (left - 1) as nat,
                        res,
                    );
                }
            },
        }
        left = left - 1;
    }
    assert(permissive(decode, current, 0, None::<R>));
    None
}

/// A record that permissive decoding gives was decoded from the value itself or
/// from the object that is left of it when some fields are taken away: no field
/// is added and none is changed.
pub proof fn law_permissive_only_strips<R, F: Fn(&serde_json::Value) -> Result<R, String>>(
    decode: F,
    v: serde_json::Value,
    attempts: nat,
    record: R,
)
    requires
        permissive(decode, v, attempts, Some(record)),
    ensures
        exists|w: serde_json::Value|
            {
                &&& #[trigger] call_ensures(decode, (&w,), Ok::<R, String>(record))
                &&& w == v || json_is_object(v) && json_is_object(w) && json_fields(w).submap_of(
                    json_fields(v),
                )
            },
    decreases attempts,
{
    let tried = choose|tried: Result<R, String>|
        {
            &&& #[trigger] call_ensures(decode, (&v,), tried)
            &&& match tried {
                Ok(given) => Some(record) == Some(given),
                Err(message) => match unknown_field(message@) {
                    None => false,
                    Some(name) => json_is_object(v) && exists|w: serde_json::Value|
                        {
                            &&& #[trigger] without_field(v, name, w)
                            &&& permissive(decode, w, (attempts - 1) as nat, Some(record))
                        },
                },
            }
        };
    match tried {
        Ok(_) => {},
        Err(message) => {
            let name = unknown_field(message@)->0;
            let w = choose|w: serde_json::Value|
                {
                    &&& #[trigger] without_field(v, name, w)
                    &&& permissive(decode, w, (attempts - 1) as nat, Some(record))
                };
            law_permissive_only_strips(decode, w, (attempts - 1) as nat, record);
            let last = choose|x: serde_json::Value|
                {
                    &&& #[trigger] call_ensures(decode, (&x,), Ok::<R, String>(record))
                    &&& x == w || json_is_object(w) && json_is_object(x) && json_fields(
                        x,
                    ).submap_of(json_fields(w))
                };
            assert(json_fields(w).submap_of(json_fields(v)));
            assert forall|k: Seq<char>| #[trigger]
                json_fields(last).dom().contains(k) implies json_fields(v).dom().contains(k)
                && json_fields(last)[k] == json_fields(v)[k] by {
                assert(json_fields(w).dom().contains(k));
            }
        },
    }
}

/// A field that the parser names as unknown is read out of its message as it
/// stands there.
pub proof fn law_unknown_field_is_found(name: Seq<char>, rest: Seq<char>)
    requires
        forall|i: int| 0 <= i < name.len() ==> name[i] != '`',
    ensures
        unknown_field(UNKNOWN_FIELD@ + name + "`"@ + rest) == Some(name),
{
    reveal_strlit("`");
    let message = UNKNOWN_FIELD@ + name + "`"@ + rest;
    let tail = name + "`"@ + rest;
    assert(message.skip(UNKNOWN_FIELD@.len() as int) =~= tail);
    lemma_text_before(tail, '`', name.len() as int);
    assert(tail.take(name.len() as int) =~= name);
}

/// Decoding is all or nothing: exactly the records that the parser gave, as many
/// and in the same order, or an error with the parser's words, and an error
/// exactly if the parser gave one.
pub proof fn law_decoding_is_all_or_nothing<R>(
    words: Seq<char>,
    parsed: Result<Vec<R>, String>,
    res: Result<Vec<R>, StoreDecodeError>,
)
    requires
        decoded(words, parsed, res),
    ensures
        res is Err <==> parsed is Err,
        parsed matches Ok(records) ==> (res matches Ok(given) && given@.len() == records@.len()
            && forall|i: int| 0 <= i < records@.len() ==> #[trigger] given@[i] == records@[i]),
        parsed matches Err(e) ==> (res matches Err(error) && error.message@ == words + e@),
{
}

/// The name of an unknown field is what stands in the message between the words
/// for it and the next backquote, or its end; a message that does not begin with
/// those words names none.
pub proof fn law_unknown_field_is_quoted(message: Seq<char>)
    ensures
        match unknown_field(message) {
            Some(name) => {
                let start = "unknown field `"@.len() as int;
                &&& start + name.len() <= message.len()
                &&& message.take(start) == "unknown field `"@
                &&& message.subrange(start, start + name.len()) == name
                &&& forall|i: int| 0 <= i < name.len() ==> #[trigger] name[i] != '`'
                &&& start + name.len() < message.len() ==> message[start + name.len()] == '`'
            },
            None => message.len() < "unknown field `"@.len() || message.take(
                "unknown field `"@.len() as int,
            ) != "unknown field `"@,
        },
{
    let start = "unknown field `"@.len() as int;
    if UNKNOWN_FIELD@.is_prefix_of(message) {
        assert(message.take(start) =~= UNKNOWN_FIELD@);
        let rest = message.skip(start);
        lemma_text_before_ends(rest, '`');
        let name = text_before(rest, '`');
        assert(message.subrange(start, start + name.len()) =~= rest.take(name.len() as int));
        if start + name.len() < message.len() {
            assert(message[start + name.len()] == rest[name.len() as int]);
        }
    } else if message.len() >= start {
        assert(message.take(start) =~= message.subrange(0, start));
    }
}

/// The part of a text before a character is a beginning of it that does not hold
/// the character, up to where it stands.
proof fn lemma_text_before_ends(s: Seq<char>, c: char)
    ensures
        text_before(s, c).len() <= s.len(),
        s.take(text_before(s, c).len() as int) == text_before(s, c),
        forall|i: int|
            0 <= i < text_before(s, c).len() ==> #[trigger] text_before(s, c)[i] != c,
        text_before(s, c).len() < s.len() ==> s[text_before(s, c).len() as int] == c,
    decreases s.len(),
{
    if s.len() > 0 && s[0] != c {
        let rest = s.skip(1);
        let tail = text_before(rest, c);
        lemma_text_before_ends(rest, c);
        let all = text_before(s, c);
        assert(all =~= seq![s[0]] + tail);
        assert(s.take(all.len() as int) =~= all) by {
            assert forall|i: int| 0 <= i < all.len() implies s[i] == all[i] by {
                if i > 0 {
                    assert(rest.take(tail.len() as int)[i - 1] == rest[i - 1]);
                }
            }
        }
        assert forall|i: int| 0 <= i < all.len() implies #[trigger] all[i] != c by {
            if i > 0 {
                assert(all[i] == tail[i - 1]);
            }
        }
        if all.len() < s.len() {
            assert(s[all.len() as int] == rest[tail.len() as int]);
        }
    } else {
        assert(s.take(0) =~= Seq::empty());
    }
}

/// Permissive decoding follows the strict decoder's answers. While attempts are
/// left: a record is given; an unknown field of an object is taken away, with one
/// attempt less; and any other error, or a value that is no object, gives none.
/// There are thirty-two attempts.
pub proof fn law_permissive_follows_the_decoder<R, F: Fn(&serde_json::Value) -> Result<R, String>>(
    decode: F,
    v: serde_json::Value,
    attempts: nat,
    tried: Result<R, String>,
    res: Option<R>,
)
    requires
        attempts > 0,
        forall|other: Result<R, String>| #[trigger]
            call_ensures(decode, (&v,), other) ==> other == tried,
        permissive(decode, v, attempts, res),
    ensures
        PERMISSIVE_ATTEMPTS == 32,
        tried matches Ok(record) ==> res == Some(record),
        tried matches Err(message) ==> match unknown_field(message@) {
            None => res is None,
            Some(name) => if json_is_object(v) {
                exists|w: serde_json::Value|
                    {
                        &&& json_is_object(w)
                        &&& #[trigger] json_fields(w) == json_fields(v).remove(name)
                        &&& permissive(decode, w, (attempts - 1) as nat, res)
                    }
            } else {
                res is None
            },
        },
        permissive(decode, v, 0, res) ==> res is None,
{
    let t = choose|t: Result<R, String>|
        {
            &&& #[trigger] call_ensures(decode, (&v,), t)
            &&& match t {
                Ok(record) => res == Some(record),
                Err(message) => match unknown_field(message@) {
                    None => res is None,
                    Some(name) => if json_is_object(v) {
                        exists|w: serde_json::Value|
                            {
                                &&& #[trigger] without_field(v, name, w)
                                &&& permissive(decode, w, (attempts - 1) as nat, res)
                            }
                    } else {
                        res is None
                    },
                },
            }
        };
    assert(t == tried);
    if let Err(message) = tried {
        if let Some(name) = unknown_field(message@) {
            if json_is_object(v) {
                let w = choose|w: serde_json::Value|
                    {
                        &&& #[trigger] without_field(v, name, w)
                        &&& permissive(decode, w, (attempts - 1) as nat, res)
                    };
                assert(json_fields(w) == json_fields(v).remove(name));
            }
        }
    }
}

} // verus!
