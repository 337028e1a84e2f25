//! Per-key generations: the compare-and-set rule and its tombstones.
//!
//! A key carries a generation counter and a tombstone flag. A write names the
//! generation it expects to find; it is let through only when that is the
//! stored one and the key has no tombstone, and it then advances the counter
//! by one.

use vstd::prelude::*;

use crate::text::{decimal, join3, outcome, parse_u64, u64_text};
use crate::text::{law_u64_text_reads_back, u64_of_text, u64_parse_error};

verus! {

/// Generation counter of a key. It is stored as decimal text, which holds the
/// full range of `u64`.
#[derive(Debug, Clone, Copy, PartialEq, Eq, PartialOrd, Ord, Structural)]
pub struct Generation(pub u64);

/// The message of a counter that has no successor.
pub open spec fn overflow_message(g: Generation) -> Seq<char> {
    "generation overflow at "@ + decimal(g.0 as nat) + ": CAS cannot advance"@
}

/// The message of a stored text that is no generation.
pub open spec fn generation_parse_message(s: Seq<char>) -> Seq<char> {
    "parse generation '"@ + s + "': "@ + u64_parse_error(s)
}

/// The generation after `g`.
pub open spec fn successor(g: Generation) -> Result<Generation, Seq<char>> {
    if g.0 < u64::MAX {
        Ok(Generation((g.0 + 1) as u64))
    } else {
        Err(overflow_message(g))
    }
}

/// The generation that a stored text stands for.
pub open spec fn generation_of_text(s: Seq<char>) -> Result<Generation, Seq<char>> {
    match u64_of_text(s) {
        Some(n) => Ok(Generation(n)),
        None => Err(generation_parse_message(s)),
    }
}

impl Generation {
    /// The generation of a key that was never written.
    pub fn zero() -> (res: Self)
        ensures
            res == Generation(0),
    {
        Generation(0)
    }

    /// The next generation. The last one has none.
    pub fn next(self) -> (res: Result<Self, String>)
        ensures
            outcome(res) == successor(self),
            self.0 < u64::MAX ==> (res matches Ok(next) && next.0 == self.0 + 1),
            self.0 == u64::MAX ==> (res matches Err(message) && message@
                == "generation overflow at "@ + decimal(self.0 as nat) + ": CAS cannot advance"@),
    {
        match self.0.checked_add(1) {
            Some(n) => Ok(Generation(n)),
            None => {
                let at = u64_text(self.0);
                Err(join3("generation overflow at ", at.as_str(), ": CAS cannot advance"))
            },
        }
    }

    /// Reads a stored generation.
    pub fn from_str(s: &str) -> (res: Result<Self, String>)
        ensures
            outcome(res) == generation_of_text(s@),
            res matches Ok(g) ==> u64_of_text(s@) == Some(g.0),
            res matches Err(message) ==> u64_of_text(s@) is None && message@
                == "parse generation '"@ + s@ + "': "@ + u64_parse_error(s@),
    {
        match parse_u64(s) {
            Ok(n) => Ok(Generation(n)),
            Err(e) => {
                let mut message = join3("parse generation '", s, "': ");
                message.append(e.as_str());
                Err(message)
            },
        }
    }

    /// The text under which a generation is stored.
    pub fn to_db_str(self) -> (res: String)
        ensures
            res@ == decimal(self.0 as nat),
    {
        u64_text(self.0)
    }
}

/// Outcome of a generation CAS attempt.
#[derive(Debug, Clone, Copy, PartialEq, Eq, Structural)]
pub enum CasOutcome {
    /// CAS succeeded; `new_generation` is the committed value.
    Committed { new_generation: Generation },
    /// The stored generation was not the expected one; it is returned so that
    /// the caller can decide how to proceed.
    Conflict { current: Generation },
    /// The key has a tombstone.
    Tombstoned { tombstone_generation: Generation },
}

/// What is known of a key: its generation, and whether it is deleted.
#[derive(Debug, Clone, Copy, PartialEq, Eq, Structural)]
pub struct KeyState {
    pub generation: Generation,
    pub is_tombstone: bool,
}

/// The compare-and-set rule. `Committed` stands for a write that is let
/// through and for the generation it stores.
pub open spec fn cas_verdict(key: KeyState, expected: Generation) -> Result<CasOutcome, Seq<char>> {
    if key.is_tombstone {
        Ok(CasOutcome::Tombstoned { tombstone_generation: key.generation })
    } else if key.generation != expected {
        Ok(CasOutcome::Conflict { current: key.generation })
    } else {
        match successor(expected) {
            Ok(new_generation) => Ok(CasOutcome::Committed { new_generation }),
            Err(message) => Err(message),
        }
    }
}

/// Judges a write that expects `expected` against what is stored.
pub fn judge_cas(key: KeyState, expected: Generation) -> (res: Result<CasOutcome, String>)
    ensures
        outcome(res) == cas_verdict(key, expected),
        key.is_tombstone ==> res == Ok::<CasOutcome, String>(
            CasOutcome::Tombstoned { tombstone_generation: key.generation },
        ),
        !key.is_tombstone && key.generation != expected ==> res == Ok::<CasOutcome, String>(
            CasOutcome::Conflict { current: key.generation },
        ),
        !key.is_tombstone && key.generation == expected && expected.0 < u64::MAX ==> res == Ok::<
            CasOutcome,
            String,
        >(CasOutcome::Committed { new_generation: Generation((expected.0 + 1) as u64) }),
        !key.is_tombstone && key.generation == expected && expected.0 == u64::MAX ==> res is Err,
{
    if key.is_tombstone {
        return Ok(CasOutcome::Tombstoned { tombstone_generation: key.generation });
    }
    if key.generation != expected {
        return Ok(CasOutcome::Conflict { current: key.generation });
    }
    match expected.next() {
        Ok(new_generation) => Ok(CasOutcome::Committed { new_generation }),
        Err(message) => Err(message),
    }
}

// ---- Laws ----------------------------------------------------------------

/// A write to a key, with the generation it expects.
pub enum KeyWrite {
    Advance(Generation),
    Bury(Generation),
}

impl KeyWrite {
    pub open spec fn expected(self) -> Generation {
        match self {
            KeyWrite::Advance(g) => g,
            KeyWrite::Bury(g) => g,
        }
    }
}

/// The key after one write: what a committed write stores, or the key as it
/// was.
pub open spec fn key_after(key: KeyState, write: KeyWrite) -> KeyState {
    match cas_verdict(key, write.expected()) {
        Ok(CasOutcome::Committed { new_generation }) => KeyState {
            generation: new_generation,
            is_tombstone: write is Bury,
        },
        _ => key,
    }
}

/// The key after a row of writes.
pub open spec fn key_after_all(key: KeyState, writes: Seq<KeyWrite>) -> KeyState
    decreases writes.len(),
{
    if writes.len() == 0 {
        key
    } else {
        key_after(key_after_all(key, writes.drop_last()), writes.last())
    }
}

/// A stored generation reads back as itself.
pub proof fn law_generation_reads_back(g: Generation)
    ensures
        generation_of_text(decimal(g.0 as nat)) == Ok::<Generation, Seq<char>>(g),
{
    law_u64_text_reads_back(g.0);
}

/// A committed write stores exactly the expected generation plus one, and was
/// let through only on the expected generation of a live key.
pub proof fn law_commit_advances_by_one(key: KeyState, expected: Generation, new_generation: Generation)
    requires
        cas_verdict(key, expected) == Ok::<CasOutcome, Seq<char>>(
            CasOutcome::Committed { new_generation },
        ),
    ensures
        !key.is_tombstone,
        key.generation == expected,
        new_generation.0 == expected.0 + 1,
{
}

/// Of two writes that expect the same generation, only the first can commit:
/// the second finds the new generation, or the tombstone, and is told so.
pub proof fn law_same_expectation_commits_once(key: KeyState, first: KeyWrite, second: KeyWrite)
    requires
        first.expected() == second.expected(),
        cas_verdict(key, first.expected()) matches Ok(CasOutcome::Committed { .. }),
    ensures
        ({
            let stored = key_after(key, first);
            let told = cas_verdict(stored, second.expected());
            &&& first is Advance ==> told == Ok::<CasOutcome, Seq<char>>(
                CasOutcome::Conflict { current: stored.generation },
            )
            &&& first is Bury ==> told == Ok::<CasOutcome, Seq<char>>(
                CasOutcome::Tombstoned { tombstone_generation: stored.generation },
            )
        }),
{
}

/// A tombstone stays for ever: no row of writes changes the key, and each of
/// them is answered with the tombstone's generation.
pub proof fn law_tombstone_is_final(key: KeyState, writes: Seq<KeyWrite>, next: KeyWrite)
    requires
        key.is_tombstone,
    ensures
        key_after_all(key, writes) == key,
        cas_verdict(key_after_all(key, writes), next.expected()) == Ok::<CasOutcome, Seq<char>>(
            CasOutcome::Tombstoned { tombstone_generation: key.generation },
        ),
    decreases writes.len(),
{
    if writes.len() > 0 {
        law_tombstone_is_final(key, writes.drop_last(), writes.last());
    }
}

/// A key never comes back to an earlier state: a row of writes either leaves it
/// as it was, or leaves it at a higher generation. So a writer that still finds
/// the generation it once read has missed no write.
pub proof fn law_no_aba(key: KeyState, writes: Seq<KeyWrite>)
    ensures
        key_after_all(key, writes) == key || key_after_all(key, writes).generation.0
            > key.generation.0,
    decreases writes.len(),
{
    if writes.len() > 0 {
        law_no_aba(key, writes.drop_last());
    }
}

/// A live key answers every expectation but its own generation with a conflict
/// that names its generation, however far the two are apart. It is never
/// answered as deleted.
pub proof fn law_live_key_meets_others_with_conflict(key: KeyState, expected: Generation)
    requires
        !key.is_tombstone,
        key.generation.0 != expected.0,
    ensures
        cas_verdict(key, expected) == Ok::<CasOutcome, Seq<char>>(
            CasOutcome::Conflict { current: key.generation },
        ),
{
}

/// `Tombstoned` is answered exactly for a deleted key, with the generation that
/// is stored, whatever was expected.
pub proof fn law_only_the_deleted_are_tombstoned(
    key: KeyState,
    expected: Generation,
    tombstone_generation: Generation,
)
    ensures
        cas_verdict(key, expected) == Ok::<CasOutcome, Seq<char>>(
            CasOutcome::Tombstoned { tombstone_generation },
        ) <==> key.is_tombstone && tombstone_generation.0 == key.generation.0,
{
}

/// A live key lets its own generation through to the next one; only at the last
/// generation is there an error, and only there.
pub proof fn law_expected_generation_commits(key: KeyState, expected: Generation)
    ensures
        !key.is_tombstone && key.generation.0 == expected.0 && expected.0 < u64::MAX ==> (
        cas_verdict(key, expected) matches Ok(CasOutcome::Committed { new_generation })
            && new_generation.0 == expected.0 + 1),
        cas_verdict(key, expected) is Err <==> !key.is_tombstone && key.generation.0 == expected.0
            && expected.0 == u64::MAX,
        cas_verdict(key, expected) matches Err(message) ==> message == "generation overflow at "@
            + decimal(u64::MAX as nat) + ": CAS cannot advance"@,
{
}

/// A stored text is a generation exactly if it is the text of a number, and is
/// refused with itself and the reason otherwise.
pub proof fn law_stored_generation_is_its_number(s: Seq<char>, g: Generation)
    ensures
        generation_of_text(s) == Ok::<Generation, Seq<char>>(g) <==> u64_of_text(s) == Some(g.0),
        u64_of_text(s) is None ==> generation_of_text(s) == Err::<Generation, Seq<char>>(
            "parse generation '"@ + s + "': "@ + u64_parse_error(s),
        ),
{
}

} // verus!
