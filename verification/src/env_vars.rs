//! Environment variables of one tier.

use vstd::prelude::*;

use crate::text::same_text;

verus! {

/// Variables by name. No name occurs twice.
pub struct EnvVars {
    entries: Vec<(String, String)>,
}

/// Whether `entries` has the name `key` at position `i`.
spec fn has_name(entries: Seq<(String, String)>, i: int, key: Seq<char>) -> bool {
    0 <= i < entries.len() && entries[i].0@ == key
}

/// The values of `entries` by their names.
spec fn by_name(entries: Seq<(String, String)>) -> Map<Seq<char>, Seq<char>> {
    Map::new(
        |key: Seq<char>| exists|i: int| has_name(entries, i, key),
        |key: Seq<char>| entries[choose|i: int| has_name(entries, i, key)].1@,
    )
}

/// No name occurs twice.
spec fn names_differ(entries: Seq<(String, String)>) -> bool {
    forall|i: int, j: int|
        0 <= i < entries.len() && 0 <= j < entries.len() && #[trigger] entries[i].0@
            == #[trigger] entries[j].0@ ==> i == j
}

impl View for EnvVars {
    type V = Map<Seq<char>, Seq<char>>;

    closed spec fn view(&self) -> Map<Seq<char>, Seq<char>> {
        by_name(self.entries@)
    }
}

impl EnvVars {
    #[verifier::type_invariant]
    spec fn well_formed(self) -> bool {
        names_differ(self.entries@)
    }

    /// No variables.
    pub fn new() -> (res: Self)
        ensures
            res@ == Map::<Seq<char>, Seq<char>>::empty(),
    {
        let res = EnvVars { entries: Vec::new() };
        assert(forall|i: int, key: Seq<char>| !has_name(res.entries@, i, key));
        assert(res@ =~= Map::<Seq<char>, Seq<char>>::empty());
        res
    }

    /// The position of the name `key`, if it is there.
    fn position(entries: &Vec<(String, String)>, key: &str) -> (res: Option<usize>)
        requires
            names_differ(entries@),
        ensures
            match res {
                Some(i) => i < entries@.len() && entries@[i as int].0@ == key@ && by_name(
                    entries@,
                ).contains_key(key@) && by_name(entries@)[key@] == entries@[i as int].1@,
                None => !by_name(entries@).contains_key(key@) && forall|j: int|
                    0 <= j < entries@.len() ==> (#[trigger] entries@[j]).0@ != key@,
            },
    {
        let mut i: usize = 0;
        while i < entries.len()
            invariant
                i <= entries@.len(),
                names_differ(entries@),
                forall|j: int| 0 <= j < i ==> (#[trigger] entries@[j]).0@ != key@,
            decreases entries@.len() - i,
        {
            if same_text(entries[i].0.as_str(), key) {
                assert(has_name(entries@, i as int, key@));
                return Some(i);
            }
            i = i + 1;
        }
        None
    }

    /// The value of `key`, if it is set.
    pub fn get(&self, key: &str) -> (res: Option<&String>)
        ensures
            match res {
                Some(value) => self@.contains_key(key@) && value@ == self@[key@],
                None => !self@.contains_key(key@),
            },
    {
        proof {
            use_type_invariant(self);
        }
        match Self::position(&self.entries, key) {
            Some(i) => Some(&self.entries[i].1),
            None => None,
        }
    }

    /// Whether `key` is set.
    pub fn contains_key(&self, key: &str) -> (res: bool)
        ensures
            res == self@.contains_key(key@),
    {
        self.get(key).is_some()
    }

    /// Sets `key` to `value`, whether or not it was set before.
    pub fn insert(&mut self, key: String, value: String)
        ensures
            final(self)@ == old(self)@.insert(key@, value@),
    {
        proof {
            use_type_invariant(&*self);
        }
        let ghost before = self.entries@;
        let mut entries: Vec<(String, String)> = Vec::new();
        std::mem::swap(&mut entries, &mut self.entries);
        match Self::position(&entries, key.as_str()) {
            Some(i) => {
                entries.set(i, (key, value));
                proof {
                    let after = entries@;
                    assert(forall|j: int| 0 <= j < after.len() ==> after[j].0@ == before[j].0@);
                    assert forall|k: Seq<char>|
                        by_name(after).contains_key(k) == by_name(before).insert(
                            key@,
                            value@,
                        ).contains_key(k) by {
                        assert forall|j: int| has_name(after, j, k) == has_name(before, j, k) by {}
                    }
                    assert forall|k: Seq<char>| #[trigger]
                        by_name(after).contains_key(k) implies by_name(after)[k] == by_name(
                        before,
                    ).insert(key@, value@)[k] by {
                        let j = choose|j: int| has_name(after, j, k);
                        assert(has_name(before, j, k));
                        let l = choose|l: int| has_name(before, l, k);
                        assert(before[j].0@ == before[l].0@);
                    }
                    assert(by_name(after) =~= by_name(before).insert(key@, value@));
                }
            },
            None => {
                entries.push((key, value));
                proof {
                    let n = before.len() as int;
                    assert(entries@.take(n) =~= before);
                    assert(entries@.take(n + 1) =~= entries@);
                    lemma_by_name_grows(entries@, n);
                }
            },
        }
        self.entries = entries;
    }

    /// Sets every variable of `other`, over those that are set.
    pub fn overlay(&mut self, other: &EnvVars)
        ensures
            final(self)@ == old(self)@.union_prefer_right(other@),
    {
        proof {
            use_type_invariant(other);
        }
        let ghost before = self@;
        let mut i: usize = 0;
        assert(by_name(other.entries@.take(0)) =~= Map::<Seq<char>, Seq<char>>::empty()) by {
            assert(forall|j: int, key: Seq<char>| !has_name(other.entries@.take(0), j, key));
        }
        assert(self@ =~= before.union_prefer_right(by_name(other.entries@.take(0))));
        while i < other.entries.len()
            invariant
                i <= other.entries@.len(),
                names_differ(other.entries@),
                self@ == before.union_prefer_right(by_name(other.entries@.take(i as int))),
            decreases other.entries@.len() - i,
        {
            let entry = &other.entries[i];
            self.insert(entry.0.clone(), entry.1.clone());
            proof {
                lemma_by_name_grows(other.entries@, i as int);
                assert(self@ =~= before.union_prefer_right(
                    by_name(other.entries@.take(i + 1)),
                ));
            }
            i = i + 1;
        }
        assert(other.entries@.take(i as int) =~= other.entries@);
    }
}

impl Default for EnvVars {
    fn default() -> (res: Self)
        ensures
            res@ == Map::<Seq<char>, Seq<char>>::empty(),
    {
        EnvVars::new()
    }
}

/// One more entry is one more variable.
proof fn lemma_by_name_grows(entries: Seq<(String, String)>, n: int)
    requires
        0 <= n < entries.len(),
        names_differ(entries),
    ensures
        by_name(entries.take(n + 1)) == by_name(entries.take(n)).insert(
            entries[n].0@,
            entries[n].1@,
        ),
{
    let before = entries.take(n);
    let after = entries.take(n + 1);
    let key = entries[n].0@;
    let value = entries[n].1@;
    assert(has_name(after, n, key));
    assert forall|k: Seq<char>|
        by_name(after).contains_key(k) == by_name(before).insert(key, value).contains_key(k) by {
        if by_name(before).contains_key(k) {
            let j = choose|j: int| has_name(before, j, k);
            assert(has_name(after, j, k));
        }
        if by_name(after).contains_key(k) && k != key {
            let j = choose|j: int| has_name(after, j, k);
            assert(has_name(before, j, k));
        }
    }
    assert forall|k: Seq<char>| #[trigger]
        by_name(after).contains_key(k) implies by_name(after)[k] == by_name(before).insert(
        key,
        value,
    )[k] by {
        let j = choose|j: int| has_name(after, j, k);
        if k == key {
            assert(entries[j].0@ == entries[n].0@);
        } else {
            assert(has_name(before, j, k));
            let l = choose|l: int| has_name(before, l, k);
            assert(entries[j].0@ == entries[l].0@);
        }
    }
    assert(by_name(after) =~= by_name(before).insert(key, value));
}

} // verus!
