//! The registry of backends: one default, and any number under a key.

use vstd::prelude::*;

verus! {

/// The mapping that a list of keyed entries stands for. Keys are compared by
/// their text.
spec fn entries_map<P>(entries: Seq<(String, P)>) -> Map<Seq<char>, P>
    decreases entries.len(),
{
    if entries.len() == 0 {
        Map::empty()
    } else {
        entries_map(entries.drop_last()).insert(entries.last().0@, entries.last().1)
    }
}

/// Whether no key occurs twice in `entries`.
spec fn distinct_keys<P>(entries: Seq<(String, P)>) -> bool {
    forall|i: int, j: int| 0 <= i < j < entries.len() ==> entries[i].0@ != entries[j].0@
}

/// A key is mapped exactly when some entry carries it.
proof fn lemma_entries_map_dom<P>(entries: Seq<(String, P)>, key: Seq<char>)
    ensures
        entries_map(entries).contains_key(key) <==> exists|i: int|
            0 <= i < entries.len() && (#[trigger] entries[i]).0@ == key,
    decreases entries.len(),
{
    if entries.len() > 0 {
        let front = entries.drop_last();
        lemma_entries_map_dom(front, key);
        if entries_map(entries).contains_key(key) {
            if entries.last().0@ == key {
                assert(entries[entries.len() - 1].0@ == key);
            } else {
                let i = choose|i: int| 0 <= i < front.len() && (#[trigger] front[i]).0@ == key;
                assert(entries[i].0@ == key);
            }
        }
        if exists|i: int| 0 <= i < entries.len() && (#[trigger] entries[i]).0@ == key {
            let i = choose|i: int| 0 <= i < entries.len() && (#[trigger] entries[i]).0@ == key;
            if i < front.len() {
                assert(front[i].0@ == key);
            }
        }
    }
}

/// Where no key occurs twice, each entry is what its key is mapped to.
proof fn lemma_entries_map_at<P>(entries: Seq<(String, P)>, i: int)
    requires
        distinct_keys(entries),
        0 <= i < entries.len(),
    ensures
        entries_map(entries).contains_key(entries[i].0@),
        entries_map(entries)[entries[i].0@] == entries[i].1,
    decreases entries.len(),
{
    let front = entries.drop_last();
    if i < front.len() {
        assert(distinct_keys(front)) by {
            assert forall|a: int, b: int| 0 <= a < b < front.len() implies front[a].0@
                != front[b].0@ by {
                assert(front[a] == entries[a] && front[b] == entries[b]);
            }
        }
        lemma_entries_map_at(front, i);
        assert(front[i] == entries[i]);
    }
}

/// Replacing the entry of a key in place maps that key anew and leaves every
/// other key alone.
proof fn lemma_entries_map_update<P>(entries: Seq<(String, P)>, i: int, entry: (String, P))
    requires
        distinct_keys(entries),
        0 <= i < entries.len(),
        entries[i].0@ == entry.0@,
    ensures
        distinct_keys(entries.update(i, entry)),
        entries_map(entries.update(i, entry)) == entries_map(entries).insert(entry.0@, entry.1),
    decreases entries.len(),
{
    let updated = entries.update(i, entry);
    assert(distinct_keys(updated)) by {
        assert forall|a: int, b: int| 0 <= a < b < updated.len() implies updated[a].0@
            != updated[b].0@ by {
            assert(updated[a].0@ == entries[a].0@ && updated[b].0@ == entries[b].0@);
        }
    }
    let front = entries.drop_last();
    if i == entries.len() - 1 {
        assert(updated.drop_last() =~= front);
        assert(entries_map(updated) =~= entries_map(entries).insert(entry.0@, entry.1));
    } else {
        assert(distinct_keys(front)) by {
            assert forall|a: int, b: int| 0 <= a < b < front.len() implies front[a].0@
                != front[b].0@ by {
                assert(front[a] == entries[a] && front[b] == entries[b]);
            }
        }
        lemma_entries_map_update(front, i, entry);
        assert(updated.drop_last() =~= front.update(i, entry));
        assert(updated.last() == entries.last());
        assert(entries.last().0@ != entry.0@) by {
            assert(entries[i].0@ != entries[entries.len() - 1].0@);
        }
        assert(entries_map(updated) =~= entries_map(entries).insert(entry.0@, entry.1));
    }
}

/// Ready-to-use backends: the default one, and those registered under a key.
///
/// A registry is built once and replaced as a whole; nothing changes it in
/// place.
pub struct Providers<P> {
    default: P,
    per_key: Vec<(String, P)>,
}

impl<P> Providers<P> {
    #[verifier::type_invariant]
    spec fn keys_are_distinct(self) -> bool {
        distinct_keys(self.per_key@)
    }

    /// The backend used where no key selects another.
    pub closed spec fn default_provider(self) -> P {
        self.default
    }

    /// The backends registered under a key.
    pub closed spec fn keyed(self) -> Map<Seq<char>, P> {
        entries_map(self.per_key@)
    }

    /// The backend a session with `key` talks to: the one registered under
    /// that key, and the default one where the key is absent or unknown.
    pub open spec fn resolve(self, key: Option<Seq<char>>) -> P {
        match key {
            Some(k) if self.keyed().contains_key(k) => self.keyed()[k],
            _ => self.default_provider(),
        }
    }

    /// A registry with `default` and no keyed backend.
    pub fn new(default: P) -> (providers: Providers<P>)
        ensures
            providers.default_provider() == default,
            providers.keyed() == Map::<Seq<char>, P>::empty(),
    {
        Providers { default, per_key: Vec::new() }
    }

    /// The position of the entry with `key`, if there is one.
    fn position(&self, key: &String) -> (found: Option<usize>)
        ensures
            match found {
                Some(i) => i < self.per_key@.len() && self.per_key@[i as int].0@ == key@,
                None => !self.keyed().contains_key(key@),
            },
    {
        let mut i: usize = 0;
        while i < self.per_key.len()
            invariant
                i <= self.per_key@.len(),
                forall|j: int| 0 <= j < i ==> (#[trigger] self.per_key@[j]).0@ != key@,
            decreases self.per_key@.len() - i,
        {
            if self.per_key[i].0 == *key {
                return Some(i);
            }
            i += 1;
        }
        proof {
            lemma_entries_map_dom(self.per_key@, key@);
        }
        None
    }

    /// The registry with `provider` under `key`, in place of what `key`
    /// selected before.
    pub fn with(self, key: String, provider: P) -> (providers: Providers<P>)
        ensures
            providers.default_provider() == self.default_provider(),
            providers.keyed() == self.keyed().insert(key@, provider),
    {
        proof {
            use_type_invariant(&self);
        }
        let found = self.position(&key);
        let Providers { default, mut per_key } = self;
        match found {
            Some(i) => {
                proof {
                    lemma_entries_map_update(per_key@, i as int, (key, provider));
                }
                per_key.set(i, (key, provider));
            },
            None => {
                let ghost before = per_key@;
                proof {
                    lemma_entries_map_dom(before, key@);
                }
                per_key.push((key, provider));
                assert(per_key@.drop_last() =~= before);
                assert(distinct_keys(per_key@)) by {
                    assert forall|a: int, b: int| 0 <= a < b < per_key@.len() implies per_key@[a].0@
                        != per_key@[b].0@ by {
                        assert(before[a] == per_key@[a]);
                        if b < before.len() {
                            assert(before[b] == per_key@[b]);
                        }
                    }
                }
            },
        }
        Providers { default, per_key }
    }

    /// The backend for a session with `key`. An unknown key is no error: it
    /// selects the default backend.
    pub fn get(&self, key: Option<&String>) -> (provider: &P)
        ensures
            *provider == self.resolve(
                match key {
                    Some(k) => Some(k@),
                    None => None,
                },
            ),
            match key {
                Some(k) => !self.keyed().contains_key(k@) ==> *provider == self.default_provider(),
                None => *provider == self.default_provider(),
            },
    {
        proof {
            use_type_invariant(self);
        }
        match key {
            Some(k) => match self.position(k) {
                Some(i) => {
                    proof {
                        lemma_entries_map_at(self.per_key@, i as int);
                    }
                    &self.per_key[i].1
                },
                None => &self.default,
            },
            None => &self.default,
        }
    }
}

} // verus!
