use vstd::prelude::*;

verus! {

/// The in-memory map from a prover's name to its prepared capability,
/// modelled as the map an association list folds to: a later entry for the
/// same name overrides an earlier one, as the worker's re-preparation of a
/// prover overwrites its cached capability.
pub open spec fn cache_map_of<C>(s: Seq<(String, C)>) -> Map<Seq<char>, C>
    decreases s.len(),
{
    if s.len() == 0 {
        Map::empty()
    } else {
        cache_map_of(s.drop_last()).insert(s.last().0@, s.last().1)
    }
}

/// If no entry bears `key`, the folded map does not contain it.
proof fn lemma_cache_no_key<C>(s: Seq<(String, C)>, key: Seq<char>)
    requires
        forall|j: int| 0 <= j < s.len() ==> (#[trigger] s[j].0)@ != key,
    ensures
        !cache_map_of(s).contains_key(key),
    decreases s.len(),
{
    if s.len() > 0 {
        assert(s[s.len() - 1].0@ != key);
        lemma_cache_no_key(s.drop_last(), key);
    }
}

/// The folded map sends `key` to the value of the last entry bearing it.
proof fn lemma_cache_key_at<C>(s: Seq<(String, C)>, key: Seq<char>, i: int)
    requires
        0 <= i < s.len(),
        s[i].0@ == key,
        forall|j: int| i < j < s.len() ==> (#[trigger] s[j].0)@ != key,
    ensures
        cache_map_of(s).contains_key(key),
        cache_map_of(s)[key] == s[i].1,
    decreases s.len(),
{
    if i == s.len() - 1 {
    } else {
        assert(s[s.len() - 1].0@ != key);
        lemma_cache_key_at(s.drop_last(), key, i);
    }
}

/// Capabilities prepared by the worker, keyed by prover name. The
/// capability type is whatever the engine hands back; the cache itself
/// never looks inside it.
pub struct Cache<C> {
    entries: Vec<(String, C)>,
}

impl<C> Cache<C> {
    /// The modelled name-to-capability map.
    pub closed spec fn contents(self) -> Map<Seq<char>, C> {
        cache_map_of(self.entries@)
    }

    /// An empty cache.
    pub fn new() -> (r: Cache<C>)
        ensures
            r.contents() == Map::<Seq<char>, C>::empty(),
    {
        Cache { entries: Vec::new() }
    }

    /// Binds `name` to `capability`, overriding any earlier binding.
    pub fn insert(&mut self, name: String, capability: C)
        ensures
            final(self).contents() == old(self).contents().insert(name@, capability),
    {
        let ghost before = self.entries@;
        self.entries.push((name, capability));
        proof {
            assert(self.entries@.drop_last() =~= before);
        }
    }

    /// The capability bound to `name`, if one has been prepared.
    pub fn get(&self, name: &String) -> (r: Option<&C>)
        ensures
            match r {
                Some(c) => self.contents().contains_key(name@) && *c == self.contents()[name@],
                None => !self.contents().contains_key(name@),
            },
    {
        let mut i: usize = self.entries.len();
        while i > 0
            invariant
                0 <= i <= self.entries@.len(),
                forall|j: int| i <= j < self.entries@.len() ==> (#[trigger] self.entries@[j].0)@
                    != name@,
            decreases i,
    {
            i = i - 1;
            let entry = &self.entries[i];
            if entry.0 == *name {
                proof {
                    lemma_cache_key_at(self.entries@, name@, i as int);
                }
                return Some(&entry.1);
            }
        }
        proof {
            lemma_cache_no_key(self.entries@, name@);
        }
        None
    }

    /// Whether a capability is bound to `name`.
    pub fn contains(&self, name: &String) -> (r: bool)
        ensures
            r == self.contents().contains_key(name@),
    {
        match self.get(name) {
            Some(_) => true,
            None => false,
        }
    }
}

} // verus!
