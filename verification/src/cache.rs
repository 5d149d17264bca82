//! The connection cache: at most one connection per server key.

use vstd::prelude::*;

verus! {

struct Entry<C> {
    key: String,
    conn: C,
}

/// A mapping from server key to connection. A key, once it has a
/// connection, keeps that connection: entries are never replaced and never
/// removed.
pub struct ConnectionCache<C> {
    entries: Vec<Entry<C>>,
}

impl<C> View for ConnectionCache<C> {
    type V = Map<Seq<char>, C>;

    closed spec fn view(&self) -> Map<Seq<char>, C> {
        Map::new(
            |k: Seq<char>| self.holds_at(k) is Some,
            |k: Seq<char>| self.entries@[self.holds_at(k).unwrap()].conn,
        )
    }
}

/// What storing a connection under a key does to a cache: a key that has a
/// connection keeps it, and a new key gets the connection offered.
pub open spec fn stored<C>(cache: Map<Seq<char>, C>, key: Seq<char>, conn: C) -> Map<
    Seq<char>,
    C,
> {
    if cache.contains_key(key) {
        cache
    } else {
        cache.insert(key, conn)
    }
}

impl<C> ConnectionCache<C> {
    #[verifier::type_invariant]
    spec fn keys_are_distinct(&self) -> bool {
        forall|i: int, j: int|
            0 <= i < j < self.entries@.len() ==> self.entries@[i].key@ != self.entries@[j].key@
    }

    /// Whether the entry at `i` is the one for `key`.
    spec fn is_at(&self, key: Seq<char>, i: int) -> bool {
        0 <= i < self.entries@.len() && self.entries@[i].key@ == key
    }

    /// Where the entry for `key` stands, if there is one.
    spec fn holds_at(&self, key: Seq<char>) -> Option<int> {
        if exists|i: int| self.is_at(key, i) {
            Some(choose|i: int| self.is_at(key, i))
        } else {
            None
        }
    }

    /// An empty cache.
    pub fn new() -> (cache: Self)
        ensures
            cache@ == Map::<Seq<char>, C>::empty(),
    {
        let cache = ConnectionCache { entries: Vec::new() };
        assert(cache@ =~= Map::<Seq<char>, C>::empty());
        cache
    }

    /// Where the entry for `key` stands.
    fn position(&self, key: &String) -> (at: Option<usize>)
        ensures
            match at {
                Some(i) => self.is_at(key@, i as int) && self.holds_at(key@) == Some(i as int),
                None => self.holds_at(key@) is None,
            },
    {
        proof {
            use_type_invariant(self);
        }
        let mut i: usize = 0;
        while i < self.entries.len()
            invariant
                i <= self.entries.len(),
                forall|j: int| 0 <= j < i ==> !self.is_at(key@, j),
            decreases self.entries.len() - i,
        {
            if self.entries[i].key == *key {
                proof {
                    assert(self.is_at(key@, i as int));
                    let chosen = self.holds_at(key@).unwrap();
                    use_type_invariant(self);
                    assert(self.is_at(key@, chosen));
                    assert(chosen == i);
                }
                return Some(i);
            }
            i += 1;
        }
        None
    }

    /// How many servers have a connection.
    pub fn len(&self) -> (n: usize)
        ensures
            n == self@.dom().len(),
            self@.dom().finite(),
    {
        proof {
            use_type_invariant(self);
            self.lemma_domain_size();
        }
        self.entries.len()
    }

    /// The domain of the cache has one key for each entry.
    proof fn lemma_domain_size(&self)
        requires
            self.keys_are_distinct(),
        ensures
            self@.dom().finite(),
            self@.dom().len() == self.entries@.len(),
    {
        let keys = Seq::new(self.entries@.len(), |i: int| self.entries@[i].key@);
        assert(keys.no_duplicates());
        assert(keys.to_set() =~= self@.dom()) by {
            assert forall|k: Seq<char>| self@.dom().contains(k) implies keys.to_set().contains(
                k,
            ) by {
                let i = self.holds_at(k).unwrap();
                assert(self.is_at(k, i));
                assert(keys[i] == k);
            }
            assert forall|k: Seq<char>| keys.to_set().contains(k) implies self@.dom().contains(
                k,
            ) by {
                let i = choose|i: int| 0 <= i < keys.len() && keys[i] == k;
                assert(self.is_at(k, i));
            }
        }
        keys.unique_seq_to_set();
        vstd::seq_lib::seq_to_set_is_finite(keys);
    }

    /// Whether `key` has a connection.
    pub fn contains(&self, key: &String) -> (found: bool)
        ensures
            found == self@.contains_key(key@),
    {
        self.position(key).is_some()
    }

    /// The connection of `key`, if it has one.
    pub fn get(&self, key: &String) -> (conn: Option<&C>)
        ensures
            match conn {
                Some(c) => self@.contains_key(key@) && *c == self@[key@],
                None => !self@.contains_key(key@),
            },
    {
        match self.position(key) {
            Some(i) => Some(&self.entries[i].conn),
            None => None,
        }
    }

    /// Stores `conn` as the connection of `key`, unless `key` has one
    /// already: then the cache stays as it is and `conn` is handed back.
    pub fn insert(&mut self, key: String, conn: C) -> (rejected: Option<C>)
        ensures
            final(self)@ == stored(old(self)@, key@, conn),
            rejected == if old(self)@.contains_key(key@) {
                Some(conn)
            } else {
                None
            },
    {
        proof {
            use_type_invariant(&*self);
        }
        match self.position(&key) {
            Some(_) => Some(conn),
            None => {
                let ghost before = *self;
                let mut entries: Vec<Entry<C>> = Vec::new();
                core::mem::swap(&mut self.entries, &mut entries);
                entries.push(Entry { key, conn });
                proof {
                    assert(entries@.drop_last() =~= before.entries@);
                    assert forall|i: int, j: int| 0 <= i < j < entries@.len() implies entries@[i].key@
                        != entries@[j].key@ by {
                        if j == before.entries@.len() {
                            assert(!before.is_at(key@, i));
                        }
                    }
                }
                core::mem::swap(&mut self.entries, &mut entries);
                proof {
                    let after = *self;
                    assert forall|k: Seq<char>| #[trigger]
                        after@.contains_key(k) == (k == key@ || before@.contains_key(k)) by {
                        if after@.contains_key(k) {
                            let i = after.holds_at(k).unwrap();
                            assert(after.is_at(k, i));
                            if i < before.entries@.len() {
                                assert(before.is_at(k, i));
                            }
                        }
                        if before@.contains_key(k) {
                            let i = before.holds_at(k).unwrap();
                            assert(before.is_at(k, i));
                            assert(after.is_at(k, i));
                        }
                        if k == key@ {
                            assert(after.is_at(k, before.entries@.len() as int));
                        }
                    }
                    assert forall|k: Seq<char>| after@.contains_key(k) implies after@[k]
                        == before@.insert(key@, conn)[k] by {
                        let i = after.holds_at(k).unwrap();
                        assert(after.is_at(k, i));
                        if k == key@ {
                            assert(after.is_at(k, before.entries@.len() as int));
                        } else {
                            assert(before.is_at(k, i));
                            let j = before.holds_at(k).unwrap();
                            assert(before.is_at(k, j));
                            assert(after.is_at(k, j));
                        }
                    }
                    assert(after@ =~= before@.insert(key@, conn));
                }
                None
            },
        }
    }
}

/// A request to get the connection of a server or to create it: the key,
/// and the connection that creating one would give, if creating succeeds.
pub type Request<C> = (Seq<char>, Option<C>);

/// The cache after one request: a miss whose creation succeeds stores the
/// new connection, and everything else leaves the cache as it is.
pub open spec fn served<C>(cache: Map<Seq<char>, C>, request: Request<C>) -> Map<Seq<char>, C> {
    match request.1 {
        Some(conn) => stored(cache, request.0, conn),
        None => cache,
    }
}

/// The cache after a sequence of requests.
pub open spec fn served_all<C>(cache: Map<Seq<char>, C>, requests: Seq<Request<C>>) -> Map<
    Seq<char>,
    C,
>
    decreases requests.len(),
{
    if requests.len() == 0 {
        cache
    } else {
        served_all(served(cache, requests.first()), requests.drop_first())
    }
}

/// How many connections to `key` a sequence of requests creates and
/// stores.
pub open spec fn creations<C>(
    cache: Map<Seq<char>, C>,
    requests: Seq<Request<C>>,
    key: Seq<char>,
) -> nat
    decreases requests.len(),
{
    if requests.len() == 0 {
        0
    } else {
        let first = requests.first();
        let created: nat = if first.0 == key && first.1 is Some && !cache.contains_key(key) {
            1
        } else {
            0
        };
        created + creations(served(cache, first), requests.drop_first(), key)
    }
}

/// A server that has a connection keeps it: whatever requests follow, none
/// creates another connection to it, and the one it has stays.
pub proof fn law_cached_connection_stays<C>(
    cache: Map<Seq<char>, C>,
    requests: Seq<Request<C>>,
    key: Seq<char>,
)
    requires
        cache.contains_key(key),
    ensures
        creations(cache, requests, key) == 0,
        served_all(cache, requests).contains_key(key),
        served_all(cache, requests)[key] == cache[key],
    decreases requests.len(),
{
    if requests.len() > 0 {
        law_cached_connection_stays(served(cache, requests.first()), requests.drop_first(), key);
    }
}

/// However many requests ask for a server that has no connection yet, and
/// whatever other servers are asked for in between, exactly one connection
/// to it is created and stored, provided that creating one succeeds at
/// least once; and never more than one.
pub proof fn law_connection_created_once<C>(
    cache: Map<Seq<char>, C>,
    requests: Seq<Request<C>>,
    key: Seq<char>,
)
    ensures
        creations(cache, requests, key) <= 1,
        !cache.contains_key(key) && (exists|i: int|
            0 <= i < requests.len() && (#[trigger] requests[i]).0 == key && requests[i].1 is Some)
            ==> creations(cache, requests, key) == 1,
    decreases requests.len(),
{
    if requests.len() > 0 {
        let first = requests.first();
        let next = served(cache, first);
        let rest = requests.drop_first();
        if next.contains_key(key) {
            law_cached_connection_stays(next, rest, key);
        } else {
            law_connection_created_once(next, rest, key);
            if exists|i: int|
                0 <= i < requests.len() && (#[trigger] requests[i]).0 == key && requests[i].1 is Some {
                let i = choose|i: int|
                    0 <= i < requests.len() && (#[trigger] requests[i]).0 == key && requests[i].1
                        is Some;
                assert(i > 0);
                assert(rest[i - 1] == requests[i]);
            }
        }
    }
}

} // verus!
