//! The realtime subscriber registry: for every telemetry key, the set of
//! websocket clients that asked to receive its live updates.
//!
//! A client is identified by a number that the server hands out per
//! connection; the server keeps the mapping from that number to the
//! client's mailbox.
use vstd::prelude::*;
use vstd::hash_map::StringHashMap;

verus! {

/// The subscribers that `m` records for `key`: the empty set when the key is absent.
pub open spec fn subscribers_in(m: Map<Seq<char>, Set<u64>>, key: Seq<char>) -> Set<u64> {
    if m.contains_key(key) {
        m[key]
    } else {
        Set::empty()
    }
}

/// The registry `m` after `client` subscribed to `key`.
pub open spec fn registered(m: Map<Seq<char>, Set<u64>>, key: Seq<char>, client: u64) -> Map<
    Seq<char>,
    Set<u64>,
> {
    m.insert(key, subscribers_in(m, key).insert(client))
}

/// The registry `m` after `client` left `key`; the key stays, with possibly no subscriber.
pub open spec fn unregistered(m: Map<Seq<char>, Set<u64>>, key: Seq<char>, client: u64) -> Map<
    Seq<char>,
    Set<u64>,
> {
    m.insert(key, subscribers_in(m, key).remove(client))
}

/// Subscriber registry of the realtime websocket clients, by telemetry key.
pub struct RealtimeClientConnections {
    sockets: StringHashMap<Vec<u64>>,
}

impl View for RealtimeClientConnections {
    type V = Map<Seq<char>, Set<u64>>;

    closed spec fn view(&self) -> Map<Seq<char>, Set<u64>> {
        self.sockets@.map_values(|ids: Vec<u64>| ids@.to_set())
    }
}

/// A copy of a list of client numbers.
fn copy_ids(ids: &Vec<u64>) -> (r: Vec<u64>)
    ensures
        r@ == ids@,
{
    let mut r: Vec<u64> = Vec::new();
    let mut i: usize = 0;
    while i < ids.len()
        invariant
            i <= ids.len(),
            r@ == ids@.subrange(0, i as int),
        decreases ids.len() - i,
    {
        r.push(ids[i]);
        i = i + 1;
    }
    assert(ids@.subrange(0, ids.len() as int) =~= ids@);
    r
}

/// Whether `id` occurs in `ids`.
fn contains_id(ids: &Vec<u64>, id: u64) -> (r: bool)
    ensures
        r == ids@.contains(id),
{
    let mut i: usize = 0;
    while i < ids.len()
        invariant
            i <= ids.len(),
            forall|j: int| 0 <= j < i ==> ids@[j] != id,
        decreases ids.len() - i,
    {
        if ids[i] == id {
            return true;
        }
        i = i + 1;
    }
    false
}

/// `ids` without `id`, order kept.
fn without_id(ids: &Vec<u64>, id: u64) -> (r: Vec<u64>)
    requires
        ids@.no_duplicates(),
    ensures
        r@.no_duplicates(),
        r@.to_set() == ids@.to_set().remove(id),
{
    let mut r: Vec<u64> = Vec::new();
    let mut i: usize = 0;
    while i < ids.len()
        invariant
            i <= ids.len(),
            ids@.no_duplicates(),
            r@.no_duplicates(),
            forall|x: u64| r@.contains(x) <==> (ids@.subrange(0, i as int).contains(x) && x != id),
        decreases ids.len() - i,
    {
        let x = ids[i];
        let ghost prev_r = r@;
        let ghost prev_sub = ids@.subrange(0, i as int);
        let ghost next_sub = ids@.subrange(0, i + 1);
        proof {
            assert(next_sub =~= prev_sub.push(x));
            assert forall|y: u64| next_sub.contains(y) <==> (prev_sub.contains(y) || y == x) by {
                if y == x {
                    assert(next_sub[i as int] == x);
                }
                if prev_sub.contains(y) {
                    let k = choose|k: int| 0 <= k < prev_sub.len() && prev_sub[k] == y;
                    assert(next_sub[k] == y);
                }
                if next_sub.contains(y) {
                    let k = choose|k: int| 0 <= k < next_sub.len() && next_sub[k] == y;
                    if k < i {
                        assert(prev_sub[k] == y);
                    }
                }
            }
        }
        if x != id {
            proof {
                assert(!r@.contains(x)) by {
                    if r@.contains(x) {
                        let k = choose|k: int| 0 <= k < i && prev_sub[k] == x;
                        assert(ids@[k] == ids@[i as int]);
                    }
                }
            }
            r.push(x);
            proof {
                assert forall|y: u64| r@.contains(y) <==> (prev_r.contains(y) || y == x) by {
                    if y == x {
                        assert(r@[r@.len() - 1] == x);
                    }
                    if prev_r.contains(y) {
                        let k = choose|k: int| 0 <= k < prev_r.len() && prev_r[k] == y;
                        assert(r@[k] == y);
                    }
                    if r@.contains(y) {
                        let k = choose|k: int| 0 <= k < r@.len() && r@[k] == y;
                        if k < prev_r.len() {
                            assert(prev_r[k] == y);
                        }
                    }
                }
                assert(r@.no_duplicates()) by {
                    assert forall|a: int, b: int| 0 <= a < b < r@.len() implies r@[a] != r@[b] by {
                        if b == r@.len() - 1 {
                            assert(prev_r.contains(r@[a]));
                        } else {
                            assert(prev_r[a] != prev_r[b]);
                        }
                    }
                }
            }
        }
        proof {
            assert forall|y: u64| r@.contains(y) <==> (next_sub.contains(y) && y != id) by {
                assert(prev_r.contains(y) <==> (prev_sub.contains(y) && y != id));
            }
        }
        i = i + 1;
    }
    proof {
        assert(ids@.subrange(0, ids.len() as int) =~= ids@);
        assert(r@.to_set() =~= ids@.to_set().remove(id));
    }
    r
}

impl RealtimeClientConnections {
    /// Every key's client list holds each client at most once.
    pub closed spec fn wf(&self) -> bool {
        forall|k: Seq<char>| #[trigger] self.sockets@.contains_key(k) ==> self.sockets@[k]@.no_duplicates()
    }

    /// An empty registry.
    pub fn new() -> (r: Self)
        ensures
            r.wf(),
            r@ == Map::<Seq<char>, Set<u64>>::empty(),
    {
        let r = RealtimeClientConnections { sockets: StringHashMap::new() };
        assert(r@ =~= Map::<Seq<char>, Set<u64>>::empty());
        r
    }

    /// The clients subscribed to `key`: `None` when the key was never registered.
    pub fn subscribers(&self, key: &str) -> (r: Option<Vec<u64>>)
        requires
            self.wf(),
        ensures
            r is None <==> !self@.contains_key(key@),
            r matches Some(ids) ==> ids@.no_duplicates() && ids@.to_set() == self@[key@],
    {
        match self.sockets.get(key) {
            Some(ids) => Some(copy_ids(ids)),
            None => None,
        }
    }

    /// Adds `client` to the subscribers of `key`, creating the key's entry when needed.
    pub fn register(&mut self, key: &str, client: u64)
        requires
            old(self).wf(),
        ensures
            final(self).wf(),
            final(self)@ == registered(old(self)@, key@, client),
    {
        let mut ids: Vec<u64> = match self.sockets.get(key) {
            Some(v) => copy_ids(v),
            None => Vec::new(),
        };
        let ghost before = ids@;
        assert(before.to_set() =~= subscribers_in(old(self)@, key@));
        if !contains_id(&ids, client) {
            ids.push(client);
            proof {
                assert(ids@.no_duplicates()) by {
                    assert forall|i: int, j: int| 0 <= i < j < ids@.len() implies ids@[i] != ids@[j] by {
                        if j == ids@.len() - 1 {
                            assert(before.contains(ids@[i]) || ids@[i] != ids@[j]);
                        }
                    }
                }
                assert forall|x: u64| ids@.contains(x) <==> (before.contains(x) || x == client) by {
                    if x == client {
                        assert(ids@[ids@.len() - 1] == client);
                    }
                    if before.contains(x) {
                        let k = choose|k: int| 0 <= k < before.len() && before[k] == x;
                        assert(ids@[k] == x);
                    }
                    if ids@.contains(x) {
                        let k = choose|k: int| 0 <= k < ids@.len() && ids@[k] == x;
                        if k < before.len() {
                            assert(before[k] == x);
                        }
                    }
                }
                assert(ids@.to_set() =~= before.to_set().insert(client));
            }
        } else {
            assert(before.to_set() =~= before.to_set().insert(client));
        }
        self.sockets.insert(key.to_owned(), ids);
        assert(self@ =~= old(self)@.insert(key@, subscribers_in(old(self)@, key@).insert(client)));
    }

    /// Removes `client` from the subscribers of `key`; the key's entry is kept,
    /// and created empty when it was missing.
    pub fn unregister(&mut self, key: &str, client: u64)
        requires
            old(self).wf(),
        ensures
            final(self).wf(),
            final(self)@ == unregistered(old(self)@, key@, client),
    {
        let ids: Vec<u64> = match self.sockets.get(key) {
            Some(v) => without_id(v, client),
            None => Vec::new(),
        };
        assert(Seq::<u64>::empty().to_set() =~= Set::<u64>::empty().remove(client));
        self.sockets.insert(key.to_owned(), ids);
        assert(self@ =~= old(self)@.insert(key@, subscribers_in(old(self)@, key@).remove(client)));
    }
}

/// A client that subscribed to a key receives that key's updates, whatever it
/// was subscribed to before.
pub proof fn lemma_registered_client_is_subscriber(m: Map<Seq<char>, Set<u64>>, key: Seq<char>, client: u64)
    ensures
        subscribers_in(registered(m, key, client), key).contains(client),
        subscribers_in(registered(m, key, client), key) == subscribers_in(m, key).insert(client),
{
}

/// A client that left a key no longer receives that key's updates, and the
/// other subscribers of the key stay.
pub proof fn lemma_unregistered_client_is_gone(m: Map<Seq<char>, Set<u64>>, key: Seq<char>, client: u64)
    ensures
        !subscribers_in(unregistered(m, key, client), key).contains(client),
        subscribers_in(unregistered(m, key, client), key) == subscribers_in(m, key).remove(client),
{
}

/// Subscribing to or leaving one key leaves the subscribers of every other key unchanged.
pub proof fn lemma_other_keys_untouched(
    m: Map<Seq<char>, Set<u64>>,
    key: Seq<char>,
    other: Seq<char>,
    client: u64,
)
    requires
        key != other,
    ensures
        subscribers_in(registered(m, key, client), other) == subscribers_in(m, other),
        subscribers_in(unregistered(m, key, client), other) == subscribers_in(m, other),
{
}

/// Subscribing twice is the same as subscribing once.
pub proof fn lemma_register_idempotent(m: Map<Seq<char>, Set<u64>>, key: Seq<char>, client: u64)
    ensures
        registered(registered(m, key, client), key, client) == registered(m, key, client),
{
    assert(subscribers_in(m, key).insert(client).insert(client) =~= subscribers_in(m, key).insert(
        client,
    ));
    assert(registered(registered(m, key, client), key, client) =~= registered(m, key, client));
}

/// A client that connects and then disconnects leaves every key with the
/// subscribers it had before, provided it was not subscribed already.
pub proof fn lemma_unregister_undoes_register(
    m: Map<Seq<char>, Set<u64>>,
    key: Seq<char>,
    client: u64,
    any_key: Seq<char>,
)
    requires
        !subscribers_in(m, key).contains(client),
    ensures
        subscribers_in(unregistered(registered(m, key, client), key, client), any_key)
            == subscribers_in(m, any_key),
{
    if any_key == key {
        assert(subscribers_in(m, key).insert(client).remove(client) =~= subscribers_in(m, key));
    }
}

/// The order in which two clients subscribe does not matter.
pub proof fn lemma_register_commutes(
    m: Map<Seq<char>, Set<u64>>,
    k1: Seq<char>,
    c1: u64,
    k2: Seq<char>,
    c2: u64,
)
    ensures
        registered(registered(m, k1, c1), k2, c2) == registered(registered(m, k2, c2), k1, c1),
{
    if k1 == k2 {
        assert(subscribers_in(m, k1).insert(c1).insert(c2) =~= subscribers_in(m, k1).insert(
            c2,
        ).insert(c1));
    }
    assert(registered(registered(m, k1, c1), k2, c2) =~= registered(registered(m, k2, c2), k1, c1));
}

} // verus!
