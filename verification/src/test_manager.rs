//! Test requests of the web front end and their conversion to a client
//! configuration.
use crate::config::{Config, Mode, Protocol};
use std::collections::HashMap;
use std::time::Duration;
use vstd::prelude::*;

verus! {

/// The number of parallel streams when a request names none.
pub fn default_parallel() -> (n: usize)
    ensures
        n == 1,
{
    1
}

/// A test requested by a user.
#[derive(Debug)]
pub struct TestConfiguration {
    pub protocol: Protocol,
    pub server: String,
    pub port: u16,
    pub duration: Duration,
    pub bandwidth: Option<u64>,
    pub reverse: bool,
    pub parallel: usize,
}

impl Clone for TestConfiguration {
    fn clone(&self) -> (c: Self)
        ensures
            c == (TestConfiguration { server: c.server, ..*self }),
            c.server@ == self.server@,
    {
        TestConfiguration {
            protocol: self.protocol,
            server: self.server.clone(),
            port: self.port,
            duration: self.duration,
            bandwidth: self.bandwidth,
            reverse: self.reverse,
            parallel: self.parallel,
        }
    }
}

impl TestConfiguration {
    /// The client configuration that runs this test: the requested server,
    /// port, protocol, duration, direction, stream count and bandwidth, and
    /// the defaults for everything else.
    pub fn to_rperf_config(&self) -> (c: Config)
        ensures
            c.mode == Mode::Client,
            c.server_addr matches Some(s) && s@ == self.server@,
            c.port == self.port,
            c.protocol == self.protocol,
            c.duration == self.duration,
            c.reverse == self.reverse,
            c.parallel == self.parallel,
            c.bandwidth == self.bandwidth,
            c.bind_addr is None,
            c.buffer_size == crate::config::DEFAULT_BUFFER_SIZE,
            !c.json,
            c.interval == crate::config::secs_duration(1),
    {
        let mut config = Config::client(self.server.clone(), self.port).with_protocol(
            self.protocol,
        ).with_duration(self.duration).with_reverse(self.reverse).with_parallel(self.parallel);
        if let Some(bw) = self.bandwidth {
            config = config.with_bandwidth(bw);
        }
        config
    }
}

/// The tests a front end is running, by test identifier (a UUID as a
/// 128-bit integer).
pub struct TestRegistry<H> {
    tests: HashMap<u128, H>,
}

impl<H> View for TestRegistry<H> {
    type V = Map<u128, H>;

    closed spec fn view(&self) -> Map<u128, H> {
        self.tests@
    }
}

impl<H> TestRegistry<H> {
    /// A registry with no tests.
    pub fn new() -> (r: Self)
        ensures
            r@ == Map::<u128, H>::empty(),
    {
        TestRegistry { tests: HashMap::new() }
    }

    /// Registers `handle` under `test_id`, replacing any test registered
    /// under it before.
    pub fn add_test(&mut self, test_id: u128, handle: H)
        ensures
            final(self)@ == old(self)@.insert(test_id, handle),
    {
        broadcast use vstd::std_specs::hash::group_hash_axioms;
        self.tests.insert(test_id, handle);
    }

    /// The test registered under `test_id`, if any.
    pub fn get_test(&self, test_id: u128) -> (r: Option<&H>)
        ensures
            match r {
                Some(h) => self@.contains_key(test_id) && *h == self@[test_id],
                None => !self@.contains_key(test_id),
            },
    {
        broadcast use vstd::std_specs::hash::group_hash_axioms;
        self.tests.get(&test_id)
    }

    /// Unregisters the test under `test_id` and hands it back, if there is
    /// one.
    pub fn remove_test(&mut self, test_id: u128) -> (r: Option<H>)
        ensures
            final(self)@ == old(self)@.remove(test_id),
            match r {
                Some(h) => old(self)@.contains_key(test_id) && h == old(self)@[test_id],
                None => !old(self)@.contains_key(test_id),
            },
    {
        broadcast use vstd::std_specs::hash::group_hash_axioms;
        self.tests.remove(&test_id)
    }

    /// The identifiers of all registered tests, each once, in no particular
    /// order.
    pub fn test_ids(&self) -> (ids: Vec<u128>)
        ensures
            ids@.no_duplicates(),
            ids@.to_set() == self@.dom(),
            ids@.len() == self@.len(),
    {
        broadcast use vstd::std_specs::hash::group_hash_axioms;
        let mut ids: Vec<u128> = Vec::new();
        let entries = self.tests.iter();
        let ghost start = entries;
        for (k, _h) in it: entries
            invariant
                it.seq() == vstd::std_specs::iter::IteratorSpec::remaining(&start),
                ids@ == it.seq().take(it.index() as int).map_values(|p: (&u128, &H)| *p.0),
        {
            ids.push(*k);
        }
        proof {
            let m = self.tests@;
            let v = vstd::std_specs::iter::IteratorSpec::remaining(&start);
            assert(ids@ =~= v.map_values(|p: (&u128, &H)| *p.0));
            assert forall|i: int, j: int| 0 <= i < ids@.len() && 0 <= j < ids@.len() && i != j
                implies ids@[i] != ids@[j] by {
                if ids@[i] == ids@[j] {
                    assert(m.contains_key(*v[i].0));
                    assert(m.contains_key(*v[j].0));
                    assert(v[i] == v[j]);
                }
            }
            assert forall|k: u128| #[trigger] m.contains_key(k) implies ids@.contains(k) by {
                assert(v.contains((&k, &m[k])));
                let i = choose|i: int| 0 <= i < v.len() && v[i] == (&k, &m[k]);
                assert(ids@[i] == k);
            }
            assert forall|k: u128| ids@.contains(k) implies #[trigger] m.contains_key(k) by {
                let i = choose|i: int| 0 <= i < ids@.len() && ids@[i] == k;
                assert(m.contains_key(*v[i].0));
            }
            assert(ids@.to_set() =~= m.dom());
        }
        ids
    }

    /// The number of registered tests.
    pub fn len(&self) -> (n: usize)
        ensures
            n == self@.len(),
    {
        broadcast use vstd::std_specs::hash::group_hash_axioms;
        self.tests.len()
    }
}

/// Registering a test under an identifier makes `get_test` find exactly it
/// there while leaving every other identifier as it was; and removing it
/// again, when the identifier was free before, gives back the registry as it
/// was.
pub proof fn lemma_registry_add_get_remove<H>(before: Map<u128, H>, test_id: u128, handle: H, other: u128)
    ensures
        before.insert(test_id, handle).contains_key(test_id),
        before.insert(test_id, handle)[test_id] == handle,
        other != test_id ==> before.insert(test_id, handle).contains_key(other) == before.contains_key(other),
        other != test_id && before.contains_key(other) ==> before.insert(test_id, handle)[other] == before[other],
        !before.contains_key(test_id) ==> before.insert(test_id, handle).remove(test_id) == before,
{
    if !before.contains_key(test_id) {
        assert(before.insert(test_id, handle).remove(test_id) =~= before);
    }
}

} // verus!
