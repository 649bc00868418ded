//! A store that keeps addresses in memory.
use vstd::prelude::*;

use super::StorageBackend;

verus! {

/// Addresses kept in memory, one entry per public key.
pub struct MemoryBackend {
    ipv4_storage: Vec<(String, u32)>,
}

impl MemoryBackend {
    /// The keys of the entries, in order.
    closed spec fn keys(&self) -> Seq<Seq<char>> {
        self.ipv4_storage@.map_values(|e: (String, u32)| e.0@)
    }

    /// No key has two entries.
    #[verifier::type_invariant]
    closed spec fn keys_unique(&self) -> bool {
        self.keys().no_duplicates()
    }

    /// The address stored for each key.
    closed spec fn stored(&self) -> Map<Seq<char>, u32> {
        Map::new(
            |k: Seq<char>| self.keys().contains(k),
            |k: Seq<char>| self.ipv4_storage@[self.keys().index_of(k)].1,
        )
    }

    proof fn lemma_lookup(&self, i: int)
        requires
            self.keys_unique(),
            0 <= i < self.ipv4_storage@.len(),
        ensures
            self.stored().contains_key(self.ipv4_storage@[i].0@),
            self.stored()[self.ipv4_storage@[i].0@] == self.ipv4_storage@[i].1,
    {
        let k = self.ipv4_storage@[i].0@;
        assert(self.keys()[i] == k);
        assert(self.keys().contains(k));
    }

    proof fn lemma_size(&self)
        requires
            self.keys_unique(),
        ensures
            self.stored().dom().finite(),
            self.stored().len() == self.ipv4_storage@.len(),
    {
        assert(self.stored().dom() =~= self.keys().to_set());
        self.keys().unique_seq_to_set();
    }

    /// An empty store.
    pub fn new() -> (res: MemoryBackend)
        ensures
            res.ipv4_map() == Map::<Seq<char>, u32>::empty(),
            res.ipv4_map().dom().finite(),
    {
        let res = MemoryBackend { ipv4_storage: Vec::new() };
        assert(res.stored() =~= Map::<Seq<char>, u32>::empty());
        res
    }

    /// The number of keys stored.
    pub fn ipv4_count(&self) -> (res: usize)
        ensures
            res == self.ipv4_map().len(),
            self.ipv4_map().dom().finite(),
    {
        proof {
            use_type_invariant(self);
            self.lemma_size();
        }
        self.ipv4_storage.len()
    }

    fn find(&self, key: &String) -> (res: Option<usize>)
        ensures
            match res {
                Some(i) => i < self.ipv4_storage@.len() && self.ipv4_storage@[i as int].0@ == key@,
                None => !self.keys().contains(key@),
            },
    {
        let n = self.ipv4_storage.len();
        let mut i: usize = 0;
        while i < n
            invariant
                n == self.ipv4_storage@.len(),
                i <= n,
                forall|j: int| 0 <= j < i ==> self.keys()[j] != key@,
            decreases n - i,
        {
            if self.ipv4_storage[i].0 == *key {
                return Some(i);
            }
            assert(self.keys()[i as int] == self.ipv4_storage@[i as int].0@);
            i = i + 1;
        }
        None
    }
}

impl StorageBackend for MemoryBackend {
    closed spec fn ipv4_map(&self) -> Map<Seq<char>, u32> {
        self.stored()
    }

    fn store_ipv4(&mut self, key: String, ip: u32) {
        proof {
            use_type_invariant(&*self);
            self.lemma_size();
        }
        let ghost before = self.stored();
        let ghost old_keys = self.keys();
        match self.find(&key) {
            Some(i) => {
                let ghost k = key@;
                let mut entries: Vec<(String, u32)> = Vec::new();
                std::mem::swap(&mut entries, &mut self.ipv4_storage);
                entries.set(i, (key, ip));
                assert(entries@.map_values(|e: (String, u32)| e.0@) =~= old_keys);
                self.ipv4_storage = entries;
                assert(self.keys() == old_keys && old_keys.no_duplicates());
                assert(self.keys()[i as int] == k);
                assert forall|x: Seq<char>| #[trigger] before.insert(k, ip).contains_key(x)
                    implies self.stored().contains_key(x) && self.stored()[x] == before.insert(k, ip)[x] by {
                    assert(self.keys().contains(x));
                    let j = self.keys().index_of(x);
                    assert(self.keys()[j] == x);
                    assert(x == k <==> j == i);
                }
                assert(self.stored() =~= before.insert(k, ip));
            },
            None => {
                let ghost k = key@;
                let mut entries: Vec<(String, u32)> = Vec::new();
                std::mem::swap(&mut entries, &mut self.ipv4_storage);
                entries.push((key, ip));
                assert(entries@.map_values(|e: (String, u32)| e.0@) =~= old_keys.push(k));
                self.ipv4_storage = entries;
                let ghost last = old_keys.len() as int;
                assert(self.keys()[last] == k);
                assert forall|x: Seq<char>| #[trigger] before.insert(k, ip).contains_key(x)
                    implies self.stored().contains_key(x) && self.stored()[x] == before.insert(k, ip)[x] by {
                    if x != k {
                        let jj = old_keys.index_of(x);
                        assert(self.keys()[jj] == x);
                    }
                    let j = self.keys().index_of(x);
                    assert(self.keys()[j] == x);
                    assert(x == k <==> j == last);
                }
                assert forall|x: Seq<char>| #[trigger] self.stored().contains_key(x)
                    implies before.insert(k, ip).contains_key(x) by {
                    let j = self.keys().index_of(x);
                    if j != last {
                        assert(old_keys[j] == x);
                    }
                }
                assert(self.stored() =~= before.insert(k, ip));
            },
        }
        proof {
            use_type_invariant(&*self);
            self.lemma_size();
        }
    }

    fn retrieve_ipv4(&self, key: &String) -> (res: Option<u32>) {
        proof {
            use_type_invariant(self);
            self.lemma_size();
        }
        match self.find(key) {
            Some(i) => {
                proof {
                    self.lemma_lookup(i as int);
                }
                Some(self.ipv4_storage[i].1)
            },
            None => None,
        }
    }

    fn get_ipv4_size(&self) -> (res: u32) {
        proof {
            use_type_invariant(self);
            self.lemma_size();
        }
        self.ipv4_storage.len() as u32
    }
}

} // verus!
