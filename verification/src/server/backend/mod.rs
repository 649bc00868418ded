//! Where the server keeps the IPv4 addresses it has handed out.
use vstd::prelude::*;

pub mod crypto;
pub mod memory;

verus! {

/// A store of the IPv4 address (as a 32-bit number) given to each public key.
pub trait StorageBackend {
    /// The addresses stored, by public key.
    spec fn ipv4_map(&self) -> Map<Seq<char>, u32>;

    /// Stores `ip` for `key`, replacing what was stored for it. A store
    /// always holds finitely many keys.
    fn store_ipv4(&mut self, key: String, ip: u32)
        ensures
            final(self).ipv4_map() == old(self).ipv4_map().insert(key@, ip),
            old(self).ipv4_map().dom().finite(),
            final(self).ipv4_map().dom().finite(),
    ;

    /// The address stored for `key`, if any. A store always holds finitely
    /// many keys.
    fn retrieve_ipv4(&self, key: &String) -> (res: Option<u32>)
        ensures
            res == (if self.ipv4_map().contains_key(key@) {
                Some(self.ipv4_map()[key@])
            } else {
                None
            }),
            self.ipv4_map().dom().finite(),
    ;

    /// The number of keys stored; the store must hold no more than fit in
    /// 32 bits.
    fn get_ipv4_size(&self) -> (res: u32)
        requires
            self.ipv4_map().len() <= u32::MAX,
        ensures
            res == self.ipv4_map().len(),
            self.ipv4_map().dom().finite(),
    ;
}

/// What a store gives back for a key after storing an address for it is
/// that address, other keys keep theirs, and the store grows by one key
/// exactly where the key was new: `after` is `before` once
/// `store_ipv4(key, ip)` has run.
pub proof fn lemma_retrieve_after_store<B: StorageBackend>(before: B, after: B, key: Seq<char>, ip: u32)
    requires
        before.ipv4_map().dom().finite(),
        after.ipv4_map() == before.ipv4_map().insert(key, ip),
    ensures
        after.ipv4_map().contains_key(key),
        after.ipv4_map()[key] == ip,
        forall|k: Seq<char>|
            k != key ==> (#[trigger] after.ipv4_map().contains_key(k) == before.ipv4_map().contains_key(k)
                && (before.ipv4_map().contains_key(k) ==> after.ipv4_map()[k] == before.ipv4_map()[k])),
        after.ipv4_map().len() == before.ipv4_map().len() + (if before.ipv4_map().contains_key(key) {
            0int
        } else {
            1int
        }),
{
}

} // verus!
