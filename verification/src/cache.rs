//! The blocklist cache: a lazily-populated holder of one blocklist store.
//!
//! The cache is keyed by "has anything ever been loaded", not by the path
//! the store came from: the first store installed stays for the life of the
//! cache, and a later install — for instance one loaded from a different
//! path — changes nothing. Serializing concurrent installs is the caller's
//! business (a lock around the check-then-install window); the cache itself
//! holds the first-wins rule.

use vstd::prelude::*;
use crate::blocklist::BlocklistStore;

verus! {

/// What installing a store into a cache slot yields: the slot keeps its
/// first occupant.
pub open spec fn install_spec(slot: Option<BlocklistStore>, store: BlocklistStore) -> Option<
    BlocklistStore,
> {
    match slot {
        Some(first) => Some(first),
        None => Some(store),
    }
}

/// A holder of at most one blocklist store. Its model is the slot's
/// content.
pub struct BlocklistCache {
    slot: Option<BlocklistStore>,
}

impl View for BlocklistCache {
    type V = Option<BlocklistStore>;

    closed spec fn view(&self) -> Option<BlocklistStore> {
        self.slot
    }
}

impl BlocklistCache {
    /// An empty cache: nothing has been loaded yet.
    pub fn new() -> (r: BlocklistCache)
        ensures
            r@ is None,
    {
        BlocklistCache { slot: None }
    }

    /// The cached store, if one was ever installed.
    pub fn cached(&self) -> (r: Option<&BlocklistStore>)
        ensures
            match r {
                Some(store) => self@ == Some(*store),
                None => self@ is None,
            },
    {
        self.slot.as_ref()
    }

    /// Installs a store, unless one is already cached: the first store
    /// installed wins for the life of the cache.
    pub fn install(&mut self, store: BlocklistStore)
        ensures
            final(self)@ == install_spec(old(self)@, store),
    {
        if self.slot.is_none() {
            self.slot = Some(store);
        }
    }
}

/// First-wins: once a store is cached, installing another — whatever source
/// it was loaded from — leaves the cached content unchanged.
pub proof fn lemma_cache_first_wins(slot: Option<BlocklistStore>, store: BlocklistStore)
    requires
        slot is Some,
    ensures
        install_spec(slot, store) == slot,
{
}

} // verus!
