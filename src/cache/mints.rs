use vstd::prelude::*;
use crate::address::Address;
use crate::address_map::AddressMap;
use crate::cache::CacheError;
use crate::common::Account;

verus! {

/// A token mint: its address and the token program that owns it.
#[derive(Clone, Copy, Debug)]
pub struct CachedMint {
    pub _address: Address,
    pub owner: Address,
}

/// The mint cache, filled once at start-up.
pub struct MintsCache {
    mints: AddressMap<CachedMint>,
}

impl MintsCache {
    /// The stored mints by address.
    pub closed spec fn view(&self) -> Map<Address, CachedMint> {
        self.mints@
    }

    pub closed spec fn wf(&self) -> bool {
        self.mints.wf()
    }

    /// An empty mint cache.
    pub fn new() -> (r: Self)
        ensures
            r.wf(),
            r@ == Map::<Address, CachedMint>::empty(),
    {
        MintsCache { mints: AddressMap::new() }
    }

    /// Stores the mint at `address`, owned by the owner of the fetched account.
    pub fn update(&mut self, address: Address, mint: &Account)
        requires
            old(self).wf(),
        ensures
            final(self).wf(),
            final(self)@ == old(self)@.insert(address, CachedMint { _address: address, owner: mint.owner }),
    {
        self.mints.insert(address, CachedMint { _address: address, owner: mint.owner });
    }

    /// The mint stored under `address`.
    pub fn get(&self, address: &Address) -> (r: Result<CachedMint, CacheError>)
        requires
            self.wf(),
        ensures
            match r {
                Ok(m) => self@.contains_key(*address) && m == self@[*address],
                Err(e) => !self@.contains_key(*address) && e == CacheError::NotFound,
            },
    {
        match self.mints.get(address) {
            Some(m) => Ok(*m),
            None => Err(CacheError::NotFound),
        }
    }
}

} // verus!
