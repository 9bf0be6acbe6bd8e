use vstd::prelude::*;
use crate::address::Address;
use crate::address_map::AddressMap;
use crate::cache::{upsert, CacheEntry};
use crate::oracle::{decode_price, price_of, DecodeError, OracleSetup};

verus! {

/// A decoded price and the slot at which it was observed.
#[derive(Clone, Copy, Debug)]
pub struct CachedPriceAdapter {
    pub slot: u64,
    /// Raw, unscaled price.
    pub price: i128,
}

/// The adapter that oracle bytes of the given layout give at `slot`.
pub open spec fn adapter_of(slot: u64, oracle_type: OracleSetup, data: Seq<u8>) -> Result<
    CachedPriceAdapter,
    DecodeError,
> {
    match price_of(oracle_type, data) {
        Ok(p) => Ok(CachedPriceAdapter { slot, price: p }),
        Err(e) => Err(e),
    }
}

impl CachedPriceAdapter {
    /// Decodes oracle bytes of the given layout into a price observed at `slot`.
    pub fn from(slot: u64, oracle_type: &OracleSetup, data: &[u8]) -> (r: Result<Self, DecodeError>)
        ensures
            r == adapter_of(slot, *oracle_type, data@),
    {
        match decode_price(*oracle_type, data) {
            Ok(price) => Ok(CachedPriceAdapter { slot, price }),
            Err(e) => Err(e),
        }
    }
}

/// An oracle as cached: its identity, and its price when one was decoded.
#[derive(Clone, Copy, Debug)]
pub struct CachedOracle {
    pub _address: Address,
    pub _oracle_type: OracleSetup,
    pub adapter: Option<CachedPriceAdapter>,
}

impl CacheEntry for CachedOracle {
    /// The slot of the decoded price, zero when there is none.
    open spec fn spec_slot(&self) -> u64 {
        match self.adapter {
            Some(a) => a.slot,
            None => 0,
        }
    }
}

impl CachedOracle {
    pub fn from(address: Address, oracle_type: OracleSetup, adapter: Option<CachedPriceAdapter>) -> (r: Self)
        ensures
            r == (CachedOracle { _address: address, _oracle_type: oracle_type, adapter }),
    {
        CachedOracle { _address: address, _oracle_type: oracle_type, adapter }
    }
}

/// The oracle map after a start-up insert of oracle bytes at `slot`: an
/// unknown oracle is stored with its price, or with its identity alone when
/// the bytes do not decode; a known one takes the price only when it decodes
/// and is strictly newer.
pub open spec fn oracle_insert(
    m: Map<Address, CachedOracle>,
    slot: u64,
    address: Address,
    oracle_type: OracleSetup,
    data: Seq<u8>,
) -> Map<Address, CachedOracle> {
    match adapter_of(slot, oracle_type, data) {
        Ok(a) => upsert(m, address, CachedOracle { _address: address, _oracle_type: oracle_type, adapter: Some(a) }),
        Err(_) => if m.contains_key(address) {
            m
        } else {
            m.insert(address, CachedOracle { _address: address, _oracle_type: oracle_type, adapter: None })
        },
    }
}

/// The oracle map after a streamed update of oracle bytes at `slot`: only a
/// known oracle changes, and only when the bytes decode under its layout into
/// a strictly newer price.
pub open spec fn oracle_update(m: Map<Address, CachedOracle>, slot: u64, address: Address, data: Seq<u8>) -> Map<
    Address,
    CachedOracle,
> {
    if m.contains_key(address) {
        match adapter_of(slot, m[address]._oracle_type, data) {
            Ok(a) => upsert(m, address, CachedOracle { adapter: Some(a), ..m[address] }),
            Err(_) => m,
        }
    } else {
        m
    }
}

/// The oracle cache.
pub struct OraclesCache {
    oracles: AddressMap<CachedOracle>,
}

impl OraclesCache {
    /// The stored oracles by address.
    pub closed spec fn view(&self) -> Map<Address, CachedOracle> {
        self.oracles@
    }

    /// The stored oracles, in the order they were first stored.
    pub closed spec fn entries(&self) -> Seq<(Address, CachedOracle)> {
        self.oracles.entries()
    }

    pub closed spec fn wf(&self) -> bool {
        self.oracles.wf()
    }

    /// An empty oracle cache.
    pub fn new() -> (r: Self)
        ensures
            r.wf(),
            r@ == Map::<Address, CachedOracle>::empty(),
    {
        OraclesCache { oracles: AddressMap::new() }
    }

    /// Stores an oracle found at start-up, with its price when the bytes decode.
    pub fn insert(&mut self, slot: u64, address: &Address, oracle_type: OracleSetup, data: &[u8])
        requires
            old(self).wf(),
        ensures
            final(self).wf(),
            final(self)@ == oracle_insert(old(self)@, slot, *address, oracle_type, data@),
    {
        match CachedPriceAdapter::from(slot, &oracle_type, data) {
            Ok(adapter) => {
                let newer = match self.oracles.get(address) {
                    Some(existing) => match existing.adapter {
                        Some(a) => a.slot < slot,
                        None => 0 < slot,
                    },
                    None => true,
                };
                if newer {
                    self.oracles.insert(*address, CachedOracle::from(*address, oracle_type, Some(adapter)));
                }
            },
            Err(_) => {
                if self.oracles.find(address).is_none() {
                    self.oracles.insert(*address, CachedOracle::from(*address, oracle_type, None));
                }
            },
        }
    }

    /// Applies a streamed update of a known oracle's bytes.
    pub fn update(&mut self, slot: u64, address: &Address, data: &[u8])
        requires
            old(self).wf(),
        ensures
            final(self).wf(),
            final(self)@ == oracle_update(old(self)@, slot, *address, data@),
    {
        let existing = match self.oracles.get(address) {
            Some(o) => *o,
            None => {
                return;
            },
        };
        let current_slot = match existing.adapter {
            Some(a) => a.slot,
            None => 0,
        };
        if current_slot < slot {
            match CachedPriceAdapter::from(slot, &existing._oracle_type, data) {
                Ok(adapter) => {
                    self.oracles.insert(*address, CachedOracle { adapter: Some(adapter), ..existing });
                },
                Err(_) => {},
            }
        }
    }

    /// The oracle stored under `address`, if any.
    pub fn get(&self, address: &Address) -> (r: Option<CachedOracle>)
        requires
            self.wf(),
        ensures
            match r {
                Some(o) => self@.contains_key(*address) && o == self@[*address],
                None => !self@.contains_key(*address),
            },
    {
        match self.oracles.get(address) {
            Some(o) => Some(*o),
            None => None,
        }
    }

    /// The address of every stored oracle, in the order they were first stored.
    pub fn get_oracle_addresses(&self) -> (r: Vec<Address>)
        requires
            self.wf(),
        ensures
            r@ == self.entries().map_values(|e: (Address, CachedOracle)| e.0),
            forall|a: Address| #[trigger] self@.contains_key(a) ==> r@.contains(a),
    {
        let mut r: Vec<Address> = Vec::new();
        let mut i: usize = 0;
        while i < self.oracles.len()
            invariant
                0 <= i <= self.entries().len(),
                self.oracles.entries() == self.entries(),
                r@ == self.entries().subrange(0, i as int).map_values(|e: (Address, CachedOracle)| e.0),
            decreases self.entries().len() - i,
        {
            r.push(self.oracles.entry(i).0);
            i = i + 1;
            assert(r@ =~= self.entries().subrange(0, i as int).map_values(|e: (Address, CachedOracle)| e.0));
        }
        assert(self.entries().subrange(0, i as int) =~= self.entries());
        proof {
            self.oracles.lemma_entries();
            assert forall|a: Address| #[trigger] self@.contains_key(a) implies r@.contains(a) by {
                let k = choose|k: int| 0 <= k < self.oracles.entries().len() && #[trigger] self.oracles.entries()[k] == (a, self.oracles@[a]);
                assert(r@[k] == a);
            }
        }
        r
    }
}

/// Monotonicity for oracle prices: two streamed updates of a known oracle with
/// slots `s1 < s2` whose bytes both decode give the same state in either
/// order; unless a newer price was already stored, the price left is the one
/// decoded at `s2`.
pub proof fn lemma_oracle_update_monotonic(
    m: Map<Address, CachedOracle>,
    a: Address,
    s1: u64,
    d1: Seq<u8>,
    s2: u64,
    d2: Seq<u8>,
)
    requires
        m.contains_key(a),
        s1 < s2,
        price_of(m[a]._oracle_type, d1) is Ok,
        price_of(m[a]._oracle_type, d2) is Ok,
    ensures
        oracle_update(oracle_update(m, s1, a, d1), s2, a, d2) == oracle_update(
            oracle_update(m, s2, a, d2),
            s1,
            a,
            d1,
        ),
        m[a].spec_slot() < s2 ==> oracle_update(oracle_update(m, s1, a, d1), s2, a, d2)[a].adapter
            == Some(CachedPriceAdapter { slot: s2, price: price_of(m[a]._oracle_type, d2)->Ok_0 }),
{
    let x = oracle_update(oracle_update(m, s1, a, d1), s2, a, d2);
    let y = oracle_update(oracle_update(m, s2, a, d2), s1, a, d1);
    assert(x =~= y);
}

/// Idempotence for oracle prices: the same streamed update applied twice
/// leaves what applying it once leaves.
pub proof fn lemma_oracle_update_idempotent(m: Map<Address, CachedOracle>, a: Address, s: u64, d: Seq<u8>)
    ensures
        oracle_update(oracle_update(m, s, a, d), s, a, d) == oracle_update(m, s, a, d),
{
    assert(oracle_update(oracle_update(m, s, a, d), s, a, d) =~= oracle_update(m, s, a, d));
}

} // verus!
