use vstd::prelude::*;
use crate::address::Address;
use crate::address_map::AddressMap;
use crate::cache::{upsert, CacheEntry, CacheError};
use crate::oracle::OracleSetup;

verus! {

/// The oracle part of a pool's configuration.
#[derive(Clone, Copy, Debug)]
pub struct BankConfig {
    pub oracle_setup: OracleSetup,
    /// Up to five oracle addresses; unused ones are null.
    pub oracle_keys: [Address; 5],
}

/// A decoded pool (bank) record.
#[derive(Clone, Copy, Debug)]
pub struct Bank {
    pub mint: Address,
    pub mint_decimals: u8,
    pub group: Address,
    pub config: BankConfig,
}

/// A pool's oracle layout and its non-null oracle addresses.
#[derive(Debug)]
pub struct CachedBankOracle {
    pub oracle_type: OracleSetup,
    pub oracle_addresses: Vec<Address>,
}

impl Clone for CachedBankOracle {
    fn clone(&self) -> (r: Self)
        ensures
            r.same_as(*self),
    {
        let mut addresses: Vec<Address> = Vec::new();
        let mut i: usize = 0;
        while i < self.oracle_addresses.len()
            invariant
                0 <= i <= self.oracle_addresses@.len(),
                addresses@ == self.oracle_addresses@.subrange(0, i as int),
            decreases self.oracle_addresses@.len() - i,
        {
            addresses.push(self.oracle_addresses[i]);
            i = i + 1;
            assert(addresses@ =~= self.oracle_addresses@.subrange(0, i as int));
        }
        assert(addresses@ =~= self.oracle_addresses@);
        CachedBankOracle { oracle_type: self.oracle_type, oracle_addresses: addresses }
    }
}

impl CachedBankOracle {
    /// Equal layout and equal address sequence.
    pub open spec fn same_as(self, o: CachedBankOracle) -> bool {
        self.oracle_type == o.oracle_type && self.oracle_addresses@ == o.oracle_addresses@
    }
}

/// A pool as cached: where and when it was observed, its mint and its oracles.
#[derive(Debug)]
pub struct CachedBank {
    pub slot: u64,
    pub _address: Address,
    pub _mint_decimals: u8,
    pub mint: Address,
    pub _group: Address,
    pub oracle: CachedBankOracle,
}

impl Clone for CachedBank {
    fn clone(&self) -> (r: Self)
        ensures
            r.same_as(*self),
    {
        CachedBank {
            slot: self.slot,
            _address: self._address,
            _mint_decimals: self._mint_decimals,
            mint: self.mint,
            _group: self._group,
            oracle: self.oracle.clone(),
        }
    }
}

/// A cached pool as plain values.
pub struct BankView {
    pub slot: u64,
    pub address: Address,
    pub mint_decimals: u8,
    pub mint: Address,
    pub group: Address,
    pub oracle_type: OracleSetup,
    pub oracle_addresses: Seq<Address>,
}

impl View for CachedBank {
    type V = BankView;

    open spec fn view(&self) -> BankView {
        BankView {
            slot: self.slot,
            address: self._address,
            mint_decimals: self._mint_decimals,
            mint: self.mint,
            group: self._group,
            oracle_type: self.oracle.oracle_type,
            oracle_addresses: self.oracle.oracle_addresses@,
        }
    }
}

impl CachedBank {
    /// Equal as plain values.
    pub open spec fn same_as(self, o: CachedBank) -> bool {
        self@ == o@
    }
}

impl CacheEntry for BankView {
    open spec fn spec_slot(&self) -> u64 {
        self.slot
    }
}

/// The oracle addresses of a configuration, null ones left out, in order.
pub open spec fn oracle_keys_of(config: BankConfig) -> Seq<Address> {
    config.oracle_keys@.filter(|k: Address| !k.spec_is_null())
}

/// The cached form of pool record `bank` observed at `slot` under `address`.
pub open spec fn bank_view_of(slot: u64, address: Address, bank: Bank) -> BankView {
    BankView {
        slot,
        address,
        mint_decimals: bank.mint_decimals,
        mint: bank.mint,
        group: bank.group,
        oracle_type: bank.config.oracle_setup,
        oracle_addresses: oracle_keys_of(bank.config),
    }
}

/// The non-null oracle addresses of a pool configuration, in order.
pub fn get_oracle_accounts(bank_config: &BankConfig) -> (r: Vec<Address>)
    ensures
        r@ == oracle_keys_of(*bank_config),
{
    let keys = &bank_config.oracle_keys;
    let mut r: Vec<Address> = Vec::new();
    let mut i: usize = 0;
    while i < 5
        invariant
            0 <= i <= 5,
            r@ == keys@.subrange(0, i as int).filter(|k: Address| !k.spec_is_null()),
        decreases 5 - i,
    {
        let k = keys[i];
        proof {
            reveal(Seq::filter);
            assert(keys@.subrange(0, i + 1).drop_last() =~= keys@.subrange(0, i as int));
        }
        if !k.is_null() {
            r.push(k);
        }
        i = i + 1;
    }
    assert(keys@.subrange(0, 5) =~= keys@);
    r
}

impl CachedBank {
    /// The cached form of pool record `bank` observed at `slot` under `address`.
    pub fn from(slot: u64, address: Address, bank: &Bank) -> (r: Self)
        ensures
            r@ == bank_view_of(slot, address, *bank),
    {
        CachedBank {
            slot,
            _address: address,
            mint: bank.mint,
            _mint_decimals: bank.mint_decimals,
            _group: bank.group,
            oracle: CachedBankOracle {
                oracle_type: bank.config.oracle_setup,
                oracle_addresses: get_oracle_accounts(&bank.config),
            },
        }
    }
}

/// The pool cache: the latest observed record of each pool.
pub struct BanksCache {
    banks: AddressMap<CachedBank>,
}

impl BanksCache {
    /// The stored pools by address.
    pub closed spec fn view(&self) -> Map<Address, BankView> {
        self.banks@.map_values(|c: CachedBank| c@)
    }

    /// The stored pools, in the order they were first stored.
    pub closed spec fn entries(&self) -> Seq<(Address, CachedBank)> {
        self.banks.entries()
    }

    pub closed spec fn wf(&self) -> bool {
        self.banks.wf()
    }

    /// How the entries relate to the map.
    pub proof fn lemma_entries(&self)
        requires
            self.wf(),
        ensures
            forall|a: Address| #[trigger] self@.contains_key(a) ==> exists|i: int| 0 <= i < self.entries().len() && (#[trigger] self.entries()[i]).0 == a && self.entries()[i].1@ == self@[a],
            forall|i: int| 0 <= i < self.entries().len() ==> #[trigger] self@.contains_key(self.entries()[i].0) && self@[self.entries()[i].0] == self.entries()[i].1@,
    {
        self.banks.lemma_entries();
        assert forall|a: Address| #[trigger] self@.contains_key(a) implies exists|i: int| 0 <= i < self.entries().len() && (#[trigger] self.entries()[i]).0 == a && self.entries()[i].1@ == self@[a] by {
            let i = choose|i: int| 0 <= i < self.banks.entries().len() && #[trigger] self.banks.entries()[i] == (a, self.banks@[a]);
            assert(self.entries()[i].0 == a);
        }
    }

    /// An empty pool cache.
    pub fn new() -> (r: Self)
        ensures
            r.wf(),
            r@ == Map::<Address, BankView>::empty(),
            r.entries().len() == 0,
    {
        let r = BanksCache { banks: AddressMap::new() };
        assert(r@ =~= Map::<Address, BankView>::empty());
        r
    }

    /// Stores pool record `bank` observed at `slot` under `address`, unless a
    /// record from the same or a newer slot is already stored there.
    pub fn update(&mut self, slot: u64, address: Address, bank: &Bank)
        requires
            old(self).wf(),
        ensures
            final(self).wf(),
            final(self)@ == upsert(old(self)@, address, bank_view_of(slot, address, *bank)),
    {
        let upd = CachedBank::from(slot, address, bank);
        let newer = match self.banks.get(&address) {
            Some(existing) => existing.slot < upd.slot,
            None => true,
        };
        if newer {
            self.banks.insert(address, upd);
            assert(self@ =~= old(self)@.insert(address, bank_view_of(slot, address, *bank)));
        }
    }

    /// The mint of every stored pool, one per pool, in storage order.
    pub fn get_mints(&self) -> (r: Vec<Address>)
        requires
            self.wf(),
        ensures
            r@ == self.entries().map_values(|e: (Address, CachedBank)| e.1.mint),
            forall|a: Address| #[trigger] self@.contains_key(a) ==> r@.contains(self@[a].mint),
    {
        let mut r: Vec<Address> = Vec::new();
        let mut i: usize = 0;
        while i < self.banks.len()
            invariant
                0 <= i <= self.entries().len(),
                self.banks.entries() == self.entries(),
                r@ == self.entries().subrange(0, i as int).map_values(|e: (Address, CachedBank)| e.1.mint),
            decreases self.entries().len() - i,
        {
            r.push(self.banks.entry(i).1.mint);
            i = i + 1;
            assert(r@ =~= self.entries().subrange(0, i as int).map_values(|e: (Address, CachedBank)| e.1.mint));
        }
        assert(self.entries().subrange(0, i as int) =~= self.entries());
        proof {
            self.lemma_entries();
            assert forall|a: Address| #[trigger] self@.contains_key(a) implies r@.contains(self@[a].mint) by {
                let k = choose|k: int| 0 <= k < self.entries().len() && (#[trigger] self.entries()[k]).0 == a && self.entries()[k].1@ == self@[a];
                assert(r@[k] == self@[a].mint);
            }
        }
        r
    }

    /// The oracle layout and addresses of every stored pool, one per pool, in
    /// storage order; duplicates within a pool are kept.
    pub fn get_oracles_data(&self) -> (r: Vec<CachedBankOracle>)
        requires
            self.wf(),
        ensures
            r@.len() == self.entries().len(),
            forall|i: int| 0 <= i < r@.len() ==> #[trigger] r@[i].same_as(self.entries()[i].1.oracle),
    {
        let mut r: Vec<CachedBankOracle> = Vec::new();
        let mut i: usize = 0;
        while i < self.banks.len()
            invariant
                0 <= i <= self.entries().len(),
                self.banks.entries() == self.entries(),
                r@.len() == i,
                forall|j: int| 0 <= j < i ==> #[trigger] r@[j].same_as(self.entries()[j].1.oracle),
            decreases self.entries().len() - i,
        {
            r.push(self.banks.entry(i).1.oracle.clone());
            i = i + 1;
        }
        r
    }

    /// The pool stored under `address`.
    pub fn get(&self, address: &Address) -> (r: Result<CachedBank, CacheError>)
        requires
            self.wf(),
        ensures
            match r {
                Ok(c) => self@.contains_key(*address) && c@ == self@[*address],
                Err(e) => !self@.contains_key(*address) && e == CacheError::NotFound,
            },
    {
        match self.banks.get(address) {
            Some(c) => Ok(c.clone()),
            None => Err(CacheError::NotFound),
        }
    }

    /// A copy of every stored pool with its address, in storage order.
    pub fn get_banks_map(&self) -> (r: Vec<(Address, CachedBank)>)
        requires
            self.wf(),
        ensures
            r@.len() == self.entries().len(),
            forall|i: int| 0 <= i < r@.len() ==> (#[trigger] r@[i]).0 == self.entries()[i].0 && r@[i].1.same_as(self.entries()[i].1),
    {
        let mut r: Vec<(Address, CachedBank)> = Vec::new();
        let mut i: usize = 0;
        while i < self.banks.len()
            invariant
                0 <= i <= self.entries().len(),
                self.banks.entries() == self.entries(),
                r@.len() == i,
                forall|j: int| 0 <= j < i ==> (#[trigger] r@[j]).0 == self.entries()[j].0 && r@[j].1.same_as(self.entries()[j].1),
            decreases self.entries().len() - i,
        {
            let e = self.banks.entry(i);
            r.push((e.0, e.1.clone()));
            i = i + 1;
        }
        r
    }
}

} // verus!
