use vstd::prelude::*;
use crate::address::Address;
use crate::cache::banks::{bank_view_of, Bank, BankView, BanksCache, CachedBankOracle};
use crate::cache::luts::{
    decode_lookup_table, lookup_table_addresses, lut_view, AddressLookupTableAccount, LutsCache,
};
use crate::cache::marginfi_accounts::{account_view_of, AccountView, MarginfiAccount, MarginfiAccountsCache};
use crate::cache::mints::{CachedMint, MintsCache};
use crate::cache::oracles::{oracle_insert, CachedOracle, OraclesCache};
use crate::oracle::OracleSetup;
use crate::clock::Clock;
use crate::common::Account;

pub mod banks;
pub mod luts;
pub mod marginfi_accounts;
pub mod mints;
pub mod oracles;

verus! {

/// A cached record stamped with the ledger slot at which it was observed.
pub trait CacheEntry {
    spec fn spec_slot(&self) -> u64;
}

/// Why a cache read or write failed.
#[derive(Clone, Copy, Debug, PartialEq, Eq, Structural)]
pub enum CacheError {
    /// No entry under the requested address.
    NotFound,
    /// A writer panicked while holding the cache's lock; the state can no
    /// longer be trusted and the process must stop.
    LockPoisoned,
}

impl CacheError {
    /// A human-readable description.
    pub fn to_message(&self) -> (r: String)
        ensures
            *self == CacheError::NotFound ==> r@ == "entry not found in cache"@,
            *self == CacheError::LockPoisoned ==> r@ == "cache lock poisoned by a panicked writer"@,
    {
        match self {
            CacheError::NotFound => "entry not found in cache".to_owned(),
            CacheError::LockPoisoned => "cache lock poisoned by a panicked writer".to_owned(),
        }
    }
}

/// The slot rule: an entry replaces the stored one only when its slot is
/// strictly newer, or when nothing is stored under the address.
pub open spec fn upsert<V: CacheEntry>(m: Map<Address, V>, a: Address, e: V) -> Map<Address, V> {
    if !m.contains_key(a) || m[a].spec_slot() < e.spec_slot() {
        m.insert(a, e)
    } else {
        m
    }
}

/// Monotonicity: two upserts for one address with slots `s1 < s2` give the same
/// state in either order, and unless a newer slot was already stored, the
/// entry left is the one with the larger slot.
pub proof fn lemma_upsert_monotonic<V: CacheEntry>(m: Map<Address, V>, a: Address, e1: V, e2: V)
    requires
        e1.spec_slot() < e2.spec_slot(),
    ensures
        upsert(upsert(m, a, e1), a, e2) == upsert(upsert(m, a, e2), a, e1),
        !m.contains_key(a) || m[a].spec_slot() < e2.spec_slot() ==> upsert(
            upsert(m, a, e1),
            a,
            e2,
        )[a] == e2,
        upsert(upsert(m, a, e1), a, e2).contains_key(a),
{
    let x = upsert(upsert(m, a, e1), a, e2);
    let y = upsert(upsert(m, a, e2), a, e1);
    assert(x =~= y);
}

/// Idempotence: applying one upsert twice leaves what applying it once leaves.
pub proof fn lemma_upsert_idempotent<V: CacheEntry>(m: Map<Address, V>, a: Address, e: V)
    ensures
        upsert(upsert(m, a, e), a, e) == upsert(m, a, e),
{
}

/// Upserts for different addresses commute.
pub proof fn lemma_upsert_commutes<V: CacheEntry>(
    m: Map<Address, V>,
    a: Address,
    e: V,
    b: Address,
    f: V,
)
    requires
        a != b,
    ensures
        upsert(upsert(m, a, e), b, f) == upsert(upsert(m, b, f), a, e),
{
    assert(upsert(upsert(m, a, e), b, f) =~= upsert(upsert(m, b, f), a, e));
}

/// Each fetched lookup-table account that decodes, as its address and listed
/// addresses, in order.
pub open spec fn luts_decoded(fetched: Seq<(Address, Account)>) -> Seq<(Address, Seq<Address>)>
    decreases fetched.len(),
{
    if fetched.len() == 0 {
        Seq::empty()
    } else {
        let prev = luts_decoded(fetched.drop_last());
        match lookup_table_addresses(fetched.last().1.data@) {
            Some(a) => prev.push((fetched.last().0, a)),
            None => prev,
        }
    }
}

/// The oracles of one pool, each with the pool's layout, in order.
pub open spec fn pool_jobs(d: CachedBankOracle) -> Seq<(Address, OracleSetup)> {
    d.oracle_addresses@.map_values(|a: Address| (a, d.oracle_type))
}

/// The oracles of all pools, pool after pool.
pub open spec fn all_jobs(ds: Seq<CachedBankOracle>) -> Seq<(Address, OracleSetup)>
    decreases ds.len(),
{
    if ds.len() == 0 {
        Seq::empty()
    } else {
        all_jobs(ds.drop_last()) + pool_jobs(ds.last())
    }
}

/// Position of the first fetched account for `a` at or after `from`.
pub open spec fn first_fetched(fetched: Seq<(Address, Account)>, a: Address, from: int) -> Option<int>
    decreases fetched.len() - from,
{
    if from < 0 || from >= fetched.len() {
        None
    } else if fetched[from].0 == a {
        Some(from)
    } else {
        first_fetched(fetched, a, from + 1)
    }
}

/// The oracle map after storing each oracle, in turn, from the first fetched
/// account for its address (oracles with none are skipped).
pub open spec fn oracles_after(
    m: Map<Address, CachedOracle>,
    jobs: Seq<(Address, OracleSetup)>,
    fetched: Seq<(Address, Account)>,
    slot: u64,
) -> Map<Address, CachedOracle>
    decreases jobs.len(),
{
    if jobs.len() == 0 {
        m
    } else {
        let prev = oracles_after(m, jobs.drop_last(), fetched, slot);
        let (a, t) = jobs.last();
        match first_fetched(fetched, a, 0) {
            Some(i) => oracle_insert(prev, slot, a, t, fetched[i].1.data@),
            None => prev,
        }
    }
}

/// How many oracles have a fetched account.
pub open spec fn found_jobs(jobs: Seq<(Address, OracleSetup)>, fetched: Seq<(Address, Account)>) -> nat
    decreases jobs.len(),
{
    if jobs.len() == 0 {
        0
    } else {
        found_jobs(jobs.drop_last(), fetched) + if first_fetched(fetched, jobs.last().0, 0) is Some {
            1nat
        } else {
            0nat
        }
    }
}

/// The slot rule for the clock: a clock replaces the stored one only when
/// its slot is strictly newer.
pub open spec fn clock_after(stored: Clock, incoming: Clock) -> Clock {
    if stored.slot < incoming.slot {
        incoming
    } else {
        stored
    }
}

/// Monotonicity and idempotence for the clock: two clocks with slots `s1 < s2`
/// leave the same clock in either order, the one with the larger slot unless a
/// newer one was stored; and one clock applied twice is applied once.
pub proof fn lemma_clock_monotonic(c: Clock, c1: Clock, c2: Clock)
    requires
        c1.slot < c2.slot,
    ensures
        clock_after(clock_after(c, c1), c2) == clock_after(clock_after(c, c2), c1),
        c.slot < c2.slot ==> clock_after(clock_after(c, c1), c2) == c2,
        clock_after(clock_after(c, c1), c1) == clock_after(c, c1),
{
}

/// Every cache of the replica, and the chain clock.
pub struct Cache {
    pub clock: Clock,
    pub marginfi_accounts: MarginfiAccountsCache,
    pub banks: BanksCache,
    pub mints: MintsCache,
    pub oracles: OraclesCache,
    pub luts: LutsCache,
}

impl Cache {
    pub open spec fn wf(&self) -> bool {
        &&& self.marginfi_accounts.wf()
        &&& self.banks.wf()
        &&& self.mints.wf()
        &&& self.oracles.wf()
    }

    /// Empty caches and the given clock.
    pub fn new(clock: Clock) -> (r: Self)
        ensures
            r.wf(),
            r.clock == clock,
            r.marginfi_accounts@ == Map::<Address, AccountView>::empty(),
            r.banks@ == Map::<Address, BankView>::empty(),
            r.mints@ == Map::<Address, CachedMint>::empty(),
            r.oracles@ == Map::<Address, crate::cache::oracles::CachedOracle>::empty(),
            r.luts@.len() == 0,
    {
        Cache {
            clock,
            marginfi_accounts: MarginfiAccountsCache::new(),
            banks: BanksCache::new(),
            mints: MintsCache::new(),
            oracles: OraclesCache::new(),
            luts: LutsCache::new(),
        }
    }

    /// Takes `clock` when its slot is strictly newer than the stored one.
    pub fn update_clock(&mut self, clock: Clock)
        ensures
            final(self).clock == clock_after(old(self).clock, clock),
            final(self).marginfi_accounts == old(self).marginfi_accounts,
            final(self).banks == old(self).banks,
            final(self).mints == old(self).mints,
            final(self).oracles == old(self).oracles,
            final(self).luts == old(self).luts,
    {
        if self.clock.slot < clock.slot {
            self.clock = clock;
        }
    }

    /// The stored clock.
    pub fn get_clock(&self) -> (r: Clock)
        ensures
            r == self.clock,
    {
        self.clock
    }
}

/// A program-owned record, decoded by its kind.
#[derive(Debug)]
pub enum ProgramAccount {
    MarginfiAccount(MarginfiAccount),
    Bank(Bank),
}

/// The position and pool maps after storing each decoded record in turn at `slot`.
pub open spec fn records_after(
    accounts: Map<Address, AccountView>,
    banks: Map<Address, BankView>,
    records: Seq<(Address, ProgramAccount)>,
    slot: u64,
) -> (Map<Address, AccountView>, Map<Address, BankView>)
    decreases records.len(),
{
    if records.len() == 0 {
        (accounts, banks)
    } else {
        let (a, b) = records_after(accounts, banks, records.drop_last(), slot);
        let (address, record) = records.last();
        match record {
            ProgramAccount::MarginfiAccount(m) => (upsert(a, address, account_view_of(slot, address, m)), b),
            ProgramAccount::Bank(p) => (a, upsert(b, address, bank_view_of(slot, address, p))),
        }
    }
}

/// How many of the records are pools.
pub open spec fn count_banks(records: Seq<(Address, ProgramAccount)>) -> nat
    decreases records.len(),
{
    if records.len() == 0 {
        0
    } else {
        count_banks(records.drop_last()) + match records.last().1 {
            ProgramAccount::Bank(_) => 1nat,
            _ => 0nat,
        }
    }
}

/// The mint map after storing each fetched mint account in turn.
pub open spec fn mints_after(m: Map<Address, CachedMint>, fetched: Seq<(Address, Account)>) -> Map<
    Address,
    CachedMint,
>
    decreases fetched.len(),
{
    if fetched.len() == 0 {
        m
    } else {
        let last = fetched.last();
        mints_after(m, fetched.drop_last()).insert(last.0, CachedMint { _address: last.0, owner: last.1.owner })
    }
}

/// Start-up population of the caches from fetched accounts.
pub struct CacheLoader {
    program_id: Address,
    lut_addresses: Vec<Address>,
}

impl CacheLoader {
    pub closed spec fn spec_program_id(&self) -> Address {
        self.program_id
    }

    pub closed spec fn spec_lut_addresses(&self) -> Seq<Address> {
        self.lut_addresses@
    }

    /// A loader for the program at `program_id` and the given lookup tables.
    pub fn new(program_id: Address, lut_addresses: Vec<Address>) -> (r: Self)
        ensures
            r.spec_program_id() == program_id,
            r.spec_lut_addresses() == lut_addresses@,
    {
        CacheLoader { program_id, lut_addresses }
    }

    /// The program whose accounts are loaded.
    pub fn program_id(&self) -> (r: Address)
        ensures
            r == self.spec_program_id(),
    {
        self.program_id
    }

    /// The lookup tables to load.
    pub fn lut_addresses(&self) -> (r: &Vec<Address>)
        ensures
            r@ == self.spec_lut_addresses(),
    {
        &self.lut_addresses
    }

    /// Stores every decoded program account under the current clock slot;
    /// returns how many positions and how many pools were handed over.
    pub fn load_accounts(&self, cache: &mut Cache, accounts: Vec<(Address, ProgramAccount)>) -> (r: (
        usize,
        usize,
    ))
        requires
            old(cache).wf(),
        ensures
            final(cache).wf(),
            final(cache).clock == old(cache).clock,
            final(cache).mints@ == old(cache).mints@,
            final(cache).oracles@ == old(cache).oracles@,
            final(cache).luts@ == old(cache).luts@,
            (final(cache).marginfi_accounts@, final(cache).banks@) == records_after(
                old(cache).marginfi_accounts@,
                old(cache).banks@,
                accounts@,
                old(cache).clock.slot,
            ),
            r.0 + r.1 == accounts@.len(),
            r.1 == count_banks(accounts@),
    {
        let slot = cache.get_clock().slot;
        let mut positions: usize = 0;
        let mut banks: usize = 0;
        let mut i: usize = 0;
        while i < accounts.len()
            invariant
                0 <= i <= accounts@.len(),
                cache.wf(),
                cache.clock == old(cache).clock,
                cache.mints@ == old(cache).mints@,
                cache.oracles@ == old(cache).oracles@,
                cache.luts@ == old(cache).luts@,
                slot == old(cache).clock.slot,
                positions + banks == i,
                banks == count_banks(accounts@.subrange(0, i as int)),
                (cache.marginfi_accounts@, cache.banks@) == records_after(
                    old(cache).marginfi_accounts@,
                    old(cache).banks@,
                    accounts@.subrange(0, i as int),
                    slot,
                ),
            decreases accounts@.len() - i,
        {
            let (address, record) = &accounts[i];
            proof {
                assert(accounts@.subrange(0, i + 1).drop_last() =~= accounts@.subrange(0, i as int));
            }
            match record {
                ProgramAccount::MarginfiAccount(account) => {
                    cache.marginfi_accounts.update(slot, *address, account.clone());
                    positions = positions + 1;
                },
                ProgramAccount::Bank(bank) => {
                    cache.banks.update(slot, *address, bank);
                    banks = banks + 1;
                },
            }
            i = i + 1;
        }
        assert(accounts@.subrange(0, i as int) =~= accounts@);
        (positions, banks)
    }

    /// Stores the fetched mint accounts (those the pools reference); returns
    /// how many were stored.
    pub fn load_mints(&self, cache: &mut Cache, fetched: &Vec<(Address, Account)>) -> (r: usize)
        requires
            old(cache).wf(),
        ensures
            final(cache).wf(),
            final(cache).mints@ == mints_after(old(cache).mints@, fetched@),
            final(cache).clock == old(cache).clock,
            final(cache).banks@ == old(cache).banks@,
            final(cache).marginfi_accounts@ == old(cache).marginfi_accounts@,
            final(cache).oracles@ == old(cache).oracles@,
            final(cache).luts@ == old(cache).luts@,
            r == fetched@.len(),
    {
        let mut i: usize = 0;
        while i < fetched.len()
            invariant
                0 <= i <= fetched@.len(),
                cache.wf(),
                cache.mints@ == mints_after(old(cache).mints@, fetched@.subrange(0, i as int)),
                cache.clock == old(cache).clock,
                cache.banks@ == old(cache).banks@,
                cache.marginfi_accounts@ == old(cache).marginfi_accounts@,
                cache.oracles@ == old(cache).oracles@,
                cache.luts@ == old(cache).luts@,
            decreases fetched@.len() - i,
        {
            let (address, account) = &fetched[i];
            cache.mints.update(*address, account);
            assert(fetched@.subrange(0, i + 1).drop_last() =~= fetched@.subrange(0, i as int));
            i = i + 1;
        }
        assert(fetched@.subrange(0, i as int) =~= fetched@);
        i
    }

    /// Stores each pool's oracles from the fetched accounts, under the current
    /// clock slot: with a price when the bytes decode under the pool's layout,
    /// by identity alone otherwise. An oracle with no fetched account is
    /// skipped. Returns how many oracles were stored (saturating).
    pub fn load_oracles(
        &self,
        cache: &mut Cache,
        oracles_data: &Vec<CachedBankOracle>,
        fetched: &Vec<(Address, Account)>,
    ) -> (r: usize)
        requires
            old(cache).wf(),
        ensures
            final(cache).wf(),
            final(cache).clock == old(cache).clock,
            final(cache).banks@ == old(cache).banks@,
            final(cache).marginfi_accounts@ == old(cache).marginfi_accounts@,
            final(cache).mints@ == old(cache).mints@,
            final(cache).luts@ == old(cache).luts@,
            final(cache).oracles@ == oracles_after(
                old(cache).oracles@,
                all_jobs(oracles_data@),
                fetched@,
                old(cache).clock.slot,
            ),
            r == (if found_jobs(all_jobs(oracles_data@), fetched@) <= usize::MAX {
                found_jobs(all_jobs(oracles_data@), fetched@) as usize
            } else {
                usize::MAX
            }),
    {
        let slot = cache.get_clock().slot;
        let ghost ds = oracles_data@;
        let ghost fs = fetched@;
        let mut count: usize = 0;
        let mut p: usize = 0;
        while p < oracles_data.len()
            invariant
                0 <= p <= ds.len(),
                ds == oracles_data@,
                fs == fetched@,
                slot == old(cache).clock.slot,
                cache.wf(),
                cache.clock == old(cache).clock,
                cache.banks@ == old(cache).banks@,
                cache.marginfi_accounts@ == old(cache).marginfi_accounts@,
                cache.mints@ == old(cache).mints@,
                cache.luts@ == old(cache).luts@,
                cache.oracles@ == oracles_after(old(cache).oracles@, all_jobs(ds.subrange(0, p as int)), fs, slot),
                count == (if found_jobs(all_jobs(ds.subrange(0, p as int)), fs) <= usize::MAX {
                    found_jobs(all_jobs(ds.subrange(0, p as int)), fs) as usize
                } else {
                    usize::MAX
                }),
            decreases ds.len() - p,
        {
            let data = &oracles_data[p];
            let ghost done = all_jobs(ds.subrange(0, p as int));
            let ghost mine = pool_jobs(ds[p as int]);
            proof {
                assert(ds.subrange(0, p + 1).drop_last() =~= ds.subrange(0, p as int));
                assert(ds.subrange(0, p + 1).last() == ds[p as int]);
                assert(all_jobs(ds.subrange(0, p + 1)) == done + mine);
                assert(done + mine.subrange(0, 0) =~= done);
            }
            let mut q: usize = 0;
            while q < data.oracle_addresses.len()
                invariant
                    0 <= p < ds.len(),
                    ds == oracles_data@,
                    fs == fetched@,
                    *data == ds[p as int],
                    mine == pool_jobs(ds[p as int]),
                    mine.len() == data.oracle_addresses@.len(),
                    0 <= q <= mine.len(),
                    slot == old(cache).clock.slot,
                    cache.wf(),
                    cache.clock == old(cache).clock,
                    cache.banks@ == old(cache).banks@,
                    cache.marginfi_accounts@ == old(cache).marginfi_accounts@,
                    cache.mints@ == old(cache).mints@,
                    cache.luts@ == old(cache).luts@,
                    cache.oracles@ == oracles_after(old(cache).oracles@, done + mine.subrange(0, q as int), fs, slot),
                    count == (if found_jobs(done + mine.subrange(0, q as int), fs) <= usize::MAX {
                        found_jobs(done + mine.subrange(0, q as int), fs) as usize
                    } else {
                        usize::MAX
                    }),
                decreases mine.len() - q,
            {
                let address = data.oracle_addresses[q];
                let mut i: usize = 0;
                while i < fetched.len() && !fetched[i].0.same(&address)
                    invariant
                        0 <= i <= fs.len(),
                        fs == fetched@,
                        first_fetched(fs, address, 0) == first_fetched(fs, address, i as int),
                    decreases fs.len() - i,
                {
                    i = i + 1;
                }
                proof {
                    let prefix = done + mine.subrange(0, q as int);
                    let next = done + mine.subrange(0, q + 1);
                    assert(next.drop_last() =~= prefix);
                    assert(next.last() == (address, data.oracle_type));
                }
                if i < fetched.len() {
                    cache.oracles.insert(slot, &address, data.oracle_type, fetched[i].1.data.as_slice());
                    count = if count < usize::MAX { count + 1 } else { count };
                }
                q = q + 1;
            }
            proof {
                assert(mine.subrange(0, q as int) =~= mine);
            }
            p = p + 1;
        }
        proof {
            assert(ds.subrange(0, p as int) =~= ds);
        }
        count
    }

    /// Replaces the lookup tables with those of the fetched accounts that
    /// decode; the others are skipped. Returns how many were stored. With no
    /// lookup tables configured nothing changes.
    pub fn load_luts(&self, cache: &mut Cache, fetched: &Vec<(Address, Account)>) -> (r: usize)
        requires
            old(cache).wf(),
        ensures
            final(cache).wf(),
            final(cache).clock == old(cache).clock,
            final(cache).banks@ == old(cache).banks@,
            final(cache).marginfi_accounts@ == old(cache).marginfi_accounts@,
            final(cache).mints@ == old(cache).mints@,
            final(cache).oracles@ == old(cache).oracles@,
            self.spec_lut_addresses().len() == 0 ==> final(cache).luts@ == old(cache).luts@ && r == 0,
            self.spec_lut_addresses().len() > 0 ==> final(cache).luts@ == luts_decoded(fetched@) && r
                == final(cache).luts@.len(),
    {
        if self.lut_addresses.len() == 0 {
            return 0;
        }
        let mut luts: Vec<AddressLookupTableAccount> = Vec::new();
        let mut i: usize = 0;
        while i < fetched.len()
            invariant
                0 <= i <= fetched@.len(),
                luts@.map_values(|t: AddressLookupTableAccount| lut_view(t)) == luts_decoded(fetched@.subrange(0, i as int)),
            decreases fetched@.len() - i,
        {
            let (address, account) = &fetched[i];
            assert(fetched@.subrange(0, i + 1).drop_last() =~= fetched@.subrange(0, i as int));
            match decode_lookup_table(*address, account.data.as_slice()) {
                Some(t) => {
                    luts.push(t);
                },
                None => {},
            }
            i = i + 1;
            assert(luts@.map_values(|t: AddressLookupTableAccount| lut_view(t)) =~= luts_decoded(fetched@.subrange(0, i as int)));
        }
        assert(fetched@.subrange(0, i as int) =~= fetched@);
        let n = luts.len();
        cache.luts.populate(luts);
        n
    }
}

} // verus!
