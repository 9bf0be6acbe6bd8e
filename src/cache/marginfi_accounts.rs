use vstd::prelude::*;
use fixed::types::I80F48;
use crate::address::Address;
use crate::address_map::AddressMap;
use crate::cache::{upsert, CacheEntry, CacheError};

verus! {

/// Two to the number of fractional bits of the 128-bit fixed-point format.
pub open spec fn fixed_one() -> int {
    0x1_0000_0000_0000
}

/// `n / d` rounded towards zero.
pub open spec fn trunc_div(n: int, d: int) -> int
    recommends
        d != 0,
{
    let q = (if n < 0 { -n } else { n }) / (if d < 0 { -d } else { d });
    if (n < 0) == (d < 0) {
        q
    } else {
        -q
    }
}

/// Quotient of two fixed-point numbers given by their bits: none for a zero
/// divisor or a quotient out of range, else the quotient rounded towards zero.
pub open spec fn fixed_div(a: int, b: int) -> Option<int> {
    if b == 0 {
        None
    } else {
        let q = trunc_div(a * fixed_one(), b);
        if i128::MIN <= q <= i128::MAX {
            Some(q)
        } else {
            None
        }
    }
}

/// The integer part (rounded towards minus infinity) of a fixed-point number
/// given by its bits, when it fits in an `i64`.
pub open spec fn fixed_floor_i64(a: int) -> Option<int> {
    let f = a / fixed_one();
    if i64::MIN <= f <= i64::MAX {
        Some(f)
    } else {
        None
    }
}

/// Relies on `fixed::types::I80F48::checked_div`: `None` when the divisor is
/// zero or the quotient overflows, else the quotient rounded towards zero.
#[verifier::external_body]
fn i80f48_checked_div(a: i128, b: i128) -> (r: Option<i128>)
    ensures
        r matches Some(q) ==> fixed_div(a as int, b as int) == Some(q as int),
        r is None ==> fixed_div(a as int, b as int) is None,
{
    I80F48::from_bits(a).checked_div(I80F48::from_bits(b)).map(|q| q.to_bits())
}

/// Relies on `fixed::types::I80F48::checked_to_num::<i64>`: fractional bits are
/// discarded (rounding towards minus infinity), `None` when it does not fit.
#[verifier::external_body]
fn i80f48_checked_to_i64(a: i128) -> (r: Option<i64>)
    ensures
        r matches Some(v) ==> fixed_floor_i64(a as int) == Some(v as int),
        r is None ==> fixed_floor_i64(a as int) is None,
{
    I80F48::from_bits(a).checked_to_num::<i64>()
}

/// Health of a position from its maintenance asset and liability values
/// (fixed-point bits): `(asset - liability) / asset` as a fixed-point number,
/// then its integer part; none when the asset value is zero or a step
/// leaves its range.
pub open spec fn health_of(asset: int, liability: int) -> Option<int> {
    let d = asset - liability;
    if d < i128::MIN || d > i128::MAX {
        None
    } else {
        match fixed_div(d, asset) {
            Some(q) => fixed_floor_i64(q),
            None => None,
        }
    }
}

/// Score kept in the health index for a position whose health is undefined.
pub const INVALID_HEALTH: i64 = -9223372036854775808;

/// The score that the health index holds for the given health.
pub open spec fn health_score(h: Option<int>) -> i64 {
    match h {
        Some(v) => v as i64,
        None => INVALID_HEALTH,
    }
}

/// One balance of a margin account; share amounts are fixed-point bits.
#[derive(Clone, Copy, Debug)]
pub struct Balance {
    pub active: u8,
    pub bank_pk: Address,
    pub asset_shares: i128,
    pub liability_shares: i128,
}

/// Maintenance values of a margin account, as fixed-point bits.
#[derive(Clone, Copy, Debug)]
pub struct HealthCache {
    pub asset_value_maint: i128,
    pub liability_value_maint: i128,
}

/// A decoded margin account (position) record.
#[derive(Debug)]
pub struct MarginfiAccount {
    pub group: Address,
    pub balances: Vec<Balance>,
    pub health_cache: HealthCache,
}

impl MarginfiAccount {
    /// Equal fields, the balances compared as sequences.
    pub open spec fn same_as(self, o: MarginfiAccount) -> bool {
        self.group == o.group && self.balances@ == o.balances@ && self.health_cache == o.health_cache
    }
}

impl Clone for MarginfiAccount {
    fn clone(&self) -> (r: Self)
        ensures
            r.same_as(*self),
    {
        MarginfiAccount {
            group: self.group,
            balances: copy_balances(&self.balances),
            health_cache: self.health_cache,
        }
    }
}

fn copy_balances(b: &Vec<Balance>) -> (r: Vec<Balance>)
    ensures
        r@ == b@,
{
    let mut r: Vec<Balance> = Vec::new();
    let mut i: usize = 0;
    while i < b.len()
        invariant
            0 <= i <= b@.len(),
            r@ == b@.subrange(0, i as int),
        decreases b@.len() - i,
    {
        r.push(b[i]);
        i = i + 1;
        assert(r@ =~= b@.subrange(0, i as int));
    }
    assert(b@.subrange(0, i as int) =~= b@);
    r
}

/// The active balances, in order.
pub open spec fn active_balances(s: Seq<Balance>) -> Seq<Balance> {
    s.filter(|b: Balance| b.active != 0)
}

/// A position as cached: where and when it was observed, the record, and its
/// active balances.
#[derive(Debug)]
pub struct CachedMarginfiAccount {
    pub slot: u64,
    pub address: Address,
    pub _marginfi_account: MarginfiAccount,
    pub _positions: Vec<Balance>,
}

impl Clone for CachedMarginfiAccount {
    fn clone(&self) -> (r: Self)
        ensures
            r.same_as(*self),
    {
        CachedMarginfiAccount {
            slot: self.slot,
            address: self.address,
            _marginfi_account: self._marginfi_account.clone(),
            _positions: copy_balances(&self._positions),
        }
    }
}

/// A cached position as plain values.
pub struct AccountView {
    pub slot: u64,
    pub address: Address,
    pub group: Address,
    pub balances: Seq<Balance>,
    pub health_cache: HealthCache,
    /// The active balances.
    pub positions: Seq<Balance>,
}

impl AccountView {
    /// The health this position's own record gives.
    pub open spec fn spec_health(self) -> Option<int> {
        health_of(
            self.health_cache.asset_value_maint as int,
            self.health_cache.liability_value_maint as int,
        )
    }
}

impl CacheEntry for AccountView {
    open spec fn spec_slot(&self) -> u64 {
        self.slot
    }
}

impl View for CachedMarginfiAccount {
    type V = AccountView;

    open spec fn view(&self) -> AccountView {
        AccountView {
            slot: self.slot,
            address: self.address,
            group: self._marginfi_account.group,
            balances: self._marginfi_account.balances@,
            health_cache: self._marginfi_account.health_cache,
            positions: self._positions@,
        }
    }
}

/// The cached form of `account` observed at `slot` under `address`.
pub open spec fn account_view_of(slot: u64, address: Address, account: MarginfiAccount) -> AccountView {
    AccountView {
        slot,
        address,
        group: account.group,
        balances: account.balances@,
        health_cache: account.health_cache,
        positions: active_balances(account.balances@),
    }
}

impl CachedMarginfiAccount {
    /// Equal as plain values.
    pub open spec fn same_as(self, o: CachedMarginfiAccount) -> bool {
        self@ == o@
    }

    /// The health this position's own record gives.
    pub open spec fn spec_health(self) -> Option<int> {
        self@.spec_health()
    }

    /// The cached form of `marginfi_account` observed at `slot` under `address`:
    /// only its active balances are kept as positions.
    pub fn from(slot: u64, address: Address, marginfi_account: MarginfiAccount) -> (r: Self)
        ensures
            r@ == account_view_of(slot, address, marginfi_account),
    {
        let ghost src = marginfi_account;
        let mut positions: Vec<Balance> = Vec::new();
        let mut i: usize = 0;
        while i < marginfi_account.balances.len()
            invariant
                0 <= i <= marginfi_account.balances@.len(),
                marginfi_account == src,
                positions@ == active_balances(marginfi_account.balances@.subrange(0, i as int)),
            decreases marginfi_account.balances@.len() - i,
        {
            let b = marginfi_account.balances[i];
            proof {
                reveal(Seq::filter);
                assert(marginfi_account.balances@.subrange(0, i + 1).drop_last()
                    =~= marginfi_account.balances@.subrange(0, i as int));
            }
            if b.active != 0 {
                positions.push(b);
            }
            i = i + 1;
        }
        assert(marginfi_account.balances@.subrange(0, i as int) =~= marginfi_account.balances@);
        CachedMarginfiAccount {
            slot,
            address,
            _marginfi_account: marginfi_account,
            _positions: positions,
        }
    }

    /// Maintenance asset value (fixed-point bits).
    pub fn asset_value_maint(&self) -> (r: i128)
        ensures
            r == self._marginfi_account.health_cache.asset_value_maint,
    {
        self._marginfi_account.health_cache.asset_value_maint
    }

    /// Maintenance liability value (fixed-point bits).
    pub fn liability_value_maint(&self) -> (r: i128)
        ensures
            r == self._marginfi_account.health_cache.liability_value_maint,
    {
        self._marginfi_account.health_cache.liability_value_maint
    }

    /// `(asset - liability) / asset` over the maintenance values, truncated to
    /// an integer; none when the asset value is zero or the result is out of range.
    pub fn health(&self) -> (r: Option<i64>)
        ensures
            r matches Some(v) ==> self.spec_health() == Some(v as int),
            r is None ==> self.spec_health() is None,
    {
        let asset = self.asset_value_maint();
        let liability = self.liability_value_maint();
        match asset.checked_sub(liability) {
            Some(d) => match i80f48_checked_div(d, asset) {
                Some(q) => i80f48_checked_to_i64(q),
                None => None,
            },
            None => None,
        }
    }

    /// The active balances.
    pub fn _positions(&self) -> (r: &Vec<Balance>)
        ensures
            r@ == self._positions@,
    {
        &self._positions
    }
}

/// The position cache, and the health index derived from it.
pub struct MarginfiAccountsCache {
    accounts: AddressMap<CachedMarginfiAccount>,
    account_to_health: AddressMap<i64>,
}

impl MarginfiAccountsCache {
    /// The stored positions by address.
    pub closed spec fn view(&self) -> Map<Address, AccountView> {
        self.accounts@.map_values(|c: CachedMarginfiAccount| c@)
    }

    /// The health index: a score per stored position.
    pub closed spec fn health_index(&self) -> Map<Address, i64> {
        self.account_to_health@
    }

    /// The health index entries, in the order they were first stored.
    pub closed spec fn health_entries(&self) -> Seq<(Address, i64)> {
        self.account_to_health.entries()
    }

    /// Well-formedness, including the mirror rule: the health index holds
    /// exactly the stored positions, each with the score of its own record.
    pub closed spec fn wf(&self) -> bool {
        &&& self.accounts.wf()
        &&& self.account_to_health.wf()
        &&& forall|a: Address| #[trigger] self.accounts@.contains_key(a)
            <==> self.account_to_health@.contains_key(a)
        &&& forall|a: Address| #[trigger] self.accounts@.contains_key(a)
            ==> self.account_to_health@[a] == health_score(self.accounts@[a].spec_health())
    }

    /// What `wf` promises to callers.
    pub proof fn lemma_mirror(&self)
        requires
            self.wf(),
        ensures
            forall|a: Address| #[trigger] self@.contains_key(a) <==> self.health_index().contains_key(a),
            forall|a: Address| #[trigger] self@.contains_key(a) ==> self.health_index()[a]
                == health_score(self@[a].spec_health()),
            forall|i: int| 0 <= i < self.health_entries().len() ==> #[trigger] self.health_index().contains_key(self.health_entries()[i].0)
                && self.health_index()[self.health_entries()[i].0] == self.health_entries()[i].1,
            forall|a: Address| #[trigger] self.health_index().contains_key(a) ==> exists|i: int| 0 <= i < self.health_entries().len() && #[trigger] self.health_entries()[i] == (a, self.health_index()[a]),
    {
        self.account_to_health.lemma_entries();
        assert forall|a: Address| #[trigger] self.health_index().contains_key(a) implies exists|i: int| 0 <= i < self.health_entries().len() && #[trigger] self.health_entries()[i] == (a, self.health_index()[a]) by {
            let i = choose|i: int| 0 <= i < self.account_to_health.entries().len() && #[trigger] self.account_to_health.entries()[i] == (a, self.account_to_health@[a]);
            assert(self.health_entries()[i] == (a, self.health_index()[a]));
        }
    }

    /// An empty cache.
    pub fn new() -> (r: Self)
        ensures
            r.wf(),
            r@ == Map::<Address, AccountView>::empty(),
            r.health_index() == Map::<Address, i64>::empty(),
    {
        let r = MarginfiAccountsCache { accounts: AddressMap::new(), account_to_health: AddressMap::new() };
        assert(r@ =~= Map::<Address, AccountView>::empty());
        r
    }

    /// Stores position record `account` observed at `slot` under `address`,
    /// unless a record from the same or a newer slot is already stored there;
    /// when it is stored, its health score replaces the index entry in the
    /// same step (the invalid-health score when its health is undefined).
    pub fn update(&mut self, slot: u64, address: Address, account: MarginfiAccount)
        requires
            old(self).wf(),
        ensures
            final(self).wf(),
            final(self)@ == upsert(old(self)@, address, account_view_of(slot, address, account)),
            final(self).health_index() == (if !old(self)@.contains_key(address) || old(self)@[address].slot < slot {
                old(self).health_index().insert(address, health_score(account_view_of(slot, address, account).spec_health()))
            } else {
                old(self).health_index()
            }),
    {
        let ghost v = account_view_of(slot, address, account);
        let upd = CachedMarginfiAccount::from(slot, address, account);
        let health = upd.health();
        let newer = match self.accounts.get(&address) {
            Some(existing) => existing.slot < upd.slot,
            None => true,
        };
        if newer {
            self.accounts.insert(address, upd);
            let score = match health {
                Some(h) => h,
                None => INVALID_HEALTH,
            };
            self.account_to_health.insert(address, score);
            assert(score == health_score(v.spec_health()));
            assert(self@ =~= old(self)@.insert(address, v));
        }
    }

    /// The position stored under `address`.
    pub fn get_account(&self, address: &Address) -> (r: Result<CachedMarginfiAccount, CacheError>)
        requires
            self.wf(),
        ensures
            match r {
                Ok(c) => self@.contains_key(*address) && c@ == self@[*address],
                Err(e) => !self@.contains_key(*address) && e == CacheError::NotFound,
            },
    {
        match self.accounts.get(address) {
            Some(c) => Ok(c.clone()),
            None => Err(CacheError::NotFound),
        }
    }

    /// A snapshot of the health index: every stored position's address with
    /// its score, in the order they were first stored.
    pub fn get_accounts_with_health(&self) -> (r: Vec<(Address, i64)>)
        requires
            self.wf(),
        ensures
            r@ == self.health_entries(),
    {
        let mut r: Vec<(Address, i64)> = Vec::new();
        let mut i: usize = 0;
        while i < self.account_to_health.len()
            invariant
                0 <= i <= self.health_entries().len(),
                self.account_to_health.entries() == self.health_entries(),
                r@ == self.health_entries().subrange(0, i as int),
            decreases self.health_entries().len() - i,
        {
            r.push(*self.account_to_health.entry(i));
            i = i + 1;
            assert(r@ =~= self.health_entries().subrange(0, i as int));
        }
        assert(self.health_entries().subrange(0, i as int) =~= self.health_entries());
        r
    }
}

/// Health mirroring: whenever a position is stored, the health index holds
/// the score computed from that same record, never one from an earlier write.
pub proof fn lemma_health_mirrors_last_write(cache: MarginfiAccountsCache, a: Address)
    requires
        cache.wf(),
        cache@.contains_key(a),
    ensures
        cache.health_index().contains_key(a),
        cache.health_index()[a] == health_score(cache@[a].spec_health()),
{
    cache.lemma_mirror();
}

} // verus!
