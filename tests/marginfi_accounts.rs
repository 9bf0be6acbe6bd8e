use fixed::types::I80F48;
use liquidator::address::Address;
use liquidator::cache::marginfi_accounts::{
    Balance, CachedMarginfiAccount, HealthCache, MarginfiAccount, MarginfiAccountsCache,
    INVALID_HEALTH,
};

fn key(tag: u8, n: u8) -> Address {
    let mut b = [0u8; 32];
    b[0] = tag;
    b[1] = n;
    b[31] = 2;
    Address::new(b)
}

fn fx(v: i64) -> i128 {
    I80F48::from_num(v).to_bits()
}

fn create_default_balance() -> Balance {
    Balance {
        active: 0,
        bank_pk: Address::null(),
        asset_shares: 0,
        liability_shares: 0,
    }
}

fn create_balance(bank: Address, asset: i64, liability: i64) -> Balance {
    Balance {
        active: 1,
        bank_pk: bank,
        asset_shares: fx(asset),
        liability_shares: fx(liability),
    }
}

fn create_marginfi_account(group: Address, balances: Vec<Balance>) -> MarginfiAccount {
    let mut all: Vec<Balance> = (0..16).map(|_| create_default_balance()).collect();
    for (i, val) in balances.into_iter().enumerate().take(16) {
        all[i] = val;
    }
    MarginfiAccount {
        group,
        balances: all,
        health_cache: HealthCache {
            asset_value_maint: 0,
            liability_value_maint: 0,
        },
    }
}

fn health_of(cache: &MarginfiAccountsCache, address: &Address) -> Option<i64> {
    cache
        .get_accounts_with_health()
        .iter()
        .find(|(a, _)| a == address)
        .map(|(_, h)| *h)
}

#[test]
fn test_cached_marginfi_account_from() {
    let slot = 42;
    let address = key(1, 1);
    let group = key(3, 1);
    let bank1 = key(4, 1);
    let bank2 = key(4, 2);

    let balances = vec![create_balance(bank1, 100, 50), create_balance(bank2, 200, 75)];
    let marginfi_account = create_marginfi_account(group, balances.clone());

    let cached = CachedMarginfiAccount::from(slot, address, marginfi_account);

    assert_eq!(cached.slot, slot);
    assert_eq!(cached.address, address);
    assert_eq!(cached._positions().len(), 2);
    assert_eq!(cached._positions()[0].bank_pk, bank1);
    assert_eq!(cached._positions()[1].bank_pk, bank2);
    assert_eq!(cached._positions()[0].asset_shares, fx(100));
    assert_eq!(cached._positions()[0].liability_shares, fx(50));
    assert_eq!(cached._positions()[1].asset_shares, fx(200));
    assert_eq!(cached._positions()[1].liability_shares, fx(75));
}

#[test]
fn test_marginfi_accounts_cache_update_and_retrieve() {
    let mut cache = MarginfiAccountsCache::new();
    let slot = 100;
    let address = key(1, 2);
    let group = key(3, 2);
    let bank = key(4, 3);
    let balances = vec![create_balance(bank, 10, 5)];
    let marginfi_account = create_marginfi_account(group, balances);

    cache.update(slot, address, marginfi_account);

    let cached = cache
        .get_account(&address)
        .expect("account should be cached");
    assert_eq!(cached.slot, slot);
    assert_eq!(cached.address, address);
    assert_eq!(cached._positions().len(), 1);
    assert_eq!(cached._positions()[0].bank_pk, bank);

    assert_eq!(health_of(&cache, &address), Some(INVALID_HEALTH));
}

#[test]
fn test_update_overwrites_existing_account() {
    let mut cache = MarginfiAccountsCache::new();
    let address = key(1, 3);
    let group1 = key(3, 3);
    let group2 = key(3, 4);
    let bank1 = key(4, 4);
    let bank2 = key(4, 5);

    let marginfi_account1 = create_marginfi_account(group1, vec![create_balance(bank1, 1, 2)]);
    let marginfi_account2 = create_marginfi_account(group2, vec![create_balance(bank2, 3, 4)]);

    cache.update(1, address, marginfi_account1);
    cache.update(2, address, marginfi_account2);

    let cached = cache.get_account(&address).unwrap();
    assert_eq!(cached.slot, 2);
    assert_eq!(cached._positions()[0].bank_pk, bank2);

    assert_eq!(health_of(&cache, &address), Some(INVALID_HEALTH));
}

#[test]
fn test_update_with_older_slot_does_not_overwrite() {
    let mut cache = MarginfiAccountsCache::new();
    let address = key(1, 4);
    let group_new = key(3, 5);
    let group_old = key(3, 6);
    let bank_new = key(4, 6);
    let bank_old = key(4, 7);

    let marginfi_account_new =
        create_marginfi_account(group_new, vec![create_balance(bank_new, 10, 20)]);
    let marginfi_account_old =
        create_marginfi_account(group_old, vec![create_balance(bank_old, 30, 40)]);

    cache.update(10, address, marginfi_account_new);
    cache.update(5, address, marginfi_account_old);

    let cached = cache.get_account(&address).unwrap();
    assert_eq!(cached.slot, 10);
    assert_eq!(cached._positions()[0].bank_pk, bank_new);
    assert_eq!(cached._positions()[0].asset_shares, fx(10));
    assert_eq!(cached._positions()[0].liability_shares, fx(20));
}

#[test]
fn test_get_account_returns_error_for_missing_account() {
    let cache = MarginfiAccountsCache::new();
    let address = key(1, 5);
    let result = cache.get_account(&address);
    assert!(result.is_err());
    assert!(result.unwrap_err().to_message().contains("not found in cache"));
}

#[test]
fn test_get_accounts_with_health_empty() {
    let cache = MarginfiAccountsCache::new();
    let health_map = cache.get_accounts_with_health();
    assert!(health_map.is_empty());
}

#[test]
fn test_multiple_accounts_in_cache() {
    let mut cache = MarginfiAccountsCache::new();
    let slot1 = 1;
    let slot2 = 2;
    let address1 = key(1, 6);
    let address2 = key(1, 7);
    let group1 = key(3, 7);
    let group2 = key(3, 8);
    let bank1 = key(4, 8);
    let bank2 = key(4, 9);

    let marginfi_account1 = create_marginfi_account(group1, vec![create_balance(bank1, 11, 22)]);
    let marginfi_account2 = create_marginfi_account(group2, vec![create_balance(bank2, 33, 44)]);

    cache.update(slot1, address1, marginfi_account1);
    cache.update(slot2, address2, marginfi_account2);

    let cached1 = cache.get_account(&address1).unwrap();
    let cached2 = cache.get_account(&address2).unwrap();

    assert_eq!(cached1.slot, slot1);
    assert_eq!(cached2.slot, slot2);
    assert_eq!(cached1._positions()[0].bank_pk, bank1);
    assert_eq!(cached2._positions()[0].bank_pk, bank2);

    assert_eq!(health_of(&cache, &address1), Some(INVALID_HEALTH));
    assert_eq!(health_of(&cache, &address2), Some(INVALID_HEALTH));
}

#[test]
fn test_asset_value_maint_and_liability_value_maint() {
    let slot = 1;
    let address = key(1, 8);
    let group = key(3, 9);
    let bank = key(4, 10);

    let mut marginfi_account = create_marginfi_account(group, vec![create_balance(bank, 100, 50)]);
    marginfi_account.health_cache.asset_value_maint = fx(500);
    marginfi_account.health_cache.liability_value_maint = fx(200);

    let cached = CachedMarginfiAccount::from(slot, address, marginfi_account);

    assert_eq!(cached.asset_value_maint(), fx(500));
    assert_eq!(cached.liability_value_maint(), fx(200));
}

#[test]
fn test_health_returns_some_when_asset_value_maint_nonzero() {
    let slot = 1;
    let address = key(1, 9);
    let group = key(3, 10);
    let bank = key(4, 11);

    let mut marginfi_account = create_marginfi_account(group, vec![create_balance(bank, 100, 50)]);
    marginfi_account.health_cache.asset_value_maint = fx(1000);
    marginfi_account.health_cache.liability_value_maint = fx(500);

    let cached = CachedMarginfiAccount::from(slot, address, marginfi_account);

    // (1000 - 500) / 1000 = 0.5, whose integer part is 0
    assert_eq!(cached.health(), Some(0));
}

#[test]
fn test_health_returns_none_when_asset_value_maint_zero() {
    let slot = 1;
    let address = key(1, 10);
    let group = key(3, 11);
    let bank = key(4, 12);

    let mut marginfi_account = create_marginfi_account(group, vec![create_balance(bank, 100, 50)]);
    marginfi_account.health_cache.asset_value_maint = fx(0);
    marginfi_account.health_cache.liability_value_maint = fx(500);

    let cached = CachedMarginfiAccount::from(slot, address, marginfi_account);

    assert_eq!(cached.health(), None);
}

#[test]
fn test_health_negative_liability() {
    let slot = 1;
    let address = key(1, 11);
    let group = key(3, 12);
    let bank = key(4, 13);

    let mut marginfi_account = create_marginfi_account(group, vec![create_balance(bank, 100, 50)]);
    marginfi_account.health_cache.asset_value_maint = fx(1000);
    marginfi_account.health_cache.liability_value_maint = fx(1500);

    let cached = CachedMarginfiAccount::from(slot, address, marginfi_account);

    // (1000 - 1500) / 1000 = -0.5, rounded down to -1
    assert_eq!(cached.health(), Some(-1));
}

#[test]
fn zero_asset_value_puts_sentinel_in_index() {
    let mut cache = MarginfiAccountsCache::new();
    let address = key(1, 12);
    let mut account = create_marginfi_account(key(3, 13), vec![]);
    account.health_cache.asset_value_maint = 0;
    account.health_cache.liability_value_maint = fx(7);
    cache.update(3, address, account);
    assert_eq!(health_of(&cache, &address), Some(INVALID_HEALTH));
    assert_eq!(INVALID_HEALTH, i64::MIN);
}

#[test]
fn health_index_follows_latest_write() {
    let mut cache = MarginfiAccountsCache::new();
    let address = key(1, 13);
    let mut first = create_marginfi_account(key(3, 14), vec![]);
    first.health_cache.asset_value_maint = fx(100);
    first.health_cache.liability_value_maint = fx(300);
    cache.update(1, address, first);
    assert_eq!(health_of(&cache, &address), Some(-2));

    let mut second = create_marginfi_account(key(3, 14), vec![]);
    second.health_cache.asset_value_maint = fx(100);
    second.health_cache.liability_value_maint = fx(-300);
    cache.update(2, address, second);
    assert_eq!(health_of(&cache, &address), Some(4));

    // An older write changes neither the position nor its score.
    let mut stale = create_marginfi_account(key(3, 14), vec![]);
    stale.health_cache.asset_value_maint = 0;
    cache.update(1, address, stale);
    assert_eq!(health_of(&cache, &address), Some(4));
    assert_eq!(cache.get_account(&address).unwrap().slot, 2);
}

#[test]
fn inactive_balances_are_dropped() {
    let mut balances = vec![create_balance(key(4, 14), 1, 0)];
    balances.push(create_default_balance());
    balances.push(create_balance(key(4, 15), 2, 0));
    let account = MarginfiAccount {
        group: key(3, 15),
        balances,
        health_cache: HealthCache {
            asset_value_maint: 0,
            liability_value_maint: 0,
        },
    };
    let cached = CachedMarginfiAccount::from(1, key(1, 14), account);
    assert_eq!(cached._positions().len(), 2);
    assert_eq!(cached._positions()[1].bank_pk, key(4, 15));
}

#[test]
fn health_out_of_range_is_unavailable() {
    let mut account = create_marginfi_account(key(3, 16), vec![]);
    // A tiny asset value against a huge liability leaves the i64 range.
    account.health_cache.asset_value_maint = 1;
    account.health_cache.liability_value_maint = fx(1_000_000_000);
    let cached = CachedMarginfiAccount::from(1, key(1, 15), account);
    assert_eq!(cached.health(), None);
}
