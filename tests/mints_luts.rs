use liquidator::address::Address;
use liquidator::cache::luts::{AddressLookupTableAccount, LutsCache};
use liquidator::cache::mints::MintsCache;
use liquidator::common::Account;

fn key(tag: u8, n: u8) -> Address {
    let mut b = [0u8; 32];
    b[0] = tag;
    b[1] = n;
    b[31] = 3;
    Address::new(b)
}

fn account_owned_by(owner: Address) -> Account {
    Account {
        lamports: 0,
        data: vec![],
        owner,
        executable: false,
        rent_epoch: 0,
    }
}

#[test]
fn test_update_inserts_new_mint() {
    let mut cache = MintsCache::new();
    let address = key(1, 1);
    let owner = key(2, 1);
    let account = account_owned_by(owner);

    cache.update(address, &account);

    let cached = cache.get(&address).unwrap();
    assert_eq!(cached._address, address);
    assert_eq!(cached.owner, owner);
}

#[test]
fn test_update_overwrites_existing_mint() {
    let mut cache = MintsCache::new();
    let address = key(1, 2);
    let owner1 = key(2, 2);
    let owner2 = key(2, 3);

    cache.update(address, &account_owned_by(owner1));
    cache.update(address, &account_owned_by(owner2));

    let cached = cache.get(&address).unwrap();
    assert_eq!(cached.owner, owner2);
}

#[test]
fn test_get_returns_some_for_existing_mint() {
    let mut cache = MintsCache::new();
    let address = key(1, 3);
    let owner = key(2, 4);

    cache.update(address, &account_owned_by(owner));
    let result = cache.get(&address);
    assert!(result.is_ok());
    let cached = result.unwrap();
    assert_eq!(cached._address, address);
    assert_eq!(cached.owner, owner);
}

#[test]
fn missing_mint_is_not_found() {
    let cache = MintsCache::new();
    assert!(cache.get(&key(1, 4)).is_err());
}

fn dummy_lut(key: Address, n: u8) -> AddressLookupTableAccount {
    AddressLookupTableAccount {
        key,
        addresses: vec![self::key(5, n), self::key(6, n)],
    }
}

#[test]
fn test_populate_success() {
    let mut cache = LutsCache::new();
    let lut_1 = dummy_lut(key(4, 1), 1);
    let lut_2 = dummy_lut(key(4, 2), 2);
    let luts = vec![lut_1.clone(), lut_2.clone()];
    cache.populate(luts.clone());
    let stored = cache.get_all();
    assert_eq!(stored.len(), 2);
    assert_eq!(stored[0].key, lut_1.key);
    assert_eq!(stored[1].key, lut_2.key);
}

#[test]
fn test_populate_overwrites_existing() {
    let mut cache = LutsCache::new();
    let luts1 = vec![dummy_lut(key(4, 3), 3)];
    let luts2 = vec![dummy_lut(key(4, 4), 4), dummy_lut(key(4, 5), 5)];
    cache.populate(luts1);
    cache.populate(luts2.clone());
    let stored = cache.get_all();
    assert_eq!(stored.len(), luts2.len());
    for (a, b) in stored.iter().zip(luts2.iter()) {
        assert_eq!(a.key, b.key);
        assert_eq!(a.addresses, b.addresses);
    }
}

#[test]
fn test_populate_empty_vec() {
    let mut cache = LutsCache::new();
    let luts = vec![];
    cache.populate(luts);
    assert_eq!(cache.get_all().len(), 0);
}
