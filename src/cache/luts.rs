use vstd::prelude::*;
use crate::address::Address;
use solana_address_lookup_table_interface::state::AddressLookupTable;

verus! {

/// An address lookup table: its own address and the addresses it lists.
#[derive(Debug)]
pub struct AddressLookupTableAccount {
    pub key: Address,
    pub addresses: Vec<Address>,
}

/// The lookup-table address and its listed addresses, as plain values.
pub open spec fn lut_view(t: AddressLookupTableAccount) -> (Address, Seq<Address>) {
    (t.key, t.addresses@)
}

fn copy_addresses(v: &Vec<Address>) -> (r: Vec<Address>)
    ensures
        r@ == v@,
{
    let mut r: Vec<Address> = Vec::new();
    let mut i: usize = 0;
    while i < v.len()
        invariant
            0 <= i <= v@.len(),
            r@ == v@.subrange(0, i as int),
        decreases v@.len() - i,
    {
        r.push(v[i]);
        i = i + 1;
        assert(r@ =~= v@.subrange(0, i as int));
    }
    assert(v@.subrange(0, i as int) =~= v@);
    r
}

impl Clone for AddressLookupTableAccount {
    fn clone(&self) -> (r: Self)
        ensures
            lut_view(r) == lut_view(*self),
    {
        AddressLookupTableAccount { key: self.key, addresses: copy_addresses(&self.addresses) }
    }
}

/// The addresses that lookup-table account bytes list, when they hold an
/// initialised table.
pub uninterp spec fn lookup_table_addresses(data: Seq<u8>) -> Option<Seq<Address>>;

/// Relies on `solana_address_lookup_table_interface::state::AddressLookupTable::deserialize`
/// for the addresses listed after the table's header; each is taken byte for byte.
#[verifier::external_body]
fn read_lookup_table(data: &[u8]) -> (r: Option<Vec<Address>>)
    ensures
        match r {
            Some(v) => lookup_table_addresses(data@) == Some(v@),
            None => lookup_table_addresses(data@) is None,
        },
{
    AddressLookupTable::deserialize(data)
        .ok()
        .map(|t| t.addresses.iter().map(|k| Address::new(k.to_bytes())).collect())
}

/// Decodes a lookup-table account fetched from `key`.
pub fn decode_lookup_table(key: Address, data: &[u8]) -> (r: Option<AddressLookupTableAccount>)
    ensures
        match r {
            Some(t) => t.key == key && lookup_table_addresses(data@) == Some(t.addresses@),
            None => lookup_table_addresses(data@) is None,
        },
{
    match read_lookup_table(data) {
        Some(addresses) => Some(AddressLookupTableAccount { key, addresses }),
        None => None,
    }
}

/// The lookup-table cache: replaced as a whole, never merged.
pub struct LutsCache {
    luts: Vec<AddressLookupTableAccount>,
}

impl LutsCache {
    /// The stored tables, in order.
    pub closed spec fn view(&self) -> Seq<(Address, Seq<Address>)> {
        self.luts@.map_values(|t: AddressLookupTableAccount| lut_view(t))
    }

    /// An empty lookup-table cache.
    pub fn new() -> (r: Self)
        ensures
            r@ == Seq::<(Address, Seq<Address>)>::empty(),
    {
        let r = LutsCache { luts: Vec::new() };
        assert(r@ =~= Seq::<(Address, Seq<Address>)>::empty());
        r
    }

    /// Replaces every stored table with `luts`.
    pub fn populate(&mut self, luts: Vec<AddressLookupTableAccount>)
        ensures
            final(self)@ == luts@.map_values(|t: AddressLookupTableAccount| lut_view(t)),
    {
        self.luts = luts;
    }

    /// A copy of every stored table, in order.
    pub fn get_all(&self) -> (r: Vec<AddressLookupTableAccount>)
        ensures
            r@.map_values(|t: AddressLookupTableAccount| lut_view(t)) == self@,
    {
        let mut r: Vec<AddressLookupTableAccount> = Vec::new();
        let mut i: usize = 0;
        while i < self.luts.len()
            invariant
                0 <= i <= self.luts@.len(),
                r@.len() == i,
                forall|j: int| 0 <= j < i ==> lut_view(#[trigger] r@[j]) == lut_view(self.luts@[j]),
            decreases self.luts@.len() - i,
        {
            r.push(self.luts[i].clone());
            i = i + 1;
        }
        assert(r@.map_values(|t: AddressLookupTableAccount| lut_view(t)) =~= self@);
        r
    }
}

} // verus!
