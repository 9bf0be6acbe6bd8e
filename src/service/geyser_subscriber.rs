use vstd::prelude::*;
use crate::address::Address;
use crate::common::{get_marginfi_message_type, message_type_of, Account, MessageType};

verus! {

/// Bytes of the chain clock account's address.
pub const SOLANA_CLOCK_BYTES: [u8; 32] = [
    6, 167, 213, 23, 24, 199, 116, 201, 40, 86, 99, 152, 105, 29, 94, 182, 139, 94, 184, 163, 155,
    75, 109, 92, 115, 85, 91, 33, 0, 0, 0, 0,
];

/// Why a streamed account could not become an update event.
#[derive(Clone, Copy, Debug, PartialEq, Eq, Structural)]
pub enum GeyserError {
    InvalidAddress,
    InvalidOwner,
}

/// An update event: a classified account observed at a slot.
#[derive(Debug)]
pub struct GeyserMessage {
    pub message_type: MessageType,
    pub slot: u64,
    pub address: Address,
    pub account: Account,
}

impl GeyserMessage {
    /// Builds an update event from a streamed account whose address and owner
    /// arrive as byte vectors; each must be 32 bytes long.
    pub fn new(
        message_type: MessageType,
        slot: u64,
        pubkey: &[u8],
        owner: &[u8],
        lamports: u64,
        data: Vec<u8>,
        executable: bool,
        rent_epoch: u64,
    ) -> (r: Result<Self, GeyserError>)
        ensures
            match r {
                Ok(m) => pubkey@.len() == 32 && owner@.len() == 32 && m.message_type == message_type
                    && m.slot == slot && m.address.bytes@ == pubkey@ && m.account.owner.bytes@ == owner@
                    && m.account.lamports == lamports && m.account.data@ == data@
                    && m.account.executable == executable && m.account.rent_epoch == rent_epoch,
                Err(e) => (pubkey@.len() != 32 && e == GeyserError::InvalidAddress) || (pubkey@.len()
                    == 32 && owner@.len() != 32 && e == GeyserError::InvalidOwner),
            },
    {
        let address = match Address::from_slice(pubkey) {
            Some(a) => a,
            None => {
                return Err(GeyserError::InvalidAddress);
            },
        };
        let owner = match Address::from_slice(owner) {
            Some(a) => a,
            None => {
                return Err(GeyserError::InvalidOwner);
            },
        };
        Ok(GeyserMessage {
            message_type,
            slot,
            address,
            account: Account { lamports, data, owner, executable, rent_epoch },
        })
    }
}

/// How a streamed account update at `slot` is routed: updates older than the
/// cached clock are dropped; accounts owned by the program are classified by
/// their magic; the clock account is a clock update; a tracked oracle is an
/// oracle update; anything else is ignored.
pub open spec fn route_of(
    program_id: Address,
    oracles: Seq<Address>,
    clock_slot: u64,
    slot: u64,
    address: Address,
    owner: Address,
    data: Seq<u8>,
) -> Option<MessageType> {
    if slot < clock_slot {
        None
    } else if owner == program_id {
        message_type_of(data)
    } else if address.bytes@ == SOLANA_CLOCK_BYTES@ {
        Some(MessageType::Clock)
    } else if oracles.contains(address) {
        Some(MessageType::Oracle)
    } else {
        None
    }
}

/// Routes a streamed account update; see `route_of`.
pub fn handle_event(
    program_id: &Address,
    oracle_addresses: &Vec<Address>,
    clock_slot: u64,
    slot: u64,
    address: &Address,
    owner: &Address,
    data: &[u8],
) -> (r: Option<MessageType>)
    ensures
        r == route_of(*program_id, oracle_addresses@, clock_slot, slot, *address, *owner, data@),
{
    if slot < clock_slot {
        return None;
    }
    if owner.same(program_id) {
        return get_marginfi_message_type(data);
    }
    let clock = Address::new(SOLANA_CLOCK_BYTES);
    if address.same(&clock) {
        assert(address.bytes@ == SOLANA_CLOCK_BYTES@);
        return Some(MessageType::Clock);
    }
    assert(address.bytes@ != SOLANA_CLOCK_BYTES@) by {
        if address.bytes@ == SOLANA_CLOCK_BYTES@ {
            assert(address.bytes@ =~= clock.bytes@);
            assert(address.bytes =~= clock.bytes);
        }
    }
    let mut i: usize = 0;
    while i < oracle_addresses.len()
        invariant
            0 <= i <= oracle_addresses@.len(),
            forall|j: int| 0 <= j < i ==> oracle_addresses@[j] != *address,
            slot >= clock_slot,
            *owner != *program_id,
            address.bytes@ != SOLANA_CLOCK_BYTES@,
        decreases oracle_addresses@.len() - i,
    {
        if oracle_addresses[i].same(address) {
            assert(oracle_addresses@[i as int] == *address);
            assert(oracle_addresses@.contains(*address));
            return Some(MessageType::Oracle);
        }
        i = i + 1;
    }
    None
}

} // verus!
