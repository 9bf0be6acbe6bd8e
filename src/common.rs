use vstd::prelude::*;
use crate::address::Address;

verus! {

/// Leading bytes of a margin (position) account record.
pub const MARGINFI_ACCOUNT_DISCRIMINATOR: [u8; 8] = [67, 178, 130, 109, 126, 114, 28, 42];

pub const MARGINFI_ACCOUNT_DISCRIMINATOR_LEN: usize = 8;

/// Leading bytes of a bank (pool) record.
pub const MARGINFI_BANK_DISCRIMINATOR: [u8; 8] = [142, 49, 166, 242, 50, 66, 97, 188];

pub const MARGINFI_BANK_DISCRIMINATOR_LEN: usize = 8;

/// A ledger account as fetched or streamed.
#[derive(Clone, Debug)]
pub struct Account {
    pub lamports: u64,
    pub data: Vec<u8>,
    pub owner: Address,
    pub executable: bool,
    pub rent_epoch: u64,
}

/// The kind of entity that an update event carries.
#[derive(Clone, Copy, Debug, PartialEq, Eq, Structural)]
pub enum MessageType {
    Clock,
    MarginfiAccount,
    Bank,
    Oracle,
}

/// Whether `data` begins with `prefix`.
pub open spec fn has_prefix(data: Seq<u8>, prefix: Seq<u8>) -> bool {
    prefix.len() <= data.len() && data.subrange(0, prefix.len() as int) == prefix
}

/// What a program-owned record classifies as: a position when it is longer
/// than the position magic and starts with it, else a pool under the same
/// rule for the pool magic, else nothing.
pub open spec fn message_type_of(data: Seq<u8>) -> Option<MessageType> {
    if data.len() > 8 && has_prefix(data, MARGINFI_ACCOUNT_DISCRIMINATOR@) {
        Some(MessageType::MarginfiAccount)
    } else if data.len() > 8 && has_prefix(data, MARGINFI_BANK_DISCRIMINATOR@) {
        Some(MessageType::Bank)
    } else {
        None
    }
}

/// Whether `data` starts with the eight bytes of `magic`.
pub fn starts_with_magic(data: &[u8], magic: &[u8; 8]) -> (r: bool)
    ensures
        r == has_prefix(data@, magic@),
{
    if data.len() < 8 {
        return false;
    }
    let mut i: usize = 0;
    while i < 8
        invariant
            0 <= i <= 8,
            8 <= data@.len(),
            forall|j: int| 0 <= j < i ==> data@[j] == magic@[j],
        decreases 8 - i,
    {
        if data[i] != magic[i] {
            assert(data@.subrange(0, 8)[i as int] != magic@[i as int]);
            return false;
        }
        i = i + 1;
    }
    assert(data@.subrange(0, 8) =~= magic@);
    true
}

/// Classifies program-owned record bytes by their magic prefix.
pub fn get_marginfi_message_type(account_data: &[u8]) -> (r: Option<MessageType>)
    ensures
        r == message_type_of(account_data@),
{
    if account_data.len() > MARGINFI_ACCOUNT_DISCRIMINATOR_LEN && starts_with_magic(
        account_data,
        &MARGINFI_ACCOUNT_DISCRIMINATOR,
    ) {
        Some(MessageType::MarginfiAccount)
    } else if account_data.len() > MARGINFI_BANK_DISCRIMINATOR_LEN && starts_with_magic(
        account_data,
        &MARGINFI_BANK_DISCRIMINATOR,
    ) {
        Some(MessageType::Bank)
    } else {
        None
    }
}

/// Classifier totality: input no longer than the magic is never recognised.
pub proof fn lemma_short_input_unrecognized(data: Seq<u8>)
    requires
        data.len() <= MARGINFI_ACCOUNT_DISCRIMINATOR_LEN,
    ensures
        message_type_of(data) is None,
{
}

} // verus!
