use vstd::prelude::*;

verus! {

/// The chain clock: the process-wide source of the current slot.
#[derive(Clone, Copy, Debug, PartialEq, Eq, Structural)]
pub struct Clock {
    pub slot: u64,
    pub epoch_start_timestamp: i64,
    pub epoch: u64,
    pub leader_schedule_epoch: u64,
    pub unix_timestamp: i64,
}

/// The unsigned integer that `n` bytes of `s` from `off` encode, least
/// significant byte first.
pub open spec fn le_uint(s: Seq<u8>, off: int, n: nat) -> int
    decreases n,
{
    if n == 0 {
        0
    } else {
        s[off] as int + 256 * le_uint(s, off + 1, (n - 1) as nat)
    }
}

/// The two's-complement integer that eight bytes of `s` from `off` encode,
/// least significant byte first.
pub open spec fn le_i64(s: Seq<u8>, off: int) -> int {
    let u = le_uint(s, off, 8);
    if u >= 0x8000_0000_0000_0000 {
        u - 0x1_0000_0000_0000_0000
    } else {
        u
    }
}

/// The clock that serialized clock bytes hold: five fixed-width little-endian
/// fields in declaration order; bytes past the fortieth are ignored.
pub open spec fn clock_of(data: Seq<u8>) -> Option<Clock> {
    if data.len() < 40 {
        None
    } else {
        Some(
            Clock {
                slot: le_uint(data, 0, 8) as u64,
                epoch_start_timestamp: le_i64(data, 8) as i64,
                epoch: le_uint(data, 16, 8) as u64,
                leader_schedule_epoch: le_uint(data, 24, 8) as u64,
                unix_timestamp: le_i64(data, 32) as i64,
            },
        )
    }
}

/// Relies on `bincode::deserialize::<solana_clock::Clock>` (fixed-width
/// little-endian integers, trailing bytes allowed) for the five clock fields.
#[verifier::external_body]
fn read_clock(data: &[u8]) -> (r: Option<Clock>)
    ensures
        r == clock_of(data@),
{
    bincode::deserialize::<solana_clock::Clock>(data).ok().map(|c| Clock {
        slot: c.slot,
        epoch_start_timestamp: c.epoch_start_timestamp,
        epoch: c.epoch,
        leader_schedule_epoch: c.leader_schedule_epoch,
        unix_timestamp: c.unix_timestamp,
    })
}

/// Decodes the clock account's bytes.
pub fn decode_clock(data: &[u8]) -> (r: Option<Clock>)
    ensures
        r == clock_of(data@),
{
    read_clock(data)
}

} // verus!
