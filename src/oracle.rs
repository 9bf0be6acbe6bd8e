use vstd::prelude::*;
use vstd::slice::slice_subrange;
use anchor_lang::AnchorDeserialize;
use pyth_solana_receiver_sdk::price_update::PriceUpdateV2;
use switchboard_on_demand::PullFeedAccountData;
use crate::common::{has_prefix, starts_with_magic};

verus! {

/// How a pool's price oracles are laid out.
#[derive(Clone, Copy, Debug, PartialEq, Eq, Structural)]
pub enum OracleSetup {
    NoOracle,
    PythLegacy,
    SwitchboardV2,
    PythPushOracle,
    SwitchboardPull,
    StakedWithPythPush,
}

/// Why oracle bytes could not be decoded into a price.
#[derive(Clone, Copy, Debug, PartialEq, Eq, Structural)]
pub enum DecodeError {
    /// Fewer than eight bytes.
    InvalidLength,
    /// The first eight bytes are not the layout's magic.
    InvalidDiscriminator,
    /// The magic matched but the record after it could not be read.
    Malformed,
    /// The oracle layout has no decoder.
    UnsupportedOracleType,
}

/// What the error says about oracle bytes of the given layout.
pub open spec fn decode_error_message(e: DecodeError, oracle_type: OracleSetup) -> Seq<char> {
    match (e, oracle_type) {
        (DecodeError::InvalidLength, OracleSetup::SwitchboardPull) => "Invalid Swb oracle account length"@,
        (DecodeError::InvalidLength, OracleSetup::PythPushOracle) => "Invalid Pyth oracle account length"@,
        (DecodeError::InvalidDiscriminator, OracleSetup::SwitchboardPull) => "Invalid Swb oracle account discriminator"@,
        (DecodeError::InvalidDiscriminator, OracleSetup::PythPushOracle) => "Invalid Pyth oracle account discriminator"@,
        (DecodeError::Malformed, OracleSetup::SwitchboardPull) => "Failed to parse the Swb oracle account"@,
        (DecodeError::Malformed, OracleSetup::PythPushOracle) => "Failed to parse the Pyth oracle account"@,
        (DecodeError::InvalidLength, _) => "Invalid oracle account length"@,
        (DecodeError::InvalidDiscriminator, _) => "Invalid oracle account discriminator"@,
        (DecodeError::Malformed, _) => "Failed to parse the oracle account"@,
        (DecodeError::UnsupportedOracleType, _) => "Unsupported oracle type"@,
    }
}

impl DecodeError {
    /// A human-readable description of the error for oracle bytes of the
    /// given layout.
    pub fn to_message(&self, oracle_type: OracleSetup) -> (r: String)
        ensures
            r@ == decode_error_message(*self, oracle_type),
    {
        match (self, oracle_type) {
            (DecodeError::InvalidLength, OracleSetup::SwitchboardPull) => "Invalid Swb oracle account length".to_owned(),
            (DecodeError::InvalidLength, OracleSetup::PythPushOracle) => "Invalid Pyth oracle account length".to_owned(),
            (DecodeError::InvalidDiscriminator, OracleSetup::SwitchboardPull) => "Invalid Swb oracle account discriminator".to_owned(),
            (DecodeError::InvalidDiscriminator, OracleSetup::PythPushOracle) => "Invalid Pyth oracle account discriminator".to_owned(),
            (DecodeError::Malformed, OracleSetup::SwitchboardPull) => "Failed to parse the Swb oracle account".to_owned(),
            (DecodeError::Malformed, OracleSetup::PythPushOracle) => "Failed to parse the Pyth oracle account".to_owned(),
            (DecodeError::InvalidLength, _) => "Invalid oracle account length".to_owned(),
            (DecodeError::InvalidDiscriminator, _) => "Invalid oracle account discriminator".to_owned(),
            (DecodeError::Malformed, _) => "Failed to parse the oracle account".to_owned(),
            (DecodeError::UnsupportedOracleType, _) => "Unsupported oracle type".to_owned(),
        }
    }
}

/// Magic of a pull-style (Switchboard on-demand) feed account.
pub const SWITCHBOARD_PULL_DISCRIMINATOR: [u8; 8] = [196, 27, 108, 196, 10, 215, 219, 40];

/// Magic of a push-style (Pyth receiver) price update account.
pub const PYTH_PRICE_UPDATE_DISCRIMINATOR: [u8; 8] = [34, 241, 35, 99, 157, 126, 244, 205];

/// Size of the plain-old-data feed block that follows the pull-style magic.
pub const PULL_FEED_DATA_LEN: usize = 3200;

/// The current result value of a pull-style feed block.
pub uninterp spec fn pull_feed_value(block: Seq<u8>) -> i128;

/// The price of a push-style price update record, when the record reads.
pub uninterp spec fn price_update_price(record: Seq<u8>) -> Option<i64>;

/// Relies on `bytemuck::try_pod_read_unaligned::<switchboard_on_demand::PullFeedAccountData>`:
/// a block of exactly the struct's size always reads (only a size mismatch fails);
/// the feed's `result.value` is taken from it.
#[verifier::external_body]
fn read_pull_feed_value(block: &[u8]) -> (r: Option<i128>)
    requires
        block@.len() == PULL_FEED_DATA_LEN,
    ensures
        r == Some(pull_feed_value(block@)),
{
    bytemuck::try_pod_read_unaligned::<PullFeedAccountData>(block).ok().map(|f| f.result.value)
}

/// Relies on the borsh reader that `anchor_lang::AnchorDeserialize` gives
/// `pyth_solana_receiver_sdk::price_update::PriceUpdateV2`; the message's `price`
/// is taken from the record.
#[verifier::external_body]
fn read_price_update_price(record: &[u8]) -> (r: Option<i64>)
    ensures
        r == price_update_price(record@),
{
    let mut rest: &[u8] = record;
    <PriceUpdateV2 as AnchorDeserialize>::deserialize(&mut rest).ok().map(|u| u.price_message.price)
}

/// The price that pull-style feed account bytes hold.
pub open spec fn swb_price(data: Seq<u8>) -> Result<i128, DecodeError> {
    if data.len() < 8 {
        Err(DecodeError::InvalidLength)
    } else if !has_prefix(data, SWITCHBOARD_PULL_DISCRIMINATOR@) {
        Err(DecodeError::InvalidDiscriminator)
    } else if data.len() < 8 + PULL_FEED_DATA_LEN {
        Err(DecodeError::Malformed)
    } else {
        Ok(pull_feed_value(data.subrange(8, 8 + PULL_FEED_DATA_LEN)))
    }
}

/// The price that push-style price update account bytes hold.
pub open spec fn pyth_price(data: Seq<u8>) -> Result<i128, DecodeError> {
    if data.len() < 8 {
        Err(DecodeError::InvalidLength)
    } else if !has_prefix(data, PYTH_PRICE_UPDATE_DISCRIMINATOR@) {
        Err(DecodeError::InvalidDiscriminator)
    } else {
        match price_update_price(data.subrange(8, data.len() as int)) {
            Some(p) => Ok(p as i128),
            None => Err(DecodeError::Malformed),
        }
    }
}

/// The price that oracle bytes of the given layout hold.
pub open spec fn price_of(oracle_type: OracleSetup, data: Seq<u8>) -> Result<i128, DecodeError> {
    match oracle_type {
        OracleSetup::SwitchboardPull => swb_price(data),
        OracleSetup::PythPushOracle => pyth_price(data),
        _ => Err(DecodeError::UnsupportedOracleType),
    }
}

/// Decodes a pull-style feed account: magic, then the feed block.
pub fn parse_swb_adapter(data: &[u8]) -> (r: Result<i128, DecodeError>)
    ensures
        r == swb_price(data@),
{
    if data.len() < 8 {
        return Err(DecodeError::InvalidLength);
    }
    if !starts_with_magic(data, &SWITCHBOARD_PULL_DISCRIMINATOR) {
        return Err(DecodeError::InvalidDiscriminator);
    }
    if data.len() < 8 + PULL_FEED_DATA_LEN {
        return Err(DecodeError::Malformed);
    }
    let block = slice_subrange(data, 8, 8 + PULL_FEED_DATA_LEN);
    match read_pull_feed_value(block) {
        Some(v) => Ok(v),
        None => Err(DecodeError::Malformed),
    }
}

/// Decodes a push-style price update account: magic, then the record.
pub fn parse_pyth_adapter(data: &[u8]) -> (r: Result<i128, DecodeError>)
    ensures
        r == pyth_price(data@),
{
    if data.len() < 8 {
        return Err(DecodeError::InvalidLength);
    }
    if !starts_with_magic(data, &PYTH_PRICE_UPDATE_DISCRIMINATOR) {
        return Err(DecodeError::InvalidDiscriminator);
    }
    let record = slice_subrange(data, 8, data.len());
    match read_price_update_price(record) {
        Some(p) => Ok(p as i128),
        None => Err(DecodeError::Malformed),
    }
}

/// Decodes the price held by oracle bytes of the given layout.
pub fn decode_price(oracle_type: OracleSetup, data: &[u8]) -> (r: Result<i128, DecodeError>)
    ensures
        r == price_of(oracle_type, data@),
{
    match oracle_type {
        OracleSetup::SwitchboardPull => parse_swb_adapter(data),
        OracleSetup::PythPushOracle => parse_pyth_adapter(data),
        _ => Err(DecodeError::UnsupportedOracleType),
    }
}

/// Decoder rejection: short input is an invalid length, and input whose first
/// eight bytes are not the layout's magic is an invalid discriminator, for both
/// supported layouts.
pub proof fn lemma_decoder_rejection(oracle_type: OracleSetup, data: Seq<u8>)
    requires
        oracle_type == OracleSetup::SwitchboardPull || oracle_type == OracleSetup::PythPushOracle,
    ensures
        data.len() < 8 ==> price_of(oracle_type, data) == Err::<i128, DecodeError>(
            DecodeError::InvalidLength,
        ),
        data.len() >= 8 && oracle_type == OracleSetup::SwitchboardPull && data.subrange(0, 8)
            != SWITCHBOARD_PULL_DISCRIMINATOR@ ==> price_of(oracle_type, data) == Err::<
            i128,
            DecodeError,
        >(DecodeError::InvalidDiscriminator),
        data.len() >= 8 && oracle_type == OracleSetup::PythPushOracle && data.subrange(0, 8)
            != PYTH_PRICE_UPDATE_DISCRIMINATOR@ ==> price_of(oracle_type, data) == Err::<
            i128,
            DecodeError,
        >(DecodeError::InvalidDiscriminator),
{
}

} // verus!
