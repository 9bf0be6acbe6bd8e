use vstd::prelude::*;
use crate::cache::{clock_after, upsert, Cache, ProgramAccount};
use crate::cache::banks::bank_view_of;
use crate::cache::marginfi_accounts::account_view_of;
use crate::cache::oracles::oracle_update;
use crate::clock::{clock_of, decode_clock};
use crate::common::MessageType;
use crate::service::geyser_subscriber::GeyserMessage;

verus! {

/// Why an update event was not applied.
#[derive(Clone, Copy, Debug, PartialEq, Eq, Structural)]
pub enum ProcessError {
    /// The clock account's bytes do not hold a clock.
    InvalidClock,
    /// A position or pool event came without a record of its own kind.
    MissingRecord,
}

/// Applies one update event to the caches. Clock and oracle events carry
/// their bytes; position and pool events need the record decoded from them,
/// handed over as `record`.
pub fn process_message(cache: &mut Cache, msg: &GeyserMessage, record: Option<ProgramAccount>) -> (r:
    Result<(), ProcessError>)
    requires
        old(cache).wf(),
    ensures
        final(cache).wf(),
        final(cache).mints@ == old(cache).mints@,
        final(cache).luts@ == old(cache).luts@,
        msg.message_type != MessageType::Clock ==> final(cache).clock == old(cache).clock,
        msg.message_type != MessageType::Oracle ==> final(cache).oracles@ == old(cache).oracles@,
        msg.message_type != MessageType::Bank ==> final(cache).banks@ == old(cache).banks@,
        msg.message_type != MessageType::MarginfiAccount ==> final(cache).marginfi_accounts@ == old(cache).marginfi_accounts@,
        msg.message_type == MessageType::Clock ==> match clock_of(msg.account.data@) {
            Some(c) => r is Ok && final(cache).clock == clock_after(old(cache).clock, c),
            None => r == Err::<(), ProcessError>(ProcessError::InvalidClock) && final(cache).clock
                == old(cache).clock,
        },
        msg.message_type == MessageType::Oracle ==> r is Ok && final(cache).oracles@ == oracle_update(
            old(cache).oracles@,
            msg.slot,
            msg.address,
            msg.account.data@,
        ),
        msg.message_type == MessageType::Bank ==> match record {
            Some(ProgramAccount::Bank(b)) => r is Ok && final(cache).banks@ == upsert(
                old(cache).banks@,
                msg.address,
                bank_view_of(msg.slot, msg.address, b),
            ),
            _ => r == Err::<(), ProcessError>(ProcessError::MissingRecord) && final(cache).banks@ == old(cache).banks@,
        },
        msg.message_type == MessageType::MarginfiAccount ==> match record {
            Some(ProgramAccount::MarginfiAccount(a)) => r is Ok && final(cache).marginfi_accounts@ == upsert(
                old(cache).marginfi_accounts@,
                msg.address,
                account_view_of(msg.slot, msg.address, a),
            ),
            _ => r == Err::<(), ProcessError>(ProcessError::MissingRecord) && final(cache).marginfi_accounts@ == old(cache).marginfi_accounts@,
        },
{
    match msg.message_type {
        MessageType::Clock => match decode_clock(msg.account.data.as_slice()) {
            Some(clock) => {
                cache.update_clock(clock);
                Ok(())
            },
            None => Err(ProcessError::InvalidClock),
        },
        MessageType::MarginfiAccount => match record {
            Some(ProgramAccount::MarginfiAccount(account)) => {
                cache.marginfi_accounts.update(msg.slot, msg.address, account);
                Ok(())
            },
            _ => Err(ProcessError::MissingRecord),
        },
        MessageType::Bank => match record {
            Some(ProgramAccount::Bank(bank)) => {
                cache.banks.update(msg.slot, msg.address, &bank);
                Ok(())
            },
            _ => Err(ProcessError::MissingRecord),
        },
        MessageType::Oracle => {
            cache.oracles.update(msg.slot, &msg.address, msg.account.data.as_slice());
            Ok(())
        },
    }
}

/// State of the ingestion loop.
#[derive(Clone, Copy, Debug, PartialEq, Eq, Structural)]
pub enum ProcessorState {
    Running,
    Stopped,
}

/// What a blocking receive on the event queue gave.
#[derive(Clone, Copy, Debug, PartialEq, Eq, Structural)]
pub enum ReceiveOutcome {
    /// An event, applied or logged.
    Event,
    /// The queue is closed or broken; logged and not fatal.
    Disconnected,
}

/// The state after one iteration of the ingestion loop.
pub open spec fn next_state(s: ProcessorState, stop_requested: bool) -> ProcessorState {
    if stop_requested || s == ProcessorState::Stopped {
        ProcessorState::Stopped
    } else {
        ProcessorState::Running
    }
}

impl ProcessorState {
    /// The state after one iteration: only the stop signal stops the loop,
    /// whatever the receive gave.
    pub fn after(self, outcome: ReceiveOutcome, stop_requested: bool) -> (r: ProcessorState)
        ensures
            r == next_state(self, stop_requested),
    {
        match self {
            ProcessorState::Stopped => ProcessorState::Stopped,
            ProcessorState::Running => {
                if stop_requested {
                    ProcessorState::Stopped
                } else {
                    match outcome {
                        ReceiveOutcome::Event => ProcessorState::Running,
                        ReceiveOutcome::Disconnected => ProcessorState::Running,
                    }
                }
            },
        }
    }
}

/// A closed queue does not stop a running loop: the loop keeps running until
/// the stop signal is observed, and then it stops for good.
pub proof fn lemma_disconnect_keeps_running(stop_requested: bool)
    ensures
        next_state(ProcessorState::Running, stop_requested) == ProcessorState::Running <==> !stop_requested,
        next_state(ProcessorState::Stopped, stop_requested) == ProcessorState::Stopped,
{
}

} // verus!
