//! The vocabulary between a session and whoever moves its bytes.
//!
//! A session never blocks. It asks for one [`Action`] at a time and goes on
//! when it is handed the [`Reply`]. Times are nanoseconds on a clock that
//! never runs backwards.

use vstd::prelude::*;

use crate::error::{ErrorModel, PtouchError};

verus! {

/// Default timeout for byte transfers: 5 s.
pub const TRANSFER_TIMEOUT: u64 = 5_000_000_000;

/// Short timeout for flushing stale input: 100 ms.
pub const FLUSH_TIMEOUT: u64 = 100_000_000;

/// Delay before each status read: 100 ms.
pub const STATUS_RETRY_DELAY: u64 = 100_000_000;

/// Maximum number of status reads.
pub const STATUS_MAX_RETRIES: usize = 10;

/// Longest silence of the printer after a print command: 30 s. It restarts on
/// every status transfer, so a long label is bounded by silence, not by its
/// total length.
pub const PRINT_STATUS_IDLE_TIMEOUT: u64 = 30_000_000_000;

/// Bound on each read while waiting for a status, so that transient silence
/// cannot consume the whole deadline in one transfer: 250 ms.
pub const PRINT_STATUS_POLL_TIMEOUT: u64 = 250_000_000;

/// Never ask for a zero timeout, which means "wait forever": 1 ms.
pub const PRINT_STATUS_MIN_POLL_TIMEOUT: u64 = 1_000_000;

/// Pause after a transfer of no bytes, so that a printer which keeps completing
/// empty reads cannot spin a core: 10 ms.
pub const ZERO_LENGTH_TRANSFER_DELAY: u64 = 10_000_000;

/// Total time for a status query of a PT-P300BT: 10 s.
pub const P300BT_QUERY_TIMEOUT: u64 = 10_000_000_000;

/// Total time for a PT-P300BT to complete a job: 60 s.
pub const P300BT_COMPLETION_TIMEOUT: u64 = 60_000_000_000;

/// Size of the buffer for flushing stale input.
pub const FLUSH_BUFFER_SIZE: usize = 64;

/// Time since `start`.
pub open spec fn elapsed(start: u64, now: u64) -> nat {
    if now >= start {
        (now - start) as nat
    } else {
        0
    }
}

/// Time since `start`.
pub fn elapsed_since(start: u64, now: u64) -> (r: u64)
    ensures
        r == elapsed(start, now),
{
    if now >= start {
        now - start
    } else {
        0
    }
}

/// What a session asks for.
#[derive(Debug, Clone, PartialEq, Eq)]
pub enum Action {
    /// Hand the bytes to the printer.
    Send { bytes: Vec<u8>, timeout: u64 },
    /// Read what the printer has sent into a buffer of `capacity` bytes.
    Receive { capacity: usize, timeout: u64 },
    /// Let time pass.
    Sleep { duration: u64 },
}

/// The value of an [`Action`].
pub enum ActionModel {
    Send { bytes: Seq<u8>, timeout: u64 },
    Receive { capacity: usize, timeout: u64 },
    Sleep { duration: u64 },
}

impl View for Action {
    type V = ActionModel;

    open spec fn view(&self) -> ActionModel {
        match self {
            Action::Send { bytes, timeout } => ActionModel::Send {
                bytes: bytes@,
                timeout: *timeout,
            },
            Action::Receive { capacity, timeout } => ActionModel::Receive {
                capacity: *capacity,
                timeout: *timeout,
            },
            Action::Sleep { duration } => ActionModel::Sleep { duration: *duration },
        }
    }
}

/// What became of an action.
#[derive(Debug, Clone, PartialEq, Eq)]
pub enum Reply {
    /// The bytes were sent.
    Sent,
    /// The transport reported `count` bytes; `buffer` is the whole receive
    /// buffer as it was left.
    Received { count: usize, buffer: Vec<u8> },
    /// The time has passed.
    Slept,
    /// The transfer failed.
    Failed(PtouchError),
}

/// The value of a [`Reply`].
pub enum ReplyModel {
    Sent,
    Received { count: usize, buffer: Seq<u8> },
    Slept,
    Failed(ErrorModel),
}

impl View for Reply {
    type V = ReplyModel;

    open spec fn view(&self) -> ReplyModel {
        match self {
            Reply::Sent => ReplyModel::Sent,
            Reply::Received { count, buffer } => ReplyModel::Received {
                count: *count,
                buffer: buffer@,
            },
            Reply::Slept => ReplyModel::Slept,
            Reply::Failed(e) => ReplyModel::Failed(e@),
        }
    }
}

/// Whether a reply answers a send.
pub open spec fn answers_send(reply: ReplyModel) -> bool {
    reply is Sent || reply is Failed
}

/// Whether a reply answers a read into a buffer of `capacity` bytes.
pub open spec fn answers_receive(reply: ReplyModel, capacity: usize) -> bool {
    match reply {
        ReplyModel::Received { count, buffer } => buffer.len() == capacity,
        ReplyModel::Failed(e) => true,
        _ => false,
    }
}

/// Whether a reply answers a pause.
pub open spec fn answers_sleep(reply: ReplyModel) -> bool {
    reply is Slept
}

} // verus!
