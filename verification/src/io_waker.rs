//! The cross-thread wake: what any thread posts to a worker's completion queue
//! to make the worker's wait return.

use vstd::prelude::*;
use crate::completion::{Completion, CompletionRecord, WAKE_UP_COMPLETION_KEY};

verus! {

/// What is posted to a completion queue.
#[derive(Clone, Copy, Debug, PartialEq, Eq, Structural)]
pub struct CompletionPacket {
    /// The payload size that the packet reports.
    pub bytes_transferred: u32,
    /// The tag of the packet.
    pub completion_key: u64,
    /// The operation that the packet belongs to, if any.
    pub operation: Option<u64>,
}

impl CompletionPacket {
    /// The packet that wakes a worker up: the wake-up key, no payload and no
    /// operation.
    pub open spec fn wake_up() -> CompletionPacket {
        CompletionPacket {
            bytes_transferred: 0,
            completion_key: WAKE_UP_COMPLETION_KEY,
            operation: None,
        }
    }

    /// The record as which the queue hands a posted packet out: what was posted,
    /// with the status of success.
    pub open spec fn delivered(self) -> CompletionRecord {
        CompletionRecord {
            completion_key: self.completion_key,
            operation: self.operation,
            bytes_transferred: self.bytes_transferred,
            status: 0,
        }
    }

    /// The record as which the queue hands this packet out, once posted.
    pub fn as_record(&self) -> (record: CompletionRecord)
        ensures
            record == self.delivered(),
    {
        CompletionRecord {
            completion_key: self.completion_key,
            operation: self.operation,
            bytes_transferred: self.bytes_transferred,
            status: 0,
        }
    }
}

/// Decides what a wake posts. `port_alive` says whether the worker's
/// completion queue still exists. Where it is gone the wake does nothing;
/// where it exists the wake-up packet is to be posted to it.
pub fn wake_packet(port_alive: bool) -> (post: Option<CompletionPacket>)
    ensures
        post == if port_alive {
            Some(CompletionPacket::wake_up())
        } else {
            None
        },
{
    if port_alive {
        Some(
            CompletionPacket {
                bytes_transferred: 0,
                completion_key: WAKE_UP_COMPLETION_KEY,
                operation: None,
            },
        )
    } else {
        None
    }
}

/// A posted wake-up packet comes out of the queue as a sentinel: it names no
/// operation.
pub proof fn lemma_wake_up_is_sentinel()
    ensures
        CompletionPacket::wake_up().delivered().completion() == Completion::Sentinel,
{
}

} // verus!
