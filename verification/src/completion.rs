//! Completion records: what the completion queue hands to the drain loop, and
//! what each record means.

use vstd::prelude::*;

verus! {

/// The completion key of a record that only wakes the worker up. The value
/// means nothing; it has to differ from every key under which real I/O
/// completes.
pub const WAKE_UP_COMPLETION_KEY: u64 = 0x23546789897;

/// How an I/O operation ended.
#[derive(Clone, Copy, Debug, PartialEq, Eq, Structural)]
pub enum Outcome {
    /// The request succeeded and moved this many bytes.
    Success(u32),
    /// The request failed with this error code of the operating system.
    Failure(u32),
}

/// One record as the completion queue hands it out.
#[derive(Clone, Copy, Debug, PartialEq, Eq, Structural)]
pub struct CompletionRecord {
    /// The tag of the record.
    pub completion_key: u64,
    /// The operation that the record belongs to, where it carries one.
    pub operation: Option<u64>,
    /// The bytes that the request moved.
    pub bytes_transferred: u32,
    /// Zero where the request succeeded, else the operating system's error code.
    pub status: u32,
}

/// What a completion record means to the drain loop.
#[derive(Clone, Copy, Debug, PartialEq, Eq, Structural)]
pub enum Completion {
    /// The record only wakes the worker up: there is nothing to process.
    Sentinel,
    /// The operation `id` has ended with `outcome`.
    Operation { id: u64, outcome: Outcome },
    /// The record has a tag of real I/O and names no operation.
    Unattached,
}

impl CompletionRecord {
    /// How the request that the record reports ended.
    pub open spec fn outcome(self) -> Outcome {
        if self.status == 0 {
            Outcome::Success(self.bytes_transferred)
        } else {
            Outcome::Failure(self.status)
        }
    }

    /// What the record means. The tag decides first: under the wake-up key a
    /// record is a sentinel whatever else it holds.
    pub open spec fn completion(self) -> Completion {
        if self.completion_key == WAKE_UP_COMPLETION_KEY {
            Completion::Sentinel
        } else {
            match self.operation {
                Some(id) => Completion::Operation { id, outcome: self.outcome() },
                None => Completion::Unattached,
            }
        }
    }

    /// Whether the record reports the end of the operation `id`.
    pub open spec fn completes(self, id: u64) -> bool {
        self.completion() matches Completion::Operation { id: named, .. } && named == id
    }

    /// Tells what the record means.
    pub fn classify(&self) -> (meaning: Completion)
        ensures
            meaning == self.completion(),
    {
        if self.completion_key == WAKE_UP_COMPLETION_KEY {
            Completion::Sentinel
        } else {
            match self.operation {
                Some(id) => {
                    let outcome = if self.status == 0 {
                        Outcome::Success(self.bytes_transferred)
                    } else {
                        Outcome::Failure(self.status)
                    };
                    Completion::Operation { id, outcome }
                },
                None => Completion::Unattached,
            }
        }
    }
}

} // verus!
