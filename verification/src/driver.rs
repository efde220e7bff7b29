//! The driver of one worker: it registers I/O operations, keeps their buffers
//! until the operating system is done with them, and dispatches the completion
//! records that the worker drains from its completion queue.

use std::collections::HashMap;
use vstd::prelude::*;
use crate::completion::{Completion, CompletionRecord, Outcome};
use crate::operation::{
    awaits_completion, batch_of, dispatch_of, dispatches, table_abandoned, table_after,
    table_after_all, Dispatch, OperationState, Table,
};
use crate::wake_signal::{waker_wake_by_ref, WakeSignal};

verus! {

broadcast use vstd::std_specs::hash::group_hash_axioms;

/// The most completion records that a worker takes from its queue in one go,
/// unless it is told otherwise. More records per call cost fewer calls and make
/// each call longer.
pub const IO_DEQUEUE_BATCH_SIZE: usize = 1024;

/// One outstanding I/O operation.
struct Operation {
    buffer: Vec<u8>,
    slot: Option<Outcome>,
    signal: WakeSignal,
    abandoned: bool,
}

impl View for Operation {
    type V = OperationState;

    closed spec fn view(&self) -> OperationState {
        OperationState {
            buffer: self.buffer@,
            slot: self.slot,
            signal: self.signal@,
            abandoned: self.abandoned,
        }
    }
}

/// What a task gets back when it takes the result of its operation: its
/// buffer, and how the request ended. After a failure the buffer holds whatever
/// was written before the failure.
#[derive(Debug, PartialEq, Eq)]
pub struct Completed {
    pub buffer: Vec<u8>,
    pub outcome: Outcome,
}

/// Why the result of an operation cannot be taken.
#[derive(Clone, Copy, Debug, PartialEq, Eq, Structural)]
pub enum TakeError {
    /// The driver holds no operation of that id: none was submitted under it,
    /// or it has been reclaimed.
    UnknownOperation,
    /// The completion of the operation has not been seen yet.
    NotResolved,
}

/// Where an operation stands.
#[derive(Clone, Copy, Debug, PartialEq, Eq, Structural)]
pub enum OperationStatus {
    /// The driver holds no operation of that id.
    Unknown,
    /// The request is in flight and a task awaits it.
    InFlight,
    /// The request is in flight and its task has gone away.
    Abandoned,
    /// The completion has been seen, with this outcome.
    Resolved(Outcome),
}

/// What became of an operation whose task went away.
#[derive(Clone, Copy, Debug, PartialEq, Eq, Structural)]
pub enum Abandonment {
    /// The driver holds no operation of that id.
    Unknown,
    /// The request is still in flight: the operation stays, with its buffer,
    /// until its completion is seen.
    Detached,
    /// The operation was resolved already and has been reclaimed.
    Reclaimed,
}

/// Why a worker stops.
#[derive(Clone, Copy, Debug, PartialEq, Eq, Structural)]
pub enum WorkerError {
    /// The wait on the completion queue failed with this error code of the
    /// operating system.
    WaitFailed(u32),
}

/// Where the operation `id` of `table` stands.
pub open spec fn status_of(table: Table, id: u64) -> OperationStatus {
    if !table.contains_key(id) {
        OperationStatus::Unknown
    } else {
        match table[id].slot {
            Some(outcome) => OperationStatus::Resolved(outcome),
            None => if table[id].abandoned {
                OperationStatus::Abandoned
            } else {
                OperationStatus::InFlight
            },
        }
    }
}

/// What a driver is, as plain values.
pub struct DriverState {
    /// The operations that the driver holds.
    pub table: Table,
    /// How many operations were ever submitted; the next id to hand out.
    pub issued: u64,
    /// The most records that one drain processes.
    pub max_batch: usize,
    /// The error code with which the wait on the queue failed, once it has.
    pub failure: Option<u32>,
}

/// The I/O driver of one worker.
pub struct Driver {
    operations: HashMap<u64, Operation>,
    next_id: u64,
    max_batch: usize,
    failure: Option<u32>,
}

impl View for Driver {
    type V = DriverState;

    closed spec fn view(&self) -> DriverState {
        DriverState {
            table: self.operations@.map_values(|op: Operation| op@),
            issued: self.next_id,
            max_batch: self.max_batch,
            failure: self.failure,
        }
    }
}

impl Driver {
    /// Whether the driver is in order: every id in the table has been handed
    /// out, and every signal in it has its own handle and no other, so that
    /// reclaiming an operation never destroys a signal that somebody can still
    /// wake. Every driver that this module hands out is in order.
    pub closed spec fn wf(&self) -> bool {
        forall|id: u64| #[trigger]
            self.operations@.contains_key(id) ==> {
                &&& id < self.next_id
                &&& self.operations@[id].signal@.waker_count == 1
                &&& self.operations@[id].signal@.waker_created
            }
    }

    /// Every signal that a driver in order holds is inert, and every id that it
    /// holds has been handed out: the driver can reclaim each of its operations
    /// without destroying a signal that a handle can still reach, and the next
    /// id is new.
    pub proof fn lemma_held_operations(self, id: u64)
        requires
            self.wf(),
            self@.table.contains_key(id),
        ensures
            self@.table[id].signal.is_inert(),
            self@.table[id].signal.waker_created,
            id < self@.issued,
    {
        assert(self.operations@.contains_key(id));
    }

    /// A driver without operations that drains `IO_DEQUEUE_BATCH_SIZE` records
    /// at most in one go.
    pub fn new() -> (driver: Self)
        ensures
            driver.wf(),
            driver@ == (DriverState {
                table: Map::empty(),
                issued: 0,
                max_batch: IO_DEQUEUE_BATCH_SIZE,
                failure: None,
            }),
    {
        Self::with_max_batch(IO_DEQUEUE_BATCH_SIZE)
    }

    /// A driver without operations that drains `max_batch` records at most in
    /// one go.
    pub fn with_max_batch(max_batch: usize) -> (driver: Self)
        ensures
            driver.wf(),
            driver@ == (DriverState {
                table: Map::empty(),
                issued: 0,
                max_batch,
                failure: None,
            }),
    {
        let driver = Self { operations: HashMap::new(), next_id: 0, max_batch, failure: None };
        assert(driver@.table =~= Map::empty());
        driver
    }

    /// Registers an operation on `buffer` and returns its id. The operation is
    /// in flight, and awaited on a fresh wake signal. The driver keeps the
    /// buffer, untouched, until the operation is reclaimed.
    pub fn submit(&mut self, buffer: Vec<u8>) -> (id: u64)
        requires
            old(self).wf(),
            old(self)@.issued < u64::MAX,
        ensures
            final(self).wf(),
            id == old(self)@.issued,
            !old(self)@.table.contains_key(id),
            final(self)@ == (DriverState {
                table: old(self)@.table.insert(id, OperationState::submitted(buffer@)),
                issued: (id + 1) as u64,
                ..old(self)@
            }),
    {
        let id = self.next_id;
        let mut signal = WakeSignal::new();
        let _ = signal.waker();
        let operation = Operation { buffer, slot: None, signal, abandoned: false };
        self.next_id = id + 1;
        self.operations.insert(id, operation);
        assert(self@.table =~= old(self)@.table.insert(id, OperationState::submitted(buffer@)));
        id
    }

    /// The most records that one drain processes.
    pub fn max_batch(&self) -> (max_batch: usize)
        ensures
            max_batch == self@.max_batch,
    {
        self.max_batch
    }

    /// How many operations were ever submitted.
    pub fn issued(&self) -> (issued: u64)
        ensures
            issued == self@.issued,
    {
        self.next_id
    }

    /// How many operations the driver holds: those in flight, awaited or not,
    /// and those resolved whose result nobody has taken yet.
    pub fn len(&self) -> (held: usize)
        ensures
            held == self@.table.len(),
    {
        assert(self@.table.dom() =~= self.operations@.dom());
        self.operations.len()
    }

    /// Where the operation `id` stands.
    pub fn status(&self, id: u64) -> (status: OperationStatus)
        ensures
            status == status_of(self@.table, id),
    {
        match self.operations.get(&id) {
            None => OperationStatus::Unknown,
            Some(operation) => match operation.slot {
                Some(outcome) => OperationStatus::Resolved(outcome),
                None => if operation.abandoned {
                    OperationStatus::Abandoned
                } else {
                    OperationStatus::InFlight
                },
            },
        }
    }

    /// The size of the buffer that the driver keeps for the operation `id`.
    pub fn buffer_len(&self, id: u64) -> (len: Option<usize>)
        ensures
            len == if self@.table.contains_key(id) {
                Some(self@.table[id].buffer.len() as usize)
            } else {
                None
            },
    {
        match self.operations.get(&id) {
            None => None,
            Some(operation) => Some(operation.buffer.len()),
        }
    }

    /// Reads and clears the wake flag of the task that awaits `id`. Returns
    /// whether the task has been woken since the flag was last cleared; false
    /// where the driver holds no such operation.
    pub fn consume_awakened(&mut self, id: u64) -> (awakened: bool)
        requires
            old(self).wf(),
        ensures
            final(self).wf(),
            awakened == (old(self)@.table.contains_key(id) && old(
                self,
            )@.table[id].signal.awakened),
            final(self)@ == (DriverState {
                table: if old(self)@.table.contains_key(id) {
                    old(self)@.table.insert(id, old(self)@.table[id].polled())
                } else {
                    old(self)@.table
                },
                ..old(self)@
            }),
    {
        match self.operations.remove(&id) {
            None => {
                assert(self.operations@ =~= old(self).operations@);
                false
            },
            Some(operation) => {
                let mut operation = operation;
                let awakened = operation.signal.consume_awakened();
                self.operations.insert(id, operation);
                assert(self@.table =~= old(self)@.table.insert(
                    id,
                    old(self)@.table[id].polled(),
                ));
                awakened
            },
        }
    }

    /// Hands the result of the operation `id` to its task and reclaims the
    /// operation. The task gets its buffer back whether the request succeeded
    /// or failed. Before the completion has been seen nothing is handed out
    /// and nothing changes.
    pub fn take_result(&mut self, id: u64) -> (taken: Result<Completed, TakeError>)
        requires
            old(self).wf(),
        ensures
            final(self).wf(),
            match taken {
                Ok(done) => {
                    &&& old(self)@.table.contains_key(id)
                    &&& old(self)@.table[id].slot == Some(done.outcome)
                    &&& done.buffer@ == old(self)@.table[id].buffer
                    &&& final(self)@ == (DriverState {
                        table: old(self)@.table.remove(id),
                        ..old(self)@
                    })
                },
                Err(TakeError::UnknownOperation) => {
                    &&& !old(self)@.table.contains_key(id)
                    &&& final(self)@ == old(self)@
                },
                Err(TakeError::NotResolved) => {
                    &&& awaits_completion(old(self)@.table, id)
                    &&& final(self)@ == old(self)@
                },
            },
    {
        let outcome = match self.operations.get(&id) {
            None => {
                return Err(TakeError::UnknownOperation);
            },
            Some(operation) => match operation.slot {
                None => {
                    return Err(TakeError::NotResolved);
                },
                Some(outcome) => outcome,
            },
        };
        match self.operations.remove(&id) {
            None => Err(TakeError::UnknownOperation),
            Some(operation) => {
                assert(self@.table =~= old(self)@.table.remove(id));
                let buffer = reclaim(operation);
                Ok(Completed { buffer, outcome })
            },
        }
    }

    /// Tells the driver that the task that awaited `id` has gone away. An
    /// operation in flight is kept, buffer and all, until its completion is
    /// seen, since the operating system may still write to the buffer; a
    /// resolved one is reclaimed at once.
    pub fn abandon(&mut self, id: u64) -> (outcome: Abandonment)
        requires
            old(self).wf(),
        ensures
            final(self).wf(),
            final(self)@ == (DriverState {
                table: table_abandoned(old(self)@.table, id),
                ..old(self)@
            }),
            outcome == if !old(self)@.table.contains_key(id) {
                Abandonment::Unknown
            } else if old(self)@.table[id].in_flight() {
                Abandonment::Detached
            } else {
                Abandonment::Reclaimed
            },
    {
        match self.operations.remove(&id) {
            None => {
                assert(self.operations@ =~= old(self).operations@);
                Abandonment::Unknown
            },
            Some(operation) => {
                if operation.slot.is_none() {
                    let mut operation = operation;
                    operation.abandoned = true;
                    self.operations.insert(id, operation);
                    assert(self@.table =~= old(self)@.table.insert(
                        id,
                        old(self)@.table[id].detached(),
                    ));
                    Abandonment::Detached
                } else {
                    assert(self@.table =~= old(self)@.table.remove(id));
                    let _ = reclaim(operation);
                    Abandonment::Reclaimed
                }
            },
        }
    }

    /// Processes one completion record. A sentinel, and a record that names no
    /// operation, touch nothing. A record for an operation in flight fills the
    /// operation's slot and wakes its task, or, where the task has gone away,
    /// reclaims the operation. A record for any other id touches nothing.
    pub fn process_record(&mut self, record: &CompletionRecord) -> (done: Dispatch)
        requires
            old(self).wf(),
        ensures
            final(self).wf(),
            done == dispatch_of(old(self)@.table, record.completion()),
            final(self)@ == (DriverState {
                table: table_after(old(self)@.table, record.completion()),
                ..old(self)@
            }),
    {
        match record.classify() {
            Completion::Sentinel => Dispatch::WakeOnly,
            Completion::Unattached => Dispatch::WakeOnly,
            Completion::Operation { id, outcome } => {
                let in_flight = match self.operations.get(&id) {
                    None => false,
                    Some(operation) => operation.slot.is_none(),
                };
                if !in_flight {
                    return Dispatch::Unmatched(id);
                }
                match self.operations.remove(&id) {
                    None => Dispatch::Unmatched(id),
                    Some(operation) => {
                        if operation.abandoned {
                            assert(self@.table =~= old(self)@.table.remove(id));
                            let _ = reclaim(operation);
                            Dispatch::Reclaimed(id)
                        } else {
                            let mut operation = operation;
                            operation.slot = Some(outcome);
                            waker_wake_by_ref(&mut operation.signal);
                            self.operations.insert(id, operation);
                            assert(self@.table =~= old(self)@.table.insert(
                                id,
                                old(self)@.table[id].resolved(outcome),
                            ));
                            Dispatch::Resolved(id)
                        }
                    },
                }
            },
        }
    }

    /// The error code with which the wait on the completion queue failed, once
    /// it has.
    pub fn failure(&self) -> (failure: Option<u32>)
        ensures
            failure == self@.failure,
    {
        self.failure
    }

    /// Tells the driver that the wait on the completion queue failed with
    /// `code`. That is fatal for the worker: from now on `drain` processes
    /// nothing and reports the failure. The first failure is the one that is
    /// kept.
    pub fn wait_failed(&mut self, code: u32) -> (error: WorkerError)
        requires
            old(self).wf(),
        ensures
            final(self).wf(),
            final(self)@ == (DriverState {
                failure: Some(
                    match old(self)@.failure {
                        Some(first) => first,
                        None => code,
                    },
                ),
                ..old(self)@
            }),
            final(self)@.failure == Some(error->WaitFailed_0),
    {
        let kept = match self.failure {
            Some(first) => first,
            None => code,
        };
        self.failure = Some(kept);
        WorkerError::WaitFailed(kept)
    }

    /// Takes the first records off `pending`, `max_batch` of them at most, and
    /// processes them in their order, as `process_record` does each. Returns
    /// what was done with each. A driver whose wait has failed takes nothing,
    /// touches nothing and reports the failure.
    pub fn drain(&mut self, pending: &mut Vec<CompletionRecord>) -> (done: Result<
        Vec<Dispatch>,
        WorkerError,
    >)
        requires
            old(self).wf(),
        ensures
            final(self).wf(),
            match old(self)@.failure {
                Some(code) => {
                    &&& done == Err::<Vec<Dispatch>, WorkerError>(WorkerError::WaitFailed(code))
                    &&& final(self)@ == old(self)@
                    &&& final(pending)@ == old(pending)@
                },
                None => {
                    let batch = batch_of(old(pending)@, old(self)@.max_batch);
                    &&& done is Ok
                    &&& done->Ok_0@ == dispatches(old(self)@.table, batch)
                    &&& final(self)@ == (DriverState {
                        table: table_after_all(old(self)@.table, batch),
                        ..old(self)@
                    })
                    &&& final(pending)@ == old(pending)@.skip(batch.len() as int)
                },
            },
    {
        if let Some(code) = self.failure {
            return Err(WorkerError::WaitFailed(code));
        }
        let count: usize = if pending.len() <= self.max_batch {
            pending.len()
        } else {
            self.max_batch
        };
        let ghost batch = batch_of(old(pending)@, old(self)@.max_batch);
        let mut done: Vec<Dispatch> = Vec::new();
        let mut i: usize = 0;
        while i < count
            invariant
                self.wf(),
                i <= count,
                count <= pending@.len(),
                count == batch.len(),
                pending@ == old(pending)@,
                batch == old(pending)@.take(count as int),
                done@ == dispatches(old(self)@.table, batch.take(i as int)),
                self@ == (DriverState {
                    table: table_after_all(old(self)@.table, batch.take(i as int)),
                    ..old(self)@
                }),
            decreases count - i,
        {
            let record = pending[i];
            let dispatch = self.process_record(&record);
            done.push(dispatch);
            proof {
                assert(batch.take(i + 1).drop_last() =~= batch.take(i as int));
                assert(batch.take(i + 1).last() == record);
            }
            i += 1;
        }
        proof {
            assert(batch.take(count as int) =~= batch);
        }
        let rest = pending.split_off(count);
        *pending = rest;
        Ok(done)
    }
}

/// Reclaims an operation: gives its wake signal up and hands its buffer out.
/// The signal is inert, so nothing is destroyed that a handle can still
/// reach.
fn reclaim(operation: Operation) -> (buffer: Vec<u8>)
    requires
        operation@.signal.is_inert(),
    ensures
        buffer@ == operation@.buffer,
{
    let Operation { buffer, slot: _, signal, abandoned: _ } = operation;
    let refused = signal.retire();
    assert(refused is Ok);
    buffer
}

} // verus!
