//! The table of I/O operations as a mathematical map, and what a completion
//! does to it.

use vstd::prelude::*;
use crate::completion::{Completion, CompletionRecord, Outcome};
use crate::wake_signal::SignalState;

verus! {

/// One outstanding I/O operation, as plain values.
pub struct OperationState {
    /// The bytes of the pinned buffer, as the submitter handed them over.
    pub buffer: Seq<u8>,
    /// The completion slot: empty while the request is in flight.
    pub slot: Option<Outcome>,
    /// The wake signal of the task that awaits the operation.
    pub signal: SignalState,
    /// Whether the awaiting task has gone away.
    pub abandoned: bool,
}

impl OperationState {
    /// An operation as `submit` registers it: in flight, awaited, on a fresh
    /// signal whose handle has been asked for.
    pub open spec fn submitted(buffer: Seq<u8>) -> OperationState {
        OperationState {
            buffer,
            slot: None,
            signal: SignalState::fresh().requested(),
            abandoned: false,
        }
    }

    /// Whether the operating system may still write to the buffer.
    pub open spec fn in_flight(self) -> bool {
        self.slot is None
    }

    /// The operation once its completion has been seen: the slot is filled and
    /// the signal is woken through a borrowed handle.
    pub open spec fn resolved(self, outcome: Outcome) -> OperationState {
        OperationState { slot: Some(outcome), signal: self.signal.woken_by_ref(), ..self }
    }

    /// The operation once its task has gone away.
    pub open spec fn detached(self) -> OperationState {
        OperationState { abandoned: true, ..self }
    }

    /// The operation once its task has read and cleared the signal's flag.
    pub open spec fn polled(self) -> OperationState {
        OperationState { signal: self.signal.consumed(), ..self }
    }
}

/// The operations that a driver holds, by their ids.
pub type Table = Map<u64, OperationState>;

/// What the drain loop did with one completion record.
#[derive(Clone, Copy, Debug, PartialEq, Eq, Structural)]
pub enum Dispatch {
    /// The record was a sentinel, or named no operation: nothing was touched.
    WakeOnly,
    /// The operation was in flight and awaited: its slot is filled and its task
    /// is woken.
    Resolved(u64),
    /// The operation was in flight and abandoned: it is reclaimed.
    Reclaimed(u64),
    /// The record names an operation that is not in flight here.
    Unmatched(u64),
}

/// Whether `table` holds the operation `id` with its request still in flight.
pub open spec fn awaits_completion(table: Table, id: u64) -> bool {
    table.contains_key(id) && table[id].in_flight()
}

/// What the drain loop does with a completion on `table`.
pub open spec fn dispatch_of(table: Table, completion: Completion) -> Dispatch {
    match completion {
        Completion::Sentinel | Completion::Unattached => Dispatch::WakeOnly,
        Completion::Operation { id, outcome } => if !awaits_completion(table, id) {
            Dispatch::Unmatched(id)
        } else if table[id].abandoned {
            Dispatch::Reclaimed(id)
        } else {
            Dispatch::Resolved(id)
        },
    }
}

/// The table after the drain loop has processed a completion.
pub open spec fn table_after(table: Table, completion: Completion) -> Table {
    match completion {
        Completion::Sentinel | Completion::Unattached => table,
        Completion::Operation { id, outcome } => if !awaits_completion(table, id) {
            table
        } else if table[id].abandoned {
            table.remove(id)
        } else {
            table.insert(id, table[id].resolved(outcome))
        },
    }
}

/// The table after the drain loop has processed `records`, the first first.
pub open spec fn table_after_all(table: Table, records: Seq<CompletionRecord>) -> Table
    decreases records.len(),
{
    if records.len() == 0 {
        table
    } else {
        table_after(table_after_all(table, records.drop_last()), records.last().completion())
    }
}

/// What the drain loop does with each of `records` in turn, starting on
/// `table`.
pub open spec fn dispatches(table: Table, records: Seq<CompletionRecord>) -> Seq<Dispatch>
    decreases records.len(),
{
    if records.len() == 0 {
        Seq::empty()
    } else {
        dispatches(table, records.drop_last()).push(
            dispatch_of(
                table_after_all(table, records.drop_last()),
                records.last().completion(),
            ),
        )
    }
}

/// The records that one drain takes from `pending`: the first `max_batch`, or
/// all of them where there are fewer.
pub open spec fn batch_of(pending: Seq<CompletionRecord>, max_batch: usize) -> Seq<
    CompletionRecord,
> {
    if pending.len() <= max_batch {
        pending
    } else {
        pending.take(max_batch as int)
    }
}

/// The table after the task that awaits `id` has gone away: an operation in
/// flight stays, marked as abandoned; a resolved one is reclaimed.
pub open spec fn table_abandoned(table: Table, id: u64) -> Table {
    if !table.contains_key(id) {
        table
    } else if table[id].in_flight() {
        table.insert(id, table[id].detached())
    } else {
        table.remove(id)
    }
}

/// Whether none of `records` reports the end of the operation `id`.
pub open spec fn none_completes(records: Seq<CompletionRecord>, id: u64) -> bool {
    forall|i: int| 0 <= i < records.len() ==> !(#[trigger] records[i]).completes(id)
}

/// A sentinel never resolves to an operation: whatever the table holds, the
/// drain loop reports a wake-up only and leaves every operation as it was.
pub proof fn lemma_sentinel_matches_nothing(table: Table, record: CompletionRecord)
    requires
        record.completion() == Completion::Sentinel,
    ensures
        dispatch_of(table, record.completion()) == Dispatch::WakeOnly,
        table_after(table, record.completion()) == table,
{
}

/// A completion touches the operation that it names and no other.
pub proof fn lemma_completion_touches_its_operation_only(
    table: Table,
    record: CompletionRecord,
    other: u64,
)
    requires
        !record.completes(other),
    ensures
        table_after(table, record.completion()).contains_key(other) == table.contains_key(other),
        table.contains_key(other) ==> table_after(table, record.completion())[other]
            == table[other],
{
}

/// Records that report the end of other operations, and sentinels, leave the
/// operation `id` as it was, however many they are.
pub proof fn lemma_untouched_by_other_records(
    table: Table,
    id: u64,
    records: Seq<CompletionRecord>,
)
    requires
        none_completes(records, id),
    ensures
        table_after_all(table, records).contains_key(id) == table.contains_key(id),
        table.contains_key(id) ==> table_after_all(table, records)[id] == table[id],
    decreases records.len(),
{
    if records.len() > 0 {
        let before = records.drop_last();
        assert forall|i: int| 0 <= i < before.len() implies !(#[trigger] before[i]).completes(
            id,
        ) by {
            assert(before[i] == records[i]);
        }
        lemma_untouched_by_other_records(table, id, before);
        assert(!records[records.len() - 1].completes(id));
        lemma_completion_touches_its_operation_only(
            table_after_all(table, before),
            records.last(),
            id,
        );
    }
}

/// The drain loop reports on every record.
pub proof fn lemma_dispatches_len(table: Table, records: Seq<CompletionRecord>)
    ensures
        dispatches(table, records).len() == records.len(),
    decreases records.len(),
{
    if records.len() > 0 {
        lemma_dispatches_len(table, records.drop_last());
    }
}

/// The drain loop reports in the order of the records: the report at `i` is
/// what the loop does with the record at `i` on the table that the records
/// before it have left.
pub proof fn lemma_dispatch_at(table: Table, records: Seq<CompletionRecord>, i: int)
    requires
        0 <= i < records.len(),
    ensures
        dispatches(table, records)[i] == dispatch_of(
            table_after_all(table, records.take(i)),
            records[i].completion(),
        ),
    decreases records.len(),
{
    let before = records.drop_last();
    lemma_dispatches_len(table, before);
    if i < records.len() - 1 {
        lemma_dispatch_at(table, before, i);
        assert(before.take(i) =~= records.take(i));
    } else {
        assert(records.take(i) =~= before);
    }
}

/// Batches do not matter: to process `first` and then `rest` leaves the table
/// that processing them in one go leaves, and gives the same reports.
pub proof fn lemma_batches_compose(
    table: Table,
    first: Seq<CompletionRecord>,
    rest: Seq<CompletionRecord>,
)
    ensures
        table_after_all(table, first + rest) == table_after_all(
            table_after_all(table, first),
            rest,
        ),
        dispatches(table, first + rest) == dispatches(table, first) + dispatches(
            table_after_all(table, first),
            rest,
        ),
    decreases rest.len(),
{
    if rest.len() == 0 {
        assert(first + rest =~= first);
        assert(dispatches(table, first) + Seq::<Dispatch>::empty() =~= dispatches(table, first));
    } else {
        lemma_batches_compose(table, first, rest.drop_last());
        assert((first + rest).drop_last() =~= first + rest.drop_last());
        assert((first + rest).last() == rest.last());
        let middle = table_after_all(table, first);
        let report = dispatch_of(
            table_after_all(middle, rest.drop_last()),
            rest.last().completion(),
        );
        assert((dispatches(table, first) + dispatches(middle, rest.drop_last())).push(report)
            =~= dispatches(table, first) + dispatches(middle, rest.drop_last()).push(report));
    }
}

/// Each completion reaches its own operation: where the record at `i` is the
/// only one of `records` for an awaited operation in flight, that operation
/// ends up resolved with the outcome of that record, whatever the other
/// records report and wherever the record stands among them.
pub proof fn lemma_completion_reaches_its_operation(
    table: Table,
    records: Seq<CompletionRecord>,
    i: int,
    id: u64,
)
    requires
        0 <= i < records.len(),
        records[i].completes(id),
        forall|j: int| 0 <= j < records.len() && j != i ==> !(#[trigger] records[j]).completes(id),
        awaits_completion(table, id),
        !table[id].abandoned,
    ensures
        dispatches(table, records)[i] == Dispatch::Resolved(id),
        table_after_all(table, records).contains_key(id),
        table_after_all(table, records)[id] == table[id].resolved(records[i].outcome()),
{
    let before = records.take(i);
    let upto = records.take(i + 1);
    let after = records.skip(i + 1);
    lemma_untouched_by_other_records(table, id, before);
    assert(upto.drop_last() =~= before);
    assert(upto.last() == records[i]);
    assert(upto + after =~= records);
    lemma_batches_compose(table, upto, after);
    lemma_untouched_by_other_records(table_after_all(table, upto), id, after);
    lemma_dispatch_at(table, records, i);
}

/// An operation whose task goes away while the request is in flight outlives
/// the task: the driver keeps it, with its buffer as it was submitted, through
/// whatever other records arrive. The record that reports its end reclaims
/// it, and that happens once: a second record for it finds nothing.
pub proof fn lemma_abandoned_operation_outlives_task(
    table: Table,
    id: u64,
    others: Seq<CompletionRecord>,
    completing: CompletionRecord,
    again: CompletionRecord,
)
    requires
        awaits_completion(table, id),
        none_completes(others, id),
        completing.completes(id),
        again.completes(id),
    ensures
        ({
            let waiting = table_after_all(table_abandoned(table, id), others);
            let reclaimed = table_after(waiting, completing.completion());
            &&& waiting.contains_key(id)
            &&& waiting[id] == table[id].detached()
            &&& waiting[id].buffer == table[id].buffer
            &&& dispatch_of(waiting, completing.completion()) == Dispatch::Reclaimed(id)
            &&& reclaimed == waiting.remove(id)
            &&& dispatch_of(reclaimed, again.completion()) == Dispatch::Unmatched(id)
            &&& table_after(reclaimed, again.completion()) == reclaimed
        }),
{
    lemma_untouched_by_other_records(table_abandoned(table, id), id, others);
}

} // verus!
