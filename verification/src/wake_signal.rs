//! The per-task wake signal: a counter of outstanding wake handles and a sticky
//! "awakened" flag.

use vstd::prelude::*;

verus! {

/// What a wake signal is, as plain values.
pub struct SignalState {
    /// The handles that exist: the signal's own latent one and every clone of it.
    pub waker_count: usize,
    /// Whether a wake has arrived that nobody consumed yet.
    pub awakened: bool,
    /// Whether the signal's own handle has been constructed.
    pub waker_created: bool,
}

/// The count after one more handle came to be. The count wraps, as a machine
/// counter does.
pub open spec fn count_up(count: usize) -> usize {
    if count == usize::MAX {
        0
    } else {
        (count + 1) as usize
    }
}

/// The count after one handle went away. The count wraps, as a machine counter
/// does.
pub open spec fn count_down(count: usize) -> usize {
    if count == 0 {
        usize::MAX
    } else {
        (count - 1) as usize
    }
}

impl SignalState {
    /// A signal that nobody has asked a handle of.
    pub open spec fn fresh() -> SignalState {
        SignalState { waker_count: 0, awakened: false, waker_created: false }
    }

    /// No handle but the signal's own latent one is left, so nobody outside can
    /// wake the signal any more.
    pub open spec fn is_inert(self) -> bool {
        self.waker_count <= 1
    }

    /// After the owner asked for the handle: the first request constructs it and
    /// counts it, every later one changes nothing.
    pub open spec fn requested(self) -> SignalState {
        if self.waker_created {
            self
        } else {
            SignalState {
                waker_count: count_up(self.waker_count),
                waker_created: true,
                ..self
            }
        }
    }

    /// After a handle was cloned.
    pub open spec fn cloned(self) -> SignalState {
        SignalState { waker_count: count_up(self.waker_count), ..self }
    }

    /// After a handle was dropped.
    pub open spec fn dropped(self) -> SignalState {
        SignalState { waker_count: count_down(self.waker_count), ..self }
    }

    /// After a wake through a borrowed handle.
    pub open spec fn woken_by_ref(self) -> SignalState {
        SignalState { awakened: true, ..self }
    }

    /// After a wake that used its handle up.
    pub open spec fn woken(self) -> SignalState {
        SignalState { awakened: true, waker_count: count_down(self.waker_count), ..self }
    }

    /// After the owner read and cleared the flag.
    pub open spec fn consumed(self) -> SignalState {
        SignalState { awakened: false, ..self }
    }

    /// After one handle operation.
    pub open spec fn after(self, op: HandleOp) -> SignalState {
        match op {
            HandleOp::Request => self.requested(),
            HandleOp::Clone => self.cloned(),
            HandleOp::Drop => self.dropped(),
            HandleOp::Wake => self.woken(),
            HandleOp::WakeByRef => self.woken_by_ref(),
        }
    }

    /// After a run of handle operations, the first of `ops` first.
    pub open spec fn after_all(self, ops: Seq<HandleOp>) -> SignalState
        decreases ops.len(),
    {
        if ops.len() == 0 {
            self
        } else {
            self.after_all(ops.drop_last()).after(ops.last())
        }
    }
}

/// One thing that happens to a signal through its handles.
pub enum HandleOp {
    /// The owner asks for the signal's handle.
    Request,
    /// A handle is cloned.
    Clone,
    /// A cloned handle is dropped.
    Drop,
    /// A cloned handle wakes the signal and is used up.
    Wake,
    /// A borrowed handle wakes the signal.
    WakeByRef,
}

impl HandleOp {
    /// Whether the operation raises the flag.
    pub open spec fn wakes(self) -> bool {
        self is Wake || self is WakeByRef
    }

    /// By how much the operation changes the number of live handles.
    pub open spec fn live_change(self) -> int {
        match self {
            HandleOp::Clone => 1,
            HandleOp::Drop | HandleOp::Wake => -1,
            HandleOp::Request | HandleOp::WakeByRef => 0,
        }
    }
}

/// Whether the owner asks for the handle somewhere in `ops`.
pub open spec fn handle_requested(ops: Seq<HandleOp>) -> bool {
    exists|i: int| 0 <= i < ops.len() && ops[i] is Request
}

/// The handles that are live after `ops`: the clones made, less the clones
/// dropped or used up by a wake. The signal's own latent handle is not one of
/// them.
pub open spec fn live_handles(ops: Seq<HandleOp>) -> int
    decreases ops.len(),
{
    if ops.len() == 0 {
        0
    } else {
        live_handles(ops.drop_last()) + ops.last().live_change()
    }
}

/// Whether each operation of `ops` is possible where it stands: a handle is
/// cloned or borrowed only once the owner has asked for it, and only a live
/// clone is dropped or used up.
pub open spec fn orderly(ops: Seq<HandleOp>) -> bool
    decreases ops.len(),
{
    if ops.len() == 0 {
        true
    } else {
        let before = ops.drop_last();
        orderly(before) && match ops.last() {
            HandleOp::Request => true,
            HandleOp::Clone | HandleOp::WakeByRef => handle_requested(before),
            HandleOp::Drop | HandleOp::Wake => live_handles(before) > 0,
        }
    }
}

/// A wake signal that lives inline in the task it wakes.
///
/// The owner polls it with `consume_awakened` and may reclaim it only while
/// `is_inert` holds. The handle operations are the free functions of this
/// module.
#[derive(Debug)]
pub struct WakeSignal {
    waker_count: usize,
    awakened: bool,
    waker_created: bool,
}

/// What a request for the signal's handle found.
#[derive(Clone, Copy, Debug, PartialEq, Eq, Structural)]
pub enum HandleRequest {
    /// This was the first request: the handle has just come to be.
    Created,
    /// The handle existed already and is handed out again.
    Reused,
}

impl View for WakeSignal {
    type V = SignalState;

    closed spec fn view(&self) -> SignalState {
        SignalState {
            waker_count: self.waker_count,
            awakened: self.awakened,
            waker_created: self.waker_created,
        }
    }
}

impl WakeSignal {
    pub fn new() -> (signal: Self)
        ensures
            signal@ == SignalState::fresh(),
    {
        Self { waker_count: 0, awakened: false, waker_created: false }
    }

    /// Returns whether the signal has received a wake-up notification, and
    /// resets it to the not awakened state.
    pub fn consume_awakened(&mut self) -> (was_awakened: bool)
        ensures
            was_awakened == old(self)@.awakened,
            final(self)@ == old(self)@.consumed(),
    {
        let was_awakened = self.awakened;
        self.awakened = false;
        was_awakened
    }

    /// Returns whether the signal is inert: no handle but its own is left, and
    /// it is safe to reclaim the signal.
    pub fn is_inert(&self) -> (inert: bool)
        ensures
            inert == self@.is_inert(),
    {
        self.waker_count <= 1
    }

    /// The number of handles that exist, the signal's own included.
    pub fn waker_count(&self) -> (count: usize)
        ensures
            count == self@.waker_count,
    {
        self.waker_count
    }

    /// Asks for the signal's handle. The first request constructs it; every
    /// later one hands out the same handle and leaves the signal as it was.
    ///
    /// Once a handle has been cloned the signal is out of the inert state, and
    /// must not be reclaimed before `is_inert` holds again.
    pub fn waker(&mut self) -> (found: HandleRequest)
        ensures
            final(self)@ == old(self)@.requested(),
            found == if old(self)@.waker_created {
                HandleRequest::Reused
            } else {
                HandleRequest::Created
            },
    {
        if self.waker_created {
            HandleRequest::Reused
        } else {
            self.create_waker();
            HandleRequest::Created
        }
    }

    /// Counts the signal's own handle and records that it exists.
    fn create_waker(&mut self)
        ensures
            final(self)@ == (SignalState {
                waker_count: count_up(old(self)@.waker_count),
                waker_created: true,
                ..old(self)@
            }),
    {
        self.waker_count = self.waker_count.wrapping_add(1);
        self.waker_created = true;
    }

    /// Gives the signal up. An inert signal is reclaimed; one that is not inert
    /// comes back unchanged, since a handle that can still reach it is out
    /// there.
    pub fn retire(self) -> (refused: Result<(), WakeSignal>)
        ensures
            self@.is_inert() <==> refused is Ok,
            refused matches Err(kept) ==> kept@ == self@,
    {
        if self.is_inert() {
            Ok(())
        } else {
            Err(self)
        }
    }
}

/// A handle of `signal` is cloned: one more handle exists.
pub fn waker_clone_waker(signal: &mut WakeSignal)
    ensures
        final(signal)@ == old(signal)@.cloned(),
{
    signal.waker_count = signal.waker_count.wrapping_add(1);
}

/// A handle of `signal` wakes it and is used up by that.
pub fn waker_wake(signal: &mut WakeSignal)
    ensures
        final(signal)@ == old(signal)@.woken(),
{
    signal.awakened = true;
    signal.waker_count = signal.waker_count.wrapping_sub(1);
}

/// A borrowed handle of `signal` wakes it. This can be repeated.
pub fn waker_wake_by_ref(signal: &mut WakeSignal)
    ensures
        final(signal)@ == old(signal)@.woken_by_ref(),
{
    signal.awakened = true;
}

/// A handle of `signal` is dropped, and the flag is left alone.
pub fn waker_drop_waker(signal: &mut WakeSignal)
    ensures
        final(signal)@ == old(signal)@.dropped(),
{
    signal.waker_count = signal.waker_count.wrapping_sub(1);
}

/// After an orderly run of operations on a fresh signal, the count is the
/// signal's own handle, once asked for, and the live clones.
proof fn lemma_count_of_orderly(ops: Seq<HandleOp>)
    requires
        orderly(ops),
        ops.len() < usize::MAX,
    ensures
        0 <= live_handles(ops) <= ops.len(),
        live_handles(ops) > 0 ==> handle_requested(ops),
        SignalState::fresh().after_all(ops).waker_created == handle_requested(ops),
        SignalState::fresh().after_all(ops).waker_count == live_handles(ops) + if handle_requested(
            ops,
        ) {
            1int
        } else {
            0int
        },
    decreases ops.len(),
{
    if ops.len() > 0 {
        let before = ops.drop_last();
        lemma_count_of_orderly(before);
        if handle_requested(before) {
            let i = choose|i: int| 0 <= i < before.len() && before[i] is Request;
            assert(ops[i] is Request);
        }
        if ops.last() is Request {
            assert(ops[ops.len() - 1] is Request);
        }
        if handle_requested(ops) && !(ops.last() is Request) {
            let i = choose|i: int| 0 <= i < ops.len() && ops[i] is Request;
            assert(before[i] is Request);
        }
    }
}

/// Whatever handles were asked for, cloned, dropped or used up in an orderly
/// way, the signal is inert exactly when no live handle is left.
pub proof fn lemma_inert_iff_no_live_handle(ops: Seq<HandleOp>)
    requires
        orderly(ops),
        ops.len() < usize::MAX,
    ensures
        SignalState::fresh().after_all(ops).is_inert() <==> live_handles(ops) == 0,
{
    lemma_count_of_orderly(ops);
}

/// A run of handle operations leaves the flag raised if one of them wakes, and
/// as it was if none does.
proof fn lemma_flag_after_all(state: SignalState, ops: Seq<HandleOp>)
    ensures
        state.after_all(ops).awakened == (state.awakened || exists|i: int|
            0 <= i < ops.len() && (#[trigger] ops[i]).wakes()),
    decreases ops.len(),
{
    if ops.len() > 0 {
        let before = ops.drop_last();
        lemma_flag_after_all(state, before);
        if exists|i: int| 0 <= i < before.len() && (#[trigger] before[i]).wakes() {
            let i = choose|i: int| 0 <= i < before.len() && (#[trigger] before[i]).wakes();
            assert(ops[i].wakes());
        }
        if ops.last().wakes() {
            assert(ops[ops.len() - 1].wakes());
        }
        if exists|i: int| 0 <= i < ops.len() && (#[trigger] ops[i]).wakes() {
            let i = choose|i: int| 0 <= i < ops.len() && (#[trigger] ops[i]).wakes();
            if i < before.len() {
                assert(before[i].wakes());
            }
        }
    }
}

/// A wake is never lost: if any operation since the flag was last consumed
/// wakes, however many do, the next `consume_awakened` finds the flag raised.
pub proof fn lemma_no_lost_wake(state: SignalState, ops: Seq<HandleOp>)
    requires
        exists|i: int| 0 <= i < ops.len() && (#[trigger] ops[i]).wakes(),
    ensures
        state.after_all(ops).awakened,
        !state.after_all(ops).consumed().awakened,
{
    lemma_flag_after_all(state, ops);
}

/// A run of wakes through a borrowed handle changes nothing but the flag.
proof fn lemma_wakes_by_ref(state: SignalState, n: nat)
    ensures
        state.after_all(Seq::new(n, |i: int| HandleOp::WakeByRef)) == (SignalState {
            awakened: state.awakened || n >= 1,
            ..state
        }),
    decreases n,
{
    let ops = Seq::new(n, |i: int| HandleOp::WakeByRef);
    if n > 0 {
        lemma_wakes_by_ref(state, (n - 1) as nat);
        assert(ops.drop_last() =~= Seq::new((n - 1) as nat, |i: int| HandleOp::WakeByRef));
    }
}

/// Waking is idempotent: after `n >= 1` wakes through a borrowed handle one
/// `consume_awakened` returns true and leaves the signal as a single consume
/// without any wake would have; the next one returns false, until the signal
/// is woken again.
pub proof fn lemma_wake_idempotent(state: SignalState, n: nat)
    requires
        n >= 1,
    ensures
        state.after_all(Seq::new(n, |i: int| HandleOp::WakeByRef)).awakened,
        state.after_all(Seq::new(n, |i: int| HandleOp::WakeByRef)).consumed() == state.consumed(),
        !state.consumed().awakened,
        state.consumed().consumed() == state.consumed(),
        state.consumed().woken_by_ref().awakened,
{
    lemma_wakes_by_ref(state, n);
}

} // verus!
