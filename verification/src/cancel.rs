//! The cooperative-cancellation state machine: a wrapped suspending
//! computation and a cancel signal sharing one flag and one waker slot.
//!
//! The caller that actually suspends owns the async plumbing; this module
//! fixes the shared-state discipline: the flag transitions at most once from
//! unset to set, the waker is (re-)registered before the flag is checked on
//! every advancement (so a racing cancel either is observed by the check or
//! fires the freshly registered waker), and exactly one terminal outcome is
//! ever produced.

use vstd::prelude::*;

verus! {

/// The outcome of a computation that was cancelled before it completed.
#[derive(Clone, Copy, Debug)]
pub struct Cancelled;

/// The state shared between the cancel signal and the wrapped computation:
/// the cancellation flag and whether a resumption callback is currently
/// registered in the waker slot.
#[derive(Clone, Copy, Debug, PartialEq, Eq, Structural)]
pub struct CancelInner {
    pub cancelled: bool,
    pub waker_registered: bool,
}

/// The wrapped computation: the shared state plus whether the wrapper has
/// already produced its terminal outcome (completed or cancelled).
#[derive(Clone, Copy, Debug, PartialEq, Eq, Structural)]
pub struct Cancelable {
    pub state: CancelInner,
    pub done: bool,
}

/// One advancement of the wrapped computation: either a terminal outcome, or
/// still pending.
#[derive(Debug)]
pub enum Progress<T> {
    Ready(Result<T, Cancelled>),
    Pending,
}

/// A freshly created wrapper: flag unset, no waker registered, no outcome
/// produced yet.
pub open spec fn fresh_cancelable() -> Cancelable {
    Cancelable { state: CancelInner { cancelled: false, waker_registered: false }, done: false }
}

/// What the cancel signal does: set the flag and invoke (thereby consume)
/// whatever resumption callback is currently registered. It never touches the
/// wrapper's outcome.
pub open spec fn cancel_spec(c: Cancelable) -> Cancelable {
    Cancelable { state: CancelInner { cancelled: true, waker_registered: false }, done: c.done }
}

/// What one advancement does. The inner computation is advanced first; a
/// result wins immediately, even over an already-set flag. Otherwise the
/// waker is registered and only then the flag is checked: set means the
/// cancelled outcome, unset means still pending.
pub open spec fn poll_spec<T>(c: Cancelable, inner: Option<T>) -> (Cancelable, Progress<T>) {
    match inner {
        Some(v) => (
            Cancelable { state: c.state, done: true },
            Progress::Ready(Ok(v)),
        ),
        None => {
            let registered = CancelInner { cancelled: c.state.cancelled, waker_registered: true };
            if c.state.cancelled {
                (Cancelable { state: registered, done: true }, Progress::Ready(Err(Cancelled)))
            } else {
                (Cancelable { state: registered, done: false }, Progress::Pending)
            }
        },
    }
}

/// Create a wrapped computation with its shared cancellation state.
pub fn cancelable() -> (r: Cancelable)
    ensures
        r == fresh_cancelable(),
{
    Cancelable {
        state: CancelInner { cancelled: false, waker_registered: false },
        done: false,
    }
}

impl Cancelable {
    /// Signal cancellation. Safe to invoke from a context other than the one
    /// advancing the computation, and at any time; a second invocation is a
    /// no-op beyond re-setting an already-set flag.
    pub fn cancel(&mut self)
        ensures
            *final(self) == cancel_spec(*old(self)),
            final(self).state.cancelled,
            final(self).done == old(self).done,
    {
        self.state.cancelled = true;
        self.state.waker_registered = false;
    }

    /// Advance the wrapped computation, given what advancing the inner
    /// computation produced (`Some` result, or `None` for still suspended).
    /// Advancing again after a terminal outcome is excluded: the caller must
    /// avoid it.
    pub fn poll<T>(&mut self, inner: Option<T>) -> (r: Progress<T>)
        requires
            !old(self).done,
        ensures
            (*final(self), r) == poll_spec::<T>(*old(self), inner),
            final(self).state.cancelled == old(self).state.cancelled,
    {
        match inner {
            Some(v) => {
                self.done = true;
                Progress::Ready(Ok(v))
            },
            None => {
                self.state.waker_registered = true;
                if self.state.cancelled {
                    self.done = true;
                    Progress::Ready(Err(Cancelled))
                } else {
                    Progress::Pending
                }
            },
        }
    }
}

/// Law (cancellation idempotence, first half): signalling cancellation twice
/// has the same observable effect as signalling it once.
pub proof fn lemma_cancel_idempotent(c: Cancelable)
    ensures
        cancel_spec(cancel_spec(c)) == cancel_spec(c),
{
}

/// Law (cancellation idempotence, second half): once the inner computation
/// completes, the completed outcome is produced even if the flag was already
/// set, and a cancel signal never changes whether the outcome was produced —
/// so cancelling after completion has no effect.
pub proof fn lemma_cancel_after_completion<T>(c: Cancelable, v: T)
    ensures
        poll_spec(c, Some(v)).1 == Progress::<T>::Ready(Ok(v)),
        cancel_spec(c).done == c.done,
{
}

/// Law (cancellation liveness): if the cancel signal is raised before the
/// wrapped computation is ever advanced and the inner computation has not
/// itself completed, the first advancement yields the cancelled outcome and
/// exhausts the wrapper.
pub proof fn lemma_cancel_before_first_advance<T>(c: Cancelable)
    requires
        !c.done,
    ensures
        poll_spec::<T>(cancel_spec(c), None).1 == Progress::<T>::Ready(Err(Cancelled)),
        poll_spec::<T>(cancel_spec(c), None).0.done,
{
}

/// Law (no missed wakeup): an advancement that comes back still-pending has
/// re-registered the waker and observed the flag unset after doing so; a
/// cancel that races with it therefore either happened before the check (and
/// was observed) or finds the registered waker and consumes it, forcing a
/// further advancement.
pub proof fn lemma_pending_implies_registered<T>(c: Cancelable)
    requires
        poll_spec::<T>(c, None).1 is Pending,
    ensures
        poll_spec::<T>(c, None).0.state.waker_registered,
        !c.state.cancelled,
        !cancel_spec(poll_spec::<T>(c, None).0).state.waker_registered,
{
}

} // verus!
