use vstd::prelude::*;
use std::sync::OnceLock;
use std::sync::atomic::{AtomicUsize, Ordering};

verus! {

/// No value has been set and nobody is setting one.
pub const UNINIT: usize = 0;
/// A caller has claimed the right to set the value.
pub const INITING: usize = 1;
/// The value is set.
pub const INITED: usize = 2;

#[verifier::external_type_specification]
#[verifier::external_body]
#[verifier::reject_recursive_types(T)]
pub struct ExOnceLock<T>(OnceLock<T>);

/// Calls `OnceLock::new`.
#[verifier::external_body]
fn new_once<T>() -> OnceLock<T> {
    OnceLock::new()
}

/// Calls `OnceLock::set`, which hands `value` back when the cell already
/// holds one; the contract states that what is handed back is `value`.
#[verifier::external_body]
fn set_once<T>(cell: &OnceLock<T>, value: T) -> (rejected: Option<T>)
    ensures
        rejected is Some ==> rejected == Some(value),
{
    match cell.set(value) {
        Ok(()) => None,
        Err(v) => Some(v),
    }
}

/// Calls `OnceLock::get`; nothing is claimed of the result.
#[verifier::external_body]
fn get_once<T>(cell: &OnceLock<T>) -> Option<&T> {
    cell.get()
}

/// The state a claim moves `state` to: only an unset semaphore that nobody
/// has claimed can be claimed.
pub open spec fn claim_step(state: usize) -> Option<usize> {
    if state == UNINIT {
        Some(INITING)
    } else {
        None
    }
}

/// The claim decision for state word `state`.
pub fn claim_decision(state: usize) -> (r: Option<usize>)
    ensures
        r == claim_step(state),
{
    if state == UNINIT {
        Some(INITING)
    } else {
        None
    }
}

/// A semaphore is set at most once: a claimed or set semaphore cannot be
/// claimed again, and only the set state lets the value be read.
pub proof fn law_single_claim()
    ensures
        claim_step(UNINIT) == Some(INITING),
        claim_step(INITING) is None,
        claim_step(INITED) is None,
        forall|s: usize| #[trigger] claim_step(s) is Some ==> s == UNINIT,
{
}

/// Whether a state word means the value is set.
pub fn state_is_set(state: usize) -> (r: bool)
    ensures
        r == (state == INITED),
{
    state == INITED
}

/// A container that can be atomically initialized exactly once.
///
/// It suits global values that cannot be built in a constant but do not need
/// a lock because they are only read once set.
#[verifier::reject_recursive_types(T)]
pub struct SingleSetSemaphore<T> {
    value: OnceLock<T>,
    state: AtomicUsize,
}

impl<T: Sync> SingleSetSemaphore<T> {
    /// An empty semaphore.
    pub fn new() -> Self {
        SingleSetSemaphore { value: new_once(), state: AtomicUsize::new(UNINIT) }
    }

    /// Whether the semaphore has been initialized already.
    pub fn is_initialized(this: &Self) -> bool {
        state_is_set(this.state.load(Ordering::Relaxed))
    }

    /// Sets the value without compare-and-swap, for hardware states in which
    /// compare-and-swap is not available. Hands `value` back when the
    /// semaphore was not unset when looked at.
    pub fn set_racy(this: &Self, value: T) -> (r: Result<(), T>)
        ensures
            r is Err ==> r == Err::<(), T>(value),
    {
        if claim_decision(this.state.load(Ordering::Relaxed)).is_none() {
            return Err(value);
        }
        let rejected = set_once(&this.value, value);
        this.state.store(INITED, Ordering::Release);
        match rejected {
            Some(v) => Err(v),
            None => Ok(()),
        }
    }

    /// Sets the value. Hands `value` back when the semaphore has already been
    /// initialized or another caller has claimed the initialization.
    pub fn set(this: &Self, value: T) -> (r: Result<(), T>)
        ensures
            r is Err ==> r == Err::<(), T>(value),
    {
        match this.state.compare_exchange(UNINIT, INITING, Ordering::Relaxed, Ordering::Relaxed) {
            Ok(_) => {
                let rejected = set_once(&this.value, value);
                this.state.store(INITED, Ordering::Release);
                match rejected {
                    Some(v) => Err(v),
                    None => Ok(()),
                }
            },
            Err(_) => Err(value),
        }
    }

    /// The value, once the semaphore has been set; `None` before.
    pub fn as_ref(&self) -> Option<&T> {
        if !state_is_set(self.state.load(Ordering::Acquire)) {
            return None;
        }
        get_once(&self.value)
    }
}

} // verus!
