use vstd::prelude::*;
use std::sync::atomic::{AtomicUsize, Ordering};
use crate::sync::rw_state::{decide, op_step, ExgOp, RwOp};

pub mod mutex;
pub mod rw_state;
pub mod sema;

verus! {

/// A reader-writer semaphore packed into one atomic word.
///
/// The word `usize::MAX` means write-locked (which implies the write-reserve
/// flag); bit 0 is the write-reserve flag (while it is set, readers wait);
/// the remaining bits count the readers.
#[derive(Debug, Default)]
pub struct RwSemaphore(AtomicUsize);

/// What one compare-exchange attempt on a semaphore word did.
#[derive(Debug, Clone, Copy, PartialEq, Eq, Structural)]
pub struct Attempt {
    /// The word the attempt read.
    pub observed: usize,
    /// `Value(new)`: the word went from `observed` to `new`; `Cancel`: the
    /// decision gave up; `Yield`: nothing changed and the caller should spin.
    pub outcome: ExgOp,
}

impl RwSemaphore {
    /// An unlocked semaphore.
    pub fn new() -> Self {
        RwSemaphore(AtomicUsize::new(0))
    }

    /// The current word.
    pub fn raw(&self) -> usize {
        self.0.load(Ordering::Relaxed)
    }

    /// Reads the word, applies the decision of `op` and, when it decides a new
    /// value, tries once to install it. Memory ordering on success is
    /// `Release` for `ReleaseRead` and `Acquire` otherwise.
    pub fn attempt(&self, op: RwOp) -> (r: Attempt)
        ensures
            r.outcome == ExgOp::Yield || r.outcome == op_step(op, r.observed),
            op_step(op, r.observed) is Cancel ==> r.outcome == ExgOp::Cancel,
    {
        let value = self.0.load(Ordering::Relaxed);
        let decision = decide(op, value);
        match decision {
            ExgOp::Value(new_value) => {
                let success = match op {
                    RwOp::ReleaseRead => Ordering::Release,
                    _ => Ordering::Acquire,
                };
                match self.0.compare_exchange(value, new_value, success, Ordering::Relaxed) {
                    Ok(_) => Attempt { observed: value, outcome: ExgOp::Value(new_value) },
                    Err(_) => Attempt { observed: value, outcome: ExgOp::Yield },
                }
            },
            other => Attempt { observed: value, outcome: other },
        }
    }

    /// Sets the write-reserve flag, after which new readers wait.
    pub fn set_write_reserve(&self) {
        let _ = self.0.fetch_or(1, Ordering::Relaxed);
    }

    /// Releases a write lock: the word returns to unlocked.
    pub fn release_write(&self) {
        self.0.store(0, Ordering::Release);
    }
}

} // verus!
