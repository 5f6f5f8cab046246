use vstd::prelude::*;
use std::sync::atomic::{AtomicU64, Ordering};
use crate::sync::mutex::boot_mutex::{
    decrement_recursion_decision, decrement_recursion_step, early_lock_decision, early_lock_step,
    increment_recursion_decision, increment_recursion_step, lock_decision, lock_step, unlock_decision,
    unlock_step,
};
use crate::sync::mutex::recursive::{decode, RecursiveUnit};

verus! {

/// What one step on a boot-lock word did.
#[derive(Debug, Clone, Copy, PartialEq, Eq, Structural)]
pub struct WordAttempt {
    /// The word the step read.
    pub observed: u64,
    /// The word the step installed, if it installed one.
    pub installed: Option<u64>,
}

/// The atomic lock word of a recursive boot-time lock (see
/// `RecursiveUnit` for its layout).
#[derive(Debug, Default)]
pub struct BootLockWord(AtomicU64);

impl BootLockWord {
    /// An unlocked word.
    pub fn new() -> Self {
        BootLockWord(AtomicU64::new(0))
    }

    /// One compare-and-swap attempt by core `this` to take the lock.
    pub fn try_lock(&self, this: usize) -> (r: WordAttempt)
        ensures
            r.installed is Some ==> r.installed == lock_step(r.observed, this),
            lock_step(r.observed, this) is None ==> r.installed is None,
    {
        let current = self.0.load(Ordering::Relaxed);
        match lock_decision(current, this) {
            Some(new_word) => {
                match self.0.compare_exchange(current, new_word, Ordering::Acquire, Ordering::Relaxed) {
                    Ok(_) => WordAttempt { observed: current, installed: Some(new_word) },
                    Err(_) => WordAttempt { observed: current, installed: None },
                }
            },
            None => WordAttempt { observed: current, installed: None },
        }
    }

    /// Takes the lock for core `this` without compare-and-swap, as the boot
    /// core does before that is available.
    pub fn try_early_lock(&self, this: usize) -> (r: WordAttempt)
        ensures
            r.installed == early_lock_step(r.observed, this),
    {
        let current = self.0.load(Ordering::SeqCst);
        let decision = early_lock_decision(current, this);
        match decision {
            Some(new_word) => self.0.store(new_word, Ordering::SeqCst),
            None => {},
        }
        WordAttempt { observed: current, installed: decision }
    }

    /// Releases a lock taken without compare-and-swap: the word becomes zero.
    pub fn early_unlock(&self) {
        self.0.store(RecursiveUnit::empty().to_word(), Ordering::Release);
    }

    /// Opens a recursion block; the installed word is the token that closing
    /// the block expects to find.
    pub fn increment_recursion(&self) -> (r: WordAttempt)
        ensures
            r.installed == Some(increment_recursion_step(r.observed)),
    {
        let current = self.0.load(Ordering::Acquire);
        let token = increment_recursion_decision(current);
        self.0.store(token, Ordering::Release);
        WordAttempt { observed: current, installed: Some(token) }
    }

    /// Closes the recursion block that produced `token`. Fails, handing back
    /// the word found, when the word is no longer `token`.
    pub fn decrement_recursion(&self, token: u64) -> (r: Result<u64, u64>)
        requires
            decode(token).recursion >= 1,
        ensures
            r is Ok ==> r == Ok::<u64, u64>(decrement_recursion_step(token)),
    {
        let new_word = decrement_recursion_decision(token);
        match self.0.compare_exchange(token, new_word, Ordering::Release, Ordering::Relaxed) {
            Ok(_) => Ok(new_word),
            Err(found) => Err(found),
        }
    }

    /// Releases one lock. Installs nothing when the word records no lock.
    pub fn unlock(&self) -> (r: WordAttempt)
        ensures
            decode(r.observed).count >= 1 ==> r.installed == Some(unlock_step(r.observed)),
            decode(r.observed).count == 0 ==> r.installed is None,
    {
        let current = self.0.load(Ordering::Relaxed);
        if RecursiveUnit::from_word(current).count == 0 {
            return WordAttempt { observed: current, installed: None };
        }
        let new_word = unlock_decision(current);
        self.0.store(new_word, Ordering::Release);
        WordAttempt { observed: current, installed: Some(new_word) }
    }
}

} // verus!
