use dsx::sync::mutex::boot_lock::BootLockWord;
use dsx::sync::mutex::lock_wait_expired;
use dsx::sync::mutex::boot_mutex::{
    decrement_recursion_decision, early_lock_decision, increment_recursion_decision, lock_decision,
    unlock_decision,
};
use dsx::sync::mutex::recursive::RecursiveUnit;

fn unit(core: u64, count: u64, recursion: u64) -> u64 {
    RecursiveUnit { core, count, recursion }.to_word()
}

#[test]
fn unit_packing() {
    assert_eq!(unit(3, 2, 1), 3 | (2 << 2) | (1 << 18));
    assert_eq!(RecursiveUnit::from_word(unit(3, 0xffff, 0xffff)), RecursiveUnit { core: 3, count: 0xffff, recursion: 0xffff });
    assert_eq!(RecursiveUnit::from_word(0x3_ffff_ffff).to_word(), 0x3_ffff_ffff);
    assert_eq!(RecursiveUnit::from_word(u64::MAX), RecursiveUnit { core: 3, count: 0xffff, recursion: 0xffff });
    assert_eq!(RecursiveUnit::empty().to_word(), 0);
}

#[test]
fn basic_lock_unlock() {
    let held = lock_decision(0, 0).unwrap();
    assert_eq!(held, unit(0, 1, 0));
    assert_eq!(unlock_decision(held), 0);
}

#[test]
fn double_lock_refused() {
    let held = lock_decision(0, 0).unwrap();
    assert_eq!(lock_decision(held, 0), None);
    assert_eq!(lock_decision(held, 1), None);
}

#[test]
fn recursion_allows_relock_by_holder() {
    let held = lock_decision(0, 1).unwrap();
    let token = increment_recursion_decision(held);
    assert_eq!(token, unit(1, 1, 1));
    let inner = lock_decision(token, 1).unwrap();
    assert_eq!(inner, unit(1, 2, 1));
    assert_eq!(lock_decision(token, 2), None);
    let released = unlock_decision(inner);
    assert_eq!(released, token);
    assert_eq!(decrement_recursion_decision(token), held);
}

#[test]
fn recursion_overlap_detected_by_token() {
    let held = lock_decision(0, 0).unwrap();
    let token = increment_recursion_decision(held);
    let inner = lock_decision(token, 0).unwrap();
    // The inner lock was not released: the word no longer matches the token
    // that closing the recursion block expects.
    assert_ne!(inner, token);
}

#[test]
fn early_boot_lock_only_from_zero() {
    assert_eq!(early_lock_decision(0, 0), Some(unit(0, 1, 0)));
    assert_eq!(early_lock_decision(unit(0, 1, 0), 0), None);
}

#[test]
fn lock_after_full_release_by_other_core() {
    let held = lock_decision(0, 2).unwrap();
    let free = unlock_decision(held);
    assert_eq!(RecursiveUnit::from_word(free).count, 0);
    assert_eq!(lock_decision(free, 1), Some(unit(1, 1, 0)));
}

#[test]
fn lock_word_steps_single_thread() {
    let w = BootLockWord::new();
    let a = w.try_lock(1);
    assert_eq!(a.observed, 0);
    assert_eq!(a.installed, Some(unit(1, 1, 0)));
    assert_eq!(w.try_lock(1).installed, None);
    let token = w.increment_recursion().installed.unwrap();
    assert_eq!(token, unit(1, 1, 1));
    assert_eq!(w.try_lock(2).installed, None);
    assert_eq!(w.try_lock(1).installed, Some(unit(1, 2, 1)));
    assert_eq!(w.decrement_recursion(token), Err(unit(1, 2, 1)));
    assert_eq!(w.unlock().installed, Some(token));
    assert_eq!(w.decrement_recursion(token), Ok(unit(1, 1, 0)));
    assert_eq!(w.unlock().installed, Some(unit(1, 0, 0)));
    assert_eq!(w.unlock().installed, None);
}

#[test]
fn early_lock_word_steps() {
    let w = BootLockWord::new();
    assert_eq!(w.try_early_lock(0).installed, Some(unit(0, 1, 0)));
    assert_eq!(w.try_early_lock(0).installed, None);
    w.early_unlock();
    assert_eq!(w.try_early_lock(0).installed, Some(unit(0, 1, 0)));
}

#[test]
fn timed_wait_deadline() {
    assert_eq!(lock_wait_expired(10, 5, 15), Some(false));
    assert_eq!(lock_wait_expired(10, 5, 16), Some(true));
    assert_eq!(lock_wait_expired(u128::MAX, 1, 0), None);
}
