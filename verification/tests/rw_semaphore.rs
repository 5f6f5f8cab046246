use dsx::sync::rw_state::{
    decide, read_decision, release_read_decision, reserve_decision, upgrade_decision, write_decision, ExgOp,
    RwOp, MAX_READERS, WRITE_LOCKED,
};
use dsx::sync::RwSemaphore;

#[test]
fn read_decision_adds_reader() {
    assert_eq!(read_decision(0), ExgOp::Value(2));
    assert_eq!(read_decision(6), ExgOp::Value(8));
    assert_eq!(read_decision(7), ExgOp::Yield);
    assert_eq!(read_decision(WRITE_LOCKED), ExgOp::Yield);
    assert_eq!(read_decision(MAX_READERS << 1), ExgOp::Yield);
}

#[test]
fn write_decisions_need_no_readers() {
    assert_eq!(write_decision(1), ExgOp::Value(usize::MAX));
    assert_eq!(write_decision(5), ExgOp::Yield);
    assert_eq!(write_decision(WRITE_LOCKED), ExgOp::Yield);
    assert_eq!(reserve_decision(1), ExgOp::Value(usize::MAX));
    assert_eq!(reserve_decision(WRITE_LOCKED), ExgOp::Cancel);
    assert_eq!(reserve_decision(5), ExgOp::Yield);
}

#[test]
fn upgrade_only_for_sole_reader() {
    assert_eq!(upgrade_decision(2), ExgOp::Value(usize::MAX));
    assert_eq!(upgrade_decision(3), ExgOp::Value(usize::MAX));
    assert_eq!(upgrade_decision(4), ExgOp::Cancel);
    assert_eq!(upgrade_decision(0), ExgOp::Cancel);
}

#[test]
fn release_read_keeps_reserve_flag() {
    assert_eq!(release_read_decision(2), ExgOp::Value(0));
    assert_eq!(release_read_decision(7), ExgOp::Value(5));
    assert_eq!(release_read_decision(1), ExgOp::Cancel);
    assert_eq!(release_read_decision(0), ExgOp::Cancel);
}

#[test]
fn read_then_release_restores_word() {
    for v in [0usize, 2, 10, 1000] {
        match read_decision(v) {
            ExgOp::Value(w) => assert_eq!(release_read_decision(w), ExgOp::Value(v)),
            other => panic!("unexpected {:?}", other),
        }
    }
}

#[test]
fn decide_dispatches() {
    assert_eq!(decide(RwOp::Read, 0), ExgOp::Value(2));
    assert_eq!(decide(RwOp::Write, 1), ExgOp::Value(usize::MAX));
    assert_eq!(decide(RwOp::ReserveWrite, usize::MAX), ExgOp::Cancel);
    assert_eq!(decide(RwOp::Upgrade, 2), ExgOp::Value(usize::MAX));
    assert_eq!(decide(RwOp::ReleaseRead, 4), ExgOp::Value(2));
}

#[test]
fn semaphore_attempts_single_thread() {
    let sem = RwSemaphore::new();
    assert_eq!(sem.raw(), 0);
    let a = sem.attempt(RwOp::Read);
    assert_eq!(a.observed, 0);
    assert_eq!(a.outcome, ExgOp::Value(2));
    assert_eq!(sem.raw(), 2);
    assert_eq!(sem.attempt(RwOp::Upgrade).outcome, ExgOp::Value(usize::MAX));
    assert_eq!(sem.attempt(RwOp::Read).outcome, ExgOp::Yield);
    assert_eq!(sem.attempt(RwOp::ReserveWrite).outcome, ExgOp::Cancel);
    sem.release_write();
    assert_eq!(sem.raw(), 0);
    assert_eq!(sem.attempt(RwOp::Read).outcome, ExgOp::Value(2));
    sem.set_write_reserve();
    assert_eq!(sem.raw(), 3);
    assert_eq!(sem.attempt(RwOp::Read).outcome, ExgOp::Yield);
    assert_eq!(sem.attempt(RwOp::Write).outcome, ExgOp::Yield);
    assert_eq!(sem.attempt(RwOp::ReleaseRead).outcome, ExgOp::Value(1));
    assert_eq!(sem.attempt(RwOp::Write).outcome, ExgOp::Value(usize::MAX));
    assert_eq!(sem.raw(), usize::MAX);
}
