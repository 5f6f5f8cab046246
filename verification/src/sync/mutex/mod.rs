use vstd::prelude::*;

pub mod boot_lock;
pub mod boot_mutex;
pub mod container;
pub mod recursive;

verus! {

/// One check of a timed lock wait that started at `start_ns` with a budget of
/// `timeout_ns` (both in nanoseconds): `Some(true)` once `now_ns` lies past
/// the deadline, `Some(false)` before, and `None` when the deadline does not
/// fit in a `u128`.
pub fn lock_wait_expired(start_ns: u128, timeout_ns: u128, now_ns: u128) -> (r: Option<bool>)
    ensures
        r == if start_ns + timeout_ns > u128::MAX {
            None
        } else {
            Some(now_ns > start_ns + timeout_ns)
        },
{
    match start_ns.checked_add(timeout_ns) {
        Some(expires) => Some(now_ns > expires),
        None => None,
    }
}

} // verus!
