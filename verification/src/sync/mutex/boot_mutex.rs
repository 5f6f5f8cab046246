use vstd::prelude::*;
use crate::sync::mutex::recursive::{decode, encode, law_decode_encode, law_encode_decode, RecursiveUnit, WORD_BITS_USED};

verus! {

/// What a boot-time lock needs to know about the processor it runs on.
pub trait BootInfo: Sync + Send + 'static {
    /// Index of the current core.
    fn current_core() -> usize;

    /// Whether compare-and-swap instructions may be used yet.
    fn can_use_cas() -> bool;

    /// Whether the lock may be taken without compare-and-swap: only the boot
    /// core does so.
    fn can_lock_without_cas() -> bool {
        Self::current_core() == 0
    }
}

/// Word after core `this` takes the lock from `current`, if it may: the lock
/// must not be held outside a recursion block, and a held lock may only be
/// re-taken by the core that holds it.
pub open spec fn lock_step(current: u64, this: usize) -> Option<u64> {
    let u = decode(current);
    if u.count != u.recursion {
        None
    } else if u.count > 0 && u.core != this {
        None
    } else {
        Some(encode(RecursiveUnit { core: this as u64, count: (u.count + 1) as u64, recursion: u.recursion }))
    }
}

/// Word after core `this` takes the lock before compare-and-swap is usable:
/// only an all-zero word can be taken.
pub open spec fn early_lock_step(current: u64, this: usize) -> Option<u64> {
    if current != 0 {
        None
    } else {
        Some(encode(RecursiveUnit { core: this as u64, count: 1, recursion: 0 }))
    }
}

/// Word after the holder opens a recursion block.
pub open spec fn increment_recursion_step(current: u64) -> u64 {
    let u = decode(current);
    encode(RecursiveUnit { core: u.core, count: u.count, recursion: (u.recursion + 1) as u64 })
}

/// Word after the holder closes the recursion block that produced `token`.
pub open spec fn decrement_recursion_step(token: u64) -> u64 {
    let u = decode(token);
    encode(RecursiveUnit { core: u.core, count: u.count, recursion: (u.recursion - 1) as u64 })
}

/// Word after one lock is released.
pub open spec fn unlock_step(current: u64) -> u64 {
    let u = decode(current);
    encode(RecursiveUnit { core: u.core, count: (u.count - 1) as u64, recursion: u.recursion })
}

/// The lock decision of core `this` on word `current`.
pub fn lock_decision(current: u64, this: usize) -> (r: Option<u64>)
    ensures
        r == lock_step(current, this),
{
    let mut unit = RecursiveUnit::from_word(current);
    if unit.count != unit.recursion {
        return None;
    }
    if unit.count > 0 && unit.core as usize != this {
        return None;
    }
    unit.core = this as u64;
    unit.count = unit.count + 1;
    Some(unit.to_word())
}

/// The lock decision of core `this` on word `current` before compare-and-swap is usable.
pub fn early_lock_decision(current: u64, this: usize) -> (r: Option<u64>)
    ensures
        r == early_lock_step(current, this),
{
    if current != 0 {
        return None;
    }
    Some(RecursiveUnit { recursion: 0, core: this as u64, count: 1 }.to_word())
}

/// The word after opening a recursion block on `current`; the result is also
/// the token that closing the block expects to find.
pub fn increment_recursion_decision(current: u64) -> (r: u64)
    ensures
        r == increment_recursion_step(current),
{
    let mut unit = RecursiveUnit::from_word(current);
    unit.recursion = unit.recursion + 1;
    unit.to_word()
}

/// The word after closing the recursion block that produced `token`.
pub fn decrement_recursion_decision(token: u64) -> (r: u64)
    requires
        decode(token).recursion >= 1,
    ensures
        r == decrement_recursion_step(token),
{
    let mut unit = RecursiveUnit::from_word(token);
    unit.recursion = unit.recursion - 1;
    unit.to_word()
}

/// The word after releasing one lock on `current`.
pub fn unlock_decision(current: u64) -> (r: u64)
    requires
        decode(current).count >= 1,
    ensures
        r == unlock_step(current),
{
    let mut unit = RecursiveUnit::from_word(current);
    unit.count = unit.count - 1;
    unit.to_word()
}

/// A lock is only granted on a word that is not held outside a recursion
/// block, and a held word only to the core that holds it.
pub proof fn law_lock_exclusion(current: u64, this: usize)
    ensures
        lock_step(current, this) is Some ==> {
            let u = decode(current);
            u.count == u.recursion && (u.count == 0 || u.core == this)
        },
{
}

/// Taking the lock records the taker and one more lock; releasing it gives
/// back the counts the word had, with the taker still recorded.
pub proof fn law_lock_then_unlock(current: u64, this: usize)
    requires
        this < 4,
        decode(current).count + 1 < 0x10000,
        lock_step(current, this) is Some,
    ensures
        decode(lock_step(current, this)->0) == (RecursiveUnit {
            core: this as u64,
            count: (decode(current).count + 1) as u64,
            recursion: decode(current).recursion,
        }),
        unlock_step(lock_step(current, this)->0) == encode(
            RecursiveUnit {
                core: this as u64,
                count: decode(current).count,
                recursion: decode(current).recursion,
            },
        ),
{
    let u = decode(current);
    let held = RecursiveUnit { core: this as u64, count: (u.count + 1) as u64, recursion: u.recursion };
    law_decode_encode(held);
}

/// A core cannot take a lock that is held outside a recursion block, not
/// even the core that holds it.
pub proof fn law_no_relock_outside_recursion(current: u64, this: usize, other: usize)
    requires
        this < 4,
        decode(current).count + 1 < 0x10000,
        lock_step(current, this) is Some,
    ensures
        lock_step(lock_step(current, this)->0, other) is None,
{
    law_lock_then_unlock(current, this);
}

/// Inside a recursion block the holding core may take the lock again and
/// any other core may not.
pub proof fn law_recursion_relock(current: u64, this: usize, other: usize)
    requires
        this < 4,
        other != this,
        decode(current).count + 1 < 0x10000,
        decode(current).recursion + 1 < 0x10000,
        lock_step(current, this) is Some,
    ensures
        lock_step(increment_recursion_step(lock_step(current, this)->0), this) is Some,
        lock_step(increment_recursion_step(lock_step(current, this)->0), other) is None,
{
    law_lock_then_unlock(current, this);
    let u = decode(current);
    let held = RecursiveUnit { core: this as u64, count: (u.count + 1) as u64, recursion: u.recursion };
    let inner = RecursiveUnit { core: this as u64, count: (u.count + 1) as u64, recursion: (u.recursion + 1) as u64 };
    law_decode_encode(held);
    law_decode_encode(inner);
}

/// Opening and then closing a recursion block gives back the word.
pub proof fn law_recursion_roundtrip(current: u64)
    requires
        current <= WORD_BITS_USED,
        decode(current).recursion + 1 < 0x10000,
    ensures
        decode(increment_recursion_step(current)).recursion == decode(current).recursion + 1,
        decrement_recursion_step(increment_recursion_step(current)) == current,
{
    let u = decode(current);
    law_encode_decode(current);
    let inner = RecursiveUnit { core: u.core, count: u.count, recursion: (u.recursion + 1) as u64 };
    law_decode_encode(inner);
}

/// Before compare-and-swap is usable, only the all-zero word can be taken,
/// and the taken word holds one lock for the taker outside any recursion block.
pub proof fn law_early_lock(current: u64, this: usize)
    requires
        this < 4,
    ensures
        early_lock_step(current, this) is Some <==> current == 0,
        current == 0 ==> decode(early_lock_step(current, this)->0) == (RecursiveUnit {
            core: this as u64,
            count: 1,
            recursion: 0,
        }),
        current == 0 ==> lock_step(early_lock_step(current, this)->0, this) is None,
{
    law_decode_encode(RecursiveUnit { core: this as u64, count: 1, recursion: 0 });
}

} // verus!
