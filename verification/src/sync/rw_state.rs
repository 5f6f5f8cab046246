use vstd::prelude::*;

verus! {

/// Most readers a semaphore word can record; the next value would collide
/// with the write-locked word.
pub const MAX_READERS: usize = usize::MAX / 2 - 1;

/// The word of a write-locked semaphore (it also has the write-reserve bit set).
pub const WRITE_LOCKED: usize = usize::MAX;

/// One decision of a compare-exchange loop on a semaphore word.
#[derive(Debug, Clone, Copy, PartialEq, Eq, Structural)]
pub enum ExgOp {
    /// Give up without changing the word.
    Cancel,
    /// Spin and look at the word again.
    Yield,
    /// Try to replace the word with this value.
    Value(usize),
}

/// Number of read locks recorded in a semaphore word (bits 63..1).
pub open spec fn readers(v: usize) -> int {
    v as int / 2
}

/// Whether the write-reserve flag (bit 0) is set; while it is, readers wait.
pub open spec fn reserved(v: usize) -> bool {
    v as int % 2 == 1
}

/// The word with the given reader count and reserve flag.
pub open spec fn word(readers: int, reserved: bool) -> int {
    readers * 2 + if reserved { 1int } else { 0int }
}

/// Decision of `read`: wait while reserved or saturated, else add a reader.
pub open spec fn read_step(v: usize) -> ExgOp {
    if reserved(v) || readers(v) == MAX_READERS {
        ExgOp::Yield
    } else {
        ExgOp::Value(word(readers(v) + 1, false) as usize)
    }
}

/// Decision of `write` once the reserve flag is set: take the lock when no
/// reader holds it.
pub open spec fn write_step(v: usize) -> ExgOp {
    if readers(v) == 0 {
        ExgOp::Value(WRITE_LOCKED)
    } else {
        ExgOp::Yield
    }
}

/// Decision of `reserve_try_acquire_write`: take the lock when free, give up
/// when another writer holds it, wait while readers hold it.
pub open spec fn reserve_step(v: usize) -> ExgOp {
    if readers(v) == 0 {
        ExgOp::Value(WRITE_LOCKED)
    } else if v == WRITE_LOCKED {
        ExgOp::Cancel
    } else {
        ExgOp::Yield
    }
}

/// Decision of upgrading a read lock: succeed only for the sole reader.
pub open spec fn upgrade_step(v: usize) -> ExgOp {
    if readers(v) == 1 {
        ExgOp::Value(WRITE_LOCKED)
    } else {
        ExgOp::Cancel
    }
}

/// Decision of `release_read`: drop one reader and keep the reserve flag;
/// a word that records no reader has nothing to release.
pub open spec fn release_read_step(v: usize) -> ExgOp {
    if readers(v) == 0 {
        ExgOp::Cancel
    } else {
        ExgOp::Value(word(readers(v) - 1, reserved(v)) as usize)
    }
}

/// The operations that drive a semaphore word through a compare-exchange loop.
#[derive(Debug, Clone, Copy, PartialEq, Eq, Structural)]
pub enum RwOp {
    Read,
    Write,
    ReserveWrite,
    Upgrade,
    ReleaseRead,
}

/// Decision of `op` on word `v`.
pub open spec fn op_step(op: RwOp, v: usize) -> ExgOp {
    match op {
        RwOp::Read => read_step(v),
        RwOp::Write => write_step(v),
        RwOp::ReserveWrite => reserve_step(v),
        RwOp::Upgrade => upgrade_step(v),
        RwOp::ReleaseRead => release_read_step(v),
    }
}

/// A word that the semaphore protocol can reach: write-locked, or holding at
/// most `MAX_READERS` readers.
pub open spec fn reachable(v: usize) -> bool {
    v == WRITE_LOCKED || readers(v) <= MAX_READERS
}

proof fn lemma_bits(v: usize)
    ensures
        v & 1 == v as int % 2,
        v >> 1 == v as int / 2,
        (v | 1) as int / 2 == v as int / 2,
        (v | 1) as int % 2 == 1,
{
    assert(v & 1 == v % 2) by (bit_vector);
    assert(v >> 1 == v / 2) by (bit_vector);
    assert((v | 1) / 2 == v / 2) by (bit_vector);
    assert((v | 1) % 2 == 1) by (bit_vector);
}

proof fn lemma_shl1(c: usize)
    ensures
        c << 1 == (c * 2) as usize,
        c << 1 == (c << 1) | 0usize,
        (c << 1) as int % 2 == 0,
{
    assert(c << 1 == (c * 2) as usize) by (bit_vector);
    assert(c << 1 == (c << 1) | 0usize) by (bit_vector);
    assert((c << 1) % 2 == 0) by (bit_vector);
}

proof fn lemma_or_low(x: usize, r: usize)
    requires
        x as int % 2 == 0,
        r <= 1,
    ensures
        x | r == x + r,
{
    assert(x | r == x + r) by (bit_vector)
        requires
            x % 2 == 0,
            r <= 1,
    ;
}

/// The `read` decision for word `value`.
pub fn read_decision(value: usize) -> (r: ExgOp)
    ensures
        r == read_step(value),
{
    proof {
        lemma_bits(value);
    }
    let reserve = value & 1;
    let read_count = value >> 1;
    if reserve != 0 || read_count == MAX_READERS {
        ExgOp::Yield
    } else {
        proof {
            lemma_shl1((read_count + 1) as usize);
        }
        let new_value = (read_count + 1) << 1;
        ExgOp::Value(new_value)
    }
}

/// The `write` decision for word `value` (the reserve flag is already set).
pub fn write_decision(value: usize) -> (r: ExgOp)
    ensures
        r == write_step(value),
{
    proof {
        lemma_bits(value);
    }
    let read_count = value >> 1;
    if read_count == 0 {
        ExgOp::Value(WRITE_LOCKED)
    } else {
        ExgOp::Yield
    }
}

/// The `reserve_try_acquire_write` decision for word `value`.
pub fn reserve_decision(value: usize) -> (r: ExgOp)
    ensures
        r == reserve_step(value),
{
    proof {
        lemma_bits(value);
    }
    let read_count = value >> 1;
    if read_count == 0 {
        ExgOp::Value(WRITE_LOCKED)
    } else if value == WRITE_LOCKED {
        ExgOp::Cancel
    } else {
        ExgOp::Yield
    }
}

/// The decision of upgrading a read lock to the write lock for word `value`.
pub fn upgrade_decision(value: usize) -> (r: ExgOp)
    ensures
        r == upgrade_step(value),
{
    proof {
        lemma_bits(value);
    }
    let read_count = value >> 1;
    if read_count == 1 {
        ExgOp::Value(WRITE_LOCKED)
    } else {
        ExgOp::Cancel
    }
}

/// The `release_read` decision for word `value`.
pub fn release_read_decision(value: usize) -> (r: ExgOp)
    ensures
        r == release_read_step(value),
{
    proof {
        lemma_bits(value);
    }
    let reserve = value & 1;
    let read_count = value >> 1;
    if read_count == 0 {
        return ExgOp::Cancel;
    }
    proof {
        lemma_shl1((read_count - 1) as usize);
        lemma_or_low(((read_count - 1) as usize) << 1, reserve);
    }
    let new_value = ((read_count - 1) << 1) | reserve;
    ExgOp::Value(new_value)
}

/// The decision of `op` for word `value`.
pub fn decide(op: RwOp, value: usize) -> (r: ExgOp)
    ensures
        r == op_step(op, value),
{
    match op {
        RwOp::Read => read_decision(value),
        RwOp::Write => write_decision(value),
        RwOp::ReserveWrite => reserve_decision(value),
        RwOp::Upgrade => upgrade_decision(value),
        RwOp::ReleaseRead => release_read_decision(value),
    }
}

/// A read lock taken on a reachable word and then released gives back the
/// word it started from, as long as no writer had reserved the semaphore.
pub proof fn law_read_then_release(v: usize)
    requires
        reachable(v),
        read_step(v) is Value,
    ensures
        !reserved(v),
        readers(read_step(v)->0) == readers(v) + 1,
        !reserved(read_step(v)->0),
        reachable(read_step(v)->0),
        release_read_step(read_step(v)->0) == ExgOp::Value(v),
{
}

/// A write lock is only granted on a word that records no reader, and the
/// granted word is the write-locked word.
pub proof fn law_write_excludes_readers(v: usize)
    ensures
        write_step(v) is Value ==> readers(v) == 0 && write_step(v) == ExgOp::Value(WRITE_LOCKED),
        reserve_step(v) is Value ==> readers(v) == 0 && reserve_step(v) == ExgOp::Value(WRITE_LOCKED),
        upgrade_step(v) is Value ==> readers(v) == 1 && upgrade_step(v) == ExgOp::Value(WRITE_LOCKED),
{
}

/// While the semaphore is write-locked, or a writer has reserved it, no
/// reader is admitted and no second writer takes the lock.
pub proof fn law_locked_excludes_others()
    ensures
        reserved(WRITE_LOCKED),
        read_step(WRITE_LOCKED) == ExgOp::Yield,
        write_step(WRITE_LOCKED) == ExgOp::Yield,
        reserve_step(WRITE_LOCKED) == ExgOp::Cancel,
        upgrade_step(WRITE_LOCKED) == ExgOp::Cancel,
        forall|v: usize| reserved(v) ==> #[trigger] read_step(v) == ExgOp::Yield,
{
}

/// A reserving writer takes the lock when no reader holds it, gives up when
/// another writer holds it, and otherwise waits for the readers to leave.
pub proof fn law_reserve_outcomes(v: usize)
    ensures
        readers(v) == 0 ==> reserve_step(v) == ExgOp::Value(WRITE_LOCKED),
        v == WRITE_LOCKED ==> reserve_step(v) == ExgOp::Cancel,
        readers(v) > 0 && v != WRITE_LOCKED ==> reserve_step(v) == ExgOp::Yield,
{
}

/// Setting the write-reserve flag keeps the reader count, is idempotent, and
/// leaves a write-locked word write-locked.
pub proof fn law_reserve_flag(v: usize)
    ensures
        reserved(v | 1),
        readers(v | 1) == readers(v),
        (v | 1) | 1 == v | 1,
        reserved(v) ==> v | 1 == v,
        !reserved(v) ==> v | 1 == v + 1,
        WRITE_LOCKED | 1 == WRITE_LOCKED,
{
    lemma_bits(v);
    assert((v | 1) | 1 == v | 1) by (bit_vector);
    assert(v % 2 == 1 ==> v | 1 == v) by (bit_vector);
    assert(v % 2 == 0 ==> v | 1 == v + 1) by (bit_vector);
    let w: usize = WRITE_LOCKED;
    assert(w % 2 == 1);
    assert(w % 2 == 1 ==> w | 1 == w) by (bit_vector);
}

/// A reader is admitted whenever no writer has reserved the semaphore and
/// the reader count is below its limit, however many readers already hold
/// it: the word gains exactly one reader.
pub proof fn law_reader_admitted(v: usize)
    requires
        !reserved(v),
        readers(v) < MAX_READERS,
    ensures
        read_step(v) == ExgOp::Value((v + 2) as usize),
        readers((v + 2) as usize) == readers(v) + 1,
        !reserved((v + 2) as usize),
{
}

/// Releasing a read lock removes exactly one reader and keeps the reserve flag.
pub proof fn law_release_read(v: usize)
    requires
        reachable(v),
        v != WRITE_LOCKED,
        readers(v) >= 1,
    ensures
        release_read_step(v) is Value,
        readers(release_read_step(v)->0) == readers(v) - 1,
        reserved(release_read_step(v)->0) == reserved(v),
        reachable(release_read_step(v)->0),
{
}

} // verus!
