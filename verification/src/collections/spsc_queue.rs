use vstd::prelude::*;
use std::sync::Arc;
use std::sync::{Mutex, MutexGuard, PoisonError, TryLockError};

verus! {

/// Number of occupied slots of a ring of `n` slots whose readable window
/// starts at `read` and ends (exclusive) at `write`.
pub open spec fn ring_len(n: int, read: int, write: int) -> int {
    if write >= read {
        write - read
    } else {
        n + write - read
    }
}

/// Index after `idx` in a ring of `n` slots.
pub open spec fn ring_next(n: int, idx: int) -> int {
    if idx + 1 >= n {
        0
    } else {
        idx + 1
    }
}

/// Distance from `read` forward to `j` in a ring of `n` slots.
pub open spec fn ring_offset(n: int, read: int, j: int) -> int {
    if j >= read {
        j - read
    } else {
        n + j - read
    }
}

/// Slot that holds the `i`-th readable element of a window starting at `read`.
pub open spec fn ring_slot(n: int, read: int, i: int) -> int {
    if read + i < n {
        read + i
    } else {
        read + i - n
    }
}

/// Facts about a ring of `n` slots with a readable window `[read, write)`.
pub proof fn lemma_ring(n: int, read: int, write: int)
    requires
        0 <= read < n,
        0 <= write < n,
    ensures
        0 <= ring_len(n, read, write) <= n - 1,
        0 <= ring_next(n, write) < n,
        ring_offset(n, read, write) == ring_len(n, read, write),
        (ring_next(n, write) == read) <==> ring_len(n, read, write) == n - 1,
        ring_len(n, read, write) < n - 1 ==> ring_len(n, read, ring_next(n, write)) == ring_len(
            n,
            read,
            write,
        ) + 1,
        ring_len(n, read, write) > 0 ==> ring_len(n, ring_next(n, read), write) == ring_len(
            n,
            read,
            write,
        ) - 1,
        forall|j: int| 0 <= j < n ==> 0 <= #[trigger] ring_offset(n, read, j) < n,
        forall|j: int| 0 <= j < n && j != read ==> #[trigger] ring_offset(n, ring_next(n, read), j) == ring_offset(n, read, j) - 1,
        forall|i: int| 0 <= i < n ==> 0 <= #[trigger] ring_slot(n, read, i) < n,
        forall|i: int| 0 <= i < n ==> ring_offset(n, read, #[trigger] ring_slot(n, read, i)) == i,
        forall|i: int| 0 <= i < n - 1 ==> #[trigger] ring_slot(n, ring_next(n, read), i) == ring_slot(n, read, i + 1),
        forall|j1: int, j2: int|
            0 <= j1 < n && 0 <= j2 < n && #[trigger] ring_offset(n, read, j1) == #[trigger] ring_offset(n, read, j2)
                ==> j1 == j2,
{
}

/// Items leave in the order they entered: with the views that `try_enqueue`
/// and `try_dequeue` produce (`push` and `drop_first`), an item appended
/// behind `items` comes out only after all of `items`, which come out in order.
pub proof fn law_fifo_order<T>(items: Seq<T>, v: T)
    ensures
        items.push(v).take(items.len() as int) == items,
        items.push(v).skip(items.len() as int) == seq![v],
        items.len() > 0 ==> items.push(v)[0] == items[0] && items.push(v).drop_first() == items.drop_first().push(v),
        items.len() == 0 ==> items.push(v)[0] == v && items.push(v).drop_first() == items,
{
    assert(items.push(v).take(items.len() as int) =~= items);
    assert(items.push(v).skip(items.len() as int) =~= seq![v]);
    if items.len() > 0 {
        assert(items.push(v).drop_first() =~= items.drop_first().push(v));
    } else {
        assert(items.push(v).drop_first() =~= items);
    }
}

/// Items appended behind the queued ones come out only after them, in
/// order: when `after` keeps `before` as its front (as the appending
/// operations ensure), taking `b` of the oldest items of `after` (as the
/// dequeuing operations do) yields the front of `before`, and once `before`
/// is used up, the appended items in the order they were appended.
pub proof fn law_slice_fifo<T>(before: Seq<T>, after: Seq<T>, b: int)
    requires
        before.len() <= after.len(),
        after.take(before.len() as int) == before,
        0 <= b <= after.len(),
    ensures
        b <= before.len() ==> after.take(b) == before.take(b),
        b > before.len() ==> after.take(b) == before + after.skip(before.len() as int).take(b - before.len()),
        after.skip(b).len() == after.len() - b,
{
    let k = before.len() as int;
    if b <= k {
        assert(after.take(b) =~= after.take(k).take(b));
    } else {
        assert(after.take(b) =~= after.take(k) + after.skip(k).take(b - k));
    }
}

/// What taking the oldest item out of a queue holding `before` does: an
/// empty queue gives `None` and stays as it is; otherwise the oldest item
/// comes out and the rest stay, in order.
pub open spec fn dequeue_one_post<T>(before: Seq<T>, after: Seq<T>, r: Option<T>) -> bool {
    if before.len() == 0 {
        r is None && after == before
    } else {
        r == Some(before[0]) && after == before.drop_first()
    }
}

/// What offering `v` to a queue of capacity `cap` holding `before` does: it
/// is accepted and goes to the back exactly when the queue holds fewer than
/// `cap` items; otherwise the queue stays as it is.
pub open spec fn enqueue_one_post<T>(before: Seq<T>, after: Seq<T>, cap: int, v: T, accepted: bool) -> bool {
    if before.len() < cap {
        accepted && after == before.push(v)
    } else {
        !accepted && after == before
    }
}

/// What moving the oldest items of a queue holding `before` into a slice
/// does: `amt` is the smaller of the slice's length and the queue's, the
/// front of the slice gets the `amt` oldest items in order, the rest of the
/// slice is kept, and the queue keeps the items after them.
pub open spec fn dequeue_slice_post<T>(
    before: Seq<T>,
    after: Seq<T>,
    old_slice: Seq<T>,
    new_slice: Seq<T>,
    amt: int,
) -> bool {
    &&& amt == vstd::math::min(old_slice.len() as int, before.len() as int)
    &&& after == before.skip(amt)
    &&& new_slice == before.take(amt) + old_slice.skip(amt)
}

/// What appending clones of leading items of `slice` to a queue of capacity
/// `cap` holding `before` does: `amt` is the smaller of the slice's length
/// and the free room, the old items stay in front, and clones of the first
/// `amt` items of the slice follow them in order.
pub open spec fn enqueue_slice_post<T: Clone>(
    before: Seq<T>,
    after: Seq<T>,
    slice: Seq<T>,
    cap: int,
    amt: int,
) -> bool {
    &&& amt == vstd::math::min(slice.len() as int, cap - before.len())
    &&& after.len() == before.len() + amt
    &&& after.take(before.len() as int) == before
    &&& forall|i: int| 0 <= i < amt ==> cloned(slice[i], #[trigger] after[before.len() + i])
}

/// Offering items one at a time to a queue of capacity `cap` holding
/// `queued`: the queue it ends with and how many items it accepted.
pub open spec fn offer_all<T>(queued: Seq<T>, cap: int, items: Seq<T>) -> (Seq<T>, int)
    decreases items.len(),
{
    if items.len() == 0 {
        (queued, 0)
    } else {
        let (next, accepted) = if queued.len() < cap {
            (queued.push(items[0]), 1int)
        } else {
            (queued, 0int)
        };
        let (end, more) = offer_all(next, cap, items.drop_first());
        (end, accepted + more)
    }
}

/// A single offer behaves as `enqueue_one_post` says, whatever the queue holds.
pub proof fn law_offer_step<T>(before: Seq<T>, after: Seq<T>, cap: int, v: T, accepted: bool)
    requires
        enqueue_one_post(before, after, cap, v, accepted),
    ensures
        offer_all(before, cap, seq![v]) == (after, if accepted { 1int } else { 0int }),
{
    reveal_with_fuel(offer_all, 2);
    assert(seq![v].drop_first() =~= Seq::<T>::empty());
    assert(seq![v][0] == v);
}

/// An empty queue of capacity `cap` accepts exactly `cap` of the items offered
/// to it one at a time, the first `cap` in order, and refuses the rest.
pub proof fn law_fill_to_capacity<T>(cap: int, items: Seq<T>)
    requires
        0 <= cap,
    ensures
        offer_all(Seq::<T>::empty(), cap, items).1 == vstd::math::min(cap, items.len() as int),
        offer_all(Seq::<T>::empty(), cap, items).0 == items.take(vstd::math::min(cap, items.len() as int)),
{
    lemma_offer_all(Seq::<T>::empty(), cap, items);
    assert(Seq::<T>::empty() + items.take(vstd::math::min(cap, items.len() as int)) =~= items.take(
        vstd::math::min(cap, items.len() as int),
    ));
}

proof fn lemma_offer_all<T>(queued: Seq<T>, cap: int, items: Seq<T>)
    requires
        queued.len() <= cap,
    ensures
        offer_all(queued, cap, items).1 == vstd::math::min(cap - queued.len(), items.len() as int),
        offer_all(queued, cap, items).0 == queued + items.take(
            vstd::math::min(cap - queued.len(), items.len() as int),
        ),
    decreases items.len(),
{
    let k = vstd::math::min(cap - queued.len(), items.len() as int);
    if items.len() == 0 {
        assert(queued + items.take(k) =~= queued);
    } else if queued.len() < cap {
        let next = queued.push(items[0]);
        lemma_offer_all(next, cap, items.drop_first());
        let k2 = vstd::math::min(cap - next.len(), items.drop_first().len() as int);
        assert(k2 == k - 1);
        assert(next + items.drop_first().take(k2) =~= queued + items.take(k));
    } else {
        lemma_offer_all(queued, cap, items.drop_first());
        assert(queued + items.drop_first().take(0) =~= queued);
        assert(queued + items.take(0) =~= queued);
    }
}

/// Moving items out of a queue into a slice either fills the slice or
/// empties the queue; it never moves more than either holds; and the moved
/// items followed by what stays queued are the queue as it was.
pub proof fn law_dequeue_slice<T>(before: Seq<T>, after: Seq<T>, old_slice: Seq<T>, new_slice: Seq<T>, amt: int)
    requires
        dequeue_slice_post(before, after, old_slice, new_slice, amt),
    ensures
        0 <= amt <= old_slice.len(),
        amt <= before.len(),
        new_slice.len() == old_slice.len(),
        amt == old_slice.len() || after.len() == 0,
        new_slice.take(amt) + after == before,
        new_slice.skip(amt) == old_slice.skip(amt),
{
    assert(new_slice.take(amt) =~= before.take(amt));
    assert(before.take(amt) + before.skip(amt) =~= before);
    assert(new_slice.skip(amt) =~= old_slice.skip(amt));
}

/// Appending clones of a slice either takes the whole slice or fills the
/// queue; it never appends more than there was room for; and the count it
/// reports is exactly how many items the queue gained, kept behind the old ones.
pub proof fn law_enqueue_slice<T: Clone>(before: Seq<T>, after: Seq<T>, slice: Seq<T>, cap: int, amt: int)
    requires
        enqueue_slice_post(before, after, slice, cap, amt),
        before.len() <= cap,
    ensures
        0 <= amt <= slice.len(),
        amt == after.len() - before.len(),
        after.len() <= cap,
        amt == slice.len() || after.len() == cap,
        after.take(before.len() as int) == before,
{
}

/// A bounded FIFO ring buffer.
///
/// `[read_ptr, write_ptr)` is available for reading by the consumer and
/// `[write_ptr, read_ptr)` is available for writing by the producer; for
/// simplicity `read_ptr == write_ptr` always means empty, so a buffer of
/// `n` slots holds at most `n - 1` items.
#[derive(Debug)]
pub struct SpscQueue<T> {
    data: Vec<Option<T>>,
    write_ptr: usize,
    read_ptr: usize,
}

impl<T> SpscQueue<T> {
    #[verifier::type_invariant]
    spec fn well_formed(&self) -> bool {
        let n = self.data@.len() as int;
        &&& n >= 1
        &&& self.read_ptr < n
        &&& self.write_ptr < n
        &&& forall|j: int|
            0 <= j < n ==> (#[trigger] self.data@[j] is Some <==> ring_offset(
                n,
                self.read_ptr as int,
                j,
            ) < ring_len(n, self.read_ptr as int, self.write_ptr as int))
    }

    /// Length of the internal buffer.
    pub closed spec fn spec_buffer_len(&self) -> nat {
        self.data@.len()
    }

    /// The queued items, oldest first.
    pub closed spec fn view(&self) -> Seq<T> {
        let n = self.data@.len() as int;
        Seq::new(
            ring_len(n, self.read_ptr as int, self.write_ptr as int) as nat,
            |i: int| self.data@[ring_slot(n, self.read_ptr as int, i)]->0,
        )
    }

    /// Largest number of items the queue can hold.
    pub open spec fn spec_cap(&self) -> int {
        self.spec_buffer_len() - 1
    }

    /// Whether the ring's positions and slots agree: every queue value that
    /// code can hold is valid.
    pub closed spec fn valid(&self) -> bool {
        self.well_formed()
    }
}

/// A valid ring holds at most its capacity, one less than its slot count.
pub proof fn lemma_valid_len<T>(q: SpscQueue<T>)
    requires
        q.valid(),
    ensures
        q.spec_buffer_len() >= 1,
        q@.len() <= q.spec_cap(),
{
    lemma_ring(q.data@.len() as int, q.read_ptr as int, q.write_ptr as int);
}

impl<T> SpscQueue<T> {
    /// Creates an empty queue over a buffer of `size` slots (capacity `size - 1`).
    pub fn with_buffer_len(size: usize) -> (q: Self)
        requires
            size >= 1,
        ensures
            q@ == Seq::<T>::empty(),
            q.spec_buffer_len() == size,
    {
        let mut data: Vec<Option<T>> = Vec::with_capacity(size);
        let mut i: usize = 0;
        while i < size
            invariant
                i <= size,
                data@.len() == i,
                forall|j: int| 0 <= j < i ==> #[trigger] data@[j] is None,
            decreases size - i,
        {
            data.push(None);
            i = i + 1;
        }
        let q = SpscQueue { data, write_ptr: 0, read_ptr: 0 };
        assert(q@ =~= Seq::<T>::empty());
        q
    }

    /// Length of the internal buffer.
    pub fn buffer_len(&self) -> (r: usize)
        ensures
            r == self.spec_buffer_len(),
    {
        self.data.len()
    }

    /// The buffer cannot be completely filled, so the available capacity is
    /// one less than the internal buffer length.
    pub fn cap(&self) -> (r: usize)
        ensures
            r == self.spec_cap(),
    {
        proof {
            use_type_invariant(self);
        }
        self.data.len() - 1
    }

    /// Index following `idx` in the ring.
    pub fn inc(&self, idx: usize) -> (r: usize)
        requires
            idx < self.spec_buffer_len(),
        ensures
            r == ring_next(self.spec_buffer_len() as int, idx as int),
            r < self.spec_buffer_len(),
    {
        let n = self.data.len();
        let r = (idx + 1) % n;
        proof {
            if idx + 1 < n {
                vstd::arithmetic::div_mod::lemma_small_mod((idx + 1) as nat, n as nat);
            } else {
                vstd::arithmetic::div_mod::lemma_mod_self_0(n as int);
            }
        }
        r
    }

    /// Number of items between a read index and a write index.
    pub fn calc_len(&self, read: usize, write: usize) -> (r: usize)
        requires
            read < self.spec_buffer_len(),
            write < self.spec_buffer_len(),
        ensures
            r == ring_len(self.spec_buffer_len() as int, read as int, write as int),
    {
        if write >= read {
            write - read
        } else {
            self.data.len() - read + write
        }
    }

    /// Free slots between a read index and a write index.
    pub fn calc_free_space(&self, read: usize, write: usize) -> (r: usize)
        requires
            read < self.spec_buffer_len(),
            write < self.spec_buffer_len(),
        ensures
            r == self.spec_cap() - ring_len(self.spec_buffer_len() as int, read as int, write as int),
    {
        self.cap() - self.calc_len(read, write)
    }

    /// Number of items currently queued.
    pub fn load_len(&self) -> (r: usize)
        ensures
            r == self@.len(),
            r <= self.spec_cap(),
    {
        proof {
            use_type_invariant(self);
        }
        self.calc_len(self.read_ptr, self.write_ptr)
    }
}

/// Puts `item` into slot `idx` and moves `ptr` to `new_ptr` in one step,
/// returning what the slot held before.
fn swap_slot_and_move<T>(
    data: &mut Vec<Option<T>>,
    ptr: &mut usize,
    idx: usize,
    item: Option<T>,
    new_ptr: usize,
) -> (prev: Option<T>)
    requires
        idx < old(data)@.len(),
    ensures
        final(data)@ == old(data)@.update(idx as int, item),
        *final(ptr) == new_ptr,
        prev == old(data)@[idx as int],
    no_unwind
{
    let mut item = item;
    std::mem::swap(&mut data[idx], &mut item);
    *ptr = new_ptr;
    item
}

impl<T> SpscQueue<T> {
    /// Appends `value` unless the queue is full, in which case `value` is handed back.
    pub fn try_enqueue(&mut self, value: T) -> (r: Result<(), T>)
        ensures
            final(self).spec_buffer_len() == old(self).spec_buffer_len(),
            old(self)@.len() <= old(self).spec_cap(),
            old(self)@.len() == old(self).spec_cap() ==> r == Err::<(), T>(value) && final(self)@ == old(self)@,
            old(self)@.len() < old(self).spec_cap() ==> r is Ok && final(self)@ == old(self)@.push(value),
    {
        proof {
            use_type_invariant(&*self);
        }
        let write_idx = self.write_ptr;
        let read_idx = self.read_ptr;
        let next = self.inc(write_idx);
        let ghost n = self.data@.len() as int;
        proof {
            lemma_ring(n, read_idx as int, write_idx as int);
        }
        if next == read_idx {
            return Err(value);
        }
        let ghost old_data = self.data@;
        let ghost len = ring_len(n, read_idx as int, write_idx as int);
        let ghost value_copy = value;
        proof {
            let new_data = old_data.update(write_idx as int, Some(value_copy));
            assert forall|j: int| 0 <= j < n implies (#[trigger] new_data[j] is Some <==> ring_offset(
                n,
                read_idx as int,
                j,
            ) < ring_len(n, read_idx as int, next as int)) by {
                if j != write_idx {
                    assert(ring_offset(n, read_idx as int, j) != ring_offset(n, read_idx as int, write_idx as int));
                }
            }
        }
        let _ = swap_slot_and_move(&mut self.data, &mut self.write_ptr, write_idx, Some(value), next);
        proof {
            assert forall|i: int| 0 <= i < len implies #[trigger] ring_slot(n, read_idx as int, i) != write_idx by {
                assert(ring_offset(n, read_idx as int, ring_slot(n, read_idx as int, i)) == i);
            }
            assert(ring_offset(n, read_idx as int, ring_slot(n, read_idx as int, len)) == len);
            assert(self@ =~= old(self)@.push(value_copy));
        }
        Ok(())
    }

    /// Removes and returns the oldest item, or `None` when the queue is empty.
    pub fn try_dequeue(&mut self) -> (r: Option<T>)
        ensures
            final(self).spec_buffer_len() == old(self).spec_buffer_len(),
            old(self)@.len() == 0 ==> r is None && final(self)@ == old(self)@,
            old(self)@.len() > 0 ==> r == Some(old(self)@[0]) && final(self)@ == old(self)@.drop_first(),
    {
        proof {
            use_type_invariant(&*self);
        }
        let read_idx = self.read_ptr;
        let write_idx = self.write_ptr;
        let ghost n = self.data@.len() as int;
        proof {
            lemma_ring(n, read_idx as int, write_idx as int);
        }
        if read_idx == write_idx {
            return None;
        }
        let next = self.inc(read_idx);
        let ghost old_data = self.data@;
        let ghost len = ring_len(n, read_idx as int, write_idx as int);
        proof {
            lemma_ring(n, read_idx as int, write_idx as int);
            let new_data = old_data.update(read_idx as int, None);
            assert(ring_offset(n, read_idx as int, read_idx as int) == 0);
            assert(old_data[read_idx as int] is Some);
            assert forall|j: int| 0 <= j < n implies (#[trigger] new_data[j] is Some <==> ring_offset(
                n,
                next as int,
                j,
            ) < ring_len(n, next as int, write_idx as int)) by {
                if j != read_idx {
                    assert(ring_offset(n, next as int, j) == ring_offset(n, read_idx as int, j) - 1);
                }
            }
        }
        let v = swap_slot_and_move(&mut self.data, &mut self.read_ptr, read_idx, None, next);
        proof {
            assert(ring_slot(n, read_idx as int, 0) == read_idx);
            assert forall|i: int| 0 <= i < len - 1 implies #[trigger] ring_slot(n, next as int, i) != read_idx by {
                assert(ring_slot(n, next as int, i) == ring_slot(n, read_idx as int, i + 1));
                assert(ring_offset(n, read_idx as int, ring_slot(n, read_idx as int, i + 1)) == i + 1);
            }
            assert(self@ =~= old(self)@.drop_first());
        }
        v
    }

    /// Moves up to `slice.len()` of the oldest items into the front of `slice`
    /// and returns how many were moved.
    pub fn dequeue_slice(&mut self, slice: &mut [T]) -> (amt: usize)
        ensures
            amt == vstd::math::min(old(slice)@.len() as int, old(self)@.len() as int),
            final(self).spec_buffer_len() == old(self).spec_buffer_len(),
            final(self)@ == old(self)@.skip(amt as int),
            final(slice)@ == old(self)@.take(amt as int) + old(slice)@.skip(amt as int),
    {
        let len = self.load_len();
        let n = slice.len();
        let amt = if n < len { n } else { len };
        let mut i: usize = 0;
        while i < amt
            invariant
                i <= amt,
                amt == vstd::math::min(old(slice)@.len() as int, old(self)@.len() as int),
                slice@.len() == old(slice)@.len(),
                self.spec_buffer_len() == old(self).spec_buffer_len(),
                self@ == old(self)@.skip(i as int),
                slice@ == old(self)@.take(i as int) + old(slice)@.skip(i as int),
            decreases amt - i,
        {
            let v = self.try_dequeue();
            proof {
                assert(old(self)@.skip(i as int)[0] == old(self)@[i as int]);
                assert(old(self)@.skip(i as int).drop_first() =~= old(self)@.skip(i + 1));
            }
            match v {
                Some(v) => {
                    slice[i] = v;
                },
                None => {},
            }
            proof {
                assert(slice@ =~= old(self)@.take(i + 1) + old(slice)@.skip(i + 1));
            }
            i = i + 1;
        }
        amt
    }
}

impl<T> SpscQueue<T> {
    /// Moves up to `max` of the oldest items onto the end of `out`, oldest
    /// first, and returns how many were moved.
    pub fn dequeue_into(&mut self, max: usize, out: &mut Vec<T>) -> (amt: usize)
        ensures
            amt == vstd::math::min(max as int, old(self)@.len() as int),
            final(self).spec_buffer_len() == old(self).spec_buffer_len(),
            final(self)@ == old(self)@.skip(amt as int),
            final(out)@ == old(out)@ + old(self)@.take(amt as int),
    {
        let len = self.load_len();
        let amt = if max < len { max } else { len };
        let mut i: usize = 0;
        while i < amt
            invariant
                i <= amt,
                amt == vstd::math::min(max as int, old(self)@.len() as int),
                self.spec_buffer_len() == old(self).spec_buffer_len(),
                self@ == old(self)@.skip(i as int),
                out@ == old(out)@ + old(self)@.take(i as int),
            decreases amt - i,
        {
            let v = self.try_dequeue();
            proof {
                assert(old(self)@.skip(i as int)[0] == old(self)@[i as int]);
                assert(old(self)@.skip(i as int).drop_first() =~= old(self)@.skip(i + 1));
            }
            match v {
                Some(v) => {
                    out.push(v);
                },
                None => {},
            }
            proof {
                assert(out@ =~= old(out)@ + old(self)@.take(i + 1));
            }
            i = i + 1;
        }
        amt
    }

    /// Moves up to `slice.len()` of the oldest items into the front of
    /// `slice`, oldest first, appends the entries they replace to `replaced`,
    /// and returns how many were moved.
    pub fn dequeue_swap(&mut self, slice: &mut [T], replaced: &mut Vec<T>) -> (amt: usize)
        ensures
            amt == vstd::math::min(old(slice)@.len() as int, old(self)@.len() as int),
            final(self).spec_buffer_len() == old(self).spec_buffer_len(),
            final(self)@ == old(self)@.skip(amt as int),
            final(slice)@ == old(self)@.take(amt as int) + old(slice)@.skip(amt as int),
            final(replaced)@ == old(replaced)@ + old(slice)@.take(amt as int),
    {
        let len = self.load_len();
        let n = slice.len();
        let amt = if n < len { n } else { len };
        let mut i: usize = 0;
        while i < amt
            invariant
                i <= amt,
                amt == vstd::math::min(old(slice)@.len() as int, old(self)@.len() as int),
                slice@.len() == old(slice)@.len(),
                self.spec_buffer_len() == old(self).spec_buffer_len(),
                self@ == old(self)@.skip(i as int),
                slice@ == old(self)@.take(i as int) + old(slice)@.skip(i as int),
                replaced@ == old(replaced)@ + old(slice)@.take(i as int),
            decreases amt - i,
        {
            let v = self.try_dequeue();
            proof {
                assert(old(self)@.skip(i as int)[0] == old(self)@[i as int]);
                assert(old(self)@.skip(i as int).drop_first() =~= old(self)@.skip(i + 1));
            }
            match v {
                Some(v) => {
                    let mut item = v;
                    std::mem::swap(&mut slice[i], &mut item);
                    replaced.push(item);
                },
                None => {},
            }
            proof {
                assert(slice@ =~= old(self)@.take(i + 1) + old(slice)@.skip(i + 1));
                assert(replaced@ =~= old(replaced)@ + old(slice)@.take(i + 1));
            }
            i = i + 1;
        }
        amt
    }

    /// Moves the entries of `items`, front first, into the queue until it is
    /// full or `items` runs out, leaving every moved entry `None`; returns how
    /// many were moved.
    pub fn enqueue_from(&mut self, items: &mut Vec<Option<T>>) -> (moved: usize)
        requires
            forall|i: int| 0 <= i < old(items)@.len() ==> #[trigger] old(items)@[i] is Some,
        ensures
            moved == vstd::math::min(old(items)@.len() as int, old(self).spec_cap() - old(self)@.len()),
            final(self).spec_buffer_len() == old(self).spec_buffer_len(),
            final(self)@.len() == old(self)@.len() + moved,
            final(self)@.take(old(self)@.len() as int) == old(self)@,
            forall|i: int| 0 <= i < moved ==> #[trigger] final(self)@[old(self)@.len() + i] == old(items)@[i]->0,
            final(items)@.len() == old(items)@.len(),
            forall|i: int| 0 <= i < moved ==> #[trigger] final(items)@[i] is None,
            forall|i: int| moved <= i < old(items)@.len() ==> #[trigger] final(items)@[i] == old(items)@[i],
    {
        let free = self.cap() - self.load_len();
        let n = items.len();
        let amt = if n < free { n } else { free };
        let mut i: usize = 0;
        while i < amt
            invariant
                i <= amt,
                n == old(items)@.len(),
                forall|k: int| 0 <= k < old(items)@.len() ==> #[trigger] old(items)@[k] is Some,
                amt == vstd::math::min(old(items)@.len() as int, old(self).spec_cap() - old(self)@.len()),
                self.spec_buffer_len() == old(self).spec_buffer_len(),
                self@.len() == old(self)@.len() + i,
                self@.take(old(self)@.len() as int) == old(self)@,
                forall|k: int| 0 <= k < i ==> #[trigger] self@[old(self)@.len() + k] == old(items)@[k]->0,
                items@.len() == old(items)@.len(),
                forall|k: int| 0 <= k < i ==> #[trigger] items@[k] is None,
                forall|k: int| i <= k < old(items)@.len() ==> #[trigger] items@[k] == old(items)@[k],
            decreases amt - i,
        {
            let mut slot: Option<T> = None;
            std::mem::swap(&mut items[i], &mut slot);
            assert(slot == old(items)@[i as int]);
            assert(old(items)@[i as int] is Some);
            match slot {
                Some(v) => {
                    let ghost before = self@;
                    let _ = self.try_enqueue(v);
                    proof {
                        assert(self@ == before.push(v));
                        assert(self@.take(old(self)@.len() as int) =~= before.take(old(self)@.len() as int));
                        assert forall|k: int| 0 <= k < i + 1 implies #[trigger] self@[old(self)@.len() + k] == old(items)@[k]->0 by {
                            if k < i {
                                assert(self@[old(self)@.len() + k] == before[old(self)@.len() + k]);
                            }
                        }
                    }
                },
                None => {},
            }
            i = i + 1;
        }
        amt
    }
}

impl<T: Clone> SpscQueue<T> {
    /// Appends clones of as many leading items of `slice` as there is free
    /// space for and returns how many were appended.
    pub fn enqueue_slice(&mut self, slice: &[T]) -> (amt: usize)
        ensures
            amt == vstd::math::min(slice@.len() as int, old(self).spec_cap() - old(self)@.len()),
            final(self).spec_buffer_len() == old(self).spec_buffer_len(),
            final(self)@.len() == old(self)@.len() + amt,
            final(self)@.take(old(self)@.len() as int) == old(self)@,
            forall|i: int| 0 <= i < amt ==> cloned(slice@[i], #[trigger] final(self)@[old(self)@.len() + i]),
    {
        let free = self.cap() - self.load_len();
        let n = slice.len();
        let amt = if n < free { n } else { free };
        let mut i: usize = 0;
        while i < amt
            invariant
                i <= amt,
                amt == vstd::math::min(slice@.len() as int, old(self).spec_cap() - old(self)@.len()),
                self.spec_buffer_len() == old(self).spec_buffer_len(),
                self@.len() == old(self)@.len() + i,
                self@.take(old(self)@.len() as int) == old(self)@,
                forall|k: int| 0 <= k < i ==> cloned(slice@[k], #[trigger] self@[old(self)@.len() + k]),
            decreases amt - i,
        {
            let item = slice[i].clone();
            let ghost before = self@;
            let _ = self.try_enqueue(item);
            proof {
                assert(self@ == before.push(item));
                assert(self@.take(old(self)@.len() as int) =~= before.take(old(self)@.len() as int));
                assert forall|k: int| 0 <= k < i + 1 implies cloned(slice@[k], #[trigger] self@[old(self)@.len() + k]) by {
                    if k < i {
                        assert(self@[old(self)@.len() + k] == before[old(self)@.len() + k]);
                    }
                }
            }
            i = i + 1;
        }
        amt
    }
}

#[verifier::external_type_specification]
#[verifier::external_body]
#[verifier::reject_recursive_types(T)]
pub struct ExMutex<T: ?Sized>(Mutex<T>);

#[verifier::external_type_specification]
#[verifier::external_body]
#[verifier::reject_recursive_types(T)]
pub struct ExMutexGuard<'a, T: ?Sized + 'a>(MutexGuard<'a, T>);

/// Calls `std::sync::Mutex::new`; nothing is claimed of the result beyond its type.
#[verifier::external_body]
fn new_mutex<T>(value: T) -> Mutex<T> {
    Mutex::new(value)
}

#[verifier::external_type_specification]
#[verifier::external_body]
#[verifier::reject_recursive_types(T)]
pub struct ExPoisonError<T>(PoisonError<T>);

/// Calls `std::sync::Mutex::try_lock`, which never blocks: `Ok` with the
/// guard, `Err(Some(_))` when a panicking thread left the lock poisoned, and
/// `Err(None)` when the lock is held, by another thread or by this one.
/// Nothing is claimed of which comes back.
#[verifier::external_body]
fn try_lock_mutex<'a, T>(m: &'a Mutex<T>) -> Result<MutexGuard<'a, T>, Option<PoisonError<MutexGuard<'a, T>>>> {
    match m.try_lock() {
        Ok(guard) => Ok(guard),
        Err(TryLockError::Poisoned(poisoned)) => Err(Some(poisoned)),
        Err(TryLockError::WouldBlock) => Err(None),
    }
}

/// Calls `PoisonError::into_inner`, which gives back the guard of a lock that
/// a panicking thread left poisoned; nothing is claimed of the guard.
#[verifier::external_body]
fn poisoned_guard<'a, T>(p: PoisonError<MutexGuard<'a, T>>) -> MutexGuard<'a, T> {
    p.into_inner()
}

/// Calls `std::hint::spin_loop`, a hint that the caller is spinning.
#[verifier::external_body]
fn spin_hint() {
    std::hint::spin_loop()
}

/// How many times a queue end tries to take the shared lock before it
/// reports the queue as unavailable.
pub const LOCK_ATTEMPTS: usize = 0x10_0000;

/// Calls `Arc::clone`, which makes another pointer to the same allocation;
/// the contract states that the clone is the same shared value.
#[verifier::external_body]
fn share_arc<T>(a: &Arc<T>) -> (r: Arc<T>)
    ensures
        r == *a,
{
    a.clone()
}

/// Takes the lock, also when a panicking thread left it poisoned, spinning
/// at most `LOCK_ATTEMPTS` times while it is held; `None` when it stayed held.
fn acquire<'a, T>(m: &'a Mutex<T>) -> Option<MutexGuard<'a, T>> {
    let mut attempt: usize = 0;
    while attempt < LOCK_ATTEMPTS
        decreases LOCK_ATTEMPTS - attempt,
    {
        match try_lock_mutex(m) {
            Ok(guard) => {
                return Some(guard);
            },
            Err(Some(poisoned)) => {
                return Some(poisoned_guard(poisoned));
            },
            Err(None) => {
                spin_hint();
            },
        }
        attempt = attempt + 1;
    }
    None
}

/// Calls `DerefMut::deref_mut` on a mutex guard; nothing is claimed of the
/// value reached except what its type guarantees.
#[verifier::external_body]
fn guarded_mut<'a, 'b, T>(guard: &'b mut MutexGuard<'a, T>) -> &'b mut T {
    &mut **guard
}

/// Number of ring slots behind a queue created with `size` slots: a queue
/// over no slots keeps a single slot, which is always both empty and full.
pub open spec fn ring_slots_for(size: int) -> int {
    if size == 0 {
        1
    } else {
        size
    }
}

/// Whether `q` is a state that a shared ring of `slots` slots can be in.
pub open spec fn ring_state<T>(q: SpscQueue<T>, slots: int) -> bool {
    q.valid() && q.spec_buffer_len() == slots
}

/// The consumer end of a queue shared with one producer. Both ends reach the
/// shared ring through a `std::sync::Mutex`, so what one end observes depends
/// on what the other end did meanwhile.
#[derive(Debug)]
#[verifier::reject_recursive_types(T)]
pub struct SpscQueueReader<T> {
    queue: Arc<Mutex<SpscQueue<T>>>,
    buffer_len: usize,
    slots: usize,
}

/// The producer end of a queue shared with one consumer (see
/// [`SpscQueueReader`] for how the ends share the ring).
#[derive(Debug)]
#[verifier::reject_recursive_types(T)]
pub struct SpscQueueWriter<T> {
    queue: Arc<Mutex<SpscQueue<T>>>,
    buffer_len: usize,
    slots: usize,
}

/// Number of items in the ring behind `m`, read under its lock; `None` when
/// the lock could not be taken or the ring does not have `slots` slots.
fn queued<T>(m: &Mutex<SpscQueue<T>>, slots: usize) -> (r: Option<usize>)
    ensures
        r is Some ==> exists|q: SpscQueue<T>| #[trigger] ring_state(q, slots as int) && r->0 == q@.len(),
{
    match acquire(m) {
        Some(mut guard) => {
            let queue = guarded_mut(&mut guard);
            if queue.buffer_len() != slots {
                return None;
            }
            proof {
                use_type_invariant(&*queue);
            }
            let ghost seen = *queue;
            let n = queue.load_len();
            assert(ring_state(seen, slots as int));
            Some(n)
        },
        None => None,
    }
}

/// Free space of the ring behind `m`, read under its lock; `None` when the
/// lock could not be taken or the ring does not have `slots` slots.
fn free_space<T>(m: &Mutex<SpscQueue<T>>, slots: usize) -> (r: Option<usize>)
    ensures
        r is Some ==> exists|q: SpscQueue<T>| #[trigger] ring_state(q, slots as int) && r->0 == q.spec_cap() - q@.len(),
{
    match acquire(m) {
        Some(mut guard) => {
            let queue = guarded_mut(&mut guard);
            if queue.buffer_len() != slots {
                return None;
            }
            proof {
                use_type_invariant(&*queue);
            }
            let ghost seen = *queue;
            let n = queue.cap() - queue.load_len();
            assert(ring_state(seen, slots as int));
            Some(n)
        },
        None => None,
    }
}

/// Under the lock of `m`, moves up to `slice.len()` of the oldest items of the
/// ring into the front of `slice` and appends the entries they replace to
/// `replaced`. Moves nothing when the lock could not be taken or the ring
/// does not have `slots` slots; otherwise `before` and `after` are the ring
/// as the lock showed it and as it was left.
fn dequeue_items<T>(m: &Mutex<SpscQueue<T>>, slots: usize, slice: &mut [T], replaced: &mut Vec<T>) -> (amt: usize)
    ensures
        (amt == 0 && final(slice)@ == old(slice)@) || exists|before: SpscQueue<T>, after: SpscQueue<T>|
            #![trigger ring_state(before, slots as int), ring_state(after, slots as int)]
            ring_state(before, slots as int) && ring_state(after, slots as int) && dequeue_slice_post(
                before@,
                after@,
                old(slice)@,
                final(slice)@,
                amt as int,
            ),
        final(replaced)@ == old(replaced)@ + old(slice)@.take(amt as int),
{
    match acquire(m) {
        Some(mut guard) => {
            let queue = guarded_mut(&mut guard);
            if queue.buffer_len() != slots {
                assert(old(replaced)@ + old(slice)@.take(0) =~= old(replaced)@);
                return 0;
            }
            proof {
                use_type_invariant(&*queue);
            }
            let ghost before = *queue;
            let amt = queue.dequeue_swap(slice, replaced);
            proof {
                use_type_invariant(&*queue);
            }
            let ghost after = *queue;
            assert(ring_state(before, slots as int) && ring_state(after, slots as int));
            amt
        },
        None => {
            assert(old(replaced)@ + old(slice)@.take(0) =~= old(replaced)@);
            0
        },
    }
}

/// Under the lock of `m`, appends clones of as many leading items of `slice`
/// as the ring has room for. Appends nothing when the lock could not be
/// taken or the ring does not have `slots` slots; otherwise `before` and
/// `after` are the ring as the lock showed it and as it was left.
fn enqueue_items<T: Clone>(m: &Mutex<SpscQueue<T>>, slots: usize, slice: &[T]) -> (amt: usize)
    ensures
        amt == 0 || exists|before: SpscQueue<T>, after: SpscQueue<T>|
            #![trigger ring_state(before, slots as int), ring_state(after, slots as int)]
            ring_state(before, slots as int) && ring_state(after, slots as int) && enqueue_slice_post(
                before@,
                after@,
                slice@,
                slots - 1,
                amt as int,
            ),
{
    match acquire(m) {
        Some(mut guard) => {
            let queue = guarded_mut(&mut guard);
            if queue.buffer_len() != slots {
                return 0;
            }
            proof {
                use_type_invariant(&*queue);
            }
            let ghost before = *queue;
            let free = queue.cap() - queue.load_len();
            let n = slice.len();
            let amt = if n < free { n } else { free };
            let mut items = clone_prefix(slice, amt);
            let ghost clones = items@;
            let moved = queue.enqueue_from(&mut items);
            proof {
                use_type_invariant(&*queue);
                assert forall|i: int| 0 <= i < moved implies cloned(slice@[i], #[trigger] (*queue)@[before@.len() + i]) by {
                    assert((*queue)@[before@.len() + i] == clones[i]->0);
                }
            }
            let ghost after = *queue;
            assert(ring_state(before, slots as int) && ring_state(after, slots as int));
            moved
        },
        None => 0,
    }
}

/// Clones of the first `amt` items of `slice`, each wrapped in `Some`.
pub fn clone_prefix<T: Clone>(slice: &[T], amt: usize) -> (items: Vec<Option<T>>)
    requires
        amt <= slice@.len(),
    ensures
        items@.len() == amt,
        forall|k: int| 0 <= k < amt ==> #[trigger] items@[k] is Some,
        forall|k: int| 0 <= k < amt ==> cloned(slice@[k], #[trigger] items@[k]->0),
{
    let mut items: Vec<Option<T>> = Vec::with_capacity(amt);
    let mut i: usize = 0;
    while i < amt
        invariant
            i <= amt,
            amt <= slice@.len(),
            items@.len() == i,
            forall|k: int| 0 <= k < i ==> #[trigger] items@[k] is Some,
            forall|k: int| 0 <= k < i ==> cloned(slice@[k], #[trigger] items@[k]->0),
        decreases amt - i,
    {
        let item = slice[i].clone();
        items.push(Some(item));
        i = i + 1;
    }
    items
}

impl<T: Send> SpscQueue<T> {
    /// Creates a queue over a buffer of `size` slots and returns its two ends.
    /// The queue holds at most `size - 1` items. A queue over no slots holds
    /// nothing and has no capacity to report; its ring is kept as a single
    /// slot, which is always both empty and full.
    pub fn new(size: usize) -> (r: (SpscQueueReader<T>, SpscQueueWriter<T>))
        ensures
            r.0.ring_slots() == ring_slots_for(size as int),
            r.1.ring_slots() == ring_slots_for(size as int),
            r.0.spec_cap() == size - 1,
            r.1.spec_cap() == size - 1,
            r.0.same_queue(&r.1),
    {
        let slots = if size == 0 { 1 } else { size };
        let ring = SpscQueue::with_buffer_len(slots);
        let ring_slots = ring.buffer_len();
        let queue = Arc::new(new_mutex(ring));
        let shared = share_arc(&queue);
        (
            SpscQueueReader { queue: shared, buffer_len: size, slots: ring_slots },
            SpscQueueWriter { queue, buffer_len: size, slots: ring_slots },
        )
    }
}

impl<T> SpscQueueReader<T> {
    #[verifier::type_invariant]
    spec fn reader_well_formed(&self) -> bool {
        self.slots == ring_slots_for(self.buffer_len as int)
    }

    /// Number of slots of the ring that `new` built behind this end.
    pub closed spec fn ring_slots(&self) -> int {
        self.slots as int
    }

    /// Largest number of items the queue can hold; -1 for a queue created
    /// over no slots, which has no capacity to report.
    pub closed spec fn spec_cap(&self) -> int {
        if self.buffer_len == 0 {
            -1
        } else {
            self.ring_slots() - 1
        }
    }

    /// Whether `q` is a state the ring behind this end can be in.
    pub open spec fn observes(&self, q: SpscQueue<T>) -> bool {
        ring_state(q, self.ring_slots())
    }

    /// Whether this reader and `writer` are the two ends of one shared queue.
    pub closed spec fn same_queue(&self, writer: &SpscQueueWriter<T>) -> bool {
        self.queue == writer.queue && self.slots == writer.slots && self.buffer_len == writer.buffer_len
    }
}

impl<T> SpscQueueWriter<T> {
    #[verifier::type_invariant]
    spec fn writer_well_formed(&self) -> bool {
        self.slots == ring_slots_for(self.buffer_len as int)
    }

    /// Number of slots of the ring that `new` built behind this end.
    pub closed spec fn ring_slots(&self) -> int {
        self.slots as int
    }

    /// Largest number of items the queue can hold; -1 for a queue created
    /// over no slots, which has no capacity to report.
    pub closed spec fn spec_cap(&self) -> int {
        if self.buffer_len == 0 {
            -1
        } else {
            self.ring_slots() - 1
        }
    }

    /// Whether `q` is a state the ring behind this end can be in.
    pub open spec fn observes(&self, q: SpscQueue<T>) -> bool {
        ring_state(q, self.ring_slots())
    }
}

/// A ring the reader can observe has exactly one slot more than the capacity
/// the reader reports, and holds at most that capacity.
pub proof fn law_reader_capacity<T>(reader: SpscQueueReader<T>, q: SpscQueue<T>)
    requires
        reader.observes(q),
        reader.spec_cap() >= 0,
    ensures
        q.spec_cap() == reader.spec_cap(),
        q@.len() <= reader.spec_cap(),
{
    lemma_valid_len(q);
}

/// A ring the writer can observe has exactly one slot more than the capacity
/// the writer reports, and holds at most that capacity.
pub proof fn law_writer_capacity<T>(writer: SpscQueueWriter<T>, q: SpscQueue<T>)
    requires
        writer.observes(q),
        writer.spec_cap() >= 0,
    ensures
        q.spec_cap() == writer.spec_cap(),
        q@.len() <= writer.spec_cap(),
{
    lemma_valid_len(q);
}

impl<T: Send> SpscQueueReader<T> {
    /// Removes and returns the oldest item. `None` when the queue is empty,
    /// or when the producer kept the queue locked through every attempt.
    pub fn try_dequeue(&mut self) -> (r: Option<T>)
        ensures
            *final(self) == *old(self),
            r is None || exists|before: SpscQueue<T>, after: SpscQueue<T>|
                #![trigger old(self).observes(before), old(self).observes(after)]
                old(self).observes(before) && old(self).observes(after) && dequeue_one_post(before@, after@, r),
    {
        match acquire(&*self.queue) {
            Some(mut guard) => {
                let queue = guarded_mut(&mut guard);
                if queue.buffer_len() != self.slots {
                    return None;
                }
                proof {
                    use_type_invariant(&*queue);
                }
                let ghost before = *queue;
                let r = queue.try_dequeue();
                proof {
                    use_type_invariant(&*queue);
                }
                let ghost after = *queue;
                assert(self.observes(before) && self.observes(after));
                r
            },
            None => None,
        }
    }

    /// Moves up to `slice.len()` of the oldest items into the front of `slice`,
    /// oldest first, and returns how many were moved; the rest of `slice` is
    /// left as it was. The entries of `slice` that are replaced are dropped
    /// after the shared lock is released. Moves nothing when the producer kept
    /// the queue locked through every attempt.
    pub fn dequeue_slice(&mut self, slice: &mut [T]) -> (amt: usize)
        ensures
            *final(self) == *old(self),
            amt <= old(slice)@.len(),
            final(slice)@.len() == old(slice)@.len(),
            final(slice)@.skip(amt as int) == old(slice)@.skip(amt as int),
            (amt == 0 && final(slice)@ == old(slice)@) || exists|before: SpscQueue<T>, after: SpscQueue<T>|
                #![trigger old(self).observes(before), old(self).observes(after)]
                old(self).observes(before) && old(self).observes(after) && dequeue_slice_post(
                    before@,
                    after@,
                    old(slice)@,
                    final(slice)@,
                    amt as int,
                ),
    {
        let mut replaced: Vec<T> = Vec::new();
        let amt = dequeue_items(&*self.queue, self.slots, slice, &mut replaced);
        proof {
            if !(amt == 0 && slice@ == old(slice)@) {
                let (before, after) = choose|before: SpscQueue<T>, after: SpscQueue<T>|
                    #![trigger ring_state(before, self.slots as int), ring_state(after, self.slots as int)]
                    ring_state(before, self.slots as int) && ring_state(after, self.slots as int)
                        && dequeue_slice_post(before@, after@, old(slice)@, slice@, amt as int);
                assert(self.observes(before) && self.observes(after));
                law_dequeue_slice(before@, after@, old(slice)@, slice@, amt as int);
            } else {
                assert(slice@.skip(0) =~= old(slice)@.skip(0));
            }
        }
        amt
    }

    /// Largest number of items the queue can hold.
    pub fn cap(&self) -> (r: usize)
        requires
            self.spec_cap() >= 0,
        ensures
            r == self.spec_cap(),
    {
        proof {
            use_type_invariant(self);
        }
        self.buffer_len - 1
    }

    /// Number of items queued now; 0 when the producer kept the queue locked
    /// through every attempt.
    pub fn len(&self) -> (r: usize)
        ensures
            r == 0 || exists|q: SpscQueue<T>| #[trigger] self.observes(q) && r == q@.len(),
    {
        match queued(&*self.queue, self.slots) {
            Some(n) => {
                proof {
                    let q = choose|q: SpscQueue<T>| #[trigger] ring_state(q, self.slots as int) && n == q@.len();
                    assert(self.observes(q));
                }
                n
            },
            None => 0,
        }
    }
}

impl<T: Send> SpscQueueWriter<T> {
    /// Appends `value` unless the queue is full, or the consumer kept the
    /// queue locked through every attempt, in which case `value` is handed back.
    pub fn try_enqueue(&mut self, value: T) -> (r: Result<(), T>)
        requires
            old(self).spec_cap() >= 0,
        ensures
            *final(self) == *old(self),
            r is Err ==> r == Err::<(), T>(value),
            r == Err::<(), T>(value) || exists|before: SpscQueue<T>, after: SpscQueue<T>|
                #![trigger old(self).observes(before), old(self).observes(after)]
                old(self).observes(before) && old(self).observes(after) && enqueue_one_post(
                    before@,
                    after@,
                    old(self).spec_cap(),
                    value,
                    r is Ok,
                ),
    {
        proof {
            use_type_invariant(&*self);
        }
        match acquire(&*self.queue) {
            Some(mut guard) => {
                let queue = guarded_mut(&mut guard);
                if queue.buffer_len() != self.slots {
                    return Err(value);
                }
                proof {
                    use_type_invariant(&*queue);
                }
                let ghost before = *queue;
                proof {
                    lemma_valid_len(before);
                }
                let r = queue.try_enqueue(value);
                proof {
                    use_type_invariant(&*queue);
                }
                let ghost after = *queue;
                assert(self.observes(before) && self.observes(after));
                r
            },
            None => Err(value),
        }
    }

    /// Largest number of items the queue can hold.
    pub fn cap(&self) -> (r: usize)
        requires
            self.spec_cap() >= 0,
        ensures
            r == self.spec_cap(),
    {
        proof {
            use_type_invariant(self);
        }
        self.buffer_len - 1
    }

    /// Number of items queued now; 0 when the consumer kept the queue locked
    /// through every attempt.
    pub fn len(&self) -> (r: usize)
        ensures
            r == 0 || exists|q: SpscQueue<T>| #[trigger] self.observes(q) && r == q@.len(),
    {
        match queued(&*self.queue, self.slots) {
            Some(n) => {
                proof {
                    let q = choose|q: SpscQueue<T>| #[trigger] ring_state(q, self.slots as int) && n == q@.len();
                    assert(self.observes(q));
                }
                n
            },
            None => 0,
        }
    }
}

impl<T: Clone + Send> SpscQueueWriter<T> {
    /// Appends clones of as many leading items of `slice` as there is free
    /// space for and returns how many were appended; 0 when the consumer kept
    /// the queue locked through every attempt. The clones are made under the
    /// shared lock.
    pub fn enqueue_slice(&mut self, slice: &[T]) -> (amt: usize)
        requires
            old(self).spec_cap() >= 0,
        ensures
            *final(self) == *old(self),
            amt <= slice@.len(),
            amt == 0 || exists|before: SpscQueue<T>, after: SpscQueue<T>|
                #![trigger old(self).observes(before), old(self).observes(after)]
                old(self).observes(before) && old(self).observes(after) && enqueue_slice_post(
                    before@,
                    after@,
                    slice@,
                    old(self).spec_cap(),
                    amt as int,
                ),
    {
        proof {
            use_type_invariant(&*self);
        }
        let amt = enqueue_items(&*self.queue, self.slots, slice);
        proof {
            if amt != 0 {
                let (before, after) = choose|before: SpscQueue<T>, after: SpscQueue<T>|
                    #![trigger ring_state(before, self.slots as int), ring_state(after, self.slots as int)]
                    ring_state(before, self.slots as int) && ring_state(after, self.slots as int)
                        && enqueue_slice_post(before@, after@, slice@, self.slots - 1, amt as int);
                assert(self.observes(before) && self.observes(after));
            }
        }
        amt
    }
}

} // verus!
