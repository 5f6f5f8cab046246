use dsx::collections::spsc_queue::{clone_prefix, SpscQueue};

#[derive(Debug, Clone, Eq, PartialEq)]
struct Item(pub usize);

impl Item {
    pub fn opt_assert(this: Option<Self>, num: Option<usize>) {
        assert_eq!(this.as_ref().map(|x| x.0), num);
        core::mem::forget(this);
    }
}

impl Drop for Item {
    fn drop(&mut self) {
        panic!("Unexpected drop of {:?}", self);
    }
}

#[test]
fn construct_queue() {
    let (_read, _write) = SpscQueue::<u8>::new(1024);
}

#[test]
fn basic_ops() {
    let (mut read, mut write) = SpscQueue::<Item>::new(4);

    assert_eq!(read.cap(), 3);

    Item::opt_assert(write.try_enqueue(Item(1)).err(), None);
    assert_eq!(read.len(), 1);
    Item::opt_assert(write.try_enqueue(Item(2)).err(), None);
    Item::opt_assert(write.try_enqueue(Item(3)).err(), None);

    // queue is now full.
    Item::opt_assert(write.try_enqueue(Item(4)).err(), Some(4));
    assert_eq!(read.len(), 3);

    Item::opt_assert(read.try_dequeue(), Some(1));

    Item::opt_assert(write.try_enqueue(Item(5)).err(), None);

    Item::opt_assert(write.try_enqueue(Item(6)).err(), Some(6));
    assert_eq!(read.len(), 3);

    Item::opt_assert(read.try_dequeue(), Some(2));

    Item::opt_assert(write.try_enqueue(Item(7)).err(), None);

    Item::opt_assert(write.try_enqueue(Item(8)).err(), Some(8));
    assert_eq!(read.len(), 3);

    Item::opt_assert(read.try_dequeue(), Some(3));
    Item::opt_assert(read.try_dequeue(), Some(5));
    Item::opt_assert(read.try_dequeue(), Some(7));
    assert_eq!(read.len(), 0);

    Item::opt_assert(read.try_dequeue(), None);
}

#[test]
#[should_panic]
fn items_dropped() {
    let (_read, mut write) = SpscQueue::<Item>::new(4);
    Item::opt_assert(write.try_enqueue(Item(1)).err(), None);
}

#[test]
fn ring_index_arithmetic() {
    let q = SpscQueue::<u32>::with_buffer_len(5);
    assert_eq!(q.buffer_len(), 5);
    assert_eq!(q.cap(), 4);
    assert_eq!(q.inc(0), 1);
    assert_eq!(q.inc(4), 0);
    assert_eq!(q.calc_len(1, 3), 2);
    assert_eq!(q.calc_len(3, 1), 3);
    assert_eq!(q.calc_len(2, 2), 0);
    assert_eq!(q.calc_free_space(3, 1), 1);
    assert_eq!(q.calc_free_space(0, 0), 4);
    assert_eq!(q.load_len(), 0);
}

#[test]
fn single_slot_buffer_is_always_full() {
    let mut q = SpscQueue::<u32>::with_buffer_len(1);
    assert_eq!(q.cap(), 0);
    assert_eq!(q.try_enqueue(9), Err(9));
    assert_eq!(q.try_dequeue(), None);
}

#[test]
fn fifo_order_across_wraparound() {
    let mut q = SpscQueue::<u32>::with_buffer_len(3);
    for round in 0..10u32 {
        assert_eq!(q.try_enqueue(round * 2), Ok(()));
        assert_eq!(q.try_enqueue(round * 2 + 1), Ok(()));
        assert_eq!(q.try_enqueue(100), Err(100));
        assert_eq!(q.load_len(), 2);
        assert_eq!(q.try_dequeue(), Some(round * 2));
        assert_eq!(q.try_dequeue(), Some(round * 2 + 1));
        assert_eq!(q.try_dequeue(), None);
    }
}

#[test]
fn slice_transfer_counts() {
    let mut q = SpscQueue::<u32>::with_buffer_len(4);
    assert_eq!(q.enqueue_slice(&[1, 2, 3, 4, 5]), 3);
    assert_eq!(q.load_len(), 3);
    let mut out = [0u32; 2];
    assert_eq!(q.dequeue_slice(&mut out), 2);
    assert_eq!(out, [1, 2]);
    assert_eq!(q.enqueue_slice(&[6, 7]), 2);
    let mut out = [0u32; 5];
    assert_eq!(q.dequeue_slice(&mut out), 3);
    assert_eq!(out, [3, 6, 7, 0, 0]);
    assert_eq!(q.dequeue_slice(&mut out), 0);
    assert_eq!(q.enqueue_slice(&[]), 0);
}

#[test]
fn shared_ends_transfer_slices() {
    let (mut read, mut write) = SpscQueue::<u32>::new(4);
    assert_eq!(write.cap(), 3);
    assert_eq!(write.enqueue_slice(&[10, 20, 30, 40]), 3);
    assert_eq!(write.len(), 3);
    let mut out = [0u32; 2];
    assert_eq!(read.dequeue_slice(&mut out), 2);
    assert_eq!(out, [10, 20]);
    assert_eq!(read.try_dequeue(), Some(30));
    assert_eq!(read.try_dequeue(), None);
}

#[test]
fn dequeue_into_appends_oldest_first() {
    let mut q = SpscQueue::<u32>::with_buffer_len(5);
    assert_eq!(q.enqueue_slice(&[1, 2, 3]), 3);
    let mut out = vec![9];
    assert_eq!(q.dequeue_into(2, &mut out), 2);
    assert_eq!(out, vec![9, 1, 2]);
    assert_eq!(q.dequeue_into(5, &mut out), 1);
    assert_eq!(out, vec![9, 1, 2, 3]);
    assert_eq!(q.dequeue_into(5, &mut out), 0);
}

#[test]
fn enqueue_from_moves_until_full() {
    let mut q = SpscQueue::<u32>::with_buffer_len(3);
    let mut items = vec![Some(4), Some(5), Some(6)];
    assert_eq!(q.enqueue_from(&mut items), 2);
    assert_eq!(items, vec![None, None, Some(6)]);
    assert_eq!(q.try_dequeue(), Some(4));
    assert_eq!(q.try_dequeue(), Some(5));
    assert_eq!(q.try_dequeue(), None);
}

#[test]
fn ends_share_one_queue() {
    let (mut read, mut write) = SpscQueue::<u32>::new(3);
    assert_eq!(write.try_enqueue(1), Ok(()));
    assert_eq!(read.len(), 1);
    assert_eq!(write.len(), 1);
    assert_eq!(read.try_dequeue(), Some(1));
    assert_eq!(write.len(), 0);
    let mut out = [7u32; 3];
    assert_eq!(read.dequeue_slice(&mut out), 0);
    assert_eq!(out, [7, 7, 7]);
}

#[test]
fn dequeue_swap_hands_back_replaced_entries() {
    let mut q = SpscQueue::<u32>::with_buffer_len(4);
    assert_eq!(q.enqueue_slice(&[1, 2]), 2);
    let mut slice = [7u32, 8, 9];
    let mut replaced = vec![0];
    assert_eq!(q.dequeue_swap(&mut slice, &mut replaced), 2);
    assert_eq!(slice, [1, 2, 9]);
    assert_eq!(replaced, vec![0, 7, 8]);
    assert_eq!(q.load_len(), 0);
}

#[test]
fn clone_prefix_clones_leading_items() {
    assert_eq!(clone_prefix(&[3u32, 4, 5], 2), vec![Some(3), Some(4)]);
    assert_eq!(clone_prefix(&[3u32], 0), Vec::<Option<u32>>::new());
}

#[test]
fn ends_transfer_slices_through_one_queue() {
    let (mut r, mut w) = SpscQueue::<u8>::new(4);
    let mut buf = [0u8; 5];
    assert_eq!(w.enqueue_slice(&[1, 2, 3, 4, 5]), 3);
    assert_eq!(r.len(), 3);
    assert_eq!(r.dequeue_slice(&mut buf), 3);
    assert_eq!(buf, [1, 2, 3, 0, 0]);
    assert_eq!(r.len(), 0);
}

#[test]
fn zero_slot_queue_holds_nothing() {
    let (mut read, write) = SpscQueue::<u32>::new(0);
    assert_eq!(read.try_dequeue(), None);
    assert_eq!(read.len(), 0);
    assert_eq!(write.len(), 0);
    let mut out = [5u32; 2];
    assert_eq!(read.dequeue_slice(&mut out), 0);
    assert_eq!(out, [5, 5]);
}
