use vstd::prelude::*;

verus! {

/// Most cores a grace period can track.
pub const MAX_CORES: usize = 32;

/// Kernel services that an interrupt-based RCU needs.
///
/// While the RCU is safe in theory, an incorrect implementation of these
/// hooks can make it unsafe.
pub trait KernInterruptRcu: Send + Sync {
    /// Runs `func` with interrupts disabled; it need not be re-entrant.
    fn critical_region<R, F: FnOnce() -> R>(func: F) -> R;

    /// Total interrupt count of core `core`; it must not grow while that core
    /// runs `critical_region`.
    fn get_core_irq_count(core: usize) -> u32;

    /// Number of cores.
    fn core_count() -> usize;

    /// Index of the current core.
    fn my_core_index() -> usize;

    /// Waits a little before interrupt counts are looked at again.
    fn yield_for_other_cores();

    /// Makes `value` visible to the other cores.
    fn memory_barrier<T>(value: &T);

    /// Called while the update lock is being spun on.
    fn lock_failed() {
    }
}

/// Progress of a grace period: which cores have taken an interrupt since it
/// began. A core that has taken one has left any critical region that could
/// still see the old value.
pub struct GracePeriod {
    /// Per core: its interrupt count when the period began, and whether it has
    /// been seen to take an interrupt since.
    cores: Vec<(u32, bool)>,
}

impl GracePeriod {
    /// Interrupt counts of each core when the grace period began.
    pub closed spec fn initial(&self) -> Seq<u32> {
        self.cores@.map_values(|c: (u32, bool)| c.0)
    }

    /// Which cores are known to have taken an interrupt (or are the caller's).
    pub closed spec fn seen(&self) -> Seq<bool> {
        self.cores@.map_values(|c: (u32, bool)| c.1)
    }

    /// Whether every core is known to have left its critical regions.
    pub open spec fn spec_complete(&self) -> bool {
        forall|i: int| 0 <= i < self.seen().len() ==> #[trigger] self.seen()[i]
    }

    /// Starts a grace period from the interrupt counts of all cores; the
    /// calling core `my_core` needs no interrupt.
    pub fn new(initial_counts: &[u32], my_core: usize) -> (g: Self)
        requires
            initial_counts@.len() <= MAX_CORES,
            my_core < MAX_CORES,
        ensures
            g.initial() == initial_counts@,
            g.seen().len() == initial_counts@.len(),
            forall|i: int| 0 <= i < g.seen().len() ==> (#[trigger] g.seen()[i] <==> i == my_core),
    {
        let n = initial_counts.len();
        let mut cores: Vec<(u32, bool)> = Vec::with_capacity(n);
        let mut i: usize = 0;
        while i < n
            invariant
                i <= n,
                n == initial_counts@.len(),
                cores@.len() == i,
                forall|j: int| 0 <= j < i ==> (#[trigger] cores@[j]).0 == initial_counts@[j],
                forall|j: int| 0 <= j < i ==> ((#[trigger] cores@[j]).1 <==> j == my_core),
            decreases n - i,
        {
            cores.push((initial_counts[i], i == my_core));
            i = i + 1;
        }
        let g = GracePeriod { cores };
        assert(g.initial() =~= initial_counts@);
        g
    }

    /// Number of cores tracked.
    pub fn core_count(&self) -> (r: usize)
        ensures
            r == self.seen().len(),
            r == self.initial().len(),
    {
        self.cores.len()
    }

    /// Whether core `core` has not been seen to take an interrupt yet.
    pub fn is_pending(&self, core: usize) -> (r: bool)
        requires
            core < self.seen().len(),
        ensures
            r == !self.seen()[core as int],
    {
        !self.cores[core].1
    }

    /// Records the interrupt count `count` just read from core `core`: the
    /// core is seen once its count has grown past its initial count.
    pub fn observe(&mut self, core: usize, count: u32)
        requires
            core < old(self).seen().len(),
        ensures
            final(self).initial() == old(self).initial(),
            final(self).seen() == old(self).seen().update(
                core as int,
                old(self).seen()[core as int] || count > old(self).initial()[core as int],
            ),
    {
        let (initial, seen) = self.cores[core];
        if seen {
            assert(self.seen() =~= old(self).seen().update(core as int, true));
            return;
        }
        if count > initial {
            self.cores.set(core, (initial, true));
        }
        assert(self.initial() =~= old(self).initial());
        assert(self.seen() =~= old(self).seen().update(
            core as int,
            old(self).seen()[core as int] || count > old(self).initial()[core as int],
        ));
    }

    /// Whether every core has been seen to take an interrupt.
    pub fn is_complete(&self) -> (r: bool)
        ensures
            r == self.spec_complete(),
    {
        let n = self.cores.len();
        let mut i: usize = 0;
        while i < n
            invariant
                i <= n,
                n == self.seen().len(),
                forall|j: int| 0 <= j < i ==> #[trigger] self.seen()[j],
            decreases n - i,
        {
            if !self.cores[i].1 {
                assert(!self.seen()[i as int]);
                return false;
            }
            i = i + 1;
        }
        true
    }
}

/// Observing interrupt counts never forgets a core already seen, so a
/// completed grace period stays complete.
pub proof fn law_grace_period_monotone(before: Seq<bool>, core: int, fresh: bool)
    requires
        0 <= core < before.len(),
    ensures
        forall|i: int| 0 <= i < before.len() && #[trigger] before[i] ==> before.update(core, before[core] || fresh)[i],
{
}

} // verus!
