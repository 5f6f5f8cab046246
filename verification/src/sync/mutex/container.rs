use vstd::prelude::*;
use std::sync::Arc;

verus! {

/// A slot that may hold one shared piece of lock-associated data.
///
/// The data type is a parameter so that the slot can hold a trait object
/// (`Arc<dyn Trait>`) chosen by the user of the lock.
pub struct MutexDataContainerSync<D: ?Sized>(Option<Arc<D>>);

impl<D: ?Sized> MutexDataContainerSync<D> {
    /// What the slot holds.
    pub closed spec fn view(&self) -> Option<Arc<D>> {
        self.0
    }

    /// An empty slot.
    pub fn empty() -> (r: Self)
        ensures
            r@ is None,
    {
        MutexDataContainerSync(None)
    }

    /// Empties the slot, dropping what it held.
    pub fn clear(&mut self)
        ensures
            final(self)@ is None,
    {
        let _ = self.0.take();
    }

    /// Empties the slot and hands back what it held.
    pub fn take(&mut self) -> (r: Option<Arc<D>>)
        ensures
            r == old(self)@,
            final(self)@ is None,
    {
        self.0.take()
    }

    /// Puts `item` in the slot, dropping what it held.
    pub fn replace(&mut self, item: Arc<D>)
        ensures
            final(self)@ == Some(item),
    {
        self.0 = Some(item);
    }

    /// Whether the slot holds data.
    pub fn has_data(&self) -> (r: bool)
        ensures
            r == self@ is Some,
    {
        self.0.is_some()
    }

    /// A reference to the held data, if any.
    pub fn as_dyn_arc(&self) -> (r: Option<&Arc<D>>)
        ensures
            r is Some <==> self@ is Some,
            r is Some ==> *r->0 == self@->0,
    {
        self.0.as_ref()
    }

    /// A reference to the held data itself, if any.
    pub fn as_dyn(&self) -> (r: Option<&D>)
        ensures
            r is Some <==> self@ is Some,
            r is Some ==> r->0 == &*(self@->0),
    {
        match &self.0 {
            Some(item) => Some(&**item),
            None => None,
        }
    }
}

} // verus!
