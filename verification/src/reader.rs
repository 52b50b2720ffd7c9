//! The slots that the readers of a decoded plan take their batches from.
//! A slot is filled just before the plan runs and emptied by the one run.

use vstd::prelude::*;

verus! {

/// A slot for one batch.
#[derive(Debug)]
pub struct Slot<T> {
    batch: Option<T>,
}

impl<T> View for Slot<T> {
    type V = Option<T>;

    closed spec fn view(&self) -> Option<T> {
        self.batch
    }
}

impl<T> Slot<T> {
    /// An empty slot.
    pub fn new() -> (slot: Self)
        ensures
            slot@ is None,
    {
        Slot { batch: None }
    }

    /// Puts a batch into the slot, in the place of what was there.
    pub fn set(&mut self, batch: T)
        ensures
            final(self)@ == Some(batch),
    {
        self.batch = Some(batch);
    }

    pub fn is_set(&self) -> (r: bool)
        ensures
            r == (self@ is Some),
    {
        self.batch.is_some()
    }

    /// Takes the batch out of the slot. The slot must hold one: a plan
    /// runs once for each time its slot is filled.
    pub fn take(&mut self) -> (batch: T)
        requires
            old(self)@ is Some,
        ensures
            Some(batch) == old(self)@,
            final(self)@ is None,
    {
        self.batch.take().unwrap()
    }
}

/// What the reader of one locked batch yields when it runs: the batch of its
/// slot, which it leaves empty.
pub fn execute_locked_batch<T>(slot: &mut Slot<T>) -> (batches: Vec<T>)
    requires
        old(slot)@ is Some,
    ensures
        batches@ == seq![old(slot)@->0],
        final(slot)@ is None,
{
    let mut batches: Vec<T> = Vec::new();
    batches.push(slot.take());
    batches
}

/// What the reader of a list of batches yields when it runs: all batches of
/// the list, which it leaves empty.
pub fn execute_batch_vec<T>(batches: &mut Vec<T>) -> (taken: Vec<T>)
    ensures
        taken@ == old(batches)@,
        final(batches)@.len() == 0,
{
    let mut taken: Vec<T> = Vec::new();
    core::mem::swap(batches, &mut taken);
    taken
}

} // verus!
