//! Handles: integers that stand for values which the host owns.
//!
//! A table keeps the values and hands out the integers. Code on the other
//! side of a sandbox boundary holds only the integers, so nothing it sends
//! back is trusted: a handle that the table does not know is answered with
//! an error, never with a fault.

use crate::error::VfsError;
use vstd::prelude::*;

verus! {

/// Who may release the value behind a handle.
#[derive(Clone, Copy, Debug, PartialEq, Eq, Structural)]
pub enum Ownership {
    /// The holder may release the value.
    Owned,
    /// The holder must not release the value; the handle is good for the
    /// current call only.
    Borrowed,
}

/// An integer that stands for a value in a [`HandleTable`].
#[derive(Clone, Copy, Debug, PartialEq, Eq, Structural)]
pub struct Handle {
    pub id: u32,
    pub ownership: Ownership,
}

impl Handle {
    /// A handle whose holder may release the value.
    pub fn owned(id: u32) -> (handle: Handle)
        ensures
            handle == (Handle { id, ownership: Ownership::Owned }),
    {
        Handle { id, ownership: Ownership::Owned }
    }

    /// A handle whose holder must not release the value.
    pub fn borrowed(id: u32) -> (handle: Handle)
        ensures
            handle == (Handle { id, ownership: Ownership::Borrowed }),
    {
        Handle { id, ownership: Ownership::Borrowed }
    }

    pub fn id(&self) -> (id: u32)
        ensures
            id == self.id,
    {
        self.id
    }

    pub fn is_owned(&self) -> (answer: bool)
        ensures
            answer == (self.ownership == Ownership::Owned),
    {
        match self.ownership {
            Ownership::Owned => true,
            Ownership::Borrowed => false,
        }
    }
}

/// The id that the next allocation uses: the smallest one that is not live.
pub open spec fn first_free<T>(live: Map<u32, T>, id: u32) -> bool {
    &&& !live.dom().contains(id)
    &&& forall|below: u32| below < id ==> live.dom().contains(below)
}

/// Every id is live, so that nothing more can be allocated.
pub open spec fn exhausted<T>(live: Map<u32, T>) -> bool {
    forall|id: u32| live.dom().contains(id)
}

/// What resolving `id` gives: the value if the id is live, the error if it
/// is not.
pub open spec fn resolved<T>(live: Map<u32, T>, id: u32) -> Result<T, VfsError> {
    if live.dom().contains(id) {
        Ok(live[id])
    } else {
        Err(VfsError::UnknownHandle)
    }
}

/// What releasing `id` hands back: the value if the id is live, nothing if
/// it is not.
pub open spec fn released<T>(live: Map<u32, T>, id: u32) -> Option<T> {
    if live.dom().contains(id) {
        Some(live[id])
    } else {
        None
    }
}

/// The values of a table, kept in slots. The id of a value is the index of
/// its slot; a released slot is empty and is the first to be used again.
pub struct HandleTable<T> {
    slots: Vec<Option<T>>,
}

impl<T> View for HandleTable<T> {
    type V = Map<u32, T>;

    /// The live ids and the value behind each.
    closed spec fn view(&self) -> Map<u32, T> {
        Map::new(
            |id: u32| (id as int) < self.slots@.len() && self.slots@[id as int] is Some,
            |id: u32| self.slots@[id as int]->0,
        )
    }
}

impl<T> HandleTable<T> {
    /// A table without values.
    pub fn new() -> (table: Self)
        ensures
            table@ == Map::<u32, T>::empty(),
    {
        let table = HandleTable { slots: Vec::new() };
        proof {
            assert(table@ =~= Map::<u32, T>::empty());
        }
        table
    }

    /// Takes `value` into the table and returns its handle, tagged with
    /// `ownership`. The handle has the smallest id that is not live; every
    /// other id keeps its value. Where every id is live, nothing is
    /// allocated and the table is unchanged.
    pub fn allocate(&mut self, value: T, ownership: Ownership) -> (handle: Option<Handle>)
        ensures
            match handle {
                Some(h) => {
                    &&& first_free(old(self)@, h.id)
                    &&& h.ownership == ownership
                    &&& final(self)@ == old(self)@.insert(h.id, value)
                },
                None => exhausted(old(self)@) && final(self)@ == old(self)@,
            },
    {
        let ghost before = self@;
        let mut index: usize = 0;
        while index < self.slots.len() && self.slots[index].is_some()
            invariant
                index <= self.slots.len(),
                self@ == before,
                forall|j: int| 0 <= j < index ==> (#[trigger] self.slots@[j]) is Some,
            decreases self.slots.len() - index,
        {
            index = index + 1;
        }
        if index > u32::MAX as usize {
            proof {
                assert forall|id: u32| before.dom().contains(id) by {
                    assert(old(self).slots@[id as int] is Some);
                }
            }
            None
        } else if index < self.slots.len() {
            self.slots[index] = Some(value);
            let id = index as u32;
            proof {
                assert(self@ =~= before.insert(id, value));
                assert forall|below: u32| below < id implies before.dom().contains(below) by {
                    assert(old(self).slots@[below as int] is Some);
                }
            }
            Some(Handle { id, ownership })
        } else {
            self.slots.push(Some(value));
            let id = index as u32;
            proof {
                assert(self@ =~= before.insert(id, value));
                assert forall|below: u32| below < id implies before.dom().contains(below) by {
                    assert(old(self).slots@[below as int] is Some);
                }
            }
            Some(Handle { id, ownership })
        }
    }

    /// The value behind `handle`, or the error if the table does not know
    /// the handle.
    pub fn resolve(&self, handle: Handle) -> (found: Result<&T, VfsError>)
        ensures
            match found {
                Ok(value) => resolved(self@, handle.id) == Ok::<T, VfsError>(*value),
                Err(e) => e is UnknownHandle && resolved(self@, handle.id) is Err,
            },
    {
        let index = handle.id as usize;
        if index < self.slots.len() {
            match &self.slots[index] {
                Some(value) => Ok(value),
                None => Err(VfsError::UnknownHandle),
            }
        } else {
            Err(VfsError::UnknownHandle)
        }
    }

    /// Whether the table knows `handle`.
    pub fn is_live(&self, handle: Handle) -> (answer: bool)
        ensures
            answer == self@.dom().contains(handle.id),
    {
        let index = handle.id as usize;
        index < self.slots.len() && self.slots[index].is_some()
    }

    /// Takes the value behind `handle` out of the table and returns it.
    /// Releasing a handle that the table does not know, or knows no more,
    /// returns nothing and changes nothing.
    pub fn release(&mut self, handle: Handle) -> (value: Option<T>)
        ensures
            value == released(old(self)@, handle.id),
            final(self)@ == old(self)@.remove(handle.id),
    {
        let ghost before = self@;
        let index = handle.id as usize;
        if index < self.slots.len() {
            let value = self.slots[index].take();
            proof {
                assert(self@ =~= before.remove(handle.id));
            }
            value
        } else {
            proof {
                assert(self@ =~= before.remove(handle.id));
            }
            None
        }
    }
}

/// After a release the handle is unknown: resolving it fails.
pub proof fn lemma_resolve_after_release<T>(live: Map<u32, T>, id: u32)
    ensures
        resolved(live.remove(id), id) == Err::<T, VfsError>(VfsError::UnknownHandle),
{
}

/// A second release of the same handle returns nothing and changes nothing.
pub proof fn lemma_release_twice<T>(live: Map<u32, T>, id: u32)
    ensures
        released(live.remove(id), id) == None::<T>,
        live.remove(id).remove(id) == live.remove(id),
{
    assert(live.remove(id).remove(id) =~= live.remove(id));
}

/// Releasing one handle leaves every other handle as it was.
pub proof fn lemma_release_keeps_others<T>(live: Map<u32, T>, id: u32, other: u32)
    requires
        other != id,
    ensures
        resolved(live.remove(id), other) == resolved(live, other),
{
}

/// An allocation never aliases: the new id was not live, it now stands for
/// the new value, and every id that was live stands for the value it stood
/// for before.
pub proof fn lemma_allocate_no_alias<T>(live: Map<u32, T>, id: u32, value: T, other: u32)
    requires
        first_free(live, id),
        live.dom().contains(other),
    ensures
        other != id,
        resolved(live.insert(id, value), id) == Ok::<T, VfsError>(value),
        resolved(live.insert(id, value), other) == resolved(live, other),
{
}

/// Releasing what was just allocated leaves the table as it was: a handle
/// that lives for one call leaves nothing behind.
pub proof fn lemma_release_undoes_allocate<T>(live: Map<u32, T>, id: u32, value: T)
    requires
        first_free(live, id),
    ensures
        released(live.insert(id, value), id) == Some(value),
        live.insert(id, value).remove(id) == live,
{
    assert(live.insert(id, value).remove(id) =~= live);
}

} // verus!
