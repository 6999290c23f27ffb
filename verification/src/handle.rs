//! Append-only handle tables.

use vstd::prelude::*;

verus! {

/// Index of a resource within the table that issued it.
pub type Handle = usize;

/// Handle of a mesh created by the renderer.
pub type MeshHandle = Handle;

/// Handle of a program created by the renderer. Handle 0 doubles as the
/// answer to a failed link, so a caller that has to tell the two apart must
/// not rely on the first program it creates.
pub type ProgramHandle = Handle;

/// Handle of an environment registered with the renderer.
pub type EnvirHandle = Handle;

/// A growth-only table of resources addressed by the handle returned when
/// each one was inserted. Entries are never removed or moved, so a handle
/// stays valid, and keeps naming the same slot, for the life of the table.
pub struct Table<T> {
    items: Vec<T>,
}

impl<T> View for Table<T> {
    type V = Seq<T>;

    closed spec fn view(&self) -> Seq<T> {
        self.items@
    }
}

impl<T> Table<T> {
    /// The table that has issued no handle yet.
    pub fn new() -> (table: Self)
        ensures
            table@ == Seq::<T>::empty(),
    {
        Table { items: Vec::new() }
    }

    /// Number of handles issued so far.
    pub fn len(&self) -> (n: usize)
        ensures
            n == self@.len(),
    {
        self.items.len()
    }

    /// Whether `handle` was issued by this table.
    pub fn contains(&self, handle: Handle) -> (known: bool)
        ensures
            known == (handle < self@.len()),
    {
        handle < self.items.len()
    }

    /// Stores `resource` behind the next free handle and returns that handle.
    pub fn push(&mut self, resource: T) -> (handle: Handle)
        ensures
            final(self)@ == old(self)@.push(resource),
            handle == old(self)@.len(),
    {
        let handle: Handle = self.items.len();
        self.items.push(resource);
        handle
    }

    /// The resource behind `handle`.
    pub fn get(&self, handle: Handle) -> (resource: &T)
        requires
            handle < self@.len(),
        ensures
            *resource == self@[handle as int],
    {
        &self.items[handle]
    }

    /// Mutable access to the resource behind `handle`; every other slot is
    /// left as it was.
    pub fn get_mut(&mut self, handle: Handle) -> (resource: &mut T)
        requires
            handle < old(self)@.len(),
        ensures
            *resource == old(self)@[handle as int],
            final(self)@ == old(self)@.update(handle as int, *final(resource)),
    {
        &mut self.items[handle]
    }
}

} // verus!
