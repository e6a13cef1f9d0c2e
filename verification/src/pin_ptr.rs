//! Handles to regions whose values must stay where they are until they are
//! destructed.

use crate::slot::{live, Region, Slot, SlotView};
use crate::{Init, Uninit};
use vstd::prelude::*;

verus! {

/// An uninitialized handle to a region that is to be pinned: what is built in
/// it will not be moved out again.
pub struct PinnedUninit<'a, S: ?Sized + Region> {
    uninit: Uninit<'a, S>,
}

/// An initialized handle to a pinned region. It owns the values in the
/// region and offers no way to move them out.
pub struct PinnedInit<'a, S: ?Sized + Region> {
    init: Init<'a, S>,
}

impl<'a, S: ?Sized + Region> PinnedUninit<'a, S> {
    /// The region that the handle points to.
    pub closed spec fn raw(&self) -> &'a mut S {
        self.uninit.raw()
    }

    /// The slots of the region as they are now.
    pub open spec fn slots(&self) -> Seq<SlotView<S::Elem>> {
        self.raw().slots()
    }

    /// The plain handle that this one wraps.
    pub closed spec fn inner(&self) -> Uninit<'a, S> {
        self.uninit
    }

    /// Pins the region behind `uninit`. The caller promises to treat what is
    /// built there as immovable.
    pub fn new_unchecked(uninit: Uninit<'a, S>) -> (r: Self)
        ensures
            r.inner() == uninit,
            r.slots() == uninit.slots(),
            final(r.raw()).slots() == final(uninit.raw()).slots(),
    {
        PinnedUninit { uninit }
    }

    /// Gives the plain handle back. The caller promises to go on treating
    /// the region as pinned.
    pub fn into_inner_unchecked(self) -> (r: Uninit<'a, S>)
        ensures
            r == self.inner(),
            r.slots() == self.slots(),
            final(r.raw()).slots() == final(self.raw()).slots(),
    {
        self.uninit
    }

    /// Read access to the region behind the handle.
    pub fn as_ptr(&self) -> (r: &S)
        ensures
            r.slots() == self.slots(),
    {
        self.uninit.as_ptr()
    }

    /// Raw access to the region behind the handle.
    pub fn as_mut_ptr(&mut self) -> (r: &mut S)
        ensures
            r.slots() == old(self).slots(),
            final(self).slots() == final(r).slots(),
            final(final(self).raw()).slots() == final(old(self).raw()).slots(),
    {
        self.uninit.as_mut_ptr()
    }

    /// Read access to the region behind the handle.
    pub fn as_non_null_ptr(&self) -> (r: &S)
        ensures
            r.slots() == self.slots(),
    {
        self.uninit.as_ptr()
    }
}

impl<'a, T> PinnedUninit<'a, Slot<T>> {
    /// Moves `value` into the region, where it stays.
    pub fn write(self, value: T) -> (r: PinnedInit<'a, Slot<T>>)
        ensures
            r.slots() == seq![self.slots()[0].put(value)],
            final(r.raw()).slots() == final(self.raw()).slots(),
    {
        PinnedInit { init: self.uninit.write(value) }
    }
}

impl<'a, T> PinnedInit<'a, Slot<T>> {
    /// The pinned value, for reading.
    pub fn get(&self) -> (r: &T)
        ensures
            self.slots()[0].value == Some(*r),
    {
        self.init.as_ref()
    }

    /// Write access to the pinned value, for the code that keeps it in place:
    /// a type that must not move offers its own changes in place through
    /// this and hands no such borrow out.
    pub(crate) fn get_mut(&mut self) -> (r: &mut T)
        ensures
            old(self).slots()[0].value == Some(*r),
            final(self).slots() == seq![(SlotView {
                value: Some(*final(r)),
                built: old(self).slots()[0].built,
                dropped: old(self).slots()[0].dropped,
            })],
            final(final(self).raw()).slots() == final(old(self).raw()).slots(),
    {
        self.init.as_mut()
    }
}

impl<'a, S: ?Sized + Region> PinnedInit<'a, S> {
    /// The region that the handle points to.
    pub closed spec fn raw(&self) -> &'a mut S {
        self.init.raw()
    }

    /// The slots of the region as they are now.
    pub open spec fn slots(&self) -> Seq<SlotView<S::Elem>> {
        self.raw().slots()
    }

    /// The plain handle that this one wraps.
    pub closed spec fn inner(&self) -> Init<'a, S> {
        self.init
    }

    /// Pins the region behind `init`. The caller promises that the values
    /// will not be moved before they are destructed.
    pub fn new_unchecked(init: Init<'a, S>) -> (r: Self)
        ensures
            r.inner() == init,
            r.slots() == init.slots(),
            final(r.raw()).slots() == final(init.raw()).slots(),
    {
        PinnedInit { init }
    }

    /// Gives the plain handle back. The caller promises to go on treating
    /// the values as pinned.
    pub fn into_inner_unchecked(this: Self) -> (r: Init<'a, S>)
        ensures
            r == this.inner(),
            r.slots() == this.slots(),
            final(r.raw()).slots() == final(this.raw()).slots(),
    {
        this.init
    }

    /// Read access to the region behind the handle.
    pub fn as_ptr(&self) -> (r: &S)
        ensures
            r.slots() == self.slots(),
            live(r.slots()),
    {
        self.init.as_ptr()
    }

    /// Access to the region behind the handle that cannot move a value out.
    pub fn as_mut_ptr(&mut self) -> (r: &S)
        ensures
            r.slots() == old(self).slots(),
            live(r.slots()),
            final(self).slots() == old(self).slots(),
            final(final(self).raw()).slots() == final(old(self).raw()).slots(),
    {
        self.init.as_ptr()
    }

    /// Read access to the region behind the handle.
    pub fn as_non_null_ptr(&self) -> (r: &S)
        ensures
            r.slots() == self.slots(),
            live(r.slots()),
    {
        self.init.as_ptr()
    }

    /// Gives the region back with its values in place. No destructor runs;
    /// whoever holds the region now answers for the values in it.
    pub fn into_raw(self) -> (r: &'a mut S)
        ensures
            r.slots() == self.slots(),
            live(r.slots()),
            final(r).slots() == final(self.raw()).slots(),
    {
        self.init.into_raw()
    }
}

} // verus!
