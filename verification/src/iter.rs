//! Cursors over runs: an address cursor that steps through the element
//! addresses of a run, and the iterator that a handle to a run turns into.

use crate::ptr::UninitSliceIter;
use crate::slot::{Region, Slot, SlotView};
use crate::Uninit;
use core::marker::PhantomData;
use vstd::layout::size_of;
use vstd::prelude::*;

verus! {

/// Steps through the addresses of the elements of a run of `T`. For elements
/// of size zero all addresses are the same, and the cursor counts instead.
pub struct RawIter<T> {
    start: usize,
    end: usize,
    marker: PhantomData<T>,
}

impl<T> RawIter<T> {
    /// The number of elements that the cursor has not stepped over.
    pub closed spec fn remaining(&self) -> nat {
        if size_of::<T>() == 0 {
            self.start as nat
        } else {
            ((self.end - self.start) / (size_of::<T>() as int)) as nat
        }
    }

    /// The address of the element that the cursor steps over next.
    pub closed spec fn front(&self) -> usize {
        if size_of::<T>() == 0 {
            self.end
        } else {
            self.start
        }
    }

    /// The cursor's invariant: it ends on an element boundary at or after
    /// its front.
    pub closed spec fn wf(&self) -> bool {
        size_of::<T>() != 0 ==> self.start <= self.end && (self.end - self.start) % (size_of::<
            T,
        >() as int) == 0
    }

    /// A cursor over the `len` elements that start at address `addr`.
    pub fn new(addr: usize, len: usize) -> (r: Self)
        requires
            addr + len * size_of::<T>() <= usize::MAX,
        ensures
            r.wf(),
            r.remaining() == len,
            r.front() == addr,
    {
        let size = core::mem::size_of::<T>();
        if size == 0 {
            RawIter { start: len, end: addr, marker: PhantomData }
        } else {
            assert(len * size <= usize::MAX) by (nonlinear_arith)
                requires
                    addr + len * size <= usize::MAX,
                    0 <= addr,
            ;
            let bytes = len * size;
            assert((len * size) / (size as int) == len && (len * size) % (size as int) == 0)
                by (nonlinear_arith)
                requires
                    size > 0,
            ;
            RawIter { start: addr, end: addr + bytes, marker: PhantomData }
        }
    }

    /// The number of elements that the cursor has not stepped over.
    pub fn len(&self) -> (n: usize)
        requires
            self.wf(),
        ensures
            n == self.remaining(),
    {
        let size = core::mem::size_of::<T>();
        if size == 0 {
            self.start
        } else {
            (self.end - self.start) / size
        }
    }

    /// Whether the cursor has stepped over every element.
    pub fn is_empty(&self) -> (b: bool)
        requires
            self.wf(),
        ensures
            b == (self.remaining() == 0),
    {
        let size = core::mem::size_of::<T>();
        if size == 0 {
            self.len() == 0
        } else {
            assert((self.end - self.start) / (size as int) == 0 <==> self.end == self.start)
                by (nonlinear_arith)
                requires
                    size > 0,
                    self.start <= self.end,
                    (self.end - self.start) % (size as int) == 0,
            ;
            self.end == self.start
        }
    }

    /// Steps over the next element and returns its address, without checking
    /// that there is one.
    pub fn next_unchecked(&mut self) -> (addr: usize)
        requires
            old(self).wf(),
            old(self).remaining() > 0,
        ensures
            final(self).wf(),
            addr == old(self).front(),
            final(self).remaining() == old(self).remaining() - 1,
            final(self).front() == (if size_of::<T>() == 0 {
                old(self).front() as int
            } else {
                old(self).front() + size_of::<T>()
            }),
    {
        let size = core::mem::size_of::<T>();
        if size == 0 {
            self.start = self.start - 1;
            self.end
        } else {
            let addr = self.start;
            assert(self.end - self.start >= size && (self.end - self.start - size) % (size as int)
                == 0 && (self.end - self.start - size) / (size as int) == (self.end - self.start)
                / (size as int) - 1) by (nonlinear_arith)
                requires
                    size > 0,
                    self.start <= self.end,
                    (self.end - self.start) % (size as int) == 0,
                    (self.end - self.start) / (size as int) > 0,
            ;
            self.start = self.start + size;
            addr
        }
    }
}

/// The iterator that a handle to an uninitialized run turns into: hands out a
/// handle to each slot, front to back.
pub struct UninitIter<'a, T> {
    raw: UninitSliceIter<'a, T>,
}

impl<'a, T> UninitIter<'a, T> {
    /// The part of the run that has not been handed out.
    pub closed spec fn raw(&self) -> &'a mut [Slot<T>] {
        self.raw.raw()
    }

    /// The slots that have not been handed out, as they are now.
    pub closed spec fn slots(&self) -> Seq<SlotView<T>> {
        self.raw.slots()
    }

    /// The number of slots that have not been handed out.
    pub fn len(&self) -> (n: usize)
        ensures
            n == self.slots().len(),
    {
        self.raw.len()
    }

    /// Whether every slot has been handed out.
    pub fn is_empty(&self) -> (b: bool)
        ensures
            b == (self.slots().len() == 0),
    {
        self.raw.is_empty()
    }

    /// Hands out the next slot without checking that there is one.
    pub fn next_unchecked(&mut self) -> (r: Uninit<'a, Slot<T>>)
        requires
            old(self).slots().len() > 0,
        ensures
            r.slots() == seq![old(self).slots()[0]],
            final(self).slots() == old(self).slots().skip(1),
            final(old(self).raw()).slots() == final(r.raw()).slots() + final(final(self).raw()).slots(),
    {
        self.raw.next_unchecked()
    }

    /// Hands out the next slot, if there is one.
    pub fn next(&mut self) -> (r: Option<Uninit<'a, Slot<T>>>)
        ensures
            r is Some == (old(self).slots().len() > 0),
            r is None ==> final(self).slots().len() == 0,
            r matches Some(u) ==> {
                &&& u.slots() == seq![old(self).slots()[0]]
                &&& final(self).slots() == old(self).slots().skip(1)
                &&& final(old(self).raw()).slots() == final(u.raw()).slots() + final(final(self).raw()).slots()
            },
    {
        self.raw.next()
    }
}

impl<'a, T> Uninit<'a, [Slot<T>]> {
    /// Turns the handle into an iterator over handles to its slots.
    pub fn into_iter(self) -> (r: UninitIter<'a, T>)
        ensures
            r.slots() == self.slots(),
            final(r.raw()).slots() == final(self.raw()).slots(),
    {
        UninitIter { raw: UninitSliceIter::new(self.into_raw()) }
    }
}

} // verus!
