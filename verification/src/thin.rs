//! Thin pointers: a pointer kept together with the one address that is left
//! of it when its type is erased.

use std::rc::Rc;
use std::sync::Arc;
use vstd::prelude::*;

verus! {

/// Stands for the pointee of a pointer whose type has been erased.
pub struct Erased;

/// A pointee to which a pointer can be made thin: all that is needed to find
/// the value again lies at its address.
pub trait Erasable {
    /// The address of the value.
    fn erase(&self) -> usize;
}

/// A pointer that can be made thin.
pub trait ErasablePtr: Sized {
    /// The address that is left of the pointer when its type is erased.
    fn into_erased(&self) -> usize;
}

/// The address of the value behind a reference, as a number (the cast of a
/// reference to a pointer and of a pointer to `usize` that the standard
/// library's `core::ptr::from_ref` documents). Nothing is promised of it: it
/// differs from run to run.
#[verifier::external_body]
fn address_of<T>(r: &T) -> usize {
    core::ptr::from_ref(r) as usize
}

impl<T> Erasable for T {
    fn erase(&self) -> usize {
        address_of(self)
    }
}

impl<T: Erasable> ErasablePtr for Box<T> {
    fn into_erased(&self) -> usize {
        let target: &T = &**self;
        target.erase()
    }
}

impl<T: Erasable> ErasablePtr for Rc<T> {
    fn into_erased(&self) -> usize {
        let target: &T = &**self;
        target.erase()
    }
}

impl<T: Erasable> ErasablePtr for Arc<T> {
    fn into_erased(&self) -> usize {
        let target: &T = &**self;
        target.erase()
    }
}

impl<'a, T: Erasable> ErasablePtr for &'a T {
    fn into_erased(&self) -> usize {
        let target: &T = *self;
        target.erase()
    }
}

/// A thin pointer made from a `P`, for pointers that can be copied.
#[derive(Clone, Copy)]
pub struct ThinCopy<P> {
    addr: usize,
    ptr: P,
}

/// A thin pointer made from a `P`.
pub struct Thin<P: ErasablePtr> {
    thin: ThinCopy<P>,
}

impl<P: ErasablePtr> ThinCopy<P> {
    /// The erased address.
    pub closed spec fn addr(&self) -> usize {
        self.addr
    }

    /// The pointer that was made thin.
    pub closed spec fn inner(&self) -> P {
        self.ptr
    }

    fn new(ptr: P) -> (r: Self)
        ensures
            r.inner() == ptr,
    {
        let addr = ptr.into_erased();
        ThinCopy { addr, ptr }
    }

    /// Gets back the pointer that was made thin.
    pub fn to_inner(this: Self) -> (r: P)
        ensures
            r == this.inner(),
    {
        this.ptr
    }

    /// The erased address.
    pub fn as_erased_ptr(&self) -> (a: usize)
        ensures
            a == self.addr(),
    {
        self.addr
    }

    /// The pointer that was made thin, for reading.
    pub fn as_ptr(&self) -> (r: &P)
        ensures
            *r == self.inner(),
    {
        &self.ptr
    }

    /// Whether the two pointers have the same erased address.
    pub fn ptr_eq(this: &Self, other: &Self) -> (b: bool)
        ensures
            b == (this.addr() == other.addr()),
    {
        this.addr == other.addr
    }

    /// Puts `addr` in the place of the erased address and keeps the pointer.
    fn set_addr(&mut self, addr: usize)
        ensures
            final(self).addr() == addr,
            final(self).inner() == old(self).inner(),
    {
        self.addr = addr;
    }

    /// Takes the erased address anew from the pointer, which may have been
    /// replaced.
    fn refresh(&mut self)
        ensures
            final(self).inner() == old(self).inner(),
    {
        let addr = self.ptr.into_erased();
        self.set_addr(addr);
    }
}

impl<P: ErasablePtr + Copy> ThinCopy<P> {
    /// Makes a pointer thin.
    pub fn erase(ptr: P) -> (r: Self)
        ensures
            r.inner() == ptr,
    {
        Self::new(ptr)
    }
}

impl<P: ErasablePtr> Thin<P> {
    /// The erased address.
    pub closed spec fn addr(&self) -> usize {
        self.thin.addr()
    }

    /// The pointer that was made thin.
    pub closed spec fn inner(&self) -> P {
        self.thin.inner()
    }

    /// Makes a pointer thin.
    pub fn erase(ptr: P) -> (r: Self)
        ensures
            r.inner() == ptr,
    {
        Thin { thin: ThinCopy::new(ptr) }
    }

    /// The erased address.
    pub fn as_erased_ptr(&self) -> (a: usize)
        ensures
            a == self.addr(),
    {
        self.thin.as_erased_ptr()
    }

    /// Gets back the pointer that was made thin.
    pub fn into_inner(this: Self) -> (r: P)
        ensures
            r == this.inner(),
    {
        ThinCopy::to_inner(this.thin)
    }

    /// The pointer that was made thin, for reading.
    pub fn as_ptr(&self) -> (r: &P)
        ensures
            *r == self.inner(),
    {
        self.thin.as_ptr()
    }

    /// The pointer that was made thin, for reading.
    pub fn as_mut_ptr(&mut self) -> (r: &P)
        ensures
            *r == old(self).inner(),
            final(self).inner() == old(self).inner(),
            final(self).addr() == old(self).addr(),
    {
        self.thin.as_ptr()
    }

    /// Whether the two pointers have the same erased address.
    pub fn ptr_eq(this: &Self, other: &Self) -> (b: bool)
        ensures
            b == (this.addr() == other.addr()),
    {
        ThinCopy::ptr_eq(&this.thin, &other.thin)
    }

    /// Runs `f` with a borrow of the pointer.
    pub fn with<T, F: FnOnce(&P) -> T>(&self, f: F) -> (r: T)
        requires
            call_requires(f, (&self.inner(),)),
        ensures
            call_ensures(f, (&self.inner(),), r),
    {
        f(&self.thin.ptr)
    }

    /// Runs `f` with a mutable borrow of the pointer, under a guard of
    /// `scopeguard::guard` that takes the erased address anew from the
    /// pointer when `f` returns or unwinds. What `f` returns is returned,
    /// and the pointer that `f` leaves behind is the pointer afterwards.
    /// Nothing is promised of the erased address, which comes from that
    /// pointer.
    #[verifier::external_body]
    pub fn with_mut<T, F: FnOnce(&mut P) -> T>(&mut self, f: F) -> (r: T)
        requires
            forall|p: &mut P| *p == old(self).inner() ==> #[trigger] call_requires(f, (p,)),
        ensures
            exists|p: &mut P|
                *p == old(self).inner() && #[trigger] call_ensures(f, (p,), r) && final(self).inner() == *final(p),
    {
        let mut guard = scopeguard::guard(&mut self.thin, |thin| thin.refresh());
        f(&mut guard.ptr)
    }
}

} // verus!
