//! The two handle types: [`Uninit`] for a region whose content is not yet
//! meaningful, [`Init`] for a region in which every slot holds a live value.

use crate::slot::{constructed, destroyed, live, values, Region, Slot, SlotView};
use crate::Ctor;
use core::convert::Infallible;
use vstd::prelude::*;

verus! {

/// A handle to a region whose content is not yet meaningful.
pub struct Uninit<'brand, S: ?Sized + Region> {
    raw: &'brand mut S,
}

/// A handle to a region in which every slot holds a live value. The handle
/// owns those values: [`Init::drop`] runs their destructors, and the other
/// ways of giving the handle up pass that duty on.
pub struct Init<'brand, S: ?Sized + Region> {
    raw: &'brand mut S,
}

impl<'brand, S: ?Sized + Region> Uninit<'brand, S> {
    /// The region that the handle points to.
    pub closed spec fn raw(&self) -> &'brand mut S {
        self.raw
    }

    /// The slots of the region as they are now.
    pub open spec fn slots(&self) -> Seq<SlotView<S::Elem>> {
        self.raw().slots()
    }

    /// Wraps a region in a handle. The region stays borrowed for as long as
    /// the handle, or anything made from it, is in use.
    pub fn from_raw(ptr: &'brand mut S) -> (r: Self)
        ensures
            r.slots() == old(ptr).slots(),
            final(r.raw()).slots() == final(ptr).slots(),
    {
        Uninit { raw: ptr }
    }

    /// Read access to the region behind the handle.
    pub fn as_ptr(&self) -> (r: &S)
        ensures
            r.slots() == self.slots(),
    {
        &*self.raw
    }

    /// Raw access to the region behind the handle, for writing slots by other
    /// means before [`Uninit::assume_init`].
    pub fn as_mut_ptr(&mut self) -> (r: &mut S)
        ensures
            r.slots() == old(self).slots(),
            final(self).slots() == final(r).slots(),
            final(final(self).raw()).slots() == final(old(self).raw()).slots(),
    {
        &mut *self.raw
    }

    /// Gives the region back without any claim about its content.
    pub fn into_raw(self) -> (r: &'brand mut S)
        ensures
            r.slots() == self.slots(),
            final(r).slots() == final(self.raw()).slots(),
    {
        self.raw
    }

    /// Gives the handle up and leaves the region to its owner as it is.
    pub fn release(self)
        ensures
            final(self.raw()).slots() == self.slots(),
    {
        let Uninit { raw } = self;
    }

    /// Turns the handle into an [`Init`] on the caller's word that every slot
    /// already holds a live value.
    pub fn assume_init(self) -> (r: Init<'brand, S>)
        requires
            live(self.slots()),
        ensures
            r.slots() == self.slots(),
            final(r.raw()).slots() == final(self.raw()).slots(),
    {
        Init { raw: self.raw }
    }

    /// Builds the region in place from `args`.
    pub fn try_init<Args>(self, args: Args) -> (r: Result<Init<'brand, S>, S::Error>) where
        S: Ctor<Args>,

        requires
            S::accepts(&args, self.slots()),
        ensures
            r matches Ok(init) ==> {
                &&& final(init.raw()).slots() == final(self.raw()).slots()
                &&& constructed(self.slots(), init.slots())
                &&& S::builds(&args, Ok(values(init.slots())))
            },
            r matches Err(e) ==> {
                &&& crate::slot::rolled_back(self.slots(), final(self.raw()).slots())
                &&& S::builds(&args, Err(e))
                &&& S::breaks(&args, self.slots(), final(self.raw()).slots(), e)
            },
            call_ensures(<S as Ctor<Args>>::try_init, (self, args), r),
    {
        S::try_init(self, args)
    }

    /// Builds the region in place from `args` that cannot fail.
    pub fn init<Args>(self, args: Args) -> (r: Init<'brand, S>) where
        S: Ctor<Args, Error = Infallible>,

        requires
            S::accepts(&args, self.slots()),
            forall|e: Infallible| !S::builds(&args, Err(e)),
        ensures
            final(r.raw()).slots() == final(self.raw()).slots(),
            constructed(self.slots(), r.slots()),
            S::builds(&args, Ok(values(r.slots()))),
            call_ensures(<S as Ctor<Args>>::try_init, (self, args), Ok(r)),
    {
        S::try_init(self, args).unwrap()
    }
}

impl<'brand, T> Uninit<'brand, Slot<T>> {
    /// Moves `value` into the region.
    pub fn write(self, value: T) -> (r: Init<'brand, Slot<T>>)
        ensures
            r.slots() == seq![self.slots()[0].put(value)],
            final(r.raw()).slots() == final(self.raw()).slots(),
    {
        let raw = self.raw;
        raw.put(value);
        Init { raw }
    }
}

impl<'brand, T> Uninit<'brand, [Slot<T>]> {
    /// The number of slots in the region.
    pub fn len(&self) -> (n: usize)
        ensures
            n == self.slots().len(),
    {
        self.raw.len()
    }

    /// Whether the region has no slots.
    pub fn is_empty(&self) -> (b: bool)
        ensures
            b == (self.slots().len() == 0),
    {
        self.raw.len() == 0
    }

    /// An iterator that hands out a handle to each slot of the run. The run
    /// stays borrowed from this handle while the iterator or a handle from it
    /// is in use.
    pub fn iter_mut(&mut self) -> (r: UninitSliceIter<'_, T>)
        ensures
            r.slots() == old(self).slots(),
            final(self).slots() == final(r.raw()).slots(),
            final(final(self).raw()).slots() == final(old(self).raw()).slots(),
    {
        UninitSliceIter::new(&mut *self.raw)
    }
}

/// A handle to slot `idx` of a run; the other slots stay as they are.
pub(crate) fn slot_at<'a, T>(run: &'a mut [Slot<T>], idx: usize) -> (r: Uninit<'a, Slot<T>>)
    requires
        idx < old(run)@.len(),
    ensures
        r.slots() == seq![old(run).slots()[idx as int]],
        final(r.raw()).slots().len() == 1,
        final(run).slots() == old(run).slots().update(idx as int, final(r.raw()).slots()[0]),
{
    let slot = &mut run[idx];
    proof {
        assert(final(slot).slots()[0] == final(slot)@);
    }
    Uninit { raw: slot }
}

/// Splits the first slot off a run that has one.
pub(crate) fn split_first<'a, T>(run: &'a mut [Slot<T>]) -> (r: (
    &'a mut Slot<T>,
    &'a mut [Slot<T>],
))
    requires
        old(run)@.len() > 0,
    ensures
        r.0.slots() == seq![old(run).slots()[0]],
        r.1.slots() == old(run).slots().skip(1),
        final(run).slots() == final(r.0).slots() + final(r.1).slots(),
{
    let (head, tail) = run.split_at_mut(1);
    let first = head.first_mut().unwrap();
    (first, tail)
}

/// Splits the last slot off a run that has one.
pub(crate) fn split_last<'a, T>(run: &'a mut [Slot<T>]) -> (r: (
    &'a mut [Slot<T>],
    &'a mut Slot<T>,
))
    requires
        old(run)@.len() > 0,
    ensures
        r.0.slots() == old(run).slots().drop_last(),
        r.1.slots() == seq![old(run).slots().last()],
        final(run).slots() == final(r.0).slots() + final(r.1).slots(),
{
    let n = run.len();
    let (front, tail) = run.split_at_mut(n - 1);
    let last = tail.first_mut().unwrap();
    (front, last)
}

/// Walks the slots of an uninitialized run from either end and hands out a
/// handle to each slot, at most once.
pub struct UninitSliceIter<'brand, T> {
    rest: Option<&'brand mut [Slot<T>]>,
}

/// Walks the slots of an initialized run from either end and hands out an
/// initialized handle to each slot, at most once.
pub struct InitSliceIter<'brand, T> {
    iter: UninitSliceIter<'brand, T>,
}

impl<'brand, T> UninitSliceIter<'brand, T> {
    /// The part of the run that has not been handed out.
    pub closed spec fn raw(&self) -> &'brand mut [Slot<T>] {
        self.rest->0
    }

    /// The slots that have not been handed out, as they are now.
    pub closed spec fn slots(&self) -> Seq<SlotView<T>> {
        match self.rest {
            Some(run) => run.slots(),
            None => Seq::empty(),
        }
    }

    /// An iterator over all slots of `run`.
    pub(crate) fn new(run: &'brand mut [Slot<T>]) -> (r: Self)
        ensures
            r.slots() == old(run).slots(),
            final(r.raw()).slots() == final(run).slots(),
    {
        UninitSliceIter { rest: Some(run) }
    }

    /// The number of slots that have not been handed out.
    pub fn len(&self) -> (n: usize)
        ensures
            n == self.slots().len(),
    {
        match &self.rest {
            Some(run) => run.len(),
            None => 0,
        }
    }

    /// Whether every slot has been handed out.
    pub fn is_empty(&self) -> (b: bool)
        ensures
            b == (self.slots().len() == 0),
    {
        self.len() == 0
    }

    /// The number of slots that have not been handed out, as a lower and an
    /// upper bound.
    pub fn size_hint(&self) -> (r: (usize, Option<usize>))
        ensures
            r.0 == self.slots().len(),
            r.1 == Some(r.0),
    {
        let len = self.len();
        (len, Some(len))
    }

    /// Gives up the slots that have not been handed out: they stay as they
    /// are, and the iterator is empty afterwards.
    pub fn reset(&mut self)
        ensures
            final(self).slots().len() == 0,
            old(self).slots().len() > 0 ==> final(old(self).raw()).slots() == old(self).slots(),
    {
        self.rest = None;
    }

    /// Hands out the first slot without checking that there is one.
    pub fn next_unchecked(&mut self) -> (r: Uninit<'brand, Slot<T>>)
        requires
            old(self).slots().len() > 0,
        ensures
            r.slots() == seq![old(self).slots()[0]],
            final(self).slots() == old(self).slots().skip(1),
            final(old(self).raw()).slots() == final(r.raw()).slots() + final(final(self).raw()).slots(),
    {
        let run = self.rest.take().unwrap();
        let (first, tail) = split_first(run);
        self.rest = Some(tail);
        Uninit { raw: first }
    }

    /// Hands out the last slot without checking that there is one.
    pub fn next_back_unchecked(&mut self) -> (r: Uninit<'brand, Slot<T>>)
        requires
            old(self).slots().len() > 0,
        ensures
            r.slots() == seq![old(self).slots().last()],
            final(self).slots() == old(self).slots().drop_last(),
            final(old(self).raw()).slots() == final(final(self).raw()).slots() + final(r.raw()).slots(),
    {
        let run = self.rest.take().unwrap();
        let (front, last) = split_last(run);
        self.rest = Some(front);
        Uninit { raw: last }
    }

    /// Skips the first `n` slots, which stay as they are, without checking
    /// that there are that many.
    pub fn fwd_unchecked(&mut self, n: usize)
        requires
            n <= old(self).slots().len(),
        ensures
            final(self).slots() == old(self).slots().skip(n as int),
            old(self).slots().len() > 0 ==> final(old(self).raw()).slots() == old(self).slots().take(n as int) + final(final(self).raw()).slots(),
    {
        match self.rest.take() {
            Some(run) => {
                let (skipped, tail) = run.split_at_mut(n);
                self.rest = Some(tail);
            },
            None => {},
        }
    }

    /// Skips the last `n` slots, which stay as they are, without checking
    /// that there are that many.
    pub fn bck_unchecked(&mut self, n: usize)
        requires
            n <= old(self).slots().len(),
        ensures
            final(self).slots() == old(self).slots().take(old(self).slots().len() - n),
            old(self).slots().len() > 0 ==> final(old(self).raw()).slots() == final(final(self).raw()).slots() + old(self).slots().skip(old(self).slots().len() - n),
    {
        match self.rest.take() {
            Some(run) => {
                let len = run.len();
                let (front, skipped) = run.split_at_mut(len - n);
                self.rest = Some(front);
            },
            None => {},
        }
    }

    /// Hands out the first slot, if there is one.
    pub fn next(&mut self) -> (r: Option<Uninit<'brand, Slot<T>>>)
        ensures
            r is Some == (old(self).slots().len() > 0),
            r is None ==> final(self).slots().len() == 0,
            r matches Some(u) ==> {
                &&& u.slots() == seq![old(self).slots()[0]]
                &&& final(self).slots() == old(self).slots().skip(1)
                &&& final(old(self).raw()).slots() == final(u.raw()).slots() + final(final(self).raw()).slots()
            },
    {
        if self.is_empty() {
            None
        } else {
            Some(self.next_unchecked())
        }
    }

    /// Hands out the last slot, if there is one.
    pub fn next_back(&mut self) -> (r: Option<Uninit<'brand, Slot<T>>>)
        ensures
            r is Some == (old(self).slots().len() > 0),
            r is None ==> final(self).slots().len() == 0,
            r matches Some(u) ==> {
                &&& u.slots() == seq![old(self).slots().last()]
                &&& final(self).slots() == old(self).slots().drop_last()
                &&& final(old(self).raw()).slots() == final(final(self).raw()).slots() + final(u.raw()).slots()
            },
    {
        if self.is_empty() {
            None
        } else {
            Some(self.next_back_unchecked())
        }
    }

    /// Skips `n` slots and hands out the one after them. Where fewer than
    /// `n + 1` slots are left, the iterator is emptied and nothing is handed
    /// out.
    pub fn nth(&mut self, n: usize) -> (r: Option<Uninit<'brand, Slot<T>>>)
        ensures
            r is Some == (n < old(self).slots().len()),
            r is None ==> final(self).slots().len() == 0,
            r matches Some(u) ==> {
                &&& u.slots() == seq![old(self).slots()[n as int]]
                &&& final(self).slots() == old(self).slots().skip(n + 1)
                &&& final(old(self).raw()).slots() == old(self).slots().take(n as int) + final(u.raw()).slots() + final(final(self).raw()).slots()
            },
    {
        if n >= self.len() {
            self.reset();
            None
        } else {
            self.fwd_unchecked(n);
            Some(self.next_unchecked())
        }
    }

    /// Skips `n` slots from the back and hands out the one before them. Where
    /// fewer than `n + 1` slots are left, the iterator is emptied and nothing
    /// is handed out.
    pub fn nth_back(&mut self, n: usize) -> (r: Option<Uninit<'brand, Slot<T>>>)
        ensures
            r is Some == (n < old(self).slots().len()),
            r is None ==> final(self).slots().len() == 0,
            r matches Some(u) ==> {
                &&& u.slots() == seq![old(self).slots()[old(self).slots().len() - 1 - n]]
                &&& final(self).slots() == old(self).slots().take(
                    old(self).slots().len() - 1 - n,
                )
                &&& final(old(self).raw()).slots() == final(final(self).raw()).slots() + final(u.raw()).slots() + old(self).slots().skip(old(self).slots().len() - n)
            },
    {
        if n >= self.len() {
            self.reset();
            None
        } else {
            self.bck_unchecked(n);
            Some(self.next_back_unchecked())
        }
    }
}

impl<'brand, S: ?Sized + Region> Init<'brand, S> {
    /// The region that the handle points to.
    pub closed spec fn raw(&self) -> &'brand mut S {
        self.raw
    }

    /// The slots of the region as they are now.
    pub open spec fn slots(&self) -> Seq<SlotView<S::Elem>> {
        self.raw().slots()
    }

    #[verifier::type_invariant]
    spec fn all_live(&self) -> bool {
        live(self.raw.slots())
    }

    /// Read access to the region behind the handle.
    pub fn as_ptr(&self) -> (r: &S)
        ensures
            r.slots() == self.slots(),
            live(r.slots()),
    {
        proof {
            use_type_invariant(self);
        }
        &*self.raw
    }

    /// Read access to the region behind the handle.
    pub fn as_mut_ptr(&self) -> (r: &S)
        ensures
            r.slots() == self.slots(),
            live(r.slots()),
    {
        proof {
            use_type_invariant(self);
        }
        &*self.raw
    }

    /// Gives the region back with its values in place. No destructor runs;
    /// whoever holds the region now answers for the values in it.
    pub fn into_raw(self) -> (r: &'brand mut S)
        ensures
            r.slots() == self.slots(),
            live(r.slots()),
            final(r).slots() == final(self.raw()).slots(),
    {
        proof {
            use_type_invariant(&self);
        }
        let Init { raw } = self;
        raw
    }

    /// Gives the handle up and leaves the values in the region for its owner.
    /// No destructor runs.
    pub fn take_ownership(self)
        ensures
            final(self.raw()).slots() == self.slots(),
            live(self.slots()),
    {
        proof {
            use_type_invariant(&self);
        }
        let Init { raw } = self;
    }

    /// Runs the destructor of every value in the region, once each, and gives
    /// the region back as uninitialized.
    pub fn drop(self) -> (r: Uninit<'brand, S>)
        ensures
            r.slots() == destroyed(self.slots()),
            final(r.raw()).slots() == final(self.raw()).slots(),
    {
        let Init { raw } = self;
        raw.destroy();
        Uninit { raw }
    }
}

impl<'brand, T> InitSliceIter<'brand, T> {
    /// The part of the run that has not been handed out.
    pub closed spec fn raw(&self) -> &'brand mut [Slot<T>] {
        self.iter.raw()
    }

    /// The slots that have not been handed out, as they are now.
    pub closed spec fn slots(&self) -> Seq<SlotView<T>> {
        self.iter.slots()
    }

    /// The iterator's invariant: every slot that it has not handed out holds
    /// a live value.
    pub open spec fn wf(&self) -> bool {
        live(self.slots())
    }

    /// Whether the iterator's invariant holds: every slot that it has not
    /// handed out is live.
    pub fn check(&self) -> (b: bool)
        ensures
            b == self.wf(),
    {
        match &self.iter.rest {
            Some(run) => crate::slot::run_is_init(run),
            None => true,
        }
    }

    /// The number of slots that have not been handed out.
    pub fn len(&self) -> (n: usize)
        ensures
            n == self.slots().len(),
    {
        self.iter.len()
    }

    /// The number of slots that have not been handed out, as a lower and an
    /// upper bound.
    pub fn size_hint(&self) -> (r: (usize, Option<usize>))
        ensures
            r.0 == self.slots().len(),
            r.1 == Some(r.0),
    {
        self.iter.size_hint()
    }

    /// Hands out the first slot, if there is one, with the value in it.
    pub fn next(&mut self) -> (r: Option<Init<'brand, Slot<T>>>)
        requires
            old(self).wf(),
        ensures
            final(self).wf(),
            r is Some == (old(self).slots().len() > 0),
            r is None ==> final(self).slots().len() == 0,
            r matches Some(i) ==> {
                &&& i.slots() == seq![old(self).slots()[0]]
                &&& final(self).slots() == old(self).slots().skip(1)
                &&& final(old(self).raw()).slots() == final(i.raw()).slots() + final(final(self).raw()).slots()
            },
    {
        let ghost before = self.iter.slots();
        match self.iter.next() {
            Some(u) => {
                assert(u.slots()[0] == before[0]);
                Some(Init { raw: u.raw })
            },
            None => None,
        }
    }

    /// Hands out the last slot, if there is one, with the value in it.
    pub fn next_back(&mut self) -> (r: Option<Init<'brand, Slot<T>>>)
        requires
            old(self).wf(),
        ensures
            final(self).wf(),
            r is Some == (old(self).slots().len() > 0),
            r is None ==> final(self).slots().len() == 0,
            r matches Some(i) ==> {
                &&& i.slots() == seq![old(self).slots().last()]
                &&& final(self).slots() == old(self).slots().drop_last()
                &&& final(old(self).raw()).slots() == final(final(self).raw()).slots() + final(i.raw()).slots()
            },
    {
        let ghost before = self.iter.slots();
        match self.iter.next_back() {
            Some(u) => {
                assert(u.slots()[0] == before.last());
                Some(Init { raw: u.raw })
            },
            None => None,
        }
    }
}

impl<'brand, T> Init<'brand, [Slot<T>]> {
    /// The number of values in the run.
    pub fn len(&self) -> (n: usize)
        ensures
            n == self.slots().len(),
    {
        self.raw.len()
    }

    /// The value in slot `i`.
    pub fn get(&self, i: usize) -> (r: &T)
        requires
            i < self.slots().len(),
        ensures
            self.slots()[i as int].value == Some(*r),
    {
        proof {
            use_type_invariant(self);
            assert(self.raw.slots()[i as int] == self.raw@[i as int]@);
        }
        self.raw[i].get().unwrap()
    }

    /// An iterator that hands out each value of the run in its slot. The
    /// values that it has not handed out when it is given up stay in the run;
    /// no destructor runs for them.
    pub fn into_iter(self) -> (r: InitSliceIter<'brand, T>)
        ensures
            r.wf(),
            r.slots() == self.slots(),
            final(r.raw()).slots() == final(self.raw()).slots(),
    {
        proof {
            use_type_invariant(&self);
        }
        let Init { raw } = self;
        InitSliceIter { iter: UninitSliceIter::new(raw) }
    }
}

impl<'brand, T> Init<'brand, Slot<T>> {
    /// Moves the value out of the region to the caller, who from then on
    /// answers for it. No destructor runs here.
    pub fn into_inner(self) -> (r: T)
        ensures
            self.slots()[0].value == Some(r),
            final(self.raw()).slots() == seq![self.slots()[0].released()],
    {
        proof {
            use_type_invariant(&self);
            assert(self.raw.slots()[0] == self.raw@);
        }
        let Init { raw } = self;
        raw.take().unwrap()
    }

    /// Write access to the value in the region. The region stays live: the
    /// borrow can change the value, not take it away.
    pub fn as_mut(&mut self) -> (r: &mut T)
        ensures
            old(self).slots()[0].value == Some(*r),
            final(self).slots() == seq![(SlotView {
                value: Some(*final(r)),
                built: old(self).slots()[0].built,
                dropped: old(self).slots()[0].dropped,
            })],
            final(final(self).raw()).slots() == final(old(self).raw()).slots(),
    {
        proof {
            use_type_invariant(&*self);
            assert(self.raw.slots()[0] == self.raw@);
        }
        self.raw.get_mut().unwrap()
    }

    /// The value in the region.
    pub fn as_ref(&self) -> (r: &T)
        ensures
            self.slots()[0].value == Some(*r),
    {
        proof {
            use_type_invariant(self);
            assert(self.raw.slots()[0] == self.raw@);
        }
        self.raw.get().unwrap()
    }
}

} // verus!
