//! Recipes for runs of slots: copy from a slice, repeat one recipe, pull the
//! arguments from an iterator.

use crate::layout::{max_size, Layout};
use crate::layout_provider::{DefaultLayoutProvider, DefaultLayoutProviderFor, LayoutProvider};
use crate::slice_writer::SliceWriter;
use crate::slot::{constructed, rolled_back, rolled_back_at, values, Region, Slot, SlotView};
use crate::{Ctor, Init, Initializer, Uninit};
use vstd::layout::{align_of, size_of};
use vstd::prelude::*;
use vstd::std_specs::iter::IteratorSpec;

verus! {

/// A recipe that copies the values of a slice into the run.
#[derive(Clone, Copy)]
pub struct CopyFromSlice<'a, T> {
    pub(crate) init: &'a [T],
}

/// Copies the values of `slice` into the run, slot by slot.
pub fn copy_from_slice<T: Copy>(slice: &[T]) -> (r: CopyFromSlice<'_, T>)
    ensures
        r.source() == slice@,
{
    CopyFromSlice { init: slice }
}

/// What [`CopyFromSlice`] reports when the slice and the run differ in length.
#[derive(Clone, Copy, Debug, PartialEq, Eq)]
pub struct CopyFromSliceError {
    /// The length of the slice to copy from.
    pub src_len: usize,
    /// The length of the run to write into.
    pub dest_len: usize,
}

impl<'a, T> CopyFromSlice<'a, T> {
    /// The values that the recipe copies.
    pub closed spec fn source(&self) -> Seq<T> {
        self.init@
    }
}

impl<'brand, T: Copy> Uninit<'brand, [Slot<T>]> {
    /// Copies the values of `slice` into the run, slot by slot, where the two
    /// are of one length. Otherwise nothing is written, and the handle comes
    /// back unchanged together with both lengths.
    pub fn write_slice(self, slice: &[T]) -> (r: Result<
        Init<'brand, [Slot<T>]>,
        (Uninit<'brand, [Slot<T>]>, CopyFromSliceError),
    >)
        ensures
            r is Ok <==> slice@.len() == self.slots().len(),
            r matches Ok(init) ==> {
                &&& final(init.raw()).slots() == final(self.raw()).slots()
                &&& init.slots() == Seq::new(
                    self.slots().len(),
                    |i: int| self.slots()[i].put(slice@[i]),
                )
                &&& constructed(self.slots(), init.slots())
            },
            r matches Err((back, e)) ==> {
                &&& final(back.raw()).slots() == final(self.raw()).slots()
                &&& back.slots() == self.slots()
                &&& e.src_len == slice@.len()
                &&& e.dest_len == self.slots().len()
            },
    {
        let n = slice.len();
        let dest_len = self.len();
        if n != dest_len {
            return Err((self, CopyFromSliceError { src_len: n, dest_len }));
        }
        let mut ptr = self;
        let ghost before = ptr.slots();
        let run = ptr.as_mut_ptr();
        let ghost cells = run@;
        let mut i: usize = 0;
        while i < n
            invariant
                i <= n,
                n == slice@.len(),
                run@.len() == n,
                cells.len() == n,
                forall|j: int| 0 <= j < i ==> (#[trigger] run@[j])@ == cells[j]@.put(slice@[j]),
                forall|j: int| i <= j < n ==> (#[trigger] run@[j])@ == cells[j]@,
            decreases n - i,
        {
            run[i].put(slice[i]);
            i += 1;
        }
        proof {
            let after = run.slots();
            assert forall|j: int| 0 <= j < n implies #[trigger] after[j] == before[j].put(
                slice@[j],
            ) by {
                assert(after[j] == run@[j]@);
                assert(before[j] == cells[j]@);
            }
            assert(after =~= Seq::new(before.len(), |j: int| before[j].put(slice@[j])));
        }
        Ok(ptr.assume_init())
    }
}

/// Takes a run of exactly `N` elements as an array (`TryFrom<&mut [T]>` for
/// `&mut [T; N]` of the standard library): the same elements in the same
/// place.
#[verifier::external_body]
fn as_array<'a, T, const N: usize>(run: &'a mut [T]) -> (array: &'a mut [T; N])
    requires
        old(run)@.len() == N,
    ensures
        array@ == old(run)@,
        final(array)@ == final(run)@,
{
    run.try_into().unwrap()
}

impl<'brand, T> Uninit<'brand, [Slot<T>]> {
    /// Turns a handle to a run of exactly `N` slots into a handle to the same
    /// slots as an array. A run of another length comes back unchanged.
    pub fn try_into_array<const N: usize>(self) -> (r: Result<
        Uninit<'brand, [Slot<T>; N]>,
        Uninit<'brand, [Slot<T>]>,
    >)
        ensures
            r is Ok <==> self.slots().len() == N,
            r matches Ok(array) ==> array.slots() == self.slots() && final(array.raw()).slots()
                == final(self.raw()).slots(),
            r matches Err(back) ==> back.slots() == self.slots() && final(back.raw()).slots()
                == final(self.raw()).slots(),
    {
        if self.len() == N {
            Ok(Uninit::from_raw(as_array::<Slot<T>, N>(self.into_raw())))
        } else {
            Err(self)
        }
    }
}

impl<'brand, T> Init<'brand, [Slot<T>]> {
    /// Turns a handle to a run of exactly `N` values into a handle to the same
    /// values as an array. A run of another length comes back unchanged.
    pub fn try_into_array<const N: usize>(self) -> (r: Result<
        Init<'brand, [Slot<T>; N]>,
        Init<'brand, [Slot<T>]>,
    >)
        ensures
            r is Ok <==> self.slots().len() == N,
            r matches Ok(array) ==> array.slots() == self.slots() && final(array.raw()).slots()
                == final(self.raw()).slots(),
            r matches Err(back) ==> back.slots() == self.slots() && final(back.raw()).slots()
                == final(self.raw()).slots(),
    {
        if self.len() == N {
            Ok(Uninit::from_raw(as_array::<Slot<T>, N>(self.into_raw())).assume_init())
        } else {
            Err(self)
        }
    }
}

impl<'brand, T> Uninit<'brand, [Slot<T>]> {
    /// Moves the values of `array` into the run, slot by slot, where the two
    /// are of one length. Otherwise nothing is written, and the handle and
    /// the array come back unchanged.
    pub fn write_array<const N: usize>(self, array: [T; N]) -> (r: Result<
        Init<'brand, [Slot<T>]>,
        (Uninit<'brand, [Slot<T>]>, [T; N]),
    >)
        ensures
            r is Ok <==> self.slots().len() == N,
            r matches Ok(init) ==> {
                &&& final(init.raw()).slots() == final(self.raw()).slots()
                &&& init.slots() == Seq::new(
                    self.slots().len(),
                    |i: int| self.slots()[i].put(array@[i]),
                )
                &&& constructed(self.slots(), init.slots())
            },
            r matches Err((back, given)) ==> {
                &&& final(back.raw()).slots() == final(self.raw()).slots()
                &&& back.slots() == self.slots()
                &&& given == array
            },
    {
        if self.len() != N {
            return Err((self, array));
        }
        let boxed: Box<[T]> = Box::new(array);
        let mut rest = boxed.into_vec();
        let mut ptr = self;
        let ghost before = ptr.slots();
        let run = ptr.as_mut_ptr();
        let ghost cells = run@;
        let mut i: usize = N;
        while i > 0
            invariant
                i <= N,
                run@.len() == N,
                cells.len() == N,
                rest@ == array@.take(i as int),
                forall|j: int| i <= j < N ==> (#[trigger] run@[j])@ == cells[j]@.put(array@[j]),
                forall|j: int| 0 <= j < i ==> (#[trigger] run@[j])@ == cells[j]@,
            decreases i,
        {
            i -= 1;
            let value = rest.pop().unwrap();
            assert(value == array@[i as int]);
            run[i].put(value);
            assert(rest@ =~= array@.take(i as int));
        }
        proof {
            let after = run.slots();
            assert forall|j: int| 0 <= j < N implies #[trigger] after[j] == before[j].put(
                array@[j],
            ) by {
                assert(after[j] == run@[j]@);
                assert(before[j] == cells[j]@);
            }
            assert(after =~= Seq::new(before.len(), |j: int| before[j].put(array@[j])));
        }
        Ok(ptr.assume_init())
    }
}

impl<'brand, T, const N: usize> Uninit<'brand, [Slot<T>; N]> {
    /// Turns a handle to an array of slots into a handle to the same slots as
    /// a run.
    pub fn into_slice(self) -> (r: Uninit<'brand, [Slot<T>]>)
        ensures
            r.slots() == self.slots(),
            final(r.raw()).slots() == final(self.raw()).slots(),
    {
        let array = self.into_raw();
        let run: &'brand mut [Slot<T>] = array;
        Uninit::from_raw(run)
    }
}

impl<'a, T: Copy> Initializer<[Slot<T>]> for CopyFromSlice<'a, T> {
    type Error = CopyFromSliceError;

    open spec fn ready(&self, before: Seq<SlotView<T>>) -> bool {
        true
    }

    open spec fn yields(&self, outcome: Result<Seq<T>, CopyFromSliceError>) -> bool {
        match outcome {
            Ok(written) => written == self.source(),
            Err(e) => e.src_len == self.source().len() && e.dest_len != e.src_len,
        }
    }

    open spec fn fails(
        &self,
        before: Seq<SlotView<T>>,
        after: Seq<SlotView<T>>,
        e: CopyFromSliceError,
    ) -> bool {
        &&& after == before
        &&& e.src_len == self.source().len()
        &&& e.dest_len == before.len()
        &&& e.src_len != e.dest_len
    }

    /// Succeeds exactly when the slice is as long as the run. Otherwise
    /// nothing is written and the error carries both lengths.
    fn try_init_into<'brand>(self, ptr: Uninit<'brand, [Slot<T>]>) -> (r: Result<
        Init<'brand, [Slot<T>]>,
        CopyFromSliceError,
    >)
        ensures
            r is Ok <==> self.source().len() == ptr.slots().len(),
            r matches Ok(init) ==> init.slots() == Seq::new(
                ptr.slots().len(),
                |i: int| ptr.slots()[i].put(self.source()[i]),
            ),
            r matches Err(e) ==> {
                &&& e.src_len == self.source().len()
                &&& e.dest_len == ptr.slots().len()
                &&& final(ptr.raw()).slots() == ptr.slots()
            },
    {
        match ptr.write_slice(self.init) {
            Ok(init) => {
                proof {
                    assert(values(init.slots()) =~= self.source());
                }
                Ok(init)
            },
            Err((back, e)) => {
                back.release();
                Err(e)
            },
        }
    }
}

/// A recipe that runs one element recipe on every slot of the run.
#[derive(Clone, Copy)]
pub struct Repeat<I> {
    /// The element recipe.
    pub init: I,
}

/// Repeats `init` as many times as the run has slots: a clone of it for each
/// slot but the last, and `init` itself for the last.
pub fn repeat<I>(init: I) -> (r: Repeat<I>)
    ensures
        r.recipe() == init,
{
    Repeat { init }
}

impl<I> Repeat<I> {
    /// The element recipe.
    pub open spec fn recipe(&self) -> I {
        self.init
    }
}

impl<I: Clone> Repeat<I> {
    /// Whether `c` may be what an element is built from: the recipe itself or
    /// a clone of it.
    pub open spec fn stands_for(&self, c: I) -> bool {
        c == self.recipe() || cloned(self.recipe(), c)
    }
}

impl<I: Clone> Repeat<I> {
    /// Whether building an element from the recipe or a clone of it can give
    /// `v`.
    pub open spec fn gives<T>(&self, v: T) -> bool where Slot<T>: Ctor<I> + Region<Elem = T> {
        exists|c: I|
            self.stands_for(c) && #[trigger] <Slot<T> as Ctor<I>>::builds(&c, Ok(seq![v]))
    }

    /// Whether building an element from a clone of the recipe can give `v`.
    pub open spec fn clone_gives<T>(&self, v: T) -> bool where Slot<T>: Ctor<I> + Region<Elem = T> {
        exists|c: I|
            cloned(self.recipe(), c) && #[trigger] <Slot<T> as Ctor<I>>::builds(&c, Ok(seq![v]))
    }

    /// Whether building an element from the recipe or a clone of it can fail
    /// with `e`.
    pub open spec fn reports<T>(&self, e: <Slot<T> as Ctor<I>>::Error) -> bool where
        Slot<T>: Ctor<I> + Region<Elem = T>,
     {
        exists|c: I| self.stands_for(c) && #[trigger] <Slot<T> as Ctor<I>>::builds(&c, Err(e))
    }
}

impl<T, I: Clone> Initializer<[Slot<T>]> for Repeat<I> where Slot<T>: Ctor<I> + Region<Elem = T> {
    type Error = <Slot<T> as Ctor<I>>::Error;

    open spec fn ready(&self, before: Seq<SlotView<T>>) -> bool {
        forall|c: I, i: int|
            self.stands_for(c) && 0 <= i < before.len() ==> #[trigger] <Slot<T> as Ctor<
                I,
            >>::accepts(&c, seq![before[i]])
    }

    open spec fn yields(&self, outcome: Result<Seq<T>, <Slot<T> as Ctor<I>>::Error>) -> bool {
        match outcome {
            Ok(written) => forall|i: int|
                0 <= i < written.len() ==> self.gives::<T>(#[trigger] written[i]),
            Err(e) => self.reports::<T>(e),
        }
    }

    open spec fn fails(
        &self,
        before: Seq<SlotView<T>>,
        after: Seq<SlotView<T>>,
        e: <Slot<T> as Ctor<I>>::Error,
    ) -> bool {
        exists|k: int, c: I|
            #![trigger rolled_back_at(before, after, k), self.stands_for(c)]
            {
                &&& 0 <= k < before.len()
                &&& rolled_back_at(before, after, k)
                &&& self.stands_for(c)
                &&& <Slot<T> as Ctor<I>>::breaks(&c, seq![before[k]], seq![after[k]], e)
            }
    }

    /// Builds the slots in order, each slot but the last from a clone of the
    /// recipe and the last from the recipe itself, and stops at the first
    /// element that fails. The run is then rolled back: the slots before the
    /// failed one have each had one value built and destructed again, and the
    /// slots after it are untouched. An empty run is built without a call.
    fn try_init_into<'brand>(self, ptr: Uninit<'brand, [Slot<T>]>) -> (r: Result<
        Init<'brand, [Slot<T>]>,
        <Slot<T> as Ctor<I>>::Error,
    >)
        ensures
            ptr.slots().len() == 0 ==> r is Ok,
            r matches Ok(init) ==> forall|j: int|
                0 <= j < init.slots().len() - 1 ==> self.clone_gives::<T>(
                    #[trigger] values(init.slots())[j],
                ),
            r matches Ok(init) ==> (ptr.slots().len() > 0 ==> <Slot<T> as Ctor<I>>::builds(
                &self.recipe(),
                Ok(seq![values(init.slots()).last()]),
            )),
            r is Err ==> exists|k: int|
                #![trigger rolled_back_at(ptr.slots(), final(ptr.raw()).slots(), k)]
                0 <= k < ptr.slots().len() && rolled_back_at(
                    ptr.slots(),
                    final(ptr.raw()).slots(),
                    k,
                ),
    {
        let mut writer = SliceWriter::new(ptr);
        let n = writer.remaining_len();
        if n == 0 {
            let init = writer.finish();
            return Ok(init);
        }
        let mut i: usize = 0;
        while i < n - 1
            invariant
                writer.wf(),
                !writer.poisoned(),
                writer.count() == i,
                i <= n - 1,
                writer.slots().len() == n,
                writer.origin() == ptr.slots(),
                final(writer.raw()).slots() == final(ptr.raw()).slots(),
                Initializer::<[Slot<T>]>::ready(&self, ptr.slots()),
                forall|j: int| 0 <= j < i ==> self.gives::<T>(#[trigger] writer.written()[j]),
                forall|j: int| 0 <= j < i ==> self.clone_gives::<T>(#[trigger] writer.written()[j]),
            decreases n - 1 - i,
        {
            let c = self.init.clone();
            let ghost sofar = writer.written();
            assert(self.stands_for(c));
            assert(writer.slots()[i as int] == ptr.slots()[i as int]);
            match writer.try_init_unchecked(c) {
                Ok(()) => {
                    proof {
                        let v = writer.slots()[i as int].value->0;
                        assert(writer.written() == sofar.push(v));
                        assert forall|j: int| 0 <= j < i + 1 implies self.gives::<T>(
                            #[trigger] writer.written()[j],
                        ) by {
                            if j < i {
                                assert(writer.written()[j] == sofar[j]);
                            } else {
                                assert(writer.written()[j] == v);
                                assert(<Slot<T> as Ctor<I>>::builds(&c, Ok(seq![v])));
                            }
                        }
                        assert forall|j: int| 0 <= j < i + 1 implies self.clone_gives::<T>(
                            #[trigger] writer.written()[j],
                        ) by {
                            if j < i {
                                assert(writer.written()[j] == sofar[j]);
                            } else {
                                assert(writer.written()[j] == v);
                                assert(<Slot<T> as Ctor<I>>::builds(&c, Ok(seq![v])));
                            }
                        }
                    }
                },
                Err(e) => {
                    let ghost k = writer.count() as int;
                    let back = writer.abandon();
                    back.release();
                    assert(rolled_back_at(ptr.slots(), final(ptr.raw()).slots(), k));
                    return Err(e);
                },
            }
            i += 1;
        }
        let ghost sofar = writer.written();
        assert(self.stands_for(self.init));
        assert(writer.slots()[i as int] == ptr.slots()[i as int]);
        match writer.try_init_unchecked(self.init) {
            Ok(()) => {
                proof {
                    let v = writer.slots()[i as int].value->0;
                    assert(writer.written() == sofar.push(v));
                    assert forall|j: int| 0 <= j < n implies self.gives::<T>(
                        #[trigger] writer.written()[j],
                    ) by {
                        if j < i {
                            assert(writer.written()[j] == sofar[j]);
                        } else {
                            assert(writer.written()[j] == v);
                            assert(<Slot<T> as Ctor<I>>::builds(&self.init, Ok(seq![v])));
                        }
                    }
                    assert forall|j: int| 0 <= j < n - 1 implies self.clone_gives::<T>(
                        #[trigger] writer.written()[j],
                    ) by {
                        assert(writer.written()[j] == sofar[j]);
                    }
                    assert(writer.written().last() == v);
                }
                Ok(writer.finish())
            },
            Err(e) => {
                let ghost k = writer.count() as int;
                let back = writer.abandon();
                back.release();
                assert(rolled_back_at(ptr.slots(), final(ptr.raw()).slots(), k));
                Err(e)
            },
        }
    }
}

/// A recipe that builds each slot from the next item of an iterator.
#[derive(Clone, Copy)]
pub struct InitFromIter<I> {
    iter: I,
}

/// Builds the slots of the run, in order, from the items that `iter` yields.
/// No more items are drawn than the run has slots.
pub fn from_iter<I>(iter: I) -> (r: InitFromIter<I>)
    ensures
        r.source() == iter,
{
    InitFromIter { iter }
}

/// What [`InitFromIter`] reports.
#[derive(Clone, Copy, Debug, PartialEq, Eq)]
pub enum InitFromIterError<E> {
    /// An element failed with this error.
    Error(E),
    /// The iterator ran out before every slot was built.
    NotEnoughItems,
}

impl<I> InitFromIter<I> {
    /// The iterator that the items come from.
    pub closed spec fn source(&self) -> I {
        self.iter
    }
}

/// Whether building a slot from some item of type `A` can give `v`.
pub open spec fn item_gives<T, A>(v: T) -> bool where Slot<T>: Ctor<A> + Region<Elem = T> {
    exists|item: A| #[trigger] <Slot<T> as Ctor<A>>::builds(&item, Ok(seq![v]))
}

/// Whether building a slot from some item of type `A` can fail with `e`.
pub open spec fn item_fails<T, A>(e: <Slot<T> as Ctor<A>>::Error) -> bool where
    Slot<T>: Ctor<A> + Region<Elem = T>,
 {
    exists|item: A| #[trigger] <Slot<T> as Ctor<A>>::builds(&item, Err(e))
}

/// Whether building a slot from `item` can fail with `e` and take the slot
/// from `before` to `after`.
pub open spec fn item_breaks<T, A>(
    item: A,
    before: SlotView<T>,
    after: SlotView<T>,
    e: <Slot<T> as Ctor<A>>::Error,
) -> bool where Slot<T>: Ctor<A> + Region<Elem = T> {
    <Slot<T> as Ctor<A>>::breaks(&item, seq![before], seq![after], e)
}

/// Whether building a slot from some item of type `A` can fail with `e` and
/// take the slot from `before` to `after`.
pub open spec fn slot_fails<T, A>(
    before: SlotView<T>,
    after: SlotView<T>,
    e: <Slot<T> as Ctor<A>>::Error,
) -> bool where Slot<T>: Ctor<A> + Region<Elem = T> {
    exists|item: A| #[trigger] item_breaks::<T, A>(item, before, after, e)
}

/// Whether each of the first `k` items can build a slot: there are values,
/// one for each of them in order, that the items can give.
pub open spec fn prefix_builds<T, A>(items: Seq<A>, k: int) -> bool where
    Slot<T>: Ctor<A> + Region<Elem = T>,
 {
    exists|built: Seq<T>|
        built.len() == k && forall|j: int|
            0 <= j < k ==> #[trigger] <Slot<T> as Ctor<A>>::builds(&items[j], Ok(seq![built[j]]))
}

/// Feeds items of `iter` to `writer` until the run is complete, an element
/// fails, or the iterator runs out. Exactly as many items are drawn as slots
/// were attempted; what the iterator has left stays in it.
#[verifier::rlimit(60)]
pub fn fill_from_iter<T, I: Iterator>(writer: &mut SliceWriter<'_, T>, iter: &mut I) -> (r: Result<
    (),
    InitFromIterError<<Slot<T> as Ctor<I::Item>>::Error>,
>) where Slot<T>: Ctor<I::Item> + Region<Elem = T>
    requires
        old(writer).wf(),
        !old(writer).poisoned(),
        forall|item: I::Item, i: int|
            old(writer).count() <= i < old(writer).slots().len() ==> #[trigger] <Slot<T> as Ctor<
                I::Item,
            >>::accepts(&item, seq![old(writer).slots()[i]]),
    ensures
        final(writer).wf(),
        final(writer).origin() == old(writer).origin(),
        final(final(writer).raw()).slots() == final(old(writer).raw()).slots(),
        final(writer).count() >= old(writer).count(),
        final(writer).written().subrange(0, old(writer).count() as int) == old(writer).written(),
        forall|j: int|
            old(writer).count() <= j < final(writer).count() ==> item_gives::<T, I::Item>(
                #[trigger] final(writer).written()[j],
            ),
        match r {
            Ok(()) => !final(writer).poisoned() && final(writer).count() == final(writer).slots().len(),
            Err(InitFromIterError::NotEnoughItems) => !final(writer).poisoned() && final(writer).count() < final(writer).slots().len(),
            Err(InitFromIterError::Error(e)) => final(writer).poisoned() && item_fails::<
                T,
                I::Item,
            >(e),
        },
        r matches Err(InitFromIterError::Error(e)) ==> slot_fails::<T, I::Item>(
            old(writer).slots()[final(writer).count() as int],
            final(writer).slots()[final(writer).count() as int],
            e,
        ),
        <I as IteratorSpec>::obeys_prophetic_iter_laws(old(iter)) ==> {
            let items = <I as IteratorSpec>::remaining(old(iter));
            let start = old(writer).count() as int;
            let pulled = final(writer).count() - start;
            &&& pulled <= items.len()
            &&& forall|j: int|
                0 <= j < pulled ==> #[trigger] <Slot<T> as Ctor<I::Item>>::builds(
                    &items[j],
                    Ok(seq![final(writer).written()[start + j]]),
                )
            &&& match r {
                Ok(()) => <I as IteratorSpec>::remaining(final(iter)) == items.skip(pulled),
                Err(InitFromIterError::NotEnoughItems) => pulled == items.len() && <I as IteratorSpec>::remaining(final(iter)).len() == 0,
                Err(InitFromIterError::Error(e)) => pulled < items.len() && <Slot<T> as Ctor<
                    I::Item,
                >>::builds(&items[pulled], Err(e)) && <I as IteratorSpec>::remaining(final(iter)) == items.skip(
                    pulled + 1,
                ) && item_breaks::<T, I::Item>(
                    items[pulled],
                    old(writer).slots()[final(writer).count() as int],
                    final(writer).slots()[final(writer).count() as int],
                    e,
                ),
            }
        },
{
    let ghost start = writer.count() as int;
    let ghost items = <I as IteratorSpec>::remaining(iter);
    let ghost before = writer.written();
    let n = writer.remaining_len();
    let mut i: usize = 0;
    while i < n
        invariant
            writer.wf(),
            !writer.poisoned(),
            writer.origin() == old(writer).origin(),
            final(writer.raw()).slots() == final(old(writer).raw()).slots(),
            writer.slots().len() == old(writer).slots().len(),
            start == old(writer).count(),
            start + n == writer.slots().len(),
            i <= n,
            writer.count() == start + i,
            before == old(writer).written(),
            writer.written().subrange(0, start) == before,
            forall|j: int|
                start + i <= j < writer.slots().len() ==> #[trigger] writer.slots()[j] == old(writer).slots()[j],
            forall|item: I::Item, j: int|
                start <= j < old(writer).slots().len() ==> #[trigger] <Slot<T> as Ctor<
                    I::Item,
                >>::accepts(&item, seq![old(writer).slots()[j]]),
            forall|j: int|
                start <= j < start + i ==> item_gives::<T, I::Item>(#[trigger] writer.written()[j]),
            <I as IteratorSpec>::obeys_prophetic_iter_laws(iter) == <I as IteratorSpec>::obeys_prophetic_iter_laws(old(iter)),
            items == <I as IteratorSpec>::remaining(old(iter)),
            <I as IteratorSpec>::obeys_prophetic_iter_laws(old(iter)) ==> {
                &&& i <= items.len()
                &&& <I as IteratorSpec>::remaining(iter) == items.skip(i as int)
                &&& forall|j: int|
                    0 <= j < i ==> #[trigger] <Slot<T> as Ctor<I::Item>>::builds(
                        &items[j],
                        Ok(seq![writer.written()[start + j]]),
                    )
            },
        decreases n - i,
    {
        let ghost sofar = writer.written();
        let ghost sofar_slots = writer.slots();
        let ghost rest = <I as IteratorSpec>::remaining(iter);
        match iter.next() {
            Some(item) => {
                assert(writer.slots()[start + i] == old(writer).slots()[start + i]);
                match writer.try_init_unchecked(item) {
                    Ok(()) => {
                        proof {
                            let v = writer.slots()[start + i].value->0;
                            assert(writer.written() == sofar.push(v));
                            assert(writer.written().subrange(0, start) =~= sofar.subrange(
                                0,
                                start,
                            ));
                            assert forall|j: int| start <= j < start + i + 1 implies item_gives::<
                                T,
                                I::Item,
                            >(#[trigger] writer.written()[j]) by {
                                if j < start + i {
                                    assert(writer.written()[j] == sofar[j]);
                                } else {
                                    assert(<Slot<T> as Ctor<I::Item>>::builds(&item, Ok(seq![v])));
                                }
                            }
                            if <I as IteratorSpec>::obeys_prophetic_iter_laws(old(iter)) {
                                assert(rest.len() > 0 ==> item == rest[0]);
                                assert(rest.len() > 0);
                                assert(items.skip(i as int)[0] == items[i as int]);
                                assert(<I as IteratorSpec>::remaining(iter) =~= items.skip(i + 1));
                                assert forall|j: int| 0 <= j < i + 1 implies #[trigger] <Slot<
                                    T,
                                > as Ctor<I::Item>>::builds(
                                    &items[j],
                                    Ok(seq![writer.written()[start + j]]),
                                ) by {
                                    if j < i {
                                        assert(writer.written()[start + j] == sofar[start + j]);
                                    }
                                }
                            }
                        }
                    },
                    Err(e) => {
                        proof {
                            assert(old(writer).slots()[start + i] == sofar_slots[start + i]);
                            assert(item_breaks::<T, I::Item>(
                                item,
                                old(writer).slots()[writer.count() as int],
                                writer.slots()[writer.count() as int],
                                e,
                            ));
                            assert(slot_fails::<T, I::Item>(
                                old(writer).slots()[writer.count() as int],
                                writer.slots()[writer.count() as int],
                                e,
                            ));
                            assert(item_fails::<T, I::Item>(e));
                            assert(writer.written() =~= sofar);
                            if <I as IteratorSpec>::obeys_prophetic_iter_laws(old(iter)) {
                                assert(rest.len() > 0);
                                assert(items.skip(i as int)[0] == items[i as int]);
                                assert(<I as IteratorSpec>::remaining(iter) =~= items.skip(i + 1));
                                assert(item == items[i as int]);
                            }
                        }
                        return Err(InitFromIterError::Error(e));
                    },
                }
            },
            None => {
                proof {
                    if <I as IteratorSpec>::obeys_prophetic_iter_laws(old(iter)) {
                        assert(rest.len() == 0);
                    }
                }
                return Err(InitFromIterError::NotEnoughItems);
            },
        }
        i += 1;
    }
    Ok(())
}

impl<T, I: Iterator> Initializer<[Slot<T>]> for InitFromIter<I> where
    Slot<T>: Ctor<I::Item> + Region<Elem = T>,
 {
    type Error = InitFromIterError<<Slot<T> as Ctor<I::Item>>::Error>;

    open spec fn ready(&self, before: Seq<SlotView<T>>) -> bool {
        forall|item: I::Item, i: int|
            0 <= i < before.len() ==> #[trigger] <Slot<T> as Ctor<I::Item>>::accepts(
                &item,
                seq![before[i]],
            )
    }

    open spec fn yields(
        &self,
        outcome: Result<Seq<T>, InitFromIterError<<Slot<T> as Ctor<I::Item>>::Error>>,
    ) -> bool {
        match outcome {
            Ok(written) => forall|i: int|
                0 <= i < written.len() ==> item_gives::<T, I::Item>(#[trigger] written[i]),
            Err(InitFromIterError::Error(e)) => item_fails::<T, I::Item>(e),
            Err(InitFromIterError::NotEnoughItems) => true,
        }
    }

    open spec fn fails(
        &self,
        before: Seq<SlotView<T>>,
        after: Seq<SlotView<T>>,
        e: InitFromIterError<<Slot<T> as Ctor<I::Item>>::Error>,
    ) -> bool {
        match e {
            InitFromIterError::NotEnoughItems => exists|k: int|
                #![trigger rolled_back_at(before, after, k)]
                0 <= k < before.len() && rolled_back_at(before, after, k) && after[k]
                    == before[k],
            InitFromIterError::Error(inner) => exists|k: int|
                #![trigger rolled_back_at(before, after, k)]
                0 <= k < before.len() && rolled_back_at(before, after, k) && slot_fails::<
                    T,
                    I::Item,
                >(before[k], after[k], inner),
        }
    }

    /// Builds slot `i` from the `i`-th item. Where the iterator behaves as a
    /// fixed sequence of items: the run is built exactly when the sequence
    /// has an item for every slot and no element fails; when the sequence is
    /// too short, `NotEnoughItems` comes back after the slots that were built
    /// have been destructed again; when an element fails, its error comes
    /// back after the same rollback.
    fn try_init_into<'brand>(self, ptr: Uninit<'brand, [Slot<T>]>) -> (r: Result<
        Init<'brand, [Slot<T>]>,
        InitFromIterError<<Slot<T> as Ctor<I::Item>>::Error>,
    >)
        ensures
            <I as IteratorSpec>::obeys_prophetic_iter_laws(&self.source()) ==> {
                let items = <I as IteratorSpec>::remaining(&self.source());
                let n = ptr.slots().len();
                match r {
                    Ok(init) => {
                        &&& items.len() >= n
                        &&& forall|j: int|
                            0 <= j < n ==> #[trigger] <Slot<T> as Ctor<I::Item>>::builds(
                                &items[j],
                                Ok(seq![values(init.slots())[j]]),
                            )
                    },
                    Err(InitFromIterError::NotEnoughItems) => {
                        &&& items.len() < n
                        &&& prefix_builds::<T, I::Item>(items, items.len() as int)
                        &&& rolled_back_at(
                            ptr.slots(),
                            final(ptr.raw()).slots(),
                            items.len() as int,
                        )
                        &&& final(ptr.raw()).slots()[items.len() as int] == ptr.slots()[items.len() as int]
                    },
                    Err(InitFromIterError::Error(e)) => exists|k: int|
                        #![trigger items[k]]
                        {
                            &&& 0 <= k < n
                            &&& k < items.len()
                            &&& prefix_builds::<T, I::Item>(items, k)
                            &&& <Slot<T> as Ctor<I::Item>>::builds(&items[k], Err(e))
                            &&& item_breaks::<T, I::Item>(
                                items[k],
                                ptr.slots()[k],
                                final(ptr.raw()).slots()[k],
                                e,
                            )
                            &&& rolled_back_at(ptr.slots(), final(ptr.raw()).slots(), k)
                        },
                }
            },
    {
        let mut iter = self.iter;
        let mut writer = SliceWriter::new(ptr);
        let ghost items = <I as IteratorSpec>::remaining(&iter);
        match fill_from_iter(&mut writer, &mut iter) {
            Ok(()) => {
                let ghost written = writer.written();
                let init = writer.finish();
                proof {
                    if <I as IteratorSpec>::obeys_prophetic_iter_laws(&self.source()) {
                        assert forall|j: int| 0 <= j < ptr.slots().len() implies #[trigger] <Slot<
                            T,
                        > as Ctor<I::Item>>::builds(
                            &items[j],
                            Ok(seq![values(init.slots())[j]]),
                        ) by {
                            assert(values(init.slots())[j] == written[0 + j]);
                        }
                    }
                }
                Ok(init)
            },
            Err(e) => {
                let ghost k = writer.count() as int;
                let ghost stopped = writer.slots();
                let ghost drawn = writer.written();
                let back = writer.abandon();
                back.release();
                proof {
                    assert(rolled_back_at(ptr.slots(), final(ptr.raw()).slots(), k));
                    assert(final(ptr.raw()).slots()[k] == stopped[k]);
                    if e is Error {
                        assert(slot_fails::<T, I::Item>(
                            ptr.slots()[k],
                            final(ptr.raw()).slots()[k],
                            e->Error_0,
                        ));
                    } else {
                        assert(stopped[k] == ptr.slots()[k]);
                    }
                    if <I as IteratorSpec>::obeys_prophetic_iter_laws(&self.source()) {
                        assert forall|j: int| 0 <= j < k implies #[trigger] <Slot<T> as Ctor<
                            I::Item,
                        >>::builds(&items[j], Ok(seq![drawn[j]])) by {
                            assert(drawn[j] == drawn[0 + j]);
                        }
                        assert(drawn.len() == k);
                        assert(prefix_builds::<T, I::Item>(items, k)) by {
                            let built: Seq<T> = drawn;
                            assert(built.len() == k && forall|j: int|
                                0 <= j < k ==> #[trigger] <Slot<T> as Ctor<I::Item>>::builds(
                                    &items[j],
                                    Ok(seq![built[j]]),
                                ));
                        }
                        if e is Error {
                            assert(<Slot<T> as Ctor<I::Item>>::builds(&items[k], Err(e->Error_0)));
                            assert(item_breaks::<T, I::Item>(
                                items[k],
                                ptr.slots()[k],
                                final(ptr.raw()).slots()[k],
                                e->Error_0,
                            ));
                        } else {
                            assert(k == items.len());
                        }
                    }
                }
                Err(e)
            },
        }
    }
}

/// A recipe for a run together with the length that the run is to have.
#[derive(Clone, Copy)]
pub struct WithLength<I = ()> {
    init: I,
    len: usize,
}

/// The number of items that a vector's iterator has left
/// (`ExactSizeIterator::len` as the standard library implements it for
/// `alloc::vec::IntoIter`, whose `size_hint` is exact, so that the call
/// cannot panic).
#[verifier::external_body]
fn vec_iter_len<T>(iter: &std::vec::IntoIter<T>) -> (n: usize)
    ensures
        n == <std::vec::IntoIter<T> as IteratorSpec>::remaining(iter).len(),
{
    iter.len()
}

impl WithLength<()> {
    /// Pairs the recipe that pulls from a vector's iterator with the number
    /// of items that the iterator has left.
    pub fn init_from_iter<T>(iter: std::vec::IntoIter<T>) -> (r: WithLength<
        InitFromIter<std::vec::IntoIter<T>>,
    >)
        ensures
            r.recipe().source() == iter,
            r.length() == <std::vec::IntoIter<T> as IteratorSpec>::remaining(&iter).len(),
    {
        let len = vec_iter_len(&iter);
        Self::from_init(len, InitFromIter { iter })
    }

    /// Pairs any recipe for a run with the length of the run.
    pub fn from_init<I>(len: usize, init: I) -> (r: WithLength<I>)
        ensures
            r.recipe() == init,
            r.length() == len,
    {
        WithLength { len, init }
    }
}

impl<I> WithLength<I> {
    /// The recipe for the run.
    pub closed spec fn recipe(&self) -> I {
        self.init
    }

    /// The length that the run is to have.
    pub closed spec fn length(&self) -> usize {
        self.len
    }

    /// The length that the run is to have.
    pub fn len(&self) -> (n: usize)
        ensures
            n == self.length(),
    {
        self.len
    }

    /// The recipe for the run.
    pub fn init(&self) -> (r: &I)
        ensures
            *r == self.recipe(),
    {
        &self.init
    }
}

/// The layout provider for runs: the layout of an array of as many elements
/// as the recipe has length, that many slots, and zero-filled where the
/// provider `L` for one element says so.
pub struct SliceLayoutProvider<L = crate::layout_provider::SizedLayoutProvider>(L);

impl<T, I: Clone, L: LayoutProvider<Slot<T>, I>> LayoutProvider<
    [Slot<T>],
    WithLength<Repeat<I>>,
> for SliceLayoutProvider<L> where Slot<T>: Ctor<I> + Region<Elem = T> {
    open spec fn count(args: &WithLength<Repeat<I>>) -> nat {
        args.length() as nat
    }

    open spec fn zeroed(args: &WithLength<Repeat<I>>) -> bool {
        L::zeroed(&args.recipe().init)
    }

    open spec fn has_layout(args: &WithLength<Repeat<I>>) -> bool {
        args.length() * size_of::<T>() <= max_size(align_of::<T>() as int)
    }

    open spec fn layout_size(args: &WithLength<Repeat<I>>) -> nat {
        (args.length() * size_of::<T>()) as nat
    }

    open spec fn layout_align(args: &WithLength<Repeat<I>>) -> nat {
        align_of::<T>()
    }

    open spec fn sound(args: &WithLength<Repeat<I>>) -> bool {
        &&& L::sound(&args.recipe().init)
        &&& L::count(&args.recipe().init) == 1
        &&& forall|c: I| args.recipe().stands_for(c) ==> c == args.recipe().init
    }

    fn layout(args: &WithLength<Repeat<I>>) -> (r: Option<Layout>) {
        Layout::array::<T>(args.len())
    }

    fn cast(ptr: usize, args: &WithLength<Repeat<I>>) -> (r: (usize, usize)) {
        (ptr, args.len())
    }

    fn is_zeroed(args: &WithLength<Repeat<I>>) -> (b: bool) {
        L::is_zeroed(&args.init().init)
    }

    fn zero_fill<'brand>(ptr: Uninit<'brand, [Slot<T>]>, args: &WithLength<Repeat<I>>) -> (r: Result<
        Init<'brand, [Slot<T>]>,
        Uninit<'brand, [Slot<T>]>,
    >) {
        let recipe = &args.init().init;
        if !L::is_zeroed(recipe) {
            return Err(ptr);
        }
        let mut ptr = ptr;
        let n = ptr.len();
        let ghost before = ptr.slots();
        let run = ptr.as_mut_ptr();
        let mut i: usize = 0;
        while i < n
            invariant
                i <= n,
                n == before.len(),
                run.slots().len() == n,
                *recipe == args.recipe().init,
                L::zeroed(recipe),
                L::sound(recipe),
                L::count(recipe) == 1,
                forall|j: int|
                    0 <= j < i ==> {
                        &&& (#[trigger] run.slots()[j]).value is Some
                        &&& run.slots()[j].built == before[j].built + 1
                        &&& run.slots()[j].dropped == before[j].dropped
                        &&& forall|w: Seq<T>| #[trigger]
                            <Slot<T> as Ctor<I>>::builds(recipe, Ok(w)) && w.len() == 1 ==> w[0]
                                == run.slots()[j].value->0
                    },
                forall|j: int| i <= j < n ==> #[trigger] run.slots()[j] == before[j],
            decreases n - i,
        {
            let ghost sofar = run.slots();
            let element = crate::ptr::slot_at(run, i);
            let filled = L::zero_fill(element, recipe);
            let ghost now = if filled is Ok {
                filled->Ok_0.slots()
            } else {
                filled->Err_0.slots()
            };
            match filled {
                Ok(built) => {
                    built.take_ownership();
                },
                Err(back) => {
                    back.release();
                },
            }
            proof {
                assert(run.slots() == sofar.update(i as int, now[0]));
                assert forall|w: Seq<T>| #[trigger]
                    <Slot<T> as Ctor<I>>::builds(recipe, Ok(w)) && w.len() == 1 implies w[0]
                    == now[0].value->0 by {
                    assert(w == values(now));
                }
                assert forall|j: int| 0 <= j < i + 1 implies {
                    &&& (#[trigger] run.slots()[j]).value is Some
                    &&& run.slots()[j].built == before[j].built + 1
                    &&& run.slots()[j].dropped == before[j].dropped
                    &&& forall|w: Seq<T>| #[trigger]
                        <Slot<T> as Ctor<I>>::builds(recipe, Ok(w)) && w.len() == 1 ==> w[0]
                            == run.slots()[j].value->0
                } by {
                    if j < i {
                        assert(run.slots()[j] == sofar[j]);
                    }
                }
            }
            i += 1;
        }
        let ghost filled = run.slots();
        proof {
            assert forall|w: Seq<T>| #[trigger]
                <[Slot<T>] as Ctor<WithLength<Repeat<I>>>>::builds(args, Ok(w)) && w.len()
                    == filled.len() implies w == values(filled) by {
                assert forall|j: int| 0 <= j < w.len() implies w[j] == values(filled)[j] by {
                    assert(Initializer::<[Slot<T>]>::yields(args, Ok(w)));
                    assert(<[Slot<T>] as Ctor<Repeat<I>>>::builds(&args.recipe(), Ok(w)));
                    assert(Initializer::<[Slot<T>]>::yields(&args.recipe(), Ok(w)));
                    let out: Result<Seq<T>, <Slot<T> as Ctor<I>>::Error> = Ok(w);
                    assert(<Repeat<I> as Initializer<[Slot<T>]>>::yields(&args.recipe(), out));
                    assert(out matches Ok(written) && written == w);
                    assert(forall|k: int|
                        0 <= k < w.len() ==> args.recipe().gives::<T>(#[trigger] w[k]));
                    assert(args.recipe().gives::<T>(w[j]));
                    let c = choose|c: I|
                        args.recipe().stands_for(c) && #[trigger] <Slot<T> as Ctor<I>>::builds(
                            &c,
                            Ok(seq![w[j]]),
                        );
                    assert(c == *recipe);
                    assert(seq![w[j]][0] == filled[j].value->0);
                }
                assert(w =~= values(filled));
            }
        }
        Ok(ptr.assume_init())
    }
}

impl<T, I> Initializer<[Slot<T>]> for WithLength<I> where [Slot<T>]: Ctor<I> + Region<Elem = T> {
    type Error = <[Slot<T>] as Ctor<I>>::Error;

    open spec fn ready(&self, before: Seq<SlotView<T>>) -> bool {
        <[Slot<T>] as Ctor<I>>::accepts(&self.recipe(), before)
    }

    open spec fn yields(&self, outcome: Result<Seq<T>, <[Slot<T>] as Ctor<I>>::Error>) -> bool {
        <[Slot<T>] as Ctor<I>>::builds(&self.recipe(), outcome)
    }

    open spec fn fails(
        &self,
        before: Seq<SlotView<T>>,
        after: Seq<SlotView<T>>,
        e: <[Slot<T>] as Ctor<I>>::Error,
    ) -> bool {
        <[Slot<T>] as Ctor<I>>::breaks(&self.recipe(), before, after, e)
    }

    /// Runs the recipe for the run: the result is that recipe's own.
    fn try_init_into<'brand>(self, ptr: Uninit<'brand, [Slot<T>]>) -> (r: Result<
        Init<'brand, [Slot<T>]>,
        <[Slot<T>] as Ctor<I>>::Error,
    >)
        ensures
            call_ensures(<[Slot<T>] as Ctor<I>>::try_init, (ptr, self.recipe()), r),
    {
        ptr.try_init(self.init)
    }
}

impl<T> Initializer<[Slot<T>]> for () where Slot<T>: Ctor<()> + Region<Elem = T> {
    type Error = <Slot<T> as Ctor<()>>::Error;

    open spec fn ready(&self, before: Seq<SlotView<T>>) -> bool {
        Initializer::<[Slot<T>]>::ready(&(Repeat { init: () }), before)
    }

    open spec fn yields(&self, outcome: Result<Seq<T>, <Slot<T> as Ctor<()>>::Error>) -> bool {
        Initializer::<[Slot<T>]>::yields(&(Repeat { init: () }), outcome)
    }

    open spec fn fails(
        &self,
        before: Seq<SlotView<T>>,
        after: Seq<SlotView<T>>,
        e: <Slot<T> as Ctor<()>>::Error,
    ) -> bool {
        Initializer::<[Slot<T>]>::fails(&(Repeat { init: () }), before, after, e)
    }

    /// Repeats the unit recipe: the result is that of [`Repeat`].
    fn try_init_into<'brand>(self, ptr: Uninit<'brand, [Slot<T>]>) -> (r: Result<
        Init<'brand, [Slot<T>]>,
        <Slot<T> as Ctor<()>>::Error,
    >)
        ensures
            call_ensures(
                <Repeat<()> as Initializer<[Slot<T>]>>::try_init_into,
                (Repeat { init: () }, ptr),
                r,
            ),
    {
        ptr.try_init(repeat(()))
    }
}

impl<'a, T: Copy, L: LayoutProvider<Slot<T>, ()>> LayoutProvider<
    [Slot<T>],
    CopyFromSlice<'a, T>,
> for SliceLayoutProvider<L> where Slot<T>: Ctor<()> + Region<Elem = T> {
    open spec fn count(args: &CopyFromSlice<'a, T>) -> nat {
        args.source().len()
    }

    open spec fn zeroed(args: &CopyFromSlice<'a, T>) -> bool {
        false
    }

    open spec fn has_layout(args: &CopyFromSlice<'a, T>) -> bool {
        args.source().len() * size_of::<T>() <= max_size(align_of::<T>() as int)
    }

    open spec fn layout_size(args: &CopyFromSlice<'a, T>) -> nat {
        (args.source().len() * size_of::<T>()) as nat
    }

    open spec fn layout_align(args: &CopyFromSlice<'a, T>) -> nat {
        align_of::<T>()
    }

    open spec fn sound(args: &CopyFromSlice<'a, T>) -> bool {
        true
    }

    fn layout(args: &CopyFromSlice<'a, T>) -> (r: Option<Layout>) {
        Layout::array::<T>(args.init.len())
    }

    fn cast(ptr: usize, args: &CopyFromSlice<'a, T>) -> (r: (usize, usize)) {
        (ptr, args.init.len())
    }

    fn is_zeroed(args: &CopyFromSlice<'a, T>) -> (b: bool) {
        false
    }

    fn zero_fill<'brand>(ptr: Uninit<'brand, [Slot<T>]>, args: &CopyFromSlice<'a, T>) -> (r: Result<
        Init<'brand, [Slot<T>]>,
        Uninit<'brand, [Slot<T>]>,
    >) {
        Err(ptr)
    }
}

impl<T, I: Iterator, L: LayoutProvider<Slot<T>, I::Item>> LayoutProvider<
    [Slot<T>],
    WithLength<InitFromIter<I>>,
> for SliceLayoutProvider<L> where Slot<T>: Ctor<I::Item> + Region<Elem = T> {
    open spec fn count(args: &WithLength<InitFromIter<I>>) -> nat {
        args.length() as nat
    }

    open spec fn zeroed(args: &WithLength<InitFromIter<I>>) -> bool {
        false
    }

    open spec fn has_layout(args: &WithLength<InitFromIter<I>>) -> bool {
        args.length() * size_of::<T>() <= max_size(align_of::<T>() as int)
    }

    open spec fn layout_size(args: &WithLength<InitFromIter<I>>) -> nat {
        (args.length() * size_of::<T>()) as nat
    }

    open spec fn layout_align(args: &WithLength<InitFromIter<I>>) -> nat {
        align_of::<T>()
    }

    open spec fn sound(args: &WithLength<InitFromIter<I>>) -> bool {
        true
    }

    fn layout(args: &WithLength<InitFromIter<I>>) -> (r: Option<Layout>) {
        Layout::array::<T>(args.len())
    }

    fn cast(ptr: usize, args: &WithLength<InitFromIter<I>>) -> (r: (usize, usize)) {
        (ptr, args.len())
    }

    fn is_zeroed(args: &WithLength<InitFromIter<I>>) -> (b: bool) {
        false
    }

    fn zero_fill<'brand>(
        ptr: Uninit<'brand, [Slot<T>]>,
        args: &WithLength<InitFromIter<I>>,
    ) -> (r: Result<Init<'brand, [Slot<T>]>, Uninit<'brand, [Slot<T>]>>) {
        Err(ptr)
    }
}

impl<T, L: LayoutProvider<Slot<T>, ()>> LayoutProvider<[Slot<T>], WithLength> for SliceLayoutProvider<
    L,
> where Slot<T>: Ctor<()> + Region<Elem = T> {
    open spec fn count(args: &WithLength) -> nat {
        args.length() as nat
    }

    open spec fn zeroed(args: &WithLength) -> bool {
        L::zeroed(&())
    }

    open spec fn has_layout(args: &WithLength) -> bool {
        args.length() * size_of::<T>() <= max_size(align_of::<T>() as int)
    }

    open spec fn layout_size(args: &WithLength) -> nat {
        (args.length() * size_of::<T>()) as nat
    }

    open spec fn layout_align(args: &WithLength) -> nat {
        align_of::<T>()
    }

    open spec fn sound(args: &WithLength) -> bool {
        L::sound(&()) && L::count(&()) == 1
    }

    fn layout(args: &WithLength) -> (r: Option<Layout>) {
        Layout::array::<T>(args.len())
    }

    fn cast(ptr: usize, args: &WithLength) -> (r: (usize, usize)) {
        (ptr, args.len())
    }

    fn is_zeroed(args: &WithLength) -> (b: bool) {
        L::is_zeroed(&())
    }

    fn zero_fill<'brand>(ptr: Uninit<'brand, [Slot<T>]>, args: &WithLength) -> (r: Result<
        Init<'brand, [Slot<T>]>,
        Uninit<'brand, [Slot<T>]>,
    >) {
        let repeated = WithLength::from_init(args.len(), repeat(()));
        let r = match <SliceLayoutProvider<L> as LayoutProvider<
            [Slot<T>],
            WithLength<Repeat<()>>,
        >>::zero_fill(ptr, &repeated) {
            Ok(filled) => filled,
            Err(back) => {
                return Err(back);
            },
        };
        proof {
            assert forall|w: Seq<T>| #[trigger]
                <[Slot<T>] as Ctor<WithLength>>::builds(args, Ok(w)) && w.len()
                    == r.slots().len() implies w == values(r.slots()) by {
                let out: Result<Seq<T>, <Slot<T> as Ctor<()>>::Error> = Ok(w);
                assert(<WithLength as Initializer<[Slot<T>]>>::yields(args, out));
                assert(<[Slot<T>] as Ctor<()>>::builds(&(), out));
                assert(<() as Initializer<[Slot<T>]>>::yields(&(), out));
                assert(<Repeat<()> as Initializer<[Slot<T>]>>::yields(&(Repeat { init: () }), out));
                assert(<[Slot<T>] as Ctor<Repeat<()>>>::builds(&repeated.recipe(), out));
                assert(<WithLength<Repeat<()>> as Initializer<[Slot<T>]>>::yields(&repeated, out));
                assert(<[Slot<T>] as Ctor<WithLength<Repeat<()>>>>::builds(&repeated, Ok(w)));
            }
        }
        Ok(r)
    }
}

impl<T, I: Clone> DefaultLayoutProviderFor<[Slot<T>]> for WithLength<Repeat<I>> where
    Slot<T>: DefaultLayoutProvider<I> + Region<Elem = T>,
 {
    type LayoutProvider = SliceLayoutProvider<<Slot<T> as DefaultLayoutProvider<I>>::LayoutProvider>;
}

impl<T, I: Iterator> DefaultLayoutProviderFor<[Slot<T>]> for WithLength<InitFromIter<I>> where
    Slot<T>: DefaultLayoutProvider<I::Item> + Region<Elem = T>,
 {
    type LayoutProvider = SliceLayoutProvider<
        <Slot<T> as DefaultLayoutProvider<I::Item>>::LayoutProvider,
    >;
}

impl<T> DefaultLayoutProviderFor<[Slot<T>]> for WithLength where
    Slot<T>: DefaultLayoutProvider<()> + Region<Elem = T>,
 {
    type LayoutProvider = SliceLayoutProvider<<Slot<T> as DefaultLayoutProvider<()>>::LayoutProvider>;
}

} // verus!
