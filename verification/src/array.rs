//! Recipes for fixed-size arrays of slots, made from recipes for runs.

use crate::layout::{max_size, Layout};
use crate::layout_provider::{DefaultLayoutProvider, DefaultLayoutProviderFor, LayoutProvider};
use crate::slice::{
    item_breaks, prefix_builds, InitFromIter, InitFromIterError, Repeat, SliceLayoutProvider,
    WithLength,
};
use crate::slot::{rolled_back_at, Region, Slot, SlotView};
use crate::{Ctor, Init, Initializer, Uninit};
use vstd::layout::{align_of, size_of};
use vstd::prelude::*;
use vstd::std_specs::iter::IteratorSpec;

verus! {

/// A recipe for an array that runs a recipe for a run on the array's slots.
#[derive(Clone, Copy)]
pub struct FromSlice<I>(pub I);

/// Makes a recipe for an array from a recipe for a run.
pub fn from_slice<I>(i: I) -> (r: FromSlice<I>)
    ensures
        r == FromSlice(i),
{
    FromSlice(i)
}

impl<T, I, const N: usize> Initializer<[Slot<T>; N]> for FromSlice<I> where
    [Slot<T>]: Ctor<I> + Region<Elem = T>,
 {
    type Error = <[Slot<T>] as Ctor<I>>::Error;

    open spec fn ready(&self, before: Seq<SlotView<T>>) -> bool {
        <[Slot<T>] as Ctor<I>>::accepts(&self.0, before)
    }

    open spec fn yields(&self, outcome: Result<Seq<T>, <[Slot<T>] as Ctor<I>>::Error>) -> bool {
        <[Slot<T>] as Ctor<I>>::builds(&self.0, outcome)
    }

    open spec fn fails(
        &self,
        before: Seq<SlotView<T>>,
        after: Seq<SlotView<T>>,
        e: <[Slot<T>] as Ctor<I>>::Error,
    ) -> bool {
        <[Slot<T>] as Ctor<I>>::breaks(&self.0, before, after, e)
    }

    /// Runs the recipe for a run on the slots of the array: the result is
    /// that recipe's own, over the same slots.
    fn try_init_into<'brand>(self, ptr: Uninit<'brand, [Slot<T>; N]>) -> (r: Result<
        Init<'brand, [Slot<T>; N]>,
        <[Slot<T>] as Ctor<I>>::Error,
    >)
        ensures
            exists|
                inner: Uninit<'brand, [Slot<T>]>,
                out: Result<Init<'brand, [Slot<T>]>, <[Slot<T>] as Ctor<I>>::Error>,
            |
                #![trigger call_ensures(<[Slot<T>] as Ctor<I>>::try_init, (inner, self.0), out)]
                {
                    &&& inner.slots() == ptr.slots()
                    &&& call_ensures(<[Slot<T>] as Ctor<I>>::try_init, (inner, self.0), out)
                    &&& match (out, r) {
                        (Ok(built), Ok(init)) => init.slots() == built.slots(),
                        (Err(inner_e), Err(e)) => inner_e == e && final(ptr.raw()).slots()
                            == final(inner.raw()).slots(),
                        _ => false,
                    }
                },
    {
        let mut ptr = ptr;
        let array = ptr.as_mut_ptr();
        let run: &mut [Slot<T>] = array;
        let inner = Uninit::from_raw(run);
        let ghost handed = inner;
        let out = inner.try_init(self.0);
        let ghost came = out;
        let r = match out {
            Ok(built) => {
                built.take_ownership();
                Ok(ptr.assume_init())
            },
            Err(e) => {
                ptr.release();
                Err(e)
            },
        };
        proof {
            assert(call_ensures(<[Slot<T>] as Ctor<I>>::try_init, (handed, self.0), came));
        }
        r
    }
}

impl<T, const N: usize> Initializer<[Slot<T>; N]> for () where
    Slot<T>: Ctor<()> + Region<Elem = T>,
 {
    type Error = <Slot<T> as Ctor<()>>::Error;

    open spec fn ready(&self, before: Seq<SlotView<T>>) -> bool {
        Initializer::<[Slot<T>]>::ready(&(), before)
    }

    open spec fn yields(&self, outcome: Result<Seq<T>, <Slot<T> as Ctor<()>>::Error>) -> bool {
        Initializer::<[Slot<T>]>::yields(&(), outcome)
    }

    open spec fn fails(
        &self,
        before: Seq<SlotView<T>>,
        after: Seq<SlotView<T>>,
        e: <Slot<T> as Ctor<()>>::Error,
    ) -> bool {
        Initializer::<[Slot<T>]>::fails(&(), before, after, e)
    }

    /// Repeats the unit recipe: the result is that of [`Repeat`].
    fn try_init_into<'brand>(self, ptr: Uninit<'brand, [Slot<T>; N]>) -> (r: Result<
        Init<'brand, [Slot<T>; N]>,
        <Slot<T> as Ctor<()>>::Error,
    >)
        ensures
            call_ensures(
                <Repeat<()> as Initializer<[Slot<T>; N]>>::try_init_into,
                (Repeat { init: () }, ptr),
                r,
            ),
    {
        Initializer::<[Slot<T>; N]>::try_init_into(Repeat { init: () }, ptr)
    }
}

impl<T, I: Clone, const N: usize> Initializer<[Slot<T>; N]> for Repeat<I> where
    Slot<T>: Ctor<I> + Region<Elem = T>,
 {
    type Error = <Slot<T> as Ctor<I>>::Error;

    open spec fn ready(&self, before: Seq<SlotView<T>>) -> bool {
        Initializer::<[Slot<T>]>::ready(self, before)
    }

    open spec fn yields(&self, outcome: Result<Seq<T>, <Slot<T> as Ctor<I>>::Error>) -> bool {
        Initializer::<[Slot<T>]>::yields(self, outcome)
    }

    open spec fn fails(
        &self,
        before: Seq<SlotView<T>>,
        after: Seq<SlotView<T>>,
        e: <Slot<T> as Ctor<I>>::Error,
    ) -> bool {
        Initializer::<[Slot<T>]>::fails(self, before, after, e)
    }

    /// Builds the slots of the array as [`Repeat`] builds a run: each slot
    /// but the last from a clone of the recipe, the last from the recipe
    /// itself, with the same rollback at the first element that fails.
    fn try_init_into<'brand>(self, ptr: Uninit<'brand, [Slot<T>; N]>) -> (r: Result<
        Init<'brand, [Slot<T>; N]>,
        <Slot<T> as Ctor<I>>::Error,
    >)
        ensures
            N == 0 ==> r is Ok,
            r matches Ok(init) ==> forall|j: int|
                0 <= j < N - 1 ==> self.clone_gives::<T>(
                    #[trigger] crate::slot::values(init.slots())[j],
                ),
            r matches Ok(init) ==> (N > 0 ==> <Slot<T> as Ctor<I>>::builds(
                &self.recipe(),
                Ok(seq![crate::slot::values(init.slots()).last()]),
            )),
            r is Err ==> exists|k: int|
                #![trigger rolled_back_at(ptr.slots(), final(ptr.raw()).slots(), k)]
                0 <= k < N && rolled_back_at(ptr.slots(), final(ptr.raw()).slots(), k),
    {
        let mut ptr = ptr;
        let array = ptr.as_mut_ptr();
        let run: &mut [Slot<T>] = array;
        match Initializer::<[Slot<T>]>::try_init_into(self, Uninit::from_raw(run)) {
            Ok(built) => {
                built.take_ownership();
                Ok(ptr.assume_init())
            },
            Err(e) => {
                ptr.release();
                Err(e)
            },
        }
    }
}

impl<T, I: Iterator, const N: usize> Initializer<[Slot<T>; N]> for InitFromIter<I> where
    Slot<T>: Ctor<I::Item> + Region<Elem = T>,
 {
    type Error = InitFromIterError<<Slot<T> as Ctor<I::Item>>::Error>;

    open spec fn ready(&self, before: Seq<SlotView<T>>) -> bool {
        Initializer::<[Slot<T>]>::ready(self, before)
    }

    open spec fn yields(
        &self,
        outcome: Result<Seq<T>, InitFromIterError<<Slot<T> as Ctor<I::Item>>::Error>>,
    ) -> bool {
        Initializer::<[Slot<T>]>::yields(self, outcome)
    }

    open spec fn fails(
        &self,
        before: Seq<SlotView<T>>,
        after: Seq<SlotView<T>>,
        e: InitFromIterError<<Slot<T> as Ctor<I::Item>>::Error>,
    ) -> bool {
        Initializer::<[Slot<T>]>::fails(self, before, after, e)
    }

    /// Builds slot `i` of the array from the `i`-th item, as the recipe does
    /// for a run of `N` slots. Where the iterator behaves as a fixed sequence
    /// of items: the array is built exactly when the sequence has an item for
    /// every slot and no element fails; when the sequence is too short,
    /// `NotEnoughItems` comes back after the slots that were built have been
    /// destructed again; when an element fails, its error comes back after
    /// the same rollback.
    fn try_init_into<'brand>(self, ptr: Uninit<'brand, [Slot<T>; N]>) -> (r: Result<
        Init<'brand, [Slot<T>; N]>,
        InitFromIterError<<Slot<T> as Ctor<I::Item>>::Error>,
    >)
        ensures
            <I as IteratorSpec>::obeys_prophetic_iter_laws(&self.source()) ==> {
                let items = <I as IteratorSpec>::remaining(&self.source());
                match r {
                    Ok(init) => {
                        &&& items.len() >= N
                        &&& forall|j: int|
                            0 <= j < N ==> #[trigger] <Slot<T> as Ctor<I::Item>>::builds(
                                &items[j],
                                Ok(seq![crate::slot::values(init.slots())[j]]),
                            )
                    },
                    Err(InitFromIterError::NotEnoughItems) => {
                        &&& items.len() < N
                        &&& prefix_builds::<T, I::Item>(items, items.len() as int)
                        &&& rolled_back_at(
                            ptr.slots(),
                            final(ptr.raw()).slots(),
                            items.len() as int,
                        )
                        &&& final(ptr.raw()).slots()[items.len() as int] == ptr.slots()[items.len() as int]
                    },
                    Err(InitFromIterError::Error(e)) => exists|k: int|
                        #![trigger items[k]]
                        {
                            &&& 0 <= k < N
                            &&& k < items.len()
                            &&& prefix_builds::<T, I::Item>(items, k)
                            &&& <Slot<T> as Ctor<I::Item>>::builds(&items[k], Err(e))
                            &&& item_breaks::<T, I::Item>(
                                items[k],
                                ptr.slots()[k],
                                final(ptr.raw()).slots()[k],
                                e,
                            )
                            &&& rolled_back_at(ptr.slots(), final(ptr.raw()).slots(), k)
                        },
                }
            },
    {
        let mut ptr = ptr;
        let array = ptr.as_mut_ptr();
        let run: &mut [Slot<T>] = array;
        match Initializer::<[Slot<T>]>::try_init_into(self, Uninit::from_raw(run)) {
            Ok(built) => {
                built.take_ownership();
                Ok(ptr.assume_init())
            },
            Err(e) => {
                ptr.release();
                Err(e)
            },
        }
    }
}

/// The layout provider for arrays: the layout of `N` elements, `N` slots,
/// and zero-filled where the provider `L` for the run says so.
pub struct ArrayLayoutProvider<L = crate::layout_provider::SizedLayoutProvider>(L);

impl<T, I, L: LayoutProvider<[Slot<T>], I>, const N: usize> LayoutProvider<
    [Slot<T>; N],
    FromSlice<I>,
> for ArrayLayoutProvider<L> where [Slot<T>]: Ctor<I> + Region<Elem = T> {
    open spec fn count(args: &FromSlice<I>) -> nat {
        N as nat
    }

    open spec fn zeroed(args: &FromSlice<I>) -> bool {
        L::zeroed(&args.0)
    }

    open spec fn has_layout(args: &FromSlice<I>) -> bool {
        N * size_of::<T>() <= max_size(align_of::<T>() as int)
    }

    open spec fn layout_size(args: &FromSlice<I>) -> nat {
        (N * size_of::<T>()) as nat
    }

    open spec fn layout_align(args: &FromSlice<I>) -> nat {
        align_of::<T>()
    }

    open spec fn sound(args: &FromSlice<I>) -> bool {
        L::sound(&args.0) && L::count(&args.0) == N
    }

    fn layout(args: &FromSlice<I>) -> (r: Option<Layout>) {
        Layout::array::<T>(N)
    }

    fn cast(ptr: usize, args: &FromSlice<I>) -> (r: (usize, usize)) {
        (ptr, N)
    }

    fn is_zeroed(args: &FromSlice<I>) -> (b: bool) {
        L::is_zeroed(&args.0)
    }

    fn zero_fill<'brand>(ptr: Uninit<'brand, [Slot<T>; N]>, args: &FromSlice<I>) -> (r: Result<
        Init<'brand, [Slot<T>; N]>,
        Uninit<'brand, [Slot<T>; N]>,
    >) {
        if !L::is_zeroed(&args.0) {
            return Err(ptr);
        }
        let mut ptr = ptr;
        let array = ptr.as_mut_ptr();
        let run: &mut [Slot<T>] = array;
        match L::zero_fill(Uninit::from_raw(run), &args.0) {
            Ok(filled) => {
                filled.take_ownership();
            },
            Err(back) => {
                back.release();
                return Err(ptr);
            },
        }
        let r = ptr.assume_init();
        proof {
            assert forall|w: Seq<T>| #[trigger]
                <[Slot<T>; N] as Ctor<FromSlice<I>>>::builds(args, Ok(w)) && w.len()
                    == r.slots().len() implies w == crate::slot::values(r.slots()) by {
                let out: Result<Seq<T>, <[Slot<T>] as Ctor<I>>::Error> = Ok(w);
                assert(<FromSlice<I> as Initializer<[Slot<T>; N]>>::yields(args, out));
                assert(<[Slot<T>] as Ctor<I>>::builds(&args.0, out));
            }
        }
        Ok(r)
    }
}

impl<T, I: Clone, L: LayoutProvider<Slot<T>, I>, const N: usize> LayoutProvider<
    [Slot<T>; N],
    Repeat<I>,
> for ArrayLayoutProvider<L> where Slot<T>: Ctor<I> + Region<Elem = T> {
    open spec fn count(args: &Repeat<I>) -> nat {
        N as nat
    }

    open spec fn zeroed(args: &Repeat<I>) -> bool {
        L::zeroed(&args.init)
    }

    open spec fn has_layout(args: &Repeat<I>) -> bool {
        N * size_of::<T>() <= max_size(align_of::<T>() as int)
    }

    open spec fn layout_size(args: &Repeat<I>) -> nat {
        (N * size_of::<T>()) as nat
    }

    open spec fn layout_align(args: &Repeat<I>) -> nat {
        align_of::<T>()
    }

    open spec fn sound(args: &Repeat<I>) -> bool {
        &&& L::sound(&args.init)
        &&& L::count(&args.init) == 1
        &&& forall|c: I| args.stands_for(c) ==> c == args.init
    }

    fn layout(args: &Repeat<I>) -> (r: Option<Layout>) {
        Layout::array::<T>(N)
    }

    fn cast(ptr: usize, args: &Repeat<I>) -> (r: (usize, usize)) {
        (ptr, N)
    }

    fn is_zeroed(args: &Repeat<I>) -> (b: bool) {
        L::is_zeroed(&args.init)
    }

    fn zero_fill<'brand>(ptr: Uninit<'brand, [Slot<T>; N]>, args: &Repeat<I>) -> (r: Result<
        Init<'brand, [Slot<T>; N]>,
        Uninit<'brand, [Slot<T>; N]>,
    >) {
        if !L::is_zeroed(&args.init) {
            return Err(ptr);
        }
        let copy = args.init.clone();
        assert(args.stands_for(copy));
        let repeated = WithLength::from_init(N, crate::slice::repeat(copy));
        let mut ptr = ptr;
        let array = ptr.as_mut_ptr();
        let run: &mut [Slot<T>] = array;
        match <SliceLayoutProvider<L> as LayoutProvider<
            [Slot<T>],
            WithLength<Repeat<I>>,
        >>::zero_fill(Uninit::from_raw(run), &repeated) {
            Ok(filled) => {
                filled.take_ownership();
            },
            Err(back) => {
                back.release();
            },
        }
        let r = ptr.assume_init();
        proof {
            assert forall|w: Seq<T>| #[trigger]
                <[Slot<T>; N] as Ctor<Repeat<I>>>::builds(args, Ok(w)) && w.len()
                    == r.slots().len() implies w == crate::slot::values(r.slots()) by {
                let out: Result<Seq<T>, <Slot<T> as Ctor<I>>::Error> = Ok(w);
                assert(<Repeat<I> as Initializer<[Slot<T>; N]>>::yields(args, out));
                assert(<Repeat<I> as Initializer<[Slot<T>]>>::yields(args, out));
                assert(repeated.recipe() == *args);
                assert(<[Slot<T>] as Ctor<Repeat<I>>>::builds(&repeated.recipe(), out));
                assert(<WithLength<Repeat<I>> as Initializer<[Slot<T>]>>::yields(&repeated, out));
                assert(<[Slot<T>] as Ctor<WithLength<Repeat<I>>>>::builds(&repeated, Ok(w)));
            }
        }
        Ok(r)
    }
}

impl<T, I: Iterator, L: LayoutProvider<Slot<T>, I::Item>, const N: usize> LayoutProvider<
    [Slot<T>; N],
    InitFromIter<I>,
> for ArrayLayoutProvider<L> where Slot<T>: Ctor<I::Item> + Region<Elem = T> {
    open spec fn count(args: &InitFromIter<I>) -> nat {
        N as nat
    }

    open spec fn zeroed(args: &InitFromIter<I>) -> bool {
        false
    }

    open spec fn has_layout(args: &InitFromIter<I>) -> bool {
        N * size_of::<T>() <= max_size(align_of::<T>() as int)
    }

    open spec fn layout_size(args: &InitFromIter<I>) -> nat {
        (N * size_of::<T>()) as nat
    }

    open spec fn layout_align(args: &InitFromIter<I>) -> nat {
        align_of::<T>()
    }

    open spec fn sound(args: &InitFromIter<I>) -> bool {
        true
    }

    fn layout(args: &InitFromIter<I>) -> (r: Option<Layout>) {
        Layout::array::<T>(N)
    }

    fn cast(ptr: usize, args: &InitFromIter<I>) -> (r: (usize, usize)) {
        (ptr, N)
    }

    fn is_zeroed(args: &InitFromIter<I>) -> (b: bool) {
        false
    }

    fn zero_fill<'brand>(ptr: Uninit<'brand, [Slot<T>; N]>, args: &InitFromIter<I>) -> (r: Result<
        Init<'brand, [Slot<T>; N]>,
        Uninit<'brand, [Slot<T>; N]>,
    >) {
        Err(ptr)
    }
}

impl<T, L: LayoutProvider<Slot<T>, ()>, const N: usize> LayoutProvider<
    [Slot<T>; N],
    (),
> for ArrayLayoutProvider<L> where Slot<T>: Ctor<()> + Region<Elem = T> {
    open spec fn count(args: &()) -> nat {
        N as nat
    }

    open spec fn zeroed(args: &()) -> bool {
        L::zeroed(&())
    }

    open spec fn has_layout(args: &()) -> bool {
        N * size_of::<T>() <= max_size(align_of::<T>() as int)
    }

    open spec fn layout_size(args: &()) -> nat {
        (N * size_of::<T>()) as nat
    }

    open spec fn layout_align(args: &()) -> nat {
        align_of::<T>()
    }

    open spec fn sound(args: &()) -> bool {
        L::sound(&()) && L::count(&()) == 1
    }

    fn layout(args: &()) -> (r: Option<Layout>) {
        Layout::array::<T>(N)
    }

    fn cast(ptr: usize, args: &()) -> (r: (usize, usize)) {
        (ptr, N)
    }

    fn is_zeroed(args: &()) -> (b: bool) {
        L::is_zeroed(&())
    }

    fn zero_fill<'brand>(ptr: Uninit<'brand, [Slot<T>; N]>, args: &()) -> (r: Result<
        Init<'brand, [Slot<T>; N]>,
        Uninit<'brand, [Slot<T>; N]>,
    >) {
        let repeated = Repeat { init: () };
        let r = match <ArrayLayoutProvider<L> as LayoutProvider<
            [Slot<T>; N],
            Repeat<()>,
        >>::zero_fill(ptr, &repeated) {
            Ok(filled) => filled,
            Err(back) => {
                return Err(back);
            },
        };
        proof {
            assert forall|w: Seq<T>| #[trigger]
                <[Slot<T>; N] as Ctor<()>>::builds(args, Ok(w)) && w.len() == r.slots().len()
                implies w == crate::slot::values(r.slots()) by {
                let out: Result<Seq<T>, <Slot<T> as Ctor<()>>::Error> = Ok(w);
                assert(<() as Initializer<[Slot<T>; N]>>::yields(args, out));
                assert(<() as Initializer<[Slot<T>]>>::yields(&(), out));
                assert(<Repeat<()> as Initializer<[Slot<T>]>>::yields(&repeated, out));
                assert(<Repeat<()> as Initializer<[Slot<T>; N]>>::yields(&repeated, out));
                assert(<[Slot<T>; N] as Ctor<Repeat<()>>>::builds(&repeated, Ok(w)));
            }
        }
        Ok(r)
    }
}

impl<T, I, const N: usize> DefaultLayoutProviderFor<[Slot<T>; N]> for FromSlice<I> where
    [Slot<T>]: DefaultLayoutProvider<I> + Region<Elem = T>,
 {
    type LayoutProvider = ArrayLayoutProvider<<[Slot<T>] as DefaultLayoutProvider<I>>::LayoutProvider>;
}

impl<T, I: Clone, const N: usize> DefaultLayoutProviderFor<[Slot<T>; N]> for Repeat<I> where
    Slot<T>: DefaultLayoutProvider<I> + Region<Elem = T>,
 {
    type LayoutProvider = ArrayLayoutProvider<<Slot<T> as DefaultLayoutProvider<I>>::LayoutProvider>;
}

impl<T, I: Iterator, const N: usize> DefaultLayoutProviderFor<[Slot<T>; N]> for InitFromIter<
    I,
> where Slot<T>: DefaultLayoutProvider<I::Item> + Region<Elem = T> {
    type LayoutProvider = ArrayLayoutProvider<
        <Slot<T> as DefaultLayoutProvider<I::Item>>::LayoutProvider,
    >;
}

impl<T, const N: usize> DefaultLayoutProviderFor<[Slot<T>; N]> for () where
    Slot<T>: DefaultLayoutProvider<()> + Region<Elem = T>,
 {
    type LayoutProvider = ArrayLayoutProvider<<Slot<T> as DefaultLayoutProvider<()>>::LayoutProvider>;
}

} // verus!
