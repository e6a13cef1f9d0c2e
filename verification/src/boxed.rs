//! Building a region directly inside a fresh heap allocation.

use crate::layout_provider::{DefaultLayoutProvider, LayoutProvider};
use crate::slot::{live, values, Region, Slot, SlotView};
use crate::{Ctor, Uninit};
use core::convert::Infallible;
use vstd::prelude::*;

verus! {

/// Every slot is empty and has never held a value.
pub open spec fn fresh<T>(s: Seq<SlotView<T>>) -> bool {
    forall|i: int|
        0 <= i < s.len() ==> #[trigger] s[i] == (SlotView::<T> {
            value: None,
            built: 0,
            dropped: 0,
        })
}

/// Turns a vector into a boxed slice with the same elements in the same
/// order (`Vec::into_boxed_slice` of the standard library).
#[verifier::external_body]
fn into_boxed_slice<T>(v: Vec<T>) -> (b: Box<[T]>)
    ensures
        b@ == v@,
{
    v.into_boxed_slice()
}

/// A shape of region that can be obtained from the heap.
pub trait Boxable: Region {
    /// Whether a region of this shape can have `count` slots.
    spec fn fits(count: nat) -> bool;

    /// A fresh region of `count` slots on the heap, where the shape allows
    /// that count.
    fn obtain(count: usize) -> (r: Option<Box<Self>>)
        ensures
            r is Some == Self::fits(count as nat),
            r matches Some(b) ==> b.slots().len() == count && fresh(b.slots()),
    ;
}

impl<T> Boxable for Slot<T> {
    open spec fn fits(count: nat) -> bool {
        count == 1
    }

    fn obtain(count: usize) -> (r: Option<Box<Self>>) {
        if count == 1 {
            let b = Box::new(Slot::new());
            assert(b.slots()[0] == b@);
            Some(b)
        } else {
            None
        }
    }
}

impl<T> Boxable for [Slot<T>] {
    open spec fn fits(count: nat) -> bool {
        true
    }

    fn obtain(count: usize) -> (r: Option<Box<Self>>) {
        let run = Slot::run(count);
        let b = into_boxed_slice(run);
        assert forall|i: int| 0 <= i < b.slots().len() implies #[trigger] b.slots()[i] == (
        SlotView::<T> { value: None, built: 0, dropped: 0 }) by {
            assert(b.slots()[i] == run[i]@);
        }
        Some(b)
    }
}

/// Takes a boxed slice of exactly `N` elements as a boxed array
/// (`TryFrom<Box<[T]>>` for `Box<[T; N]>` of the standard library): the same
/// elements in the same order.
#[verifier::external_body]
fn into_boxed_array<T, const N: usize>(b: Box<[T]>) -> (r: Box<[T; N]>)
    requires
        b@.len() == N,
    ensures
        r@ == b@,
{
    let converted: Result<Box<[T; N]>, Box<[T]>> = b.try_into();
    converted.ok().unwrap()
}

impl<T, const N: usize> Boxable for [Slot<T>; N] {
    open spec fn fits(count: nat) -> bool {
        count == N
    }

    fn obtain(count: usize) -> (r: Option<Box<Self>>) {
        if count == N {
            let run = Slot::run(N);
            let b = into_boxed_array::<Slot<T>, N>(into_boxed_slice(run));
            assert forall|i: int| 0 <= i < b.slots().len() implies #[trigger] b.slots()[i] == (
            SlotView::<T> { value: None, built: 0, dropped: 0 }) by {
                assert(b.slots()[i] == run[i]@);
            }
            Some(b)
        } else {
            None
        }
    }
}

/// Builds a region from `init` inside a fresh heap allocation, with the
/// layout provider `L`. Where `L` says that zero bytes are the whole
/// construction, the memory is taken zero-filled and `init` is not run.
/// Otherwise `init` is run on the memory; if it fails, the memory is given
/// back before the error is returned.
pub fn try_boxed_with<S, I, L>(init: I) -> (r: Result<Box<S>, S::Error>) where
    S: ?Sized + Ctor<I> + Boxable,
    L: LayoutProvider<S, I>,

    requires
        L::has_layout(&init),
        S::fits(L::count(&init)),
        L::zeroed(&init) ==> L::sound(&init),
        forall|before: Seq<SlotView<S::Elem>>|
            before.len() == L::count(&init) && fresh(before) ==> #[trigger] S::accepts(
                &init,
                before,
            ),
    ensures
        match r {
            Ok(bx) => {
                &&& bx.slots().len() == L::count(&init)
                &&& live(bx.slots())
                &&& forall|i: int|
                    0 <= i < bx.slots().len() ==> (#[trigger] bx.slots()[i]).built == 1
                        && bx.slots()[i].dropped == 0
                &&& if L::zeroed(&init) {
                    forall|w: Seq<S::Elem>| #[trigger]
                        S::builds(&init, Ok(w)) && w.len() == bx.slots().len() ==> w == values(
                            bx.slots(),
                        )
                } else {
                    S::builds(&init, Ok(values(bx.slots())))
                }
            },
            Err(e) => !L::zeroed(&init) && S::builds(&init, Err(e)),
        },
{
    let layout = L::layout(&init).unwrap();
    let is_zeroed = L::is_zeroed(&init);
    let (_, count) = L::cast(layout.align(), &init);
    let mut bx = S::obtain(count).unwrap();
    let ptr = Uninit::from_raw(&mut *bx);
    let ptr = if is_zeroed {
        match L::zero_fill(ptr, &init) {
            Ok(filled) => {
                filled.take_ownership();
                return Ok(bx);
            },
            Err(back) => back,
        }
    } else {
        ptr
    };
    match ptr.try_init(init) {
        Ok(built) => {
            built.take_ownership();
        },
        Err(e) => {
            return Err(e);
        },
    }
    Ok(bx)
}

/// Builds a region from `init`, which cannot fail, inside a fresh heap
/// allocation, with the layout provider `L`.
pub fn boxed_with<S, I, L>(init: I) -> (bx: Box<S>) where
    S: ?Sized + Ctor<I, Error = Infallible> + Boxable,
    L: LayoutProvider<S, I>,

    requires
        L::has_layout(&init),
        S::fits(L::count(&init)),
        L::zeroed(&init) ==> L::sound(&init),
        forall|before: Seq<SlotView<S::Elem>>|
            before.len() == L::count(&init) && fresh(before) ==> #[trigger] S::accepts(
                &init,
                before,
            ),
        forall|e: Infallible| !S::builds(&init, Err(e)),
    ensures
        ({
                &&& bx.slots().len() == L::count(&init)
                &&& live(bx.slots())
                &&& forall|i: int|
                    0 <= i < bx.slots().len() ==> (#[trigger] bx.slots()[i]).built == 1
                        && bx.slots()[i].dropped == 0
                &&& if L::zeroed(&init) {
                    forall|w: Seq<S::Elem>| #[trigger]
                        S::builds(&init, Ok(w)) && w.len() == bx.slots().len() ==> w == values(
                            bx.slots(),
                        )
                } else {
                    S::builds(&init, Ok(values(bx.slots())))
                }
        }),
{
    try_boxed_with::<S, I, L>(init).unwrap()
}

/// Builds a region from `init` inside a fresh heap allocation, with the
/// layout provider that the recipe names by default.
pub fn try_boxed<S, I>(init: I) -> (r: Result<Box<S>, S::Error>) where
    S: ?Sized + Ctor<I> + Boxable + DefaultLayoutProvider<I>,

    requires
        <<S as DefaultLayoutProvider<I>>::LayoutProvider as LayoutProvider<S, I>>::has_layout(&init),
        S::fits(<<S as DefaultLayoutProvider<I>>::LayoutProvider as LayoutProvider<S, I>>::count(&init)),
        <<S as DefaultLayoutProvider<I>>::LayoutProvider as LayoutProvider<S, I>>::zeroed(&init) ==> <<S as DefaultLayoutProvider<I>>::LayoutProvider as LayoutProvider<S, I>>::sound(&init),
        forall|before: Seq<SlotView<S::Elem>>|
            before.len() == <<S as DefaultLayoutProvider<I>>::LayoutProvider as LayoutProvider<S, I>>::count(&init) && fresh(before) ==> #[trigger] S::accepts(
                &init,
                before,
            ),
    ensures
        match r {
            Ok(bx) => {
                &&& bx.slots().len() == <<S as DefaultLayoutProvider<I>>::LayoutProvider as LayoutProvider<S, I>>::count(&init)
                &&& live(bx.slots())
                &&& forall|i: int|
                    0 <= i < bx.slots().len() ==> (#[trigger] bx.slots()[i]).built == 1
                        && bx.slots()[i].dropped == 0
                &&& if <<S as DefaultLayoutProvider<I>>::LayoutProvider as LayoutProvider<S, I>>::zeroed(&init) {
                    forall|w: Seq<S::Elem>| #[trigger]
                        S::builds(&init, Ok(w)) && w.len() == bx.slots().len() ==> w == values(
                            bx.slots(),
                        )
                } else {
                    S::builds(&init, Ok(values(bx.slots())))
                }
            },
            Err(e) => !<<S as DefaultLayoutProvider<I>>::LayoutProvider as LayoutProvider<S, I>>::zeroed(&init) && S::builds(&init, Err(e)),
        },
{
    try_boxed_with::<S, I, <S as DefaultLayoutProvider<I>>::LayoutProvider>(init)
}

/// Builds a region from `init`, which cannot fail, inside a fresh heap
/// allocation, with the layout provider that the recipe names by default.
pub fn boxed<S, I>(init: I) -> (bx: Box<S>) where
    S: ?Sized + Ctor<I, Error = Infallible> + Boxable + DefaultLayoutProvider<I>,

    requires
        <<S as DefaultLayoutProvider<I>>::LayoutProvider as LayoutProvider<S, I>>::has_layout(&init),
        S::fits(<<S as DefaultLayoutProvider<I>>::LayoutProvider as LayoutProvider<S, I>>::count(&init)),
        <<S as DefaultLayoutProvider<I>>::LayoutProvider as LayoutProvider<S, I>>::zeroed(&init) ==> <<S as DefaultLayoutProvider<I>>::LayoutProvider as LayoutProvider<S, I>>::sound(&init),
        forall|before: Seq<SlotView<S::Elem>>|
            before.len() == <<S as DefaultLayoutProvider<I>>::LayoutProvider as LayoutProvider<S, I>>::count(&init) && fresh(before) ==> #[trigger] S::accepts(
                &init,
                before,
            ),
        forall|e: Infallible| !S::builds(&init, Err(e)),
    ensures
        ({
                &&& bx.slots().len() == <<S as DefaultLayoutProvider<I>>::LayoutProvider as LayoutProvider<S, I>>::count(&init)
                &&& live(bx.slots())
                &&& forall|i: int|
                    0 <= i < bx.slots().len() ==> (#[trigger] bx.slots()[i]).built == 1
                        && bx.slots()[i].dropped == 0
                &&& if <<S as DefaultLayoutProvider<I>>::LayoutProvider as LayoutProvider<S, I>>::zeroed(&init) {
                    forall|w: Seq<S::Elem>| #[trigger]
                        S::builds(&init, Ok(w)) && w.len() == bx.slots().len() ==> w == values(
                            bx.slots(),
                        )
                } else {
                    S::builds(&init, Ok(values(bx.slots())))
                }
        }),
{
    try_boxed_with::<S, I, <S as DefaultLayoutProvider<I>>::LayoutProvider>(init).unwrap()
}

} // verus!
