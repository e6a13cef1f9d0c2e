//! From construction arguments to the memory they need: how large the region
//! is, how many slots it has, and whether filling it with zero bytes already
//! is the construction.

use crate::layout::Layout;
use crate::slot::{constructed, values, Region, Slot};
use crate::{Ctor, Init, Uninit};
use vstd::layout::{align_of, size_of};
use vstd::prelude::*;

verus! {

/// A type with a value whose bytes are all zero.
pub trait Zeroable: Sized {
    /// Whether `self` is the value whose bytes are all zero.
    spec fn is_zero(&self) -> bool;

    /// The value whose bytes are all zero.
    fn zeroed() -> (r: Self)
        ensures
            r.is_zero(),
    ;

    /// Whether `self` is the value whose bytes are all zero.
    fn check_zero(&self) -> (b: bool)
        ensures
            b == self.is_zero(),
    ;

    /// There is one such value.
    proof fn lemma_one_zero(a: Self, b: Self)
        requires
            a.is_zero(),
            b.is_zero(),
        ensures
            a == b,
    ;
}

/// Says, for regions of shape `S` built from `Args`, how much memory to get,
/// how many slots that memory has, and when zero-filled memory needs no
/// construction at all.
pub trait LayoutProvider<S: ?Sized + Ctor<Args>, Args> {
    /// The number of slots of the region that `args` asks for.
    spec fn count(args: &Args) -> nat;

    /// Whether construction from `args` does nothing but write zero bytes.
    spec fn zeroed(args: &Args) -> bool;

    /// Whether `args` determine a layout.
    spec fn has_layout(args: &Args) -> bool;

    /// The size in bytes of the layout that `args` determine.
    spec fn layout_size(args: &Args) -> nat;

    /// The alignment in bytes of the layout that `args` determine.
    spec fn layout_align(args: &Args) -> nat;

    /// The size and alignment of the memory for the region, or none where the
    /// arguments do not determine them. The memory has room for every slot.
    fn layout(args: &Args) -> (r: Option<Layout>)
        ensures
            r is Some == <Self as LayoutProvider<S, Args>>::has_layout(args),
            r matches Some(l) ==> {
                &&& l.size() == <Self as LayoutProvider<S, Args>>::layout_size(args)
                &&& l.align() == <Self as LayoutProvider<S, Args>>::layout_align(args)
                &&& l.size() >= <Self as LayoutProvider<S, Args>>::count(args) * size_of::<S::Elem>()
                &&& l.align() >= align_of::<S::Elem>()
            },
    ;

    /// Turns the address of untyped memory into the address and the slot
    /// count of the region: this is where a length is attached.
    fn cast(ptr: usize, args: &Args) -> (r: (usize, usize))
        ensures
            r.0 == ptr,
            r.1 == <Self as LayoutProvider<S, Args>>::count(args),
    ;

    /// Whether construction from `args` does nothing but write zero bytes.
    /// The answer depends on the arguments alone.
    fn is_zeroed(args: &Args) -> (b: bool)
        ensures
            b == <Self as LayoutProvider<S, Args>>::zeroed(args),
    ;

    /// What has to hold of `args`, beyond [`LayoutProvider::zeroed`], for the
    /// zero-fill shortcut to be taken: whatever the answer of `is_zeroed`
    /// cannot check at run time.
    spec fn sound(args: &Args) -> bool;

    /// Stands for memory that was obtained zero-filled. Where zero bytes are
    /// the whole construction from `args`, every slot is given the value that
    /// zero bytes are, and construction from `args` could not have written
    /// anything else. Otherwise the region comes back untouched.
    fn zero_fill<'brand>(ptr: Uninit<'brand, S>, args: &Args) -> (r: Result<
        Init<'brand, S>,
        Uninit<'brand, S>,
    >)
        requires
            <Self as LayoutProvider<S, Args>>::zeroed(args) ==> <Self as LayoutProvider<
                S,
                Args,
            >>::sound(args),
            ptr.slots().len() == <Self as LayoutProvider<S, Args>>::count(args),
        ensures
            r is Ok == <Self as LayoutProvider<S, Args>>::zeroed(args),
            r matches Ok(init) ==> {
                &&& final(init.raw()).slots() == final(ptr.raw()).slots()
                &&& constructed(ptr.slots(), init.slots())
                &&& forall|w: Seq<S::Elem>| #[trigger]
                    S::builds(args, Ok(w)) && w.len() == init.slots().len() ==> w == values(
                        init.slots(),
                    )
            },
            r matches Err(back) ==> {
                &&& final(back.raw()).slots() == final(ptr.raw()).slots()
                &&& back.slots() == ptr.slots()
            },
    ;
}

/// Names the layout provider to use for a recipe of type `Self` by default.
pub trait DefaultLayoutProviderFor<S: ?Sized + Ctor<Self>>: Sized {
    /// The layout provider.
    type LayoutProvider: LayoutProvider<S, Self>;
}

/// Names the layout provider to use for a region of shape `Self` by default.
pub trait DefaultLayoutProvider<I>: Ctor<I> {
    /// The layout provider.
    type LayoutProvider: LayoutProvider<Self, I>;
}

impl<S: ?Sized + Ctor<I>, I: DefaultLayoutProviderFor<S>> DefaultLayoutProvider<I> for S {
    type LayoutProvider = I::LayoutProvider;
}

/// The layout provider for single values: the layout of the value's type, one
/// slot, never zero-filled.
pub struct SizedLayoutProvider;

impl<T, Args> LayoutProvider<Slot<T>, Args> for SizedLayoutProvider where
    Slot<T>: Ctor<Args> + Region<Elem = T>,
 {
    open spec fn count(args: &Args) -> nat {
        1
    }

    open spec fn zeroed(args: &Args) -> bool {
        false
    }

    fn layout(args: &Args) -> (r: Option<Layout>)
        ensures
            r matches Some(l) && l.size() == size_of::<T>() && l.align() == align_of::<T>(),
    {
        Some(Layout::new::<T>())
    }

    fn cast(ptr: usize, args: &Args) -> (r: (usize, usize)) {
        (ptr, 1)
    }

    fn is_zeroed(args: &Args) -> (b: bool) {
        false
    }

    open spec fn sound(args: &Args) -> bool {
        true
    }

    open spec fn has_layout(args: &Args) -> bool {
        true
    }

    open spec fn layout_size(args: &Args) -> nat {
        size_of::<T>()
    }

    open spec fn layout_align(args: &Args) -> nat {
        align_of::<T>()
    }

    fn zero_fill<'brand>(ptr: Uninit<'brand, Slot<T>>, args: &Args) -> (r: Result<
        Init<'brand, Slot<T>>,
        Uninit<'brand, Slot<T>>,
    >) {
        Err(ptr)
    }
}

} // verus!
