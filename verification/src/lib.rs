//! In-place construction of values inside caller-owned memory regions.
//!
//! A caller owns a region of [`slot::Slot`]s. It wraps the region in an
//! [`Uninit`] handle and hands that, with construction arguments, to a
//! constructor ([`Ctor`]) or a recipe ([`Initializer`]). What comes back is an
//! [`Init`] handle, which stands for a region in which every slot is live.

use vstd::prelude::*;

pub mod array;
pub mod boxed;
pub mod converters;
pub mod from_fn;
pub mod iter;
pub mod layout;
pub mod layout_provider;
pub mod pin_ptr;
mod primitive;
pub mod ptr;
pub mod self_ref;
pub mod slice;
pub mod slice_tail;
pub mod slice_writer;
pub mod slot;
pub mod thin;
pub mod vec;

pub use primitive::PrimitiveLayoutProvider;
pub use ptr::{Init, Uninit};
use slot::{constructed, rolled_back, values, Region, SlotView};

verus! {

/// A constructor: says how to build a region of this shape in place from
/// arguments of type `Args`. Implemented on the region type.
pub trait Ctor<Args = ()>: Region {
    /// What a failed construction reports.
    type Error;

    /// Whether `args` may be handed to [`Ctor::try_init`] for a region whose
    /// slots are `before`.
    spec fn accepts(args: &Args, before: Seq<SlotView<Self::Elem>>) -> bool;

    /// Whether construction from `args` can end in `outcome`: the values
    /// written, in slot order, or the error reported.
    spec fn builds(args: &Args, outcome: Result<Seq<Self::Elem>, Self::Error>) -> bool;

    /// Whether construction from `args` in a region whose slots are `before`
    /// can fail with `e` and leave the slots as `after`.
    spec fn breaks(
        args: &Args,
        before: Seq<SlotView<Self::Elem>>,
        after: Seq<SlotView<Self::Elem>>,
        e: Self::Error,
    ) -> bool;

    /// Builds the region in place. On success every slot has had exactly one
    /// value constructed in it and no destructor run; on failure whatever was
    /// constructed has been destructed again before the error is returned.
    fn try_init<'brand>(ptr: Uninit<'brand, Self>, args: Args) -> (r: Result<
        Init<'brand, Self>,
        Self::Error,
    >)
        requires
            Self::accepts(&args, ptr.slots()),
        ensures
            r matches Ok(init) ==> {
                &&& final(init.raw()).slots() == final(ptr.raw()).slots()
                &&& constructed(ptr.slots(), init.slots())
                &&& Self::builds(&args, Ok(values(init.slots())))
            },
            r matches Err(e) ==> {
                &&& rolled_back(ptr.slots(), final(ptr.raw()).slots())
                &&& Self::builds(&args, Err(e))
                &&& Self::breaks(&args, ptr.slots(), final(ptr.raw()).slots(), e)
            },
    ;
}

/// A recipe: says how to build a region of shape `S` in place. Implemented on
/// the argument type, so that recipes can come from anywhere.
pub trait Initializer<S: ?Sized + Region>: Sized {
    /// What a failed construction reports.
    type Error;

    /// Whether this recipe may be run on a region whose slots are `before`.
    spec fn ready(&self, before: Seq<SlotView<S::Elem>>) -> bool;

    /// Whether running this recipe can end in `outcome`: the values written,
    /// in slot order, or the error reported.
    spec fn yields(&self, outcome: Result<Seq<S::Elem>, Self::Error>) -> bool;

    /// Whether running this recipe on a region whose slots are `before` can
    /// fail with `e` and leave the slots as `after`.
    spec fn fails(
        &self,
        before: Seq<SlotView<S::Elem>>,
        after: Seq<SlotView<S::Elem>>,
        e: Self::Error,
    ) -> bool;

    /// Runs the recipe on `ptr`. On success every slot has had exactly one
    /// value constructed in it and no destructor run; on failure whatever was
    /// constructed has been destructed again before the error is returned.
    fn try_init_into<'brand>(self, ptr: Uninit<'brand, S>) -> (r: Result<
        Init<'brand, S>,
        Self::Error,
    >)
        requires
            self.ready(ptr.slots()),
        ensures
            r matches Ok(init) ==> {
                &&& final(init.raw()).slots() == final(ptr.raw()).slots()
                &&& constructed(ptr.slots(), init.slots())
                &&& self.yields(Ok(values(init.slots())))
            },
            r matches Err(e) ==> {
                &&& rolled_back(ptr.slots(), final(ptr.raw()).slots())
                &&& self.yields(Err(e))
                &&& self.fails(ptr.slots(), final(ptr.raw()).slots(), e)
            },
    ;
}

/// Every recipe is a constructor for the shape it builds.
impl<S: ?Sized + Region, Args: Initializer<S>> Ctor<Args> for S {
    type Error = Args::Error;

    open spec fn accepts(args: &Args, before: Seq<SlotView<S::Elem>>) -> bool {
        args.ready(before)
    }

    open spec fn builds(args: &Args, outcome: Result<Seq<S::Elem>, Args::Error>) -> bool {
        args.yields(outcome)
    }

    open spec fn breaks(
        args: &Args,
        before: Seq<SlotView<S::Elem>>,
        after: Seq<SlotView<S::Elem>>,
        e: Args::Error,
    ) -> bool {
        args.fails(before, after, e)
    }

    /// Runs the recipe: the result is the recipe's own.
    fn try_init<'brand>(ptr: Uninit<'brand, S>, args: Args) -> (r: Result<
        Init<'brand, S>,
        Args::Error,
    >)
        ensures
            call_ensures(<Args as Initializer<S>>::try_init_into, (args, ptr), r),
    {
        args.try_init_into(ptr)
    }
}

} // verus!
