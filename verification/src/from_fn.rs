//! Recipes made from functions and from plain values.

use crate::layout_provider::{DefaultLayoutProviderFor, SizedLayoutProvider};
use crate::slot::{constructed, rolled_back, Region, Slot, SlotView};
use crate::{Init, Initializer, Uninit};
use core::convert::Infallible;
use vstd::prelude::*;

verus! {

/// A recipe that hands the region to a function that cannot fail.
#[derive(Clone, Copy)]
pub struct InitFn<F>(F);

/// A recipe that hands the region to a function that may fail.
#[derive(Clone, Copy)]
pub struct TryInitFn<F>(F);

/// A recipe that moves a ready-made value into the region.
#[derive(Clone, Copy)]
pub struct WithValue<T>(T);

/// Makes a recipe from a function that turns the uninitialized handle into an
/// initialized one.
pub fn from_fn<S, F>(f: F) -> (r: InitFn<F>) where
    S: ?Sized + Region,
    F: FnOnce(Uninit<S>) -> Init<S>,

    ensures
        r.func() == f,
{
    InitFn(f)
}

/// Makes a recipe from a function that either turns the uninitialized handle
/// into an initialized one or reports an error.
pub fn try_from_fn<S, E, F>(f: F) -> (r: TryInitFn<F>) where
    S: ?Sized + Region,
    F: FnOnce(Uninit<S>) -> Result<Init<S>, E>,

    ensures
        r.func() == f,
{
    TryInitFn(f)
}

/// Makes a recipe that writes `value`.
pub fn with_value<T>(value: T) -> (r: WithValue<T>)
    ensures
        r.value() == value,
{
    WithValue(value)
}

impl<F> InitFn<F> {
    /// The function that the recipe runs.
    pub closed spec fn func(&self) -> F {
        self.0
    }

    /// Runs the function on `ptr`. The function has to hand back the region it
    /// was given, with one value constructed in every slot.
    pub fn try_init_into<'brand, S>(self, ptr: Uninit<'brand, S>) -> (r: Result<
        Init<'brand, S>,
        Infallible,
    >) where S: ?Sized + Region + 'brand, F: FnOnce(Uninit<'brand, S>) -> Init<'brand, S>
        requires
            call_requires(self.func(), (ptr,)),
            forall|i: Init<'brand, S>| #[trigger]
                call_ensures(self.func(), (ptr,), i) ==> {
                    &&& final(i.raw()).slots() == final(ptr.raw()).slots()
                    &&& constructed(ptr.slots(), i.slots())
                },
        ensures
            r matches Ok(init) && {
                &&& call_ensures(self.func(), (ptr,), init)
                &&& final(init.raw()).slots() == final(ptr.raw()).slots()
                &&& constructed(ptr.slots(), init.slots())
            },
    {
        Ok((self.0)(ptr))
    }
}

impl<F> TryInitFn<F> {
    /// The function that the recipe runs.
    pub closed spec fn func(&self) -> F {
        self.0
    }

    /// Runs the function on `ptr` and returns what it returns. On success the
    /// function has to hand back the region it was given, with one value
    /// constructed in every slot; on failure it has to leave the region
    /// rolled back.
    pub fn try_init_into<'brand, S, E>(self, ptr: Uninit<'brand, S>) -> (r: Result<
        Init<'brand, S>,
        E,
    >) where S: ?Sized + Region + 'brand, F: FnOnce(Uninit<'brand, S>) -> Result<Init<'brand, S>, E>
        requires
            call_requires(self.func(), (ptr,)),
            forall|out: Result<Init<'brand, S>, E>| #[trigger]
                call_ensures(self.func(), (ptr,), out) ==> match out {
                    Ok(i) => {
                        &&& final(i.raw()).slots() == final(ptr.raw()).slots()
                        &&& constructed(ptr.slots(), i.slots())
                    },
                    Err(_) => rolled_back(ptr.slots(), final(ptr.raw()).slots()),
                },
        ensures
            call_ensures(self.func(), (ptr,), r),
            r matches Ok(init) ==> {
                &&& final(init.raw()).slots() == final(ptr.raw()).slots()
                &&& constructed(ptr.slots(), init.slots())
            },
            r is Err ==> rolled_back(ptr.slots(), final(ptr.raw()).slots()),
    {
        (self.0)(ptr)
    }
}

impl<T> WithValue<T> {
    /// The value that the recipe writes.
    pub closed spec fn value(&self) -> T {
        self.0
    }
}

impl<T> Initializer<Slot<T>> for WithValue<T> {
    type Error = Infallible;

    open spec fn ready(&self, before: Seq<SlotView<T>>) -> bool {
        true
    }

    open spec fn yields(&self, outcome: Result<Seq<T>, Infallible>) -> bool {
        outcome == Ok::<Seq<T>, Infallible>(seq![self.value()])
    }

    open spec fn fails(
        &self,
        before: Seq<SlotView<T>>,
        after: Seq<SlotView<T>>,
        e: Infallible,
    ) -> bool {
        false
    }

    fn try_init_into<'brand>(self, ptr: Uninit<'brand, Slot<T>>) -> (r: Result<
        Init<'brand, Slot<T>>,
        Infallible,
    >)
        ensures
            r matches Ok(init) && init.slots() == seq![ptr.slots()[0].put(self.value())],
    {
        let init = ptr.write(self.0);
        proof {
            assert(crate::slot::values(init.slots()) =~= seq![self.value()]);
        }
        Ok(init)
    }
}

/// A result is a recipe: it writes the value that it holds, or fails with
/// the error that it holds and writes nothing.
impl<T, E> Initializer<Slot<T>> for Result<T, E> {
    type Error = E;

    open spec fn ready(&self, before: Seq<SlotView<T>>) -> bool {
        true
    }

    open spec fn yields(&self, outcome: Result<Seq<T>, E>) -> bool {
        match (*self, outcome) {
            (Ok(value), Ok(written)) => written == seq![value],
            (Err(error), Err(reported)) => reported == error,
            _ => false,
        }
    }

    open spec fn fails(&self, before: Seq<SlotView<T>>, after: Seq<SlotView<T>>, e: E) -> bool {
        *self == Err::<T, E>(e) && after == before
    }

    fn try_init_into<'brand>(self, ptr: Uninit<'brand, Slot<T>>) -> (r: Result<
        Init<'brand, Slot<T>>,
        E,
    >)
        ensures
            r is Ok == self is Ok,
            r matches Ok(init) ==> init.slots() == seq![ptr.slots()[0].put(self->Ok_0)],
            r matches Err(e) ==> e == self->Err_0 && final(ptr.raw()).slots() == ptr.slots(),
    {
        match self {
            Ok(value) => {
                let init = ptr.write(value);
                proof {
                    assert(crate::slot::values(init.slots()) =~= seq![value]);
                }
                Ok(init)
            },
            Err(error) => {
                ptr.release();
                Err(error)
            },
        }
    }
}

impl<T> DefaultLayoutProviderFor<Slot<T>> for WithValue<T> {
    type LayoutProvider = SizedLayoutProvider;
}

impl<T, E> DefaultLayoutProviderFor<Slot<T>> for Result<T, E> {
    type LayoutProvider = SizedLayoutProvider;
}

} // verus!
