//! Primitive values as their own recipes, and the zero-fill shortcut for
//! them.

use crate::layout::Layout;
use crate::layout_provider::{DefaultLayoutProviderFor, LayoutProvider, Zeroable};
use crate::slot::{values, Slot, SlotView};
use crate::{Ctor, Init, Initializer, Uninit};
use core::convert::Infallible;
use vstd::layout::{align_of, size_of};
use vstd::prelude::*;

verus! {

/// The layout provider for primitive values: the layout of the value's type,
/// one slot, and zero-filled exactly when the value to write is zero.
pub struct PrimitiveLayoutProvider;

impl Zeroable for u8 {
    open spec fn is_zero(&self) -> bool {
        *self == 0
    }

    fn zeroed() -> (r: Self) {
        0
    }

    fn check_zero(&self) -> (b: bool) {
        *self == 0
    }

    proof fn lemma_one_zero(a: Self, b: Self) {
    }
}

impl Zeroable for u16 {
    open spec fn is_zero(&self) -> bool {
        *self == 0
    }

    fn zeroed() -> (r: Self) {
        0
    }

    fn check_zero(&self) -> (b: bool) {
        *self == 0
    }

    proof fn lemma_one_zero(a: Self, b: Self) {
    }
}

impl Zeroable for u32 {
    open spec fn is_zero(&self) -> bool {
        *self == 0
    }

    fn zeroed() -> (r: Self) {
        0
    }

    fn check_zero(&self) -> (b: bool) {
        *self == 0
    }

    proof fn lemma_one_zero(a: Self, b: Self) {
    }
}

impl Zeroable for u64 {
    open spec fn is_zero(&self) -> bool {
        *self == 0
    }

    fn zeroed() -> (r: Self) {
        0
    }

    fn check_zero(&self) -> (b: bool) {
        *self == 0
    }

    proof fn lemma_one_zero(a: Self, b: Self) {
    }
}

impl Zeroable for u128 {
    open spec fn is_zero(&self) -> bool {
        *self == 0
    }

    fn zeroed() -> (r: Self) {
        0
    }

    fn check_zero(&self) -> (b: bool) {
        *self == 0
    }

    proof fn lemma_one_zero(a: Self, b: Self) {
    }
}

impl Zeroable for usize {
    open spec fn is_zero(&self) -> bool {
        *self == 0
    }

    fn zeroed() -> (r: Self) {
        0
    }

    fn check_zero(&self) -> (b: bool) {
        *self == 0
    }

    proof fn lemma_one_zero(a: Self, b: Self) {
    }
}

impl Zeroable for i8 {
    open spec fn is_zero(&self) -> bool {
        *self == 0
    }

    fn zeroed() -> (r: Self) {
        0
    }

    fn check_zero(&self) -> (b: bool) {
        *self == 0
    }

    proof fn lemma_one_zero(a: Self, b: Self) {
    }
}

impl Zeroable for i16 {
    open spec fn is_zero(&self) -> bool {
        *self == 0
    }

    fn zeroed() -> (r: Self) {
        0
    }

    fn check_zero(&self) -> (b: bool) {
        *self == 0
    }

    proof fn lemma_one_zero(a: Self, b: Self) {
    }
}

impl Zeroable for i32 {
    open spec fn is_zero(&self) -> bool {
        *self == 0
    }

    fn zeroed() -> (r: Self) {
        0
    }

    fn check_zero(&self) -> (b: bool) {
        *self == 0
    }

    proof fn lemma_one_zero(a: Self, b: Self) {
    }
}

impl Zeroable for i64 {
    open spec fn is_zero(&self) -> bool {
        *self == 0
    }

    fn zeroed() -> (r: Self) {
        0
    }

    fn check_zero(&self) -> (b: bool) {
        *self == 0
    }

    proof fn lemma_one_zero(a: Self, b: Self) {
    }
}

impl Zeroable for i128 {
    open spec fn is_zero(&self) -> bool {
        *self == 0
    }

    fn zeroed() -> (r: Self) {
        0
    }

    fn check_zero(&self) -> (b: bool) {
        *self == 0
    }

    proof fn lemma_one_zero(a: Self, b: Self) {
    }
}

impl Zeroable for isize {
    open spec fn is_zero(&self) -> bool {
        *self == 0
    }

    fn zeroed() -> (r: Self) {
        0
    }

    fn check_zero(&self) -> (b: bool) {
        *self == 0
    }

    proof fn lemma_one_zero(a: Self, b: Self) {
    }
}

impl Zeroable for bool {
    open spec fn is_zero(&self) -> bool {
        !*self
    }

    fn zeroed() -> (r: Self) {
        false
    }

    fn check_zero(&self) -> (b: bool) {
        !*self
    }

    proof fn lemma_one_zero(a: Self, b: Self) {
    }
}

impl Zeroable for char {
    open spec fn is_zero(&self) -> bool {
        *self == '\0'
    }

    fn zeroed() -> (r: Self) {
        '\0'
    }

    fn check_zero(&self) -> (b: bool) {
        *self == '\0'
    }

    proof fn lemma_one_zero(a: Self, b: Self) {
    }
}

/// A primitive value is the recipe that writes it.
impl<T: Zeroable> Initializer<Slot<T>> for T {
    type Error = Infallible;

    open spec fn ready(&self, before: Seq<SlotView<T>>) -> bool {
        true
    }

    open spec fn yields(&self, outcome: Result<Seq<T>, Infallible>) -> bool {
        outcome == Ok::<Seq<T>, Infallible>(seq![*self])
    }

    open spec fn fails(
        &self,
        before: Seq<SlotView<T>>,
        after: Seq<SlotView<T>>,
        e: Infallible,
    ) -> bool {
        false
    }

    fn try_init_into<'brand>(self, ptr: Uninit<'brand, Slot<T>>) -> (r: Result<
        Init<'brand, Slot<T>>,
        Infallible,
    >)
        ensures
            r matches Ok(init) && init.slots() == seq![ptr.slots()[0].put(self)],
    {
        let init = ptr.write(self);
        proof {
            assert(crate::slot::values(init.slots()) =~= seq![self]);
        }
        Ok(init)
    }
}

/// The unit recipe writes the zero of a primitive type.
impl<T: Zeroable> Initializer<Slot<T>> for () {
    type Error = Infallible;

    open spec fn ready(&self, before: Seq<SlotView<T>>) -> bool {
        true
    }

    open spec fn yields(&self, outcome: Result<Seq<T>, Infallible>) -> bool {
        outcome matches Ok(written) && written.len() == 1 && written[0].is_zero()
    }

    open spec fn fails(
        &self,
        before: Seq<SlotView<T>>,
        after: Seq<SlotView<T>>,
        e: Infallible,
    ) -> bool {
        false
    }

    fn try_init_into<'brand>(self, ptr: Uninit<'brand, Slot<T>>) -> (r: Result<
        Init<'brand, Slot<T>>,
        Infallible,
    >)
        ensures
            r matches Ok(init) && init.slots()[0].value matches Some(v) && v.is_zero(),
    {
        let init = ptr.write(T::zeroed());
        Ok(init)
    }
}

impl<T: Zeroable> DefaultLayoutProviderFor<Slot<T>> for () {
    type LayoutProvider = PrimitiveLayoutProvider;
}

impl<T: Zeroable> DefaultLayoutProviderFor<Slot<T>> for T {
    type LayoutProvider = PrimitiveLayoutProvider;
}

impl<T: Zeroable> LayoutProvider<Slot<T>, ()> for PrimitiveLayoutProvider {
    open spec fn count(args: &()) -> nat {
        1
    }

    open spec fn zeroed(args: &()) -> bool {
        true
    }

    fn layout(args: &()) -> (r: Option<Layout>) {
        Some(Layout::new::<T>())
    }

    fn cast(ptr: usize, args: &()) -> (r: (usize, usize)) {
        (ptr, 1)
    }

    fn is_zeroed(args: &()) -> (b: bool) {
        true
    }

    open spec fn sound(args: &()) -> bool {
        true
    }

    open spec fn has_layout(args: &()) -> bool {
        true
    }

    open spec fn layout_size(args: &()) -> nat {
        size_of::<T>()
    }

    open spec fn layout_align(args: &()) -> nat {
        align_of::<T>()
    }

    fn zero_fill<'brand>(ptr: Uninit<'brand, Slot<T>>, args: &()) -> (r: Result<
        Init<'brand, Slot<T>>,
        Uninit<'brand, Slot<T>>,
    >) {
        let zero = T::zeroed();
        let r = ptr.write(zero);
        proof {
            assert forall|w: Seq<T>| #[trigger]
                <Slot<T> as Ctor<()>>::builds(args, Ok(w)) && w.len() == r.slots().len() implies w
                == values(r.slots()) by {
                T::lemma_one_zero(w[0], zero);
                assert(w =~= values(r.slots()));
            }
        }
        Ok(r)
    }
}

impl<T: Zeroable> LayoutProvider<Slot<T>, T> for PrimitiveLayoutProvider {
    open spec fn count(args: &T) -> nat {
        1
    }

    open spec fn zeroed(args: &T) -> bool {
        args.is_zero()
    }

    fn layout(args: &T) -> (r: Option<Layout>)
        ensures
            r matches Some(l) && l.size() == size_of::<T>() && l.align() == align_of::<T>(),
    {
        Some(Layout::new::<T>())
    }

    fn cast(ptr: usize, args: &T) -> (r: (usize, usize)) {
        (ptr, 1)
    }

    fn is_zeroed(args: &T) -> (b: bool) {
        args.check_zero()
    }

    open spec fn sound(args: &T) -> bool {
        true
    }

    open spec fn has_layout(args: &T) -> bool {
        true
    }

    open spec fn layout_size(args: &T) -> nat {
        size_of::<T>()
    }

    open spec fn layout_align(args: &T) -> nat {
        align_of::<T>()
    }

    fn zero_fill<'brand>(ptr: Uninit<'brand, Slot<T>>, args: &T) -> (r: Result<
        Init<'brand, Slot<T>>,
        Uninit<'brand, Slot<T>>,
    >) {
        if !args.check_zero() {
            return Err(ptr);
        }
        let zero = T::zeroed();
        let r = ptr.write(zero);
        proof {
            T::lemma_one_zero(*args, zero);
            assert forall|w: Seq<T>| #[trigger]
                <Slot<T> as Ctor<T>>::builds(args, Ok(w)) && w.len() == r.slots().len() implies w
                == values(r.slots()) by {
                assert(w =~= values(r.slots()));
            }
        }
        Ok(r)
    }
}

} // verus!
