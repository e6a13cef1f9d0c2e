//! A record that refers to one of its own fields, built in place behind a
//! pinned handle.

use crate::boxed::{boxed_with, fresh, Boxable};
use crate::layout_provider::SizedLayoutProvider;
use crate::pin_ptr::{PinnedInit, PinnedUninit};
use crate::slice_writer::SliceWriter;
use crate::slot::{constructed, values, Region, Slot, SlotView};
use crate::{Init, Initializer, Uninit};
use core::convert::Infallible;
use vstd::prelude::*;

verus! {

/// The offset of the field `first` inside the record.
pub const FIRST: usize = 0;

/// The offset of the field `second` inside the record.
pub const SECOND: usize = 4;

/// A record with two numbers and a reference to one of them. The reference
/// is kept as the offset of the field inside the record, so it holds for as
/// long as the record stays where it is.
pub struct SelfRef {
    first: i32,
    second: i32,
    current: usize,
}

/// The recipe that builds a [`SelfRef`] from a number.
#[derive(Clone, Copy)]
pub struct SelfRefInit {
    value: i32,
}

/// The slot holds the record that is built from `value`.
pub open spec fn started(slot: SlotView<SelfRef>, value: i32) -> bool {
    slot.value matches Some(record) && record.built_from(value)
}

/// The number after `value`, wrapping around at the end of the range.
pub open spec fn succ(value: i32) -> i32 {
    if value == i32::MAX {
        i32::MIN
    } else {
        (value + 1) as i32
    }
}

/// The number `n` steps after `value`.
pub open spec fn steps(value: i32, n: nat) -> i32
    decreases n,
{
    if n == 0 {
        value
    } else {
        succ(steps(value, (n - 1) as nat))
    }
}

impl SelfRefInit {
    /// The number that the record starts with.
    pub closed spec fn value(&self) -> i32 {
        self.value
    }
}

impl SelfRef {
    /// The field `first`.
    pub closed spec fn first(&self) -> i32 {
        self.first
    }

    /// The field `second`.
    pub closed spec fn second(&self) -> i32 {
        self.second
    }

    /// The offset of the field that the record refers to.
    pub closed spec fn current(&self) -> usize {
        self.current
    }

    /// The record's invariant: it refers to one of its two numbers.
    pub open spec fn wf(&self) -> bool {
        self.current() == FIRST || self.current() == SECOND
    }

    /// The record that is built from `value`: `value` and zero, referring to
    /// the first.
    pub open spec fn built_from(&self, value: i32) -> bool {
        self.first() == value && self.second() == 0 && self.current() == FIRST
    }

    /// The recipe that builds a record from `value`.
    pub fn init(value: i32) -> (r: SelfRefInit)
        ensures
            r.value() == value,
    {
        SelfRefInit { value }
    }

    /// Builds a record from `value` in the pinned region.
    pub fn new_in<'a>(uninit: PinnedUninit<'a, Slot<SelfRef>>, value: i32) -> (r: PinnedInit<
        'a,
        Slot<SelfRef>,
    >)
        ensures
            final(r.raw()).slots() == final(uninit.raw()).slots(),
            constructed(uninit.slots(), r.slots()),
            r.slots()[0].value matches Some(record) && record.built_from(value),
    {
        uninit.write(SelfRef { first: value, second: 0, current: FIRST })
    }

    /// Builds a record from `value` on the heap.
    pub fn new(value: i32) -> (r: Box<Slot<SelfRef>>)
        ensures
            r@.value matches Some(record) && record.built_from(value),
    {
        let r = boxed_with::<Slot<SelfRef>, SelfRefInit, SizedLayoutProvider>(Self::init(value));
        proof {
            assert(r.slots()[0] == r@);
            assert(values(r.slots())[0] == r@.value->0);
        }
        r
    }

    /// Builds `count` records on the heap, from `value + 1`, `value + 2` and
    /// so on, wrapping around at the end of the number range.
    pub fn many(value: i32, count: usize) -> (r: Box<[Slot<SelfRef>]>)
        ensures
            r@.len() == count,
            forall|i: int|
                0 <= i < count ==> started((#[trigger] r@[i])@, steps(value, (i + 1) as nat)),
    {
        let mut run = <[Slot<SelfRef>] as Boxable>::obtain(count).unwrap();
        let built = Self::fill(Uninit::from_raw(&mut *run), value);
        let ghost done = built.slots();
        built.take_ownership();
        proof {
            assert forall|i: int| 0 <= i < count implies started(
                (#[trigger] run@[i])@,
                steps(value, (i + 1) as nat),
            ) by {
                assert(done[i] == run.slots()[i]);
                assert(run.slots()[i] == run@[i]@);
            }
        }
        run
    }

    /// Builds a record in every slot of the run, from `value + 1`,
    /// `value + 2` and so on, wrapping around at the end of the number range.
    pub fn fill<'a>(ptr: Uninit<'a, [Slot<SelfRef>]>, value: i32) -> (r: Init<
        'a,
        [Slot<SelfRef>],
    >)
        ensures
            final(r.raw()).slots() == final(ptr.raw()).slots(),
            constructed(ptr.slots(), r.slots()),
            forall|i: int|
                0 <= i < r.slots().len() ==> started(
                    #[trigger] r.slots()[i],
                    steps(value, (i + 1) as nat),
                ),
    {
        let count = ptr.len();
        let mut writer = SliceWriter::new(ptr);
        let ghost start = value;
        let mut value = value;
        let mut i: usize = 0;
        while i < count
            invariant
                writer.wf(),
                !writer.poisoned(),
                writer.count() == i,
                i <= count,
                writer.slots().len() == count,
                writer.origin() == ptr.slots(),
                final(writer.raw()).slots() == final(ptr.raw()).slots(),
                value == steps(start, i as nat),
                forall|j: int|
                    0 <= j < i ==> started(
                        #[trigger] writer.slots()[j],
                        steps(start, (j + 1) as nat),
                    ),
            decreases count - i,
        {
            value = if value == i32::MAX {
                i32::MIN
            } else {
                value + 1
            };
            assert(value == steps(start, (i + 1) as nat));
            let ghost sofar = writer.slots();
            match writer.try_init_unchecked(Self::init(value)) {
                Ok(()) => {
                    assert forall|j: int| 0 <= j < i + 1 implies started(
                        #[trigger] writer.slots()[j],
                        steps(start, (j + 1) as nat),
                    ) by {
                        if j < i {
                            assert(writer.slots()[j] == sofar[j]);
                        }
                    }
                },
                Err(_) => {
                    assert(false);
                },
            }
            i += 1;
        }
        writer.finish()
    }

    /// The number that the record refers to.
    pub fn get(&self) -> (r: i32)
        ensures
            r == (if self.current() == FIRST {
                self.first()
            } else {
                self.second()
            }),
    {
        if self.current == FIRST {
            self.first
        } else {
            self.second
        }
    }

    /// Makes the record refer to its first number.
    pub fn set_first(&mut self)
        ensures
            final(self).current() == FIRST,
            final(self).first() == old(self).first(),
            final(self).second() == old(self).second(),
            final(self).wf(),
    {
        self.current = FIRST;
    }

    /// Makes the record refer to its second number.
    pub fn set_second(&mut self)
        ensures
            final(self).current() == SECOND,
            final(self).first() == old(self).first(),
            final(self).second() == old(self).second(),
            final(self).wf(),
    {
        self.current = SECOND;
    }
}

impl<'a> PinnedInit<'a, Slot<SelfRef>> {
    /// Makes the pinned record refer to its first number, in place.
    pub fn set_first(&mut self)
        ensures
            final(self).slots()[0].value matches Some(record) && record.current() == FIRST
                && record.first() == old(self).slots()[0].value->0.first() && record.second()
                == old(self).slots()[0].value->0.second(),
            final(self).slots()[0].built == old(self).slots()[0].built,
            final(self).slots()[0].dropped == old(self).slots()[0].dropped,
            final(final(self).raw()).slots() == final(old(self).raw()).slots(),
    {
        self.get_mut().set_first();
    }

    /// Makes the pinned record refer to its second number, in place.
    pub fn set_second(&mut self)
        ensures
            final(self).slots()[0].value matches Some(record) && record.current() == SECOND
                && record.first() == old(self).slots()[0].value->0.first() && record.second()
                == old(self).slots()[0].value->0.second(),
            final(self).slots()[0].built == old(self).slots()[0].built,
            final(self).slots()[0].dropped == old(self).slots()[0].dropped,
            final(final(self).raw()).slots() == final(old(self).raw()).slots(),
    {
        self.get_mut().set_second();
    }
}

impl Initializer<Slot<SelfRef>> for SelfRefInit {
    type Error = Infallible;

    open spec fn ready(&self, before: Seq<SlotView<SelfRef>>) -> bool {
        true
    }

    open spec fn yields(&self, outcome: Result<Seq<SelfRef>, Infallible>) -> bool {
        outcome matches Ok(written) && written.len() == 1 && written[0].built_from(self.value())
    }

    open spec fn fails(
        &self,
        before: Seq<SlotView<SelfRef>>,
        after: Seq<SlotView<SelfRef>>,
        e: Infallible,
    ) -> bool {
        false
    }

    fn try_init_into<'brand>(self, ptr: Uninit<'brand, Slot<SelfRef>>) -> (r: Result<
        Init<'brand, Slot<SelfRef>>,
        Infallible,
    >)
        ensures
            r is Ok,
    {
        let pinned = SelfRef::new_in(PinnedUninit::new_unchecked(ptr), self.value);
        Ok(PinnedInit::into_inner_unchecked(pinned))
    }
}

} // verus!
