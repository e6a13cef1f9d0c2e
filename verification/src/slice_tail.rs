//! A record made of a length, a header and a run of tail elements, built
//! field by field.

use crate::layout::{extended, max_size, padding, Extended, Layout};
use crate::layout_provider::{LayoutProvider, SizedLayoutProvider};
use crate::slot::{constructed, rolled_back, slots_of, values, Region, Slot, SlotView};
use crate::{Ctor, Uninit};
use vstd::layout::{align_of, size_of};
use vstd::prelude::*;

verus! {

/// The memory of a record with a header and a tail: one slot for the header
/// and a run of slots for the tail. The length of the tail is part of the
/// record.
pub struct SliceTail<H, T> {
    header: Slot<H>,
    tail: Vec<Slot<T>>,
}

/// The arguments to build a [`SliceTail`] from.
pub struct SliceTailArgs<H, T> {
    /// The arguments to build the header from.
    pub header: H,
    /// The arguments to build the tail from.
    pub tail: T,
}

/// What building a [`SliceTail`] reports when it fails.
#[derive(Clone, Copy, Debug, PartialEq, Eq)]
pub enum SliceTailError<H, T> {
    /// The header failed with this error.
    HeaderError(H),
    /// The tail failed with this error.
    TailError(T),
}

/// The layout provider for [`SliceTail`], made of one for the tail and one
/// for the header.
pub struct SliceTailLayoutProvider<T, H = SizedLayoutProvider>(H, T);

/// The record of a `usize` length, a header of type `H` and a tail of
/// `tail_size` bytes aligned to `tail_align`, each part at the next multiple
/// of its alignment, without the padding after the tail.
pub open spec fn record<H>(tail_size: int, tail_align: int) -> Extended {
    let first = extended(
        size_of::<usize>() as int,
        align_of::<usize>() as int,
        size_of::<H>() as int,
        align_of::<H>() as int,
    );
    extended(first.size, first.align, tail_size, tail_align)
}

/// Whether the record, and the length with the header before it, fit.
pub open spec fn record_fits<H>(tail_size: int, tail_align: int) -> bool {
    let first = extended(
        size_of::<usize>() as int,
        align_of::<usize>() as int,
        size_of::<H>() as int,
        align_of::<H>() as int,
    );
    let whole = record::<H>(tail_size, tail_align);
    first.size <= max_size(first.align) && whole.size <= max_size(whole.align)
}

/// The layout of a record of a `usize` length, a header of type `H` and a
/// tail with the layout `tail`: each part at the next multiple of its
/// alignment, and the whole rounded up to a multiple of the record's
/// alignment, so that it is the size of a value of the record. There is one
/// exactly where the parts fit.
pub fn record_layout<H>(tail: Layout) -> (r: Option<Layout>)
    ensures
        ({
            let whole = record::<H>(tail.size() as int, tail.align() as int);
            &&& r is Some == record_fits::<H>(tail.size() as int, tail.align() as int)
            &&& r matches Some(l) ==> {
                &&& l.align() == whole.align
                &&& l.size() == whole.size + padding(whole.size, whole.align)
                &&& l.size() % l.align() == 0
            }
        }),
{
    match Layout::new::<usize>().extend(Layout::new::<H>()) {
        Some((first, _)) => match first.extend(tail) {
            Some((whole, _)) => Some(whole.pad_to_align()),
            None => None,
        },
        None => None,
    }
}

impl<LTs, LH> SliceTailLayoutProvider<LTs, LH> {
    /// The layout of the record that `args` ask for: that of the length, the
    /// header and the tail in this order, each part at the next multiple of
    /// its alignment, and the whole rounded up to a multiple of the record's
    /// alignment. There is one exactly when the tail has a layout and both
    /// the length with the header and the whole record fit.
    pub fn layout<H, T, HArgs, TsArgs>(args: &SliceTailArgs<HArgs, TsArgs>) -> (r: Option<
        Layout,
    >) where
        Slot<H>: Ctor<HArgs>,
        [Slot<T>]: Ctor<TsArgs>,
        LH: LayoutProvider<Slot<H>, HArgs>,
        LTs: LayoutProvider<[Slot<T>], TsArgs>,

        ensures
            ({
                let size = LTs::layout_size(&args.tail) as int;
                let align = LTs::layout_align(&args.tail) as int;
                let whole = record::<H>(size, align);
                &&& r is Some == (LTs::has_layout(&args.tail) && record_fits::<H>(size, align))
                &&& r matches Some(l) ==> {
                    &&& l.align() == whole.align
                    &&& l.size() == whole.size + padding(whole.size, whole.align)
                    &&& l.size() % l.align() == 0
                }
            }),
    {
        match LTs::layout(&args.tail) {
            Some(tail) => record_layout::<H>(tail),
            None => None,
        }
    }

    /// The number of tail slots of the record that `args` ask for.
    pub fn cast<H, T, HArgs, TsArgs>(ptr: usize, args: &SliceTailArgs<HArgs, TsArgs>) -> (r: (
        usize,
        usize,
    )) where
        Slot<H>: Ctor<HArgs>,
        [Slot<T>]: Ctor<TsArgs>,
        LH: LayoutProvider<Slot<H>, HArgs>,
        LTs: LayoutProvider<[Slot<T>], TsArgs>,

        ensures
            r.0 == ptr,
            r.1 == LTs::count(&args.tail),
    {
        LTs::cast(ptr, &args.tail)
    }

    /// Whether zero bytes are the whole record: the header and the tail are
    /// zero-filled and the tail is empty, so that the length is zero too.
    pub fn is_zeroed<H, T, HArgs, TsArgs>(args: &SliceTailArgs<HArgs, TsArgs>) -> (b: bool) where
        Slot<H>: Ctor<HArgs>,
        [Slot<T>]: Ctor<TsArgs>,
        LH: LayoutProvider<Slot<H>, HArgs>,
        LTs: LayoutProvider<[Slot<T>], TsArgs>,

        ensures
            b == (LH::zeroed(&args.header) && LTs::zeroed(&args.tail) && LTs::count(&args.tail)
                == 0),
    {
        if !LH::is_zeroed(&args.header) {
            return false;
        }
        if !LTs::is_zeroed(&args.tail) {
            return false;
        }
        let (_, len) = LTs::cast(1, &args.tail);
        len == 0
    }
}

impl<H, T> SliceTail<H, T> {
    /// The header slot.
    pub closed spec fn header(&self) -> SlotView<H> {
        self.header@
    }

    /// The tail slots.
    pub closed spec fn tail(&self) -> Seq<SlotView<T>> {
        slots_of(self.tail@)
    }

    /// Fresh memory for a record with `len` tail elements.
    pub fn new(len: usize) -> (r: Self)
        ensures
            r.header() == (SlotView::<H> { value: None, built: 0, dropped: 0 }),
            r.tail().len() == len,
            crate::boxed::fresh(r.tail()),
    {
        let tail = Slot::run(len);
        assert forall|i: int| 0 <= i < tail@.len() implies #[trigger] slots_of(tail@)[i] == (
        SlotView::<T> { value: None, built: 0, dropped: 0 }) by {
            assert(slots_of(tail@)[i] == tail@[i]@);
        }
        SliceTail { header: Slot::new(), tail }
    }

    /// The length of the tail.
    pub fn len(&self) -> (n: usize)
        ensures
            n == self.tail().len(),
    {
        self.tail.len()
    }

    /// The header, where it is built.
    pub fn get_header(&self) -> (r: Option<&H>)
        ensures
            r is Some == (self.header().value is Some),
            r matches Some(v) ==> self.header().value == Some(*v),
    {
        self.header.get()
    }

    /// The tail element `i`, where it is built.
    pub fn get_tail(&self, i: usize) -> (r: Option<&T>)
        requires
            i < self.tail().len(),
        ensures
            r is Some == (self.tail()[i as int].value is Some),
            r matches Some(v) ==> self.tail()[i as int].value == Some(*v),
    {
        assert(self.tail()[i as int] == self.tail@[i as int]@);
        self.tail[i].get()
    }

    /// Builds the record field by field: first the header, then the tail.
    /// Where the header fails nothing else is touched. Where the tail fails
    /// the header, which was built, is destructed again before the error is
    /// returned.
    pub fn try_init<HArgs, TsArgs>(&mut self, args: SliceTailArgs<HArgs, TsArgs>) -> (r: Result<
        (),
        SliceTailError<<Slot<H> as Ctor<HArgs>>::Error, <[Slot<T>] as Ctor<TsArgs>>::Error>,
    >) where Slot<H>: Ctor<HArgs> + Region<Elem = H>, [Slot<T>]: Ctor<TsArgs> + Region<Elem = T>
        requires
            <Slot<H> as Ctor<HArgs>>::accepts(&args.header, seq![old(self).header()]),
            <[Slot<T>] as Ctor<TsArgs>>::accepts(&args.tail, old(self).tail()),
        ensures
            match r {
                Ok(()) => {
                    &&& constructed(seq![old(self).header()], seq![final(self).header()])
                    &&& constructed(old(self).tail(), final(self).tail())
                    &&& <Slot<H> as Ctor<HArgs>>::builds(
                        &args.header,
                        Ok(seq![final(self).header().value->0]),
                    )
                    &&& <[Slot<T>] as Ctor<TsArgs>>::builds(
                        &args.tail,
                        Ok(values(final(self).tail())),
                    )
                },
                Err(SliceTailError::HeaderError(e)) => {
                    &&& rolled_back(seq![old(self).header()], seq![final(self).header()])
                    &&& final(self).tail() == old(self).tail()
                    &&& <Slot<H> as Ctor<HArgs>>::builds(&args.header, Err(e))
                    &&& <Slot<H> as Ctor<HArgs>>::breaks(
                        &args.header,
                        seq![old(self).header()],
                        seq![final(self).header()],
                        e,
                    )
                },
                Err(SliceTailError::TailError(e)) => {
                    &&& final(self).header().value is None
                    &&& final(self).header().built == old(self).header().built + 1
                    &&& final(self).header().dropped == old(self).header().dropped + 1
                    &&& rolled_back(old(self).tail(), final(self).tail())
                    &&& <[Slot<T>] as Ctor<TsArgs>>::builds(&args.tail, Err(e))
                    &&& <[Slot<T>] as Ctor<TsArgs>>::breaks(
                        &args.tail,
                        old(self).tail(),
                        final(self).tail(),
                        e,
                    )
                },
            },
    {
        let SliceTailArgs { header, tail } = args;
        let ghost h0 = self.header@;
        let ghost t0 = slots_of(self.tail@);
        assert(self.header.slots()[0] == self.header@);
        match Uninit::from_raw(&mut self.header).try_init(header) {
            Ok(built) => {
                let ghost h1 = built.slots();
                built.take_ownership();
                assert(self.header.slots()[0] == self.header@);
                assert(h1[0] == self.header@);
                assert(values(h1) =~= seq![self.header@.value->0]);
            },
            Err(e) => {
                assert(self.header.slots()[0] == self.header@);
                return Err(SliceTailError::HeaderError(e));
            },
        }
        let run = self.tail.as_mut_slice();
        match Uninit::from_raw(run).try_init(tail) {
            Ok(built) => {
                built.take_ownership();
                assert(slots_of(self.tail@) == slots_of(run@));
                Ok(())
            },
            Err(e) => {
                assert(slots_of(self.tail@) == slots_of(run@));
                self.header.destroy();
                Err(SliceTailError::TailError(e))
            },
        }
    }
}

} // verus!
