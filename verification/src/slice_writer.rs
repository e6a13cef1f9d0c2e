//! A writer that initializes the slots of a run one after the other and
//! remembers how far it has come, so that giving up midway destructs exactly
//! what was built.

use crate::slot::{
    constructed, destroy_range, lemma_rolled_back_at, rolled_back, rolled_back_at, values, Region,
    Slot, SlotView,
};
use crate::{Ctor, Init, Uninit};
use vstd::prelude::*;

verus! {

/// Initializes a run slot by slot, from any sequence of arguments, and stops
/// at the first that fails.
///
/// The writer is in one of three states. While fewer slots are initialized
/// than the run has, and nothing has failed, it is *writing* and accepts the
/// next element. When all slots are initialized it is *complete* and
/// [`SliceWriter::finish`] hands the run out. When an element has failed it is
/// *poisoned*: it accepts nothing more, and its count stays at the number of
/// slots that were initialized before the failure.
pub struct SliceWriter<'brand, T> {
    ptr: Uninit<'brand, [Slot<T>]>,
    init: usize,
    poisoned: bool,
    origin: Ghost<Seq<SlotView<T>>>,
}

impl<'brand, T> SliceWriter<'brand, T> {
    /// The run that the writer fills.
    pub closed spec fn raw(&self) -> &'brand mut [Slot<T>] {
        self.ptr.raw()
    }

    /// The slots of the run as they are now.
    pub open spec fn slots(&self) -> Seq<SlotView<T>> {
        self.raw().slots()
    }

    /// The slots of the run as they were when the writer was made.
    pub closed spec fn origin(&self) -> Seq<SlotView<T>> {
        self.origin@
    }

    /// How many leading slots the writer has initialized.
    pub closed spec fn count(&self) -> nat {
        self.init as nat
    }

    /// Whether an element has failed.
    pub closed spec fn poisoned(&self) -> bool {
        self.poisoned
    }

    /// How many slots the writer still accepts arguments for.
    pub open spec fn remaining(&self) -> nat {
        if self.poisoned() {
            0
        } else {
            (self.slots().len() - self.count()) as nat
        }
    }

    /// The values written so far, in slot order.
    pub open spec fn written(&self) -> Seq<T> {
        values(self.slots().subrange(0, self.count() as int))
    }

    /// The writer's invariant: the first `count` slots are live and have had
    /// exactly one value built in them since the writer was made; the slot of
    /// a failed element has been rolled back; all later slots are untouched.
    pub open spec fn wf(&self) -> bool {
        &&& self.slots().len() == self.origin().len()
        &&& self.count() <= self.slots().len()
        &&& self.poisoned() ==> self.count() < self.slots().len()
        &&& forall|i: int|
            0 <= i < self.count() ==> {
                &&& (#[trigger] self.slots()[i]).value is Some
                &&& self.slots()[i].built == self.origin()[i].built + 1
                &&& self.slots()[i].dropped == self.origin()[i].dropped
            }
        &&& forall|i: int|
            self.count() <= i < self.slots().len() && !(self.poisoned() && i == self.count())
                ==> #[trigger] self.slots()[i] == self.origin()[i]
        &&& self.poisoned() ==> {
            let now = self.slots()[self.count() as int];
            let then = self.origin()[self.count() as int];
            &&& now.built >= then.built
            &&& now.built - then.built == now.dropped - then.dropped
            &&& (now.value is None || now == then)
        }
    }

    /// Makes a writer for the run behind `uninit`, with no slot initialized.
    pub fn new(uninit: Uninit<'brand, [Slot<T>]>) -> (r: Self)
        ensures
            r.wf(),
            r.count() == 0,
            !r.poisoned(),
            r.slots() == uninit.slots(),
            r.origin() == uninit.slots(),
            final(r.raw()).slots() == final(uninit.raw()).slots(),
    {
        SliceWriter { ptr: uninit, init: 0, poisoned: false, origin: Ghost(uninit.slots()) }
    }

    /// The number of slots that still take an element.
    pub fn remaining_len(&self) -> (n: usize)
        requires
            self.wf(),
        ensures
            n == self.remaining(),
    {
        if self.poisoned {
            0
        } else {
            self.ptr.len() - self.init
        }
    }

    /// Initializes the next slot from `args` without checking that there is
    /// one. On success the count goes up by one. On failure the error of the
    /// element is returned, the count stays, and the writer is poisoned.
    pub fn try_init_unchecked<Args>(&mut self, args: Args) -> (r: Result<
        (),
        <Slot<T> as Ctor<Args>>::Error,
    >) where Slot<T>: Ctor<Args> + Region<Elem = T>
        requires
            old(self).wf(),
            old(self).remaining() > 0,
            <Slot<T> as Ctor<Args>>::accepts(
                &args,
                seq![old(self).slots()[old(self).count() as int]],
            ),
        ensures
            final(self).wf(),
            final(self).origin() == old(self).origin(),
            final(final(self).raw()).slots() == final(old(self).raw()).slots(),
            final(self).slots() == old(self).slots().update(
                old(self).count() as int,
                final(self).slots()[old(self).count() as int],
            ),
            match r {
                Ok(()) => {
                    &&& !final(self).poisoned()
                    &&& final(self).count() == old(self).count() + 1
                    &&& final(self).slots()[old(self).count() as int].value matches Some(v)
                        && <Slot<T> as Ctor<Args>>::builds(&args, Ok(seq![v]))
                        && final(self).written() == old(self).written().push(v)
                },
                Err(e) => {
                    &&& final(self).poisoned()
                    &&& final(self).count() == old(self).count()
                    &&& <Slot<T> as Ctor<Args>>::builds(&args, Err(e))
                    &&& <Slot<T> as Ctor<Args>>::breaks(
                        &args,
                        seq![old(self).slots()[old(self).count() as int]],
                        seq![final(self).slots()[old(self).count() as int]],
                        e,
                    )
                },
            },
    {
        let idx = self.init;
        let len = self.ptr.len();
        let ghost before = self.slots();
        let run = self.ptr.as_mut_ptr();
        let element = crate::ptr::slot_at(run, idx);
        let ghost spot_after = final(element.raw()).slots();
        let r = <Slot<T> as Ctor<Args>>::try_init(element, args);
        match r {
            Ok(init) => {
                let ghost after = init.slots();
                init.take_ownership();
                assert(self.slots().len() == before.len());
                assert(self.slots()[idx as int] == after[0]);
                assert(self.slots() =~= before.update(idx as int, after[0]));
                self.init = idx + 1;
                proof {
                    let v = after[0].value->0;
                    assert(values(after) =~= seq![v]);
                    assert(self.written() =~= old(self).written().push(v));
                    assert(self.wf());
                }
                Ok(())
            },
            Err(e) => {
                assert(self.slots().len() == before.len());
                assert(self.slots() =~= before.update(idx as int, self.slots()[idx as int]));
                assert(self.slots()[idx as int] == spot_after[0]);
                self.poisoned = true;
                proof {
                    assert(self.wf());
                }
                Err(e)
            },
        }
    }

    /// Initializes the next slot from `args`. Where no slot takes an element
    /// any more, because the run is complete or an element has failed,
    /// nothing happens and the arguments come back as `Err`. Otherwise the
    /// result of the element comes back as `Ok`: on success the count goes up
    /// by one; on failure the count stays and the writer is poisoned.
    pub fn try_init<Args>(&mut self, args: Args) -> (r: Result<
        Result<(), <Slot<T> as Ctor<Args>>::Error>,
        Args,
    >) where Slot<T>: Ctor<Args> + Region<Elem = T>
        requires
            old(self).wf(),
            old(self).remaining() > 0 ==> <Slot<T> as Ctor<Args>>::accepts(
                &args,
                seq![old(self).slots()[old(self).count() as int]],
            ),
        ensures
            final(self).wf(),
            final(self).origin() == old(self).origin(),
            final(final(self).raw()).slots() == final(old(self).raw()).slots(),
            match r {
                Err(back) => {
                    &&& old(self).remaining() == 0
                    &&& back == args
                    &&& final(self).slots() == old(self).slots()
                    &&& final(self).count() == old(self).count()
                    &&& final(self).poisoned() == old(self).poisoned()
                },
                Ok(Ok(())) => {
                    &&& old(self).remaining() > 0
                    &&& !final(self).poisoned()
                    &&& final(self).count() == old(self).count() + 1
                    &&& final(self).slots() == old(self).slots().update(
                        old(self).count() as int,
                        final(self).slots()[old(self).count() as int],
                    )
                    &&& final(self).slots()[old(self).count() as int].value matches Some(v)
                        && <Slot<T> as Ctor<Args>>::builds(&args, Ok(seq![v]))
                        && final(self).written() == old(self).written().push(v)
                },
                Ok(Err(e)) => {
                    &&& old(self).remaining() > 0
                    &&& final(self).poisoned()
                    &&& final(self).count() == old(self).count()
                    &&& final(self).slots() == old(self).slots().update(
                        old(self).count() as int,
                        final(self).slots()[old(self).count() as int],
                    )
                    &&& <Slot<T> as Ctor<Args>>::builds(&args, Err(e))
                    &&& <Slot<T> as Ctor<Args>>::breaks(
                        &args,
                        seq![old(self).slots()[old(self).count() as int]],
                        seq![final(self).slots()[old(self).count() as int]],
                        e,
                    )
                },
            },
    {
        if self.remaining_len() == 0 {
            Err(args)
        } else {
            Ok(self.try_init_unchecked(args))
        }
    }

    /// Whether every slot of the run is initialized.
    pub fn is_initialized(&self) -> (b: bool)
        requires
            self.wf(),
        ensures
            b == (self.count() == self.slots().len()),
    {
        self.init == self.ptr.len()
    }

    /// Ends a complete writer and hands the run out as one initialized
    /// handle, which from then on answers for the values in it.
    pub fn finish(self) -> (r: Init<'brand, [Slot<T>]>)
        requires
            self.wf(),
            self.count() == self.slots().len(),
        ensures
            r.slots() == self.slots(),
            final(r.raw()).slots() == final(self.raw()).slots(),
            constructed(self.origin(), r.slots()),
            values(r.slots()) == self.written(),
    {
        let SliceWriter { ptr, init, poisoned, origin } = self;
        proof {
            assert(ptr.slots().subrange(0, init as int) =~= ptr.slots());
        }
        ptr.assume_init()
    }

    /// Ends a complete writer as [`SliceWriter::finish`] does.
    pub fn finish_unchecked(self) -> (r: Init<'brand, [Slot<T>]>)
        requires
            self.wf(),
            self.count() == self.slots().len(),
        ensures
            r.slots() == self.slots(),
            final(r.raw()).slots() == final(self.raw()).slots(),
            constructed(self.origin(), r.slots()),
            values(r.slots()) == self.written(),
    {
        self.finish()
    }

    /// Gives the writer up before it is complete: runs the destructor of each
    /// of the first `count` slots, once, touches no other slot, and hands the
    /// run back as uninitialized.
    pub fn abandon(self) -> (r: Uninit<'brand, [Slot<T>]>)
        requires
            self.wf(),
        ensures
            final(r.raw()).slots() == final(self.raw()).slots(),
            rolled_back_at(self.origin(), r.slots(), self.count() as int),
            forall|i: int|
                self.count() <= i < self.slots().len() ==> #[trigger] r.slots()[i]
                    == self.slots()[i],
            rolled_back(self.origin(), r.slots()),
    {
        let SliceWriter { ptr, init, poisoned, origin } = self;
        let mut ptr = ptr;
        let ghost before = ptr.slots();
        let run = ptr.as_mut_ptr();
        let ghost cells = run@;
        destroy_range(run, 0, init);
        proof {
            let after = run.slots();
            assert(after.len() == before.len());
            assert forall|i: int| 0 <= i < before.len() implies #[trigger] after[i] == (if i
                < init {
                before[i].destroyed()
            } else {
                before[i]
            }) by {
                assert(after[i] == run@[i]@);
                assert(before[i] == cells[i]@);
            }
            assert(rolled_back_at(origin@, after, init as int));
            lemma_rolled_back_at(origin@, after, init as int);
        }
        ptr
    }
}

} // verus!
