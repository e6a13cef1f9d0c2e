//! Building new elements of a vector from recipes.

use crate::layout_provider::LayoutProvider;
use crate::slot::{live, slots_of, values, Region, Slot, SlotView};
use crate::{Ctor, Initializer, Uninit};
use vstd::prelude::*;
use vstd::std_specs::iter::IteratorSpec;

verus! {

/// A run of `n` slots that are empty and have never held a value.
pub open spec fn fresh_run<T>(n: nat) -> Seq<SlotView<T>> {
    Seq::new(n, |i: int| (SlotView::<T> { value: None, built: 0, dropped: 0 }))
}

/// Moves the values of a run whose slots are all live to the end of `v`, in
/// order, and leaves the slots empty.
pub fn drain_into<T>(run: &mut Vec<Slot<T>>, v: &mut Vec<T>)
    requires
        live(slots_of(old(run)@)),
    ensures
        final(v)@ == old(v)@ + values(slots_of(old(run)@)),
        final(run)@.len() == old(run)@.len(),
        forall|i: int|
            0 <= i < old(run)@.len() ==> (#[trigger] final(run)@[i])@ == old(run)@[i]@.released(),
{
    let n = run.len();
    let ghost start = slots_of(run@);
    let mut i: usize = 0;
    while i < n
        invariant
            i <= n,
            n == run@.len(),
            start == slots_of(old(run)@),
            start.len() == n,
            live(start),
            v@ == old(v)@ + values(start).take(i as int),
            forall|j: int| 0 <= j < i ==> (#[trigger] run@[j])@ == start[j].released(),
            forall|j: int| i <= j < n ==> (#[trigger] run@[j])@ == start[j],
        decreases n - i,
    {
        assert(start[i as int].value is Some);
        let value = run[i].take().unwrap();
        v.push(value);
        proof {
            assert(values(start).take(i + 1) =~= values(start).take(i as int).push(value));
            assert(v@ =~= old(v)@ + values(start).take(i + 1));
        }
        i += 1;
    }
    proof {
        assert(values(start).take(n as int) =~= values(start));
        assert forall|i: int| 0 <= i < old(run)@.len() implies (#[trigger] run@[i])@ == old(run)@[i]@.released() by {
            assert(start[i] == old(run)@[i]@);
        }
    }
}

/// Every recipe of type `A` may be asked to build a slot that is empty and
/// has never held a value.
pub open spec fn every_item_ready<T, A: Initializer<Slot<T>>>() -> bool {
    forall|item: A| #[trigger]
        item.ready(seq![(SlotView::<T> { value: None, built: 0, dropped: 0 })])
}

/// What has become of a vector that held `before` and was extended by the
/// recipes `items`, in order, up to the first that failed: it holds `after`,
/// and `r` came back.
pub open spec fn extended_by<T, A: Initializer<Slot<T>>>(
    before: Seq<T>,
    after: Seq<T>,
    items: Seq<A>,
    r: Result<(), A::Error>,
) -> bool {
    let start = before.len() as int;
    let pulled = after.len() - start;
    &&& 0 <= pulled <= items.len()
    &&& after.take(start) == before
    &&& forall|j: int| 0 <= j < pulled ==> (#[trigger] items[j]).yields(Ok(seq![after[start + j]]))
    &&& match r {
        Ok(()) => pulled == items.len() || after.len() == usize::MAX,
        Err(e) => pulled < items.len() && items[pulled].yields(Err(e)),
    }
}

/// Adds to a vector the ways of building its next element from a recipe.
pub trait VecExt {
    /// The type of the elements.
    type Item;

    /// The elements of the vector, in order.
    spec fn items(&self) -> Seq<Self::Item>;

    /// Builds a new last element from `initializer`. Where the recipe fails
    /// the vector stays as it is.
    fn try_emplace<I: Initializer<Slot<Self::Item>>>(&mut self, initializer: I) -> (r: Result<
        (),
        I::Error,
    >)
        requires
            initializer.ready(
                seq![(crate::slot::SlotView::<Self::Item> { value: None, built: 0, dropped: 0 })],
            ),
        ensures
            match r {
                Ok(()) => final(self).items().len() == old(self).items().len() + 1 && final(self).items().drop_last() == old(self).items() && initializer.yields(
                    Ok(seq![final(self).items().last()]),
                ),
                Err(e) => final(self).items() == old(self).items() && initializer.yields(Err(e)),
            },
    ;

    /// Builds a new last element from each item of `iter`, in order, and
    /// stops at the first item that fails; the elements built before it stay.
    /// It also stops where the vector has reached the largest length that a
    /// vector can have.
    fn extend_emplate<I: Iterator>(&mut self, iter: I) -> (r: Result<
        (),
        <I::Item as Initializer<Slot<Self::Item>>>::Error,
    >) where I::Item: Initializer<Slot<Self::Item>>
        requires
            every_item_ready::<Self::Item, I::Item>(),
        ensures
            final(self).items().len() >= old(self).items().len(),
            final(self).items().take(old(self).items().len() as int) == old(self).items(),
            <I as IteratorSpec>::obeys_prophetic_iter_laws(&iter) ==> extended_by(
                old(self).items(),
                final(self).items(),
                <I as IteratorSpec>::remaining(&iter),
                r,
            ),
    ;

    /// Builds as many new last elements as the layout provider `L` counts for
    /// `slice_initializer`, from that recipe for a run. Where the recipe
    /// fails the vector stays as it is.
    fn try_extend_from_slice_in_place<I, L>(&mut self, slice_initializer: I) -> (r: Result<
        (),
        I::Error,
    >) where I: Initializer<[Slot<Self::Item>]>, L: LayoutProvider<[Slot<Self::Item>], I>
        requires
            old(self).items().len() + L::count(&slice_initializer) <= usize::MAX,
            slice_initializer.ready(fresh_run::<Self::Item>(L::count(&slice_initializer))),
        ensures
            match r {
                Ok(()) => {
                    &&& final(self).items().take(old(self).items().len() as int) == old(self).items()
                    &&& final(self).items().len() == old(self).items().len() + L::count(
                        &slice_initializer,
                    )
                    &&& slice_initializer.yields(
                        Ok(final(self).items().skip(old(self).items().len() as int)),
                    )
                },
                Err(e) => final(self).items() == old(self).items() && slice_initializer.yields(
                    Err(e),
                ),
            },
    ;

    /// Builds a new last element from `initializer`, as
    /// [`VecExt::try_emplace`] does.
    fn try_emplace_unchecked<I: Initializer<Slot<Self::Item>>>(&mut self, initializer: I) -> (r:
        Result<(), I::Error>)
        requires
            initializer.ready(
                seq![(crate::slot::SlotView::<Self::Item> { value: None, built: 0, dropped: 0 })],
            ),
        ensures
            match r {
                Ok(()) => final(self).items().len() == old(self).items().len() + 1 && final(self).items().drop_last() == old(self).items() && initializer.yields(
                    Ok(seq![final(self).items().last()]),
                ),
                Err(e) => final(self).items() == old(self).items() && initializer.yields(Err(e)),
            },
    ;
}

impl<T> VecExt for Vec<T> {
    type Item = T;

    open spec fn items(&self) -> Seq<T> {
        self@
    }

    fn try_emplace<I: Initializer<Slot<T>>>(&mut self, initializer: I) -> (r: Result<(), I::Error>) {
        self.try_emplace_unchecked(initializer)
    }

    fn extend_emplate<I: Iterator>(&mut self, iter: I) -> (r: Result<
        (),
        <I::Item as Initializer<Slot<T>>>::Error,
    >) where I::Item: Initializer<Slot<T>> {
        let ghost items = <I as IteratorSpec>::remaining(&iter);
        let ghost start = self@.len() as int;
        let ghost laws = <I as IteratorSpec>::obeys_prophetic_iter_laws(&iter);
        let mut source = iter;
        while self.len() < usize::MAX
            invariant
                start == old(self)@.len(),
                self@.len() >= start,
                self@.take(start) == old(self)@,
                items == <I as IteratorSpec>::remaining(&iter),
                laws == <I as IteratorSpec>::obeys_prophetic_iter_laws(&iter),
                laws == <I as IteratorSpec>::obeys_prophetic_iter_laws(&source),
                every_item_ready::<T, I::Item>(),
                laws ==> {
                    let pulled = self@.len() - start;
                    &&& pulled <= items.len()
                    &&& <I as IteratorSpec>::remaining(&source) == items.skip(pulled)
                    &&& forall|j: int|
                        0 <= j < pulled ==> (#[trigger] items[j]).yields(Ok(seq![self@[start + j]]))
                },
            decreases usize::MAX - self@.len(),
        {
            let ghost before = self@;
            let ghost rest = <I as IteratorSpec>::remaining(&source);
            match source.next() {
                Some(item) => {
                    match self.try_emplace_unchecked(item) {
                        Ok(()) => {
                            proof {
                                assert(self@.drop_last() == before);
                                assert(self@.take(start) =~= before.take(start));
                                if laws {
                                    let pulled = before.len() - start;
                                    assert(rest.len() > 0);
                                    assert(items.skip(pulled)[0] == items[pulled]);
                                    assert(<I as IteratorSpec>::remaining(&source) =~= items.skip(
                                        pulled + 1,
                                    ));
                                    assert forall|j: int| 0 <= j < pulled + 1 implies (
                                    #[trigger] items[j]).yields(Ok(seq![self@[start + j]])) by {
                                        if j < pulled {
                                            assert(self@[start + j] == before[start + j]);
                                        } else {
                                            assert(self@[start + j] == self@.last());
                                        }
                                    }
                                }
                            }
                        },
                        Err(e) => {
                            proof {
                                assert(self@ == before);
                                if laws {
                                    let pulled = before.len() - start;
                                    assert(rest == items.skip(pulled));
                                    assert(rest.len() > 0);
                                    assert(items.skip(pulled)[0] == items[pulled]);
                                    assert(item == items[pulled]);
                                    assert(pulled < items.len());
                                    assert(items[pulled].yields(Err(e)));
                                }
                            }
                            return Err(e);
                        },
                    }
                },
                None => {
                    proof {
                        if laws {
                            let pulled = before.len() - start;
                            assert(rest == items.skip(pulled));
                            assert(rest.len() == 0);
                            assert(items.skip(pulled).len() == items.len() - pulled);
                            assert(pulled == items.len());
                        }
                    }
                    return Ok(());
                },
            }
        }
        Ok(())
    }

    fn try_extend_from_slice_in_place<I, L>(&mut self, slice_initializer: I) -> (r: Result<
        (),
        I::Error,
    >) where I: Initializer<[Slot<T>]>, L: LayoutProvider<[Slot<T>], I> {
        let (_, count) = L::cast(1, &slice_initializer);
        let mut run: Vec<Slot<T>> = Slot::run(count);
        let ghost cells = run@;
        let target = Uninit::from_raw(run.as_mut_slice());
        assert(target.slots() =~= fresh_run::<T>(count as nat)) by {
            assert forall|i: int| 0 <= i < count implies #[trigger] target.slots()[i] == (
            SlotView::<T> { value: None, built: 0, dropped: 0 }) by {
                assert(target.slots()[i] == cells[i]@);
            }
        }
        match slice_initializer.try_init_into(target) {
            Ok(built) => {
                let ghost written = values(built.slots());
                built.take_ownership();
                drain_into(&mut run, self);
                proof {
                    assert(self@.take(old(self)@.len() as int) =~= old(self)@);
                    assert(self@.skip(old(self)@.len() as int) =~= written);
                }
                Ok(())
            },
            Err(e) => Err(e),
        }
    }

    fn try_emplace_unchecked<I: Initializer<Slot<T>>>(&mut self, initializer: I) -> (r: Result<
        (),
        I::Error,
    >) {
        let mut slot: Slot<T> = Slot::new();
        let target = Uninit::from_raw(&mut slot);
        assert(target.slots().len() == 1);
        assert(target.slots() =~= seq![(crate::slot::SlotView::<T> {
            value: None,
            built: 0,
            dropped: 0,
        })]);
        match initializer.try_init_into(target) {
            Ok(built) => {
                let ghost now = built.slots();
                let value = built.into_inner();
                proof {
                    assert(crate::slot::values(now) =~= seq![value]);
                }
                self.push(value);
                assert(self@.drop_last() =~= old(self)@);
                Ok(())
            },
            Err(e) => Err(e),
        }
    }
}

} // verus!
