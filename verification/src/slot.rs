//! Memory regions: the storage that handles point into.
//!
//! A region is a run of element slots owned by whoever obtained the memory
//! (a local variable, a box, a vector). A slot either holds a live value or
//! holds nothing meaningful. Beside its content every slot keeps a ghost
//! ledger of how many values were constructed in it and how many destructors
//! ran in it, so that contracts can speak of leaks and double destruction.

use vstd::prelude::*;

verus! {

/// The mathematical content of one slot.
pub ghost struct SlotView<T> {
    /// The live value, if there is one.
    pub value: Option<T>,
    /// How many values have been constructed in this slot so far.
    pub built: nat,
    /// How many destructors have run in this slot so far.
    pub dropped: nat,
}

impl<T> SlotView<T> {
    /// The slot after raw-writing `value` into it: the previous content is
    /// forgotten, not destructed.
    pub open spec fn put(self, value: T) -> Self {
        SlotView { value: Some(value), built: self.built + 1, dropped: self.dropped }
    }

    /// The slot after its value was moved out to a new owner.
    pub open spec fn released(self) -> Self {
        SlotView { value: None, built: self.built, dropped: self.dropped }
    }

    /// The slot after the destructor of its live value, if any, has run.
    pub open spec fn destroyed(self) -> Self {
        if self.value is Some {
            SlotView { value: None, built: self.built, dropped: self.dropped + 1 }
        } else {
            self
        }
    }
}

/// Every slot of the run holds a live value.
pub open spec fn live<T>(s: Seq<SlotView<T>>) -> bool {
    forall|i: int| 0 <= i < s.len() ==> (#[trigger] s[i]).value is Some
}

/// No slot of the run holds a value.
pub open spec fn vacant<T>(s: Seq<SlotView<T>>) -> bool {
    forall|i: int| 0 <= i < s.len() ==> (#[trigger] s[i]).value is None
}

/// The values of a run, in order (meaningful where the run is live).
pub open spec fn values<T>(s: Seq<SlotView<T>>) -> Seq<T> {
    Seq::new(s.len(), |i: int| s[i].value->0)
}

/// The run after the destructor of every live value in it has run once.
pub open spec fn destroyed<T>(s: Seq<SlotView<T>>) -> Seq<SlotView<T>> {
    Seq::new(s.len(), |i: int| s[i].destroyed())
}

/// `after` is `before` with exactly one value constructed in every slot and
/// no destructor run: what a successful initialization does to a region.
pub open spec fn constructed<T>(before: Seq<SlotView<T>>, after: Seq<SlotView<T>>) -> bool {
    &&& after.len() == before.len()
    &&& forall|i: int|
        0 <= i < before.len() ==> {
            &&& (#[trigger] after[i]).value is Some
            &&& after[i].built == before[i].built + 1
            &&& after[i].dropped == before[i].dropped
        }
}

/// `after` is `before` with everything that was constructed in the meantime
/// destructed again: in every slot as many destructors ran as values were
/// built, and the slot holds either nothing or what it held before.
pub open spec fn rolled_back<T>(before: Seq<SlotView<T>>, after: Seq<SlotView<T>>) -> bool {
    &&& after.len() == before.len()
    &&& forall|i: int|
        0 <= i < before.len() ==> {
            &&& (#[trigger] after[i]).built >= before[i].built
            &&& after[i].built - before[i].built == after[i].dropped - before[i].dropped
            &&& (after[i].value is None || after[i] == before[i])
        }
}

/// `after` is `before` after a run was given up with its first `k` slots
/// initialized: each of those has had one value built and one destructor run
/// and is empty; slot `k`, where an element may have failed, is rolled back;
/// every later slot is untouched.
pub open spec fn rolled_back_at<T>(
    before: Seq<SlotView<T>>,
    after: Seq<SlotView<T>>,
    k: int,
) -> bool {
    &&& after.len() == before.len()
    &&& 0 <= k <= before.len()
    &&& forall|i: int|
        0 <= i < k ==> {
            &&& (#[trigger] after[i]).value is None
            &&& after[i].built == before[i].built + 1
            &&& after[i].dropped == before[i].dropped + 1
        }
    &&& k < before.len() ==> {
        &&& after[k].built >= before[k].built
        &&& after[k].built - before[k].built == after[k].dropped - before[k].dropped
        &&& (after[k].value is None || after[k] == before[k])
    }
    &&& forall|i: int| k < i < before.len() ==> #[trigger] after[i] == before[i]
}

/// A run given up after `k` elements is rolled back as a whole.
pub proof fn lemma_rolled_back_at<T>(before: Seq<SlotView<T>>, after: Seq<SlotView<T>>, k: int)
    requires
        rolled_back_at(before, after, k),
    ensures
        rolled_back(before, after),
{
    assert forall|i: int| 0 <= i < before.len() implies {
        &&& (#[trigger] after[i]).built >= before[i].built
        &&& after[i].built - before[i].built == after[i].dropped - before[i].dropped
        &&& (after[i].value is None || after[i] == before[i])
    } by {
        if i > k {
            assert(after[i] == before[i]);
        }
    }
}

/// Destruction runs each destructor once: where every slot of a run is live,
/// destroying the run leaves every slot empty with one more destructor run
/// than before and nothing more built, and destroying it again changes
/// nothing. So a value that was handed from one handle to another without
/// destruction is destructed once when the last handle is dropped, and never
/// twice.
pub proof fn lemma_destroyed_once<T>(s: Seq<SlotView<T>>)
    requires
        live(s),
    ensures
        destroyed(s).len() == s.len(),
        forall|i: int|
            0 <= i < s.len() ==> {
                &&& (#[trigger] destroyed(s)[i]).value is None
                &&& destroyed(s)[i].dropped == s[i].dropped + 1
                &&& destroyed(s)[i].built == s[i].built
            },
        destroyed(destroyed(s)) == destroyed(s),
        vacant(destroyed(s)),
{
    assert(destroyed(destroyed(s)) =~= destroyed(s));
}

/// One element-sized cell of a memory region.
pub struct Slot<T> {
    value: Option<T>,
    built: Ghost<nat>,
    dropped: Ghost<nat>,
}

impl<T> View for Slot<T> {
    type V = SlotView<T>;

    closed spec fn view(&self) -> SlotView<T> {
        SlotView { value: self.value, built: self.built@, dropped: self.dropped@ }
    }
}

/// `core::mem::forget` of the standard library: takes a value and gives it up
/// without running its destructor. It returns nothing, so nothing is claimed
/// of it.
pub assume_specification<T>[ core::mem::forget::<T> ](t: T)
;

impl<T> Slot<T> {
    /// A fresh slot: nothing in it, nothing ever built or destructed.
    pub fn new() -> (r: Self)
        ensures
            r@ == (SlotView::<T> { value: None, built: 0, dropped: 0 }),
    {
        Slot { value: None, built: Ghost(0), dropped: Ghost(0) }
    }

    /// A fresh run of `n` slots.
    pub fn run(n: usize) -> (r: Vec<Slot<T>>)
        ensures
            r.len() == n,
            forall|i: int|
                0 <= i < n ==> (#[trigger] r[i])@ == (SlotView::<T> {
                    value: None,
                    built: 0,
                    dropped: 0,
                }),
    {
        let mut r: Vec<Slot<T>> = Vec::new();
        let mut i: usize = 0;
        while i < n
            invariant
                i <= n,
                r.len() == i,
                forall|j: int|
                    0 <= j < i ==> (#[trigger] r[j])@ == (SlotView::<T> {
                        value: None,
                        built: 0,
                        dropped: 0,
                    }),
            decreases n - i,
        {
            r.push(Slot::new());
            i += 1;
        }
        r
    }

    /// Whether the slot holds a live value.
    pub fn is_init(&self) -> (b: bool)
        ensures
            b == (self@.value is Some),
    {
        self.value.is_some()
    }

    /// Reads the live value, if there is one.
    pub fn get(&self) -> (r: Option<&T>)
        ensures
            r is Some == (self@.value is Some),
            r matches Some(v) ==> self@.value == Some(*v),
    {
        self.value.as_ref()
    }

    /// Access to the live value, if there is one, for changing it in place.
    pub fn get_mut(&mut self) -> (r: Option<&mut T>)
        ensures
            r is Some == (old(self)@.value is Some),
            r is None ==> final(self)@ == old(self)@,
            r matches Some(v) ==> {
                &&& old(self)@.value == Some(*v)
                &&& final(self)@ == (SlotView {
                    value: Some(*final(v)),
                    built: old(self)@.built,
                    dropped: old(self)@.dropped,
                })
            },
        no_unwind
    {
        match &mut self.value {
            Some(value) => Some(value),
            None => None,
        }
    }

    /// Raw write: moves `value` into the slot. What the slot held before is
    /// forgotten; its destructor does not run.
    pub fn put(&mut self, value: T)
        ensures
            final(self)@ == old(self)@.put(value),
    {
        let stale = self.value.take();
        core::mem::forget(stale);
        self.value = Some(value);
        proof {
            self.built@ = self.built@ + 1;
        }
    }

    /// Raw read: moves the live value out to the caller, who from then on is
    /// responsible for it. No destructor runs here.
    pub fn take(&mut self) -> (r: Option<T>)
        ensures
            r == old(self)@.value,
            final(self)@ == old(self)@.released(),
    {
        self.value.take()
    }

    /// Runs the destructor of the live value, if there is one, and leaves the
    /// slot empty.
    pub fn destroy(&mut self)
        ensures
            final(self)@ == old(self)@.destroyed(),
    {
        let gone = self.value.take();
        if gone.is_some() {
            proof {
                self.dropped@ = self.dropped@ + 1;
            }
        }
    }
}

/// A shape of memory that a handle can point to: one slot, a run of slots, or
/// a fixed-size array of slots.
pub trait Region {
    /// The type of the values that the slots hold.
    type Elem;

    /// The slots of the region, in address order.
    spec fn slots(&self) -> Seq<SlotView<Self::Elem>>;

    /// Whether every slot holds a live value.
    fn is_init(&self) -> (b: bool)
        ensures
            b == live(self.slots()),
    ;

    /// Runs the destructor of every live value in the region.
    fn destroy(&mut self)
        ensures
            final(self).slots() == destroyed(old(self).slots()),
    ;
}

impl<T> Region for Slot<T> {
    type Elem = T;

    open spec fn slots(&self) -> Seq<SlotView<T>> {
        seq![self@]
    }

    fn is_init(&self) -> (b: bool) {
        assert(self.slots()[0] == self@);
        Slot::is_init(self)
    }

    fn destroy(&mut self) {
        Slot::destroy(self);
        assert(final(self).slots() =~= destroyed(old(self).slots()));
    }
}

/// The slots of a run of cells.
pub open spec fn slots_of<T>(s: Seq<Slot<T>>) -> Seq<SlotView<T>> {
    Seq::new(s.len(), |i: int| s[i]@)
}

/// Whether every slot of a run holds a live value.
pub fn run_is_init<T>(run: &[Slot<T>]) -> (b: bool)
    ensures
        b == live(slots_of(run@)),
{
    let mut i: usize = 0;
    while i < run.len()
        invariant
            i <= run.len(),
            forall|j: int| 0 <= j < i ==> (#[trigger] slots_of(run@)[j]).value is Some,
        decreases run.len() - i,
    {
        if !run[i].is_init() {
            assert(slots_of(run@)[i as int].value is None);
            return false;
        }
        i += 1;
    }
    true
}

/// Runs the destructor of every live value in `run[from..to]`.
pub fn destroy_range<T>(run: &mut [Slot<T>], from: usize, to: usize)
    requires
        from <= to <= old(run)@.len(),
    ensures
        final(run)@.len() == old(run)@.len(),
        forall|i: int|
            0 <= i < old(run)@.len() ==> (#[trigger] final(run)@[i])@ == (if from <= i < to {
                old(run)@[i]@.destroyed()
            } else {
                old(run)@[i]@
            }),
{
    let mut i: usize = from;
    while i < to
        invariant
            from <= i <= to <= run@.len(),
            run@.len() == old(run)@.len(),
            forall|j: int|
                0 <= j < run@.len() ==> (#[trigger] run@[j])@ == (if from <= j < i {
                    old(run)@[j]@.destroyed()
                } else {
                    old(run)@[j]@
                }),
        decreases to - i,
    {
        run[i].destroy();
        i += 1;
    }
}

impl<T> Region for [Slot<T>] {
    type Elem = T;

    open spec fn slots(&self) -> Seq<SlotView<T>> {
        slots_of(self@)
    }

    fn is_init(&self) -> (b: bool) {
        run_is_init(self)
    }

    fn destroy(&mut self) {
        let n = self.len();
        destroy_range(self, 0, n);
        assert(final(self).slots() =~= destroyed(old(self).slots()));
    }
}

impl<T, const N: usize> Region for [Slot<T>; N] {
    type Elem = T;

    open spec fn slots(&self) -> Seq<SlotView<T>> {
        slots_of(self@)
    }

    fn is_init(&self) -> (b: bool) {
        run_is_init(self.as_slice())
    }

    fn destroy(&mut self) {
        let run: &mut [Slot<T>] = self;
        destroy_range(run, 0, N);
        assert(final(self).slots() =~= destroyed(old(self).slots()));
    }
}

} // verus!
