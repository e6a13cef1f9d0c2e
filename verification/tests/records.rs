use inplace_init::array::{from_slice, ArrayLayoutProvider, FromSlice};
use inplace_init::from_fn::with_value;
use inplace_init::layout::Layout;
use inplace_init::layout_provider::{LayoutProvider, SizedLayoutProvider};
use inplace_init::pin_ptr::PinnedUninit;
use inplace_init::self_ref::SelfRef;
use inplace_init::slice::{
    copy_from_slice, repeat, InitFromIterError, Repeat, SliceLayoutProvider, WithLength,
};
use inplace_init::slice_tail::{
    record_layout, SliceTail, SliceTailArgs, SliceTailError, SliceTailLayoutProvider,
};
use inplace_init::slot::Slot;
use inplace_init::boxed::{boxed, boxed_with};
use inplace_init::vec::VecExt;
use inplace_init::{PrimitiveLayoutProvider, Uninit};
use std::cell::RefCell;
use std::rc::Rc;

struct Noisy {
    id: usize,
    log: Rc<RefCell<Vec<usize>>>,
}

impl Drop for Noisy {
    fn drop(&mut self) {
        self.log.borrow_mut().push(self.id);
    }
}

#[test]
fn lib_test() {
    let mut this = SelfRef::new(10);

    let a = this.get().unwrap().get();
    this.get_mut().unwrap().set_second();
    let b = this.get().unwrap().get();
    this.get_mut().unwrap().set_first();
    let c = this.get().unwrap().get();
    assert_eq!(a, 10);
    assert_eq!(b, 0);
    assert_eq!(c, 10);
}

#[test]
fn self_ref_many_counts_up_from_the_value() {
    let run = SelfRef::many(5, 3);
    let read: Vec<i32> = run.iter().map(|s| s.get().unwrap().get()).collect();
    assert_eq!(read, vec![6, 7, 8]);
    let run = SelfRef::many(i32::MAX - 1, 3);
    let read: Vec<i32> = run.iter().map(|s| s.get().unwrap().get()).collect();
    assert_eq!(read, vec![i32::MAX, i32::MIN, i32::MIN + 1]);
    assert_eq!(SelfRef::many(0, 0).len(), 0);
}

#[test]
fn self_ref_is_built_in_a_pinned_region() {
    let mut slot: Slot<SelfRef> = Slot::new();
    let pinned = SelfRef::new_in(PinnedUninit::new_unchecked(Uninit::from_raw(&mut slot)), -4);
    assert_eq!(pinned.as_ptr().get().unwrap().get(), -4);
    let mut other: Slot<SelfRef> = Slot::new();
    Uninit::from_raw(&mut other).init(SelfRef::init(9)).take_ownership();
    assert_eq!(other.get().unwrap().get(), 9);
    let mut run: Vec<Slot<SelfRef>> = Slot::run(2);
    SelfRef::fill(Uninit::from_raw(run.as_mut_slice()), 1).take_ownership();
    assert_eq!(run[1].get().unwrap().get(), 3);
}

#[test]
fn slot_get_mut_changes_the_value_in_place() {
    let mut slot: Slot<u32> = Slot::new();
    assert!(slot.get_mut().is_none());
    slot.put(1);
    *slot.get_mut().unwrap() += 4;
    assert_eq!(slot.get(), Some(&5));
    assert_eq!(slot.take(), Some(5));
    assert_eq!(slot.take(), None);
}

#[test]
fn write_slice_returns_the_handle_on_mismatch() {
    let mut run: Vec<Slot<u8>> = Slot::run(5);
    let src = [1u8, 2, 3, 4];
    match Uninit::from_raw(run.as_mut_slice()).write_slice(&src) {
        Ok(_) => panic!("lengths differ"),
        Err((back, e)) => {
            assert_eq!((e.src_len, e.dest_len), (4, 5));
            assert_eq!(back.len(), 5);
            let full = [1u8, 2, 3, 4, 5];
            let init = back.write_slice(&full).ok().unwrap();
            assert_eq!(*init.get(4), 5);
        }
    }
}

#[test]
fn array_handle_turns_into_a_run_handle() {
    let mut array: [Slot<u8>; 3] = [Slot::new(), Slot::new(), Slot::new()];
    let run = Uninit::from_raw(&mut array).into_slice();
    assert_eq!(run.len(), 3);
    run.init(repeat(2u8)).take_ownership();
    assert_eq!(array[2].get(), Some(&2));
}

#[test]
fn with_length_takes_the_length_of_the_iterator() {
    let recipe = WithLength::init_from_iter(vec![1u8, 2, 3].into_iter());
    assert_eq!(recipe.len(), 3);
    let mut run: Vec<Slot<u8>> = Slot::run(recipe.len());
    let init = Uninit::from_raw(run.as_mut_slice()).try_init(recipe).ok().unwrap();
    assert_eq!((*init.get(0), *init.get(1), *init.get(2)), (1, 2, 3));
    let recipe = WithLength::init_from_iter(vec![1u8].into_iter());
    let mut run: Vec<Slot<u8>> = Slot::run(2);
    let r = Uninit::from_raw(run.as_mut_slice()).try_init(recipe);
    assert!(matches!(r, Err(InitFromIterError::NotEnoughItems)));
}

#[test]
fn array_provider_uses_the_array_length() {
    type P = ArrayLayoutProvider<SliceLayoutProvider<PrimitiveLayoutProvider>>;
    let zero: FromSlice<WithLength<Repeat<u16>>> = from_slice(WithLength::from_init(3, repeat(0)));
    let l = <P as LayoutProvider<[Slot<u16>; 3], _>>::layout(&zero).unwrap();
    assert_eq!((l.size(), l.align()), (6, 2));
    assert_eq!(<P as LayoutProvider<[Slot<u16>; 3], _>>::cast(32, &zero), (32, 3));
    assert!(<P as LayoutProvider<[Slot<u16>; 3], _>>::is_zeroed(&zero));
    let mut array: [Slot<u16>; 3] = [Slot::new(), Slot::new(), Slot::new()];
    <P as LayoutProvider<[Slot<u16>; 3], _>>::zero_fill(Uninit::from_raw(&mut array), &zero)
        .ok()
        .unwrap()
        .take_ownership();
    let mut written: [Slot<u16>; 3] = [Slot::new(), Slot::new(), Slot::new()];
    Uninit::from_raw(&mut written).init(zero).take_ownership();
    for i in 0..3 {
        assert_eq!(array[i].get(), written[i].get());
    }
    let seven: FromSlice<WithLength<Repeat<u16>>> = from_slice(WithLength::from_init(3, repeat(7)));
    assert!(!<P as LayoutProvider<[Slot<u16>; 3], _>>::is_zeroed(&seven));
}

#[test]
fn record_layout_places_length_header_and_tail() {
    let tail = Layout::array::<u16>(3).unwrap();
    let l = record_layout::<u8>(tail).unwrap();
    let word = std::mem::size_of::<usize>();
    assert_eq!(l.align(), word);
    assert_eq!(l.size(), (word + 2 + 6).next_multiple_of(word));
    let tail = Layout::array::<u8>(3).unwrap();
    let l = record_layout::<u64>(tail).unwrap();
    assert_eq!((l.size(), l.align()), ((word + 8 + 3).next_multiple_of(8), 8));
    let tail = Layout::array::<u64>(2).unwrap();
    let l = record_layout::<u32>(tail).unwrap();
    assert_eq!(l.size(), word + 8 + 16);
    let huge = Layout::array::<u8>(isize::MAX as usize).unwrap();
    assert!(record_layout::<u8>(huge).is_none());
}

#[test]
fn slice_tail_provider_combines_header_and_tail() {
    type P = SliceTailLayoutProvider<SliceLayoutProvider<PrimitiveLayoutProvider>, PrimitiveLayoutProvider>;
    let args = SliceTailArgs { header: 0u32, tail: WithLength::from_init(0, repeat(0u8)) };
    assert!(P::is_zeroed::<u32, u8, _, _>(&args));
    let args = SliceTailArgs { header: 0u32, tail: WithLength::from_init(2, repeat(0u8)) };
    assert!(!P::is_zeroed::<u32, u8, _, _>(&args));
    assert_eq!(P::cast::<u32, u8, _, _>(64, &args), (64, 2));
    let l = P::layout::<u32, u8, _, _>(&args).unwrap();
    let word = std::mem::size_of::<usize>();
    assert_eq!(l.align(), word);
    assert_eq!(l.size(), (word + 4 + 2).next_multiple_of(word));
    let args = SliceTailArgs { header: 0u64, tail: WithLength::from_init(3, repeat(0u8)) };
    let l = P::layout::<u64, u8, _, _>(&args).unwrap();
    assert_eq!(l.size(), (word + 8 + 3).next_multiple_of(8));
    assert_eq!(l.size() % l.align(), 0);
    let args = SliceTailArgs { header: 1u32, tail: WithLength::from_init(0, repeat(0u8)) };
    assert!(!P::is_zeroed::<u32, u8, _, _>(&args));
    let args = SliceTailArgs { header: 0u32, tail: WithLength::from_init(0, repeat(1u8)) };
    assert!(!P::is_zeroed::<u32, u8, _, _>(&args));
    let args = SliceTailArgs { header: 0u32, tail: WithLength::from_init(usize::MAX, repeat(0u64)) };
    assert!(P::layout::<u32, u64, _, _>(&args).is_none());
    let one = <SizedLayoutProvider as LayoutProvider<Slot<u8>, _>>::layout(&with_value(1u8)).unwrap();
    assert_eq!(one.size(), 1);
}

#[test]
fn slice_tail_is_built_field_by_field() {
    let mut record: SliceTail<String, u8> = SliceTail::new(3);
    assert_eq!(record.len(), 3);
    assert!(record.get_header().is_none());
    let src = [1u8, 2, 3];
    let args = SliceTailArgs { header: with_value(String::from("h")), tail: copy_from_slice(&src) };
    assert!(record.try_init(args).is_ok());
    assert_eq!(record.get_header().map(|s| s.as_str()), Some("h"));
    assert_eq!(record.get_tail(2), Some(&3));
}

#[test]
fn slice_tail_rolls_the_header_back_when_the_tail_fails() {
    let log = Rc::new(RefCell::new(Vec::new()));
    let mut record: SliceTail<Noisy, u8> = SliceTail::new(3);
    let short = [1u8, 2];
    let args = SliceTailArgs {
        header: with_value(Noisy { id: 1, log: log.clone() }),
        tail: copy_from_slice(&short),
    };
    match record.try_init(args) {
        Err(SliceTailError::TailError(e)) => assert_eq!((e.src_len, e.dest_len), (2, 3)),
        _ => panic!("the tail is too short"),
    }
    assert_eq!(*log.borrow(), vec![1]);
    assert!(record.get_header().is_none());
    assert!(record.get_tail(0).is_none());
    let bad: Result<u32, &str> = Err("header");
    let mut record: SliceTail<u32, u8> = SliceTail::new(1);
    let r = record.try_init(SliceTailArgs { header: bad, tail: repeat(1u8) });
    assert_eq!(r, Err(SliceTailError::HeaderError("header")));
    assert!(record.get_tail(0).is_none());
}

#[test]
fn vec_extends_by_a_run_built_from_a_recipe() {
    type P = SliceLayoutProvider<PrimitiveLayoutProvider>;
    let mut v: Vec<u16> = vec![1, 2];
    let r = v.try_extend_from_slice_in_place::<_, P>(WithLength::from_init(3, repeat(9u16)));
    assert!(r.is_ok());
    assert_eq!(v, vec![1, 2, 9, 9, 9]);
    let r = v.try_extend_from_slice_in_place::<_, P>(WithLength::from_init(0, repeat(9u16)));
    assert!(r.is_ok());
    assert_eq!(v.len(), 5);
}

#[test]
fn initialized_handle_gives_write_access() {
    let mut slot: Slot<String> = Slot::new();
    let mut init = Uninit::from_raw(&mut slot).init(with_value(String::from("a")));
    init.as_mut().push('b');
    assert_eq!(init.as_ref(), "ab");
    init.take_ownership();
    assert_eq!(slot.get().map(|s| s.as_str()), Some("ab"));
}

#[test]
fn pinned_record_changes_in_place() {
    let mut slot: Slot<SelfRef> = Slot::new();
    let mut pinned = SelfRef::new_in(PinnedUninit::new_unchecked(Uninit::from_raw(&mut slot)), 6);
    assert_eq!(pinned.get().get(), 6);
    pinned.set_second();
    assert_eq!(pinned.get().get(), 0);
    pinned.set_first();
    assert_eq!(pinned.get().get(), 6);
}

#[test]
fn initialized_walk_checks_its_slots() {
    let mut run: Vec<Slot<u8>> = Slot::run(2);
    let init = Uninit::from_raw(run.as_mut_slice()).init(repeat(1u8));
    let mut iter = init.into_iter();
    assert!(iter.check());
    assert_eq!(*iter.next().unwrap().as_ref(), 1);
    assert!(iter.check());
}

#[test]
fn vec_emplace_pushes_what_the_recipe_builds() {
    let mut v: Vec<u32> = vec![1];
    assert!(v.try_emplace(5u32).is_ok());
    assert!(v.try_emplace_unchecked(with_value(6u32)).is_ok());
    let bad: Result<u32, &str> = Err("no");
    assert_eq!(v.try_emplace(bad), Err("no"));
    assert_eq!(v, vec![1, 5, 6]);
}

#[test]
fn run_handle_turns_into_an_array_handle_of_its_length() {
    let mut run: Vec<Slot<u8>> = Slot::run(3);
    let handle = Uninit::from_raw(run.as_mut_slice());
    let handle = match handle.try_into_array::<2>() {
        Ok(_) => panic!("the run has three slots"),
        Err(back) => back,
    };
    assert_eq!(handle.len(), 3);
    let array = handle.try_into_array::<3>().ok().unwrap();
    let src = [7u8, 8, 9];
    let init = array.try_init(from_slice(copy_from_slice(&src))).ok().unwrap();
    init.take_ownership();
    assert_eq!(run[0].get(), Some(&7));
    assert_eq!(run[2].get(), Some(&9));
    let init = Uninit::from_raw(run.as_mut_slice()).assume_init();
    let init = match init.try_into_array::<4>() {
        Ok(_) => panic!("the run has three values"),
        Err(back) => back,
    };
    let array = init.try_into_array::<3>().ok().unwrap();
    assert_eq!(array.as_ptr()[1].get(), Some(&8));
}

#[test]
fn write_array_moves_the_values_in_order() {
    let mut run: Vec<Slot<String>> = Slot::run(3);
    let handle = Uninit::from_raw(run.as_mut_slice());
    let handle = match handle.write_array([String::from("x"), String::from("y")]) {
        Ok(_) => panic!("the run has three slots"),
        Err((back, given)) => {
            assert_eq!(given, [String::from("x"), String::from("y")]);
            back
        }
    };
    let init = handle
        .write_array([String::from("a"), String::from("b"), String::from("c")])
        .ok()
        .unwrap();
    assert_eq!((init.get(0).as_str(), init.get(1).as_str(), init.get(2).as_str()), ("a", "b", "c"));
}

#[test]
fn vec_extends_from_an_iterator_of_recipes() {
    let mut v: Vec<u8> = vec![1];
    assert!(v.extend_emplate(vec![2u8, 3, 4].into_iter()).is_ok());
    assert_eq!(v, vec![1, 2, 3, 4]);
    let items: Vec<Result<u8, &str>> = vec![Ok(5), Err("six"), Ok(7)];
    let mut rest = items.into_iter();
    assert_eq!(v.extend_emplate(&mut rest), Err("six"));
    assert_eq!(v, vec![1, 2, 3, 4, 5]);
    assert_eq!(rest.next(), Some(Ok(7)));
    let none: Vec<u8> = Vec::new();
    assert!(v.extend_emplate(none.into_iter()).is_ok());
    assert_eq!(v.len(), 5);
}

#[test]
fn arrays_are_built_on_the_heap() {
    let fives: Box<[Slot<u8>; 3]> =
        boxed_with::<_, _, ArrayLayoutProvider<PrimitiveLayoutProvider>>(repeat(5u8));
    let read: Vec<u8> = fives.iter().map(|s| *s.get().unwrap()).collect();
    assert_eq!(read, vec![5, 5, 5]);
    let zeros: Box<[Slot<u32>; 2]> = boxed(());
    let read: Vec<u32> = zeros.iter().map(|s| *s.get().unwrap()).collect();
    assert_eq!(read, vec![0, 0]);
    let empty: Box<[Slot<u32>; 0]> = boxed(repeat(1u32));
    assert_eq!(empty.len(), 0);
}
