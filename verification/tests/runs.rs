use inplace_init::array::from_slice;
use inplace_init::from_fn::with_value;
use inplace_init::slice::{
    copy_from_slice, fill_from_iter, from_iter, repeat, CopyFromSliceError, InitFromIterError,
    WithLength,
};
use inplace_init::slice_writer::SliceWriter;
use inplace_init::slot::Slot;
use inplace_init::Uninit;
use std::cell::{Cell, RefCell};
use std::rc::Rc;

struct Noisy {
    id: usize,
    log: Rc<RefCell<Vec<usize>>>,
}

impl Drop for Noisy {
    fn drop(&mut self) {
        self.log.borrow_mut().push(self.id);
    }
}

fn noisy(id: usize, log: &Rc<RefCell<Vec<usize>>>) -> Noisy {
    Noisy { id, log: log.clone() }
}

struct Counted {
    value: u32,
    clones: Rc<Cell<usize>>,
}

impl Clone for Counted {
    fn clone(&self) -> Self {
        self.clones.set(self.clones.get() + 1);
        Counted { value: self.value, clones: self.clones.clone() }
    }
}

#[test]
fn writer_writes_in_order_and_reads_back() {
    let mut run: Vec<Slot<u32>> = Slot::run(4);
    let mut writer = SliceWriter::new(Uninit::from_raw(run.as_mut_slice()));
    assert_eq!(writer.remaining_len(), 4);
    assert!(!writer.is_initialized());
    for i in 0..4u32 {
        let r = writer.try_init(10 + i);
        assert!(matches!(r, Ok(Ok(()))));
        assert_eq!(writer.remaining_len(), 3 - i as usize);
    }
    assert!(writer.is_initialized());
    assert!(matches!(writer.try_init(99u32), Err(99)));
    let init = writer.finish();
    assert_eq!(init.len(), 4);
    for i in 0..4usize {
        assert_eq!(*init.get(i), 10 + i as u32);
    }
    init.take_ownership();
    let read: Vec<u32> = run.iter().map(|s| *s.get().unwrap()).collect();
    assert_eq!(read, vec![10, 11, 12, 13]);
}

#[test]
fn writer_on_empty_run_is_complete() {
    let mut run: Vec<Slot<u32>> = Slot::run(0);
    let mut writer = SliceWriter::new(Uninit::from_raw(run.as_mut_slice()));
    assert!(writer.is_initialized());
    assert_eq!(writer.remaining_len(), 0);
    assert!(matches!(writer.try_init(1u32), Err(1)));
    assert_eq!(writer.finish_unchecked().len(), 0);
}

#[test]
fn writer_failure_poisons_and_keeps_the_count() {
    let log = Rc::new(RefCell::new(Vec::new()));
    let mut run: Vec<Slot<Noisy>> = Slot::run(3);
    let mut writer = SliceWriter::new(Uninit::from_raw(run.as_mut_slice()));
    let first: Result<Noisy, &str> = Ok(noisy(1, &log));
    assert!(matches!(writer.try_init(first), Ok(Ok(()))));
    let second: Result<Noisy, &str> = Err("boom");
    assert!(matches!(writer.try_init(second), Ok(Err("boom"))));
    assert_eq!(writer.remaining_len(), 0);
    assert!(!writer.is_initialized());
    let third: Result<Noisy, &str> = Err("late");
    assert!(matches!(writer.try_init(third), Err(Err("late"))));
    assert!(log.borrow().is_empty());
    writer.abandon().release();
    assert_eq!(*log.borrow(), vec![1]);
    assert!(run.iter().all(|s| !s.is_init()));
}

#[test]
fn failure_at_third_of_five_destructs_first_two_once() {
    let log = Rc::new(RefCell::new(Vec::new()));
    let built = Rc::new(RefCell::new(Vec::new()));
    let mut run: Vec<Slot<Noisy>> = Slot::run(5);
    let items = (1..=5usize).map(|i| {
        if i == 3 {
            Err("third")
        } else {
            built.borrow_mut().push(i);
            Ok(noisy(i, &log))
        }
    });
    let r = Uninit::from_raw(run.as_mut_slice()).try_init(from_iter(items));
    assert!(matches!(r, Err(InitFromIterError::Error("third"))));
    assert_eq!(*built.borrow(), vec![1, 2]);
    assert_eq!(*log.borrow(), vec![1, 2]);
    assert!(run.iter().all(|s| !s.is_init()));
    drop(run);
    assert_eq!(*log.borrow(), vec![1, 2]);
}

#[test]
fn copy_of_four_into_five_reports_both_lengths_and_writes_nothing() {
    let mut run: Vec<Slot<u8>> = Slot::run(5);
    let src = [1u8, 2, 3, 4];
    let r = Uninit::from_raw(run.as_mut_slice()).try_init(copy_from_slice(&src));
    match r {
        Ok(_) => panic!("lengths differ"),
        Err(e) => {
            assert_eq!(e, CopyFromSliceError { src_len: 4, dest_len: 5 });
            assert_eq!(e.src_len, 4);
            assert_eq!(e.dest_len, 5);
        }
    }
    assert!(run.iter().all(|s| !s.is_init()));
}

#[test]
fn copy_of_equal_length_copies_every_value() {
    let mut run: Vec<Slot<u8>> = Slot::run(4);
    let src = [9u8, 8, 7, 6];
    let init = Uninit::from_raw(run.as_mut_slice()).try_init(copy_from_slice(&src)).ok().unwrap();
    for i in 0..4 {
        assert_eq!(*init.get(i), src[i]);
    }
    let mut empty: Vec<Slot<u8>> = Slot::run(0);
    let none: [u8; 0] = [];
    assert!(Uninit::from_raw(empty.as_mut_slice()).try_init(copy_from_slice(&none)).is_ok());
}

#[test]
fn pulling_exactly_n_items_succeeds_and_drains() {
    let mut run: Vec<Slot<u32>> = Slot::run(3);
    let mut items = vec![5u32, 6, 7].into_iter();
    let mut writer = SliceWriter::new(Uninit::from_raw(run.as_mut_slice()));
    assert!(fill_from_iter(&mut writer, &mut items).is_ok());
    assert!(items.next().is_none());
    let init = writer.finish();
    assert_eq!((*init.get(0), *init.get(1), *init.get(2)), (5, 6, 7));
}

#[test]
fn pulling_leaves_the_extra_items_in_the_iterator() {
    let mut run: Vec<Slot<u32>> = Slot::run(2);
    let mut items = vec![1u32, 2, 3, 4].into_iter();
    let mut writer = SliceWriter::new(Uninit::from_raw(run.as_mut_slice()));
    assert!(fill_from_iter(&mut writer, &mut items).is_ok());
    writer.finish().take_ownership();
    assert_eq!(items.next(), Some(3));
    assert_eq!(items.next(), Some(4));
}

#[test]
fn pulling_n_minus_one_items_fails_and_rolls_back() {
    let log = Rc::new(RefCell::new(Vec::new()));
    let mut run: Vec<Slot<Noisy>> = Slot::run(4);
    let items: Vec<Result<Noisy, ()>> = (1..=3usize).map(|i| Ok(noisy(i, &log))).collect();
    let r = Uninit::from_raw(run.as_mut_slice()).try_init(from_iter(items.into_iter()));
    assert!(matches!(r, Err(InitFromIterError::NotEnoughItems)));
    let mut dropped = log.borrow().clone();
    dropped.sort();
    assert_eq!(dropped, vec![1, 2, 3]);
    assert!(run.iter().all(|s| !s.is_init()));
}

#[test]
fn from_iter_builds_every_slot() {
    let mut run: Vec<Slot<u64>> = Slot::run(3);
    let init = Uninit::from_raw(run.as_mut_slice())
        .try_init(from_iter(vec![3u64, 1, 2].into_iter()))
        .ok()
        .unwrap();
    assert_eq!((*init.get(0), *init.get(1), *init.get(2)), (3, 1, 2));
}

#[test]
fn repeat_clones_for_all_but_the_last() {
    let clones = Rc::new(Cell::new(0));
    let mut run: Vec<Slot<Counted>> = Slot::run(4);
    let recipe = repeat(with_value(Counted { value: 8, clones: clones.clone() }));
    let init = Uninit::from_raw(run.as_mut_slice()).init(recipe);
    assert_eq!(clones.get(), 3);
    for i in 0..4 {
        assert_eq!(init.get(i).value, 8);
    }
    init.take_ownership();
    let mut empty: Vec<Slot<Counted>> = Slot::run(0);
    let recipe = repeat(with_value(Counted { value: 1, clones: clones.clone() }));
    assert_eq!(Uninit::from_raw(empty.as_mut_slice()).init(recipe).len(), 0);
    assert_eq!(clones.get(), 3);
}

#[test]
fn repeat_stops_at_a_failing_element() {
    let mut run: Vec<Slot<u8>> = Slot::run(3);
    let bad: Result<u8, u32> = Err(17);
    let r = Uninit::from_raw(run.as_mut_slice()).try_init(repeat(bad));
    assert_eq!(r.err(), Some(17));
    assert!(run.iter().all(|s| !s.is_init()));
}

#[test]
fn unit_recipe_zeroes_a_run() {
    let mut run: Vec<Slot<i32>> = Slot::run(3);
    let init = Uninit::from_raw(run.as_mut_slice()).init(());
    assert_eq!((*init.get(0), *init.get(1), *init.get(2)), (0, 0, 0));
}

#[test]
fn with_length_carries_the_recipe_and_the_length() {
    let recipe = WithLength::from_init(3, repeat(4u16));
    assert_eq!(recipe.len(), 3);
    let mut run: Vec<Slot<u16>> = Slot::run(recipe.len());
    let init = Uninit::from_raw(run.as_mut_slice()).init(recipe);
    assert_eq!((*init.get(0), *init.get(1), *init.get(2)), (4, 4, 4));
}

#[test]
fn array_recipes_build_the_whole_array() {
    let mut array: [Slot<u32>; 3] = [Slot::new(), Slot::new(), Slot::new()];
    let src = [4u32, 5, 6];
    Uninit::from_raw(&mut array)
        .try_init(from_slice(copy_from_slice(&src)))
        .ok()
        .unwrap()
        .take_ownership();
    let read: Vec<u32> = array.iter().map(|s| *s.get().unwrap()).collect();
    assert_eq!(read, vec![4, 5, 6]);
    let mut array: [Slot<u8>; 2] = [Slot::new(), Slot::new()];
    Uninit::from_raw(&mut array).init(repeat(7u8)).take_ownership();
    assert_eq!(array[1].get(), Some(&7));
    let mut array: [Slot<u8>; 2] = [Slot::new(), Slot::new()];
    let r = Uninit::from_raw(&mut array).try_init(from_iter(vec![1u8].into_iter()));
    assert!(matches!(r, Err(InitFromIterError::NotEnoughItems)));
    let mut array: [Slot<u8>; 2] = [Slot::new(), Slot::new()];
    let short = [1u8];
    let r = Uninit::from_raw(&mut array).try_init(from_slice(copy_from_slice(&short)));
    assert_eq!(r.err(), Some(CopyFromSliceError { src_len: 1, dest_len: 2 }));
    let mut array: [Slot<i8>; 2] = [Slot::new(), Slot::new()];
    Uninit::from_raw(&mut array).init(()).take_ownership();
    assert_eq!(array[0].get(), Some(&0));
}

#[test]
fn tests_test() {
    let mut x: Vec<Slot<usize>> = Slot::run(7);
    for (i, slot) in x.iter_mut().enumerate() {
        slot.put(i);
    }
    let mut x = Uninit::from_raw(x.as_mut_slice());

    let mut iter = x.iter_mut();
    let mut i = 0;
    while let Some(slot) = iter.next() {
        assert_eq!(Some(&i), slot.as_ptr().get());
        i += 1;
    }
    assert_eq!(i, 7);

    let mut iter = x.iter_mut();
    let mut i = 7;
    while let Some(slot) = iter.next_back() {
        i -= 1;
        assert_eq!(Some(&i), slot.as_ptr().get());
    }
    assert_eq!(i, 0);

    let mut iter = x.iter_mut();
    let mut expected = vec![6usize, 4, 2, 0].into_iter();
    let mut next = iter.next_back();
    while let Some(slot) = next {
        assert_eq!(expected.next().as_ref(), slot.as_ptr().get());
        next = iter.nth_back(1);
    }
    assert!(expected.next().is_none());

    let mut iter = x.iter_mut();
    let mut expected = vec![0usize, 2, 4, 6].into_iter();
    let mut next = iter.next();
    while let Some(slot) = next {
        assert_eq!(expected.next().as_ref(), slot.as_ptr().get());
        next = iter.nth(1);
    }
    assert!(expected.next().is_none());
}

#[test]
fn slice_iterator_counts_and_resets() {
    let mut run: Vec<Slot<u8>> = Slot::run(5);
    let mut handle = Uninit::from_raw(run.as_mut_slice());
    assert_eq!(handle.len(), 5);
    assert!(!handle.is_empty());
    let mut iter = handle.iter_mut();
    assert_eq!(iter.len(), 5);
    assert_eq!(iter.size_hint(), (5, Some(5)));
    iter.next_unchecked().write(1).take_ownership();
    iter.next_back_unchecked().write(5).take_ownership();
    assert_eq!(iter.len(), 3);
    iter.fwd_unchecked(1);
    iter.bck_unchecked(1);
    assert_eq!(iter.len(), 1);
    iter.next().unwrap().write(3).take_ownership();
    assert!(iter.is_empty());
    assert!(iter.next().is_none());
    assert!(iter.nth(0).is_none());
    let mut iter = handle.iter_mut();
    assert!(iter.nth(5).is_none());
    assert_eq!(iter.len(), 0);
    let mut iter = handle.iter_mut();
    iter.reset();
    assert!(iter.next_back().is_none());
    handle.release();
    let read: Vec<Option<u8>> = run.iter().map(|s| s.get().copied()).collect();
    assert_eq!(read, vec![Some(1), None, Some(3), None, Some(5)]);
}

#[test]
fn initialized_run_hands_out_its_values() {
    let mut run: Vec<Slot<String>> = Slot::run(3);
    let items = vec![String::from("a"), String::from("b"), String::from("c")];
    let init = Uninit::from_raw(run.as_mut_slice())
        .try_init(from_iter(items.into_iter().map(with_value)))
        .ok()
        .unwrap();
    let mut iter = init.into_iter();
    assert_eq!(iter.len(), 3);
    assert_eq!(iter.size_hint(), (3, Some(3)));
    assert_eq!(iter.next().unwrap().into_inner(), "a");
    assert_eq!(iter.next_back().unwrap().into_inner(), "c");
    assert_eq!(iter.next().unwrap().as_ref(), "b");
    assert!(iter.next().is_none());
    assert!(iter.next_back().is_none());
}

#[test]
fn uninit_run_turns_into_an_iterator() {
    let mut run: Vec<Slot<u8>> = Slot::run(2);
    let mut iter = Uninit::from_raw(run.as_mut_slice()).into_iter();
    assert_eq!(iter.len(), 2);
    assert!(!iter.is_empty());
    iter.next_unchecked().write(1).take_ownership();
    iter.next().unwrap().write(2).take_ownership();
    assert!(iter.is_empty());
    assert!(iter.next().is_none());
    assert_eq!(run[0].get(), Some(&1));
    assert_eq!(run[1].get(), Some(&2));
}

#[test]
fn arrays_take_their_items_from_an_iterator() {
    let mut array: [Slot<u16>; 3] = [Slot::new(), Slot::new(), Slot::new()];
    let mut items = vec![9u16, 8, 7, 6].into_iter();
    Uninit::from_raw(&mut array)
        .try_init(from_iter(&mut items))
        .ok()
        .unwrap()
        .take_ownership();
    let read: Vec<u16> = array.iter().map(|s| *s.get().unwrap()).collect();
    assert_eq!(read, vec![9, 8, 7]);
    assert_eq!(items.next(), Some(6));
    let mut array: [Slot<u16>; 3] = [Slot::new(), Slot::new(), Slot::new()];
    let items: Vec<Result<u16, &str>> = vec![Ok(1), Err("second"), Ok(3)];
    let r = Uninit::from_raw(&mut array).try_init(from_iter(items.into_iter()));
    assert!(matches!(r, Err(InitFromIterError::Error("second"))));
    assert!(array.iter().all(|s| !s.is_init()));
}
