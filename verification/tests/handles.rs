use inplace_init::from_fn::with_value;
use inplace_init::pin_ptr::{PinnedInit, PinnedUninit};
use inplace_init::slot::{Region, Slot};
use inplace_init::{Init, Uninit};
use std::cell::RefCell;
use std::rc::Rc;

struct Noisy {
    id: usize,
    log: Rc<RefCell<Vec<usize>>>,
}

impl Drop for Noisy {
    fn drop(&mut self) {
        self.log.borrow_mut().push(self.id);
    }
}

fn noisy(id: usize, log: &Rc<RefCell<Vec<usize>>>) -> Noisy {
    Noisy { id, log: log.clone() }
}

#[test]
fn write_then_read() {
    let mut slot: Slot<u32> = Slot::new();
    let init = Uninit::from_raw(&mut slot).write(5);
    assert_eq!(*init.as_ref(), 5);
    init.take_ownership();
    assert!(slot.is_init());
    assert_eq!(slot.get(), Some(&5));
}

#[test]
fn fresh_slot_is_vacant() {
    let slot: Slot<String> = Slot::new();
    assert!(!slot.is_init());
    assert!(slot.get().is_none());
    let run: Vec<Slot<u8>> = Slot::run(3);
    assert_eq!(run.len(), 3);
    assert!(run.iter().all(|s| !s.is_init()));
}

#[test]
fn raw_write_then_assume_init() {
    let mut slot: Slot<u32> = Slot::new();
    let mut uninit = Uninit::from_raw(&mut slot);
    uninit.as_mut_ptr().put(9);
    assert!(uninit.as_ptr().is_init());
    let init = uninit.assume_init();
    assert_eq!(*init.as_ref(), 9);
    assert_eq!(init.into_inner(), 9);
    assert!(!slot.is_init());
}

#[test]
fn put_forgets_the_stale_value() {
    let log = Rc::new(RefCell::new(Vec::new()));
    let mut slot: Slot<Noisy> = Slot::new();
    slot.put(noisy(1, &log));
    slot.put(noisy(2, &log));
    assert!(log.borrow().is_empty());
    slot.destroy();
    assert_eq!(*log.borrow(), vec![2]);
    slot.destroy();
    assert_eq!(*log.borrow(), vec![2]);
}

#[test]
fn drop_runs_the_destructor_once() {
    let log = Rc::new(RefCell::new(Vec::new()));
    let mut slot: Slot<Noisy> = Slot::new();
    let init = Uninit::from_raw(&mut slot).write(noisy(7, &log));
    assert!(log.borrow().is_empty());
    let back = init.drop();
    assert_eq!(*log.borrow(), vec![7]);
    assert!(!back.as_ptr().is_init());
    back.release();
    drop(slot);
    assert_eq!(*log.borrow(), vec![7]);
}

#[test]
fn relinquish_then_reconstruct_destructs_once() {
    let log = Rc::new(RefCell::new(Vec::new()));
    let mut slot: Slot<Noisy> = Slot::new();
    let init = Uninit::from_raw(&mut slot).write(noisy(3, &log));
    let raw: &mut Slot<Noisy> = init.into_raw();
    assert!(log.borrow().is_empty());
    assert!(raw.is_init());
    let again: Init<Slot<Noisy>> = Uninit::from_raw(raw).assume_init();
    assert_eq!(again.as_ref().id, 3);
    assert!(log.borrow().is_empty());
    again.drop().release();
    assert_eq!(*log.borrow(), vec![3]);
    drop(slot);
    assert_eq!(*log.borrow(), vec![3]);
}

#[test]
fn take_ownership_leaves_the_value_to_the_owner() {
    let log = Rc::new(RefCell::new(Vec::new()));
    let mut slot: Slot<Noisy> = Slot::new();
    Uninit::from_raw(&mut slot).write(noisy(4, &log)).take_ownership();
    assert!(log.borrow().is_empty());
    assert!(slot.is_init());
    drop(slot);
    assert_eq!(*log.borrow(), vec![4]);
}

#[test]
fn try_init_dispatches_to_the_recipe() {
    let mut slot: Slot<String> = Slot::new();
    let init = Uninit::from_raw(&mut slot)
        .try_init(with_value(String::from("hi")))
        .unwrap_or_else(|never| match never {});
    assert_eq!(init.as_ref(), "hi");
    init.take_ownership();
    let mut other: Slot<u16> = Slot::new();
    let init = Uninit::from_raw(&mut other).init(12u16);
    assert_eq!(*init.as_ref(), 12);
}

#[test]
fn result_recipe_writes_or_fails() {
    let mut slot: Slot<u8> = Slot::new();
    let ok: Result<u8, &str> = Ok(3);
    let init = Uninit::from_raw(&mut slot).try_init(ok).ok().unwrap();
    assert_eq!(*init.as_ref(), 3);
    init.take_ownership();
    let mut slot: Slot<u8> = Slot::new();
    let bad: Result<u8, &str> = Err("no");
    let r = Uninit::from_raw(&mut slot).try_init(bad);
    assert_eq!(r.err(), Some("no"));
    assert!(!slot.is_init());
}

#[test]
fn unit_recipe_writes_zero() {
    let mut slot: Slot<i64> = Slot::new();
    Uninit::from_raw(&mut slot).init(()).take_ownership();
    assert_eq!(slot.get(), Some(&0));
    let mut flag: Slot<bool> = Slot::new();
    flag.put(true);
    Uninit::from_raw(&mut flag).init(()).take_ownership();
    assert_eq!(flag.get(), Some(&false));
    let mut c: Slot<char> = Slot::new();
    Uninit::from_raw(&mut c).init(()).take_ownership();
    assert_eq!(c.get(), Some(&'\0'));
}

#[test]
fn region_destroy_and_is_init() {
    let log = Rc::new(RefCell::new(Vec::new()));
    let mut run: Vec<Slot<Noisy>> = Slot::run(3);
    run[0].put(noisy(10, &log));
    run[2].put(noisy(12, &log));
    assert!(!Region::is_init(run.as_slice()));
    run[1].put(noisy(11, &log));
    assert!(Region::is_init(run.as_slice()));
    Region::destroy(run.as_mut_slice());
    assert_eq!(*log.borrow(), vec![10, 11, 12]);
    assert!(run.iter().all(|s| !s.is_init()));
}

#[test]
fn pinned_handles_wrap_and_unwrap() {
    let mut slot: Slot<u32> = Slot::new();
    let mut pinned = PinnedUninit::new_unchecked(Uninit::from_raw(&mut slot));
    assert!(!pinned.as_ptr().is_init());
    assert!(!pinned.as_non_null_ptr().is_init());
    assert!(!pinned.as_mut_ptr().is_init());
    let mut init = pinned.write(21);
    assert_eq!(init.as_ptr().get(), Some(&21));
    assert_eq!(init.as_mut_ptr().get(), Some(&21));
    assert_eq!(init.as_non_null_ptr().get(), Some(&21));
    let plain = PinnedInit::into_inner_unchecked(init);
    assert_eq!(*plain.as_ref(), 21);
    let raw = PinnedInit::new_unchecked(plain).into_raw();
    assert_eq!(raw.get(), Some(&21));
    let mut other: Slot<u32> = Slot::new();
    let back = PinnedUninit::new_unchecked(Uninit::from_raw(&mut other)).into_inner_unchecked();
    back.write(1).take_ownership();
    assert_eq!(other.get(), Some(&1));
}
