use inplace_init::boxed::{boxed, boxed_with, try_boxed, try_boxed_with, Boxable};
use inplace_init::converters::{GetConverter, IsEmptyType, TagFrom, TagInf, Wrapper};
use inplace_init::from_fn::{from_fn, try_from_fn, with_value, WithValue};
use inplace_init::iter::RawIter;
use inplace_init::layout::Layout;
use inplace_init::layout_provider::{LayoutProvider, SizedLayoutProvider, Zeroable};
use inplace_init::slice::{repeat, Repeat, SliceLayoutProvider, WithLength};
use inplace_init::slot::Slot;
use inplace_init::thin::{Erasable, ErasablePtr, Thin, ThinCopy};
use inplace_init::{Init, PrimitiveLayoutProvider, Uninit};
use std::convert::Infallible;

#[test]
fn layout_of_a_type() {
    let l = Layout::new::<u32>();
    assert_eq!((l.size(), l.align()), (4, 4));
    let l = Layout::new::<u8>();
    assert_eq!((l.size(), l.align()), (1, 1));
    let l = Layout::new::<()>();
    assert_eq!((l.size(), l.align()), (0, 1));
}

#[test]
fn layout_of_an_array() {
    let l = Layout::array::<u32>(3).unwrap();
    assert_eq!((l.size(), l.align()), (12, 4));
    let l = Layout::array::<u16>(0).unwrap();
    assert_eq!((l.size(), l.align()), (0, 2));
    assert!(Layout::array::<u32>(usize::MAX).is_none());
    assert!(Layout::array::<u8>(isize::MAX as usize).is_some());
    assert!(Layout::array::<u8>(isize::MAX as usize + 1).is_none());
    assert!(Layout::array::<u64>(isize::MAX as usize / 8).is_some());
    assert!(Layout::array::<u64>(isize::MAX as usize / 8 + 1).is_none());
}

#[test]
fn layout_extend_pads_the_second_part() {
    let (l, offset) = Layout::new::<u8>().extend(Layout::new::<u32>()).unwrap();
    assert_eq!((l.size(), l.align(), offset), (8, 4, 4));
    let (l, offset) = Layout::new::<u32>().extend(Layout::new::<u8>()).unwrap();
    assert_eq!((l.size(), l.align(), offset), (5, 4, 4));
    let (l, offset) = Layout::new::<u16>().extend(Layout::array::<u64>(2).unwrap()).unwrap();
    assert_eq!((l.size(), l.align(), offset), (24, 8, 8));
    let big = Layout::array::<u8>(isize::MAX as usize).unwrap();
    assert!(big.extend(Layout::new::<u8>()).is_none());
    assert!(Layout::new::<u8>().extend(big).is_none());
}

#[test]
fn layout_pad_to_align_rounds_the_size_up() {
    let (l, _) = Layout::new::<u32>().extend(Layout::new::<u8>()).unwrap();
    let padded = l.pad_to_align();
    assert_eq!((padded.size(), padded.align()), (8, 4));
    let same = Layout::new::<u64>().pad_to_align();
    assert_eq!((same.size(), same.align()), (8, 8));
}

#[test]
fn test_raw_iter() {
    let bytes = b"hello world";
    let base = 0x1000usize;
    let mut iter: RawIter<u8> = RawIter::new(base, bytes.len());

    assert_eq!(iter.len(), 11);
    assert!(!iter.is_empty());
    assert_eq!(bytes[iter.next_unchecked() - base], b'h');
    assert_eq!(bytes[iter.next_unchecked() - base], b'e');
    assert_eq!(bytes[iter.next_unchecked() - base], b'l');
    assert_eq!(bytes[iter.next_unchecked() - base], b'l');
    assert_eq!(bytes[iter.next_unchecked() - base], b'o');
    assert_eq!(bytes[iter.next_unchecked() - base], b' ');
    assert_eq!(bytes[iter.next_unchecked() - base], b'w');
    assert_eq!(bytes[iter.next_unchecked() - base], b'o');
    assert_eq!(bytes[iter.next_unchecked() - base], b'r');
    assert_eq!(bytes[iter.next_unchecked() - base], b'l');
    assert_eq!(bytes[iter.next_unchecked() - base], b'd');
    assert_eq!(iter.len(), 0);
    assert!(iter.is_empty());
}

#[test]
fn raw_iter_steps_by_the_element_size() {
    let mut iter: RawIter<u32> = RawIter::new(64, 3);
    assert_eq!(iter.len(), 3);
    assert_eq!(iter.next_unchecked(), 64);
    assert_eq!(iter.next_unchecked(), 68);
    assert_eq!(iter.len(), 1);
    assert_eq!(iter.next_unchecked(), 72);
    assert!(iter.is_empty());
    let empty: RawIter<u64> = RawIter::new(8, 0);
    assert!(empty.is_empty());
    assert_eq!(empty.len(), 0);
}

#[test]
fn raw_iter_counts_zero_sized_elements() {
    let mut iter: RawIter<()> = RawIter::new(16, 2);
    assert_eq!(iter.len(), 2);
    assert_eq!(iter.next_unchecked(), 16);
    assert_eq!(iter.next_unchecked(), 16);
    assert_eq!(iter.len(), 0);
    assert!(iter.is_empty());
}

#[test]
fn providers_answer_for_their_arguments() {
    assert_eq!(<SizedLayoutProvider as LayoutProvider<Slot<u32>, WithValue<u32>>>::cast(40, &with_value(1)), (40, 1));
    assert!(!<SizedLayoutProvider as LayoutProvider<Slot<u32>, WithValue<u32>>>::is_zeroed(&with_value(0)));
    let l = <SizedLayoutProvider as LayoutProvider<Slot<u32>, WithValue<u32>>>::layout(&with_value(0)).unwrap();
    assert_eq!((l.size(), l.align()), (4, 4));
    assert!(<PrimitiveLayoutProvider as LayoutProvider<Slot<u16>, u16>>::is_zeroed(&0));
    assert!(!<PrimitiveLayoutProvider as LayoutProvider<Slot<u16>, u16>>::is_zeroed(&3));
    assert!(<PrimitiveLayoutProvider as LayoutProvider<Slot<u16>, ()>>::is_zeroed(&()));
    assert!(<PrimitiveLayoutProvider as LayoutProvider<Slot<bool>, bool>>::is_zeroed(&false));
    assert!(!<PrimitiveLayoutProvider as LayoutProvider<Slot<bool>, bool>>::is_zeroed(&true));
    assert!(<PrimitiveLayoutProvider as LayoutProvider<Slot<char>, char>>::is_zeroed(&'\0'));
    let l = <PrimitiveLayoutProvider as LayoutProvider<Slot<u16>, u16>>::layout(&3).unwrap();
    assert_eq!((l.size(), l.align()), (2, 2));
    assert_eq!(<PrimitiveLayoutProvider as LayoutProvider<Slot<u16>, u16>>::cast(8, &3), (8, 1));
    assert_eq!(<i32 as Zeroable>::zeroed(), 0);
    assert!(0i8.check_zero());
    assert!(!(-1i64).check_zero());
}

#[test]
fn slice_provider_takes_the_length_from_the_recipe() {
    type P = SliceLayoutProvider<PrimitiveLayoutProvider>;
    let zero: WithLength<Repeat<u32>> = WithLength::from_init(3, repeat(0u32));
    let l = <P as LayoutProvider<[Slot<u32>], _>>::layout(&zero).unwrap();
    assert_eq!((l.size(), l.align()), (12, 4));
    assert_eq!(<P as LayoutProvider<[Slot<u32>], _>>::cast(96, &zero), (96, 3));
    assert!(<P as LayoutProvider<[Slot<u32>], _>>::is_zeroed(&zero));
    let five: WithLength<Repeat<u32>> = WithLength::from_init(usize::MAX, repeat(5u32));
    assert!(<P as LayoutProvider<[Slot<u32>], _>>::layout(&five).is_none());
    assert!(!<P as LayoutProvider<[Slot<u32>], _>>::is_zeroed(&five));
}

#[test]
fn zero_fill_and_the_writer_path_agree() {
    let mut by_fill: Slot<u32> = Slot::new();
    <PrimitiveLayoutProvider as LayoutProvider<Slot<u32>, u32>>::zero_fill(Uninit::from_raw(&mut by_fill), &0)
        .ok()
        .unwrap()
        .take_ownership();
    let mut by_write: Slot<u32> = Slot::new();
    Uninit::from_raw(&mut by_write).init(0u32).take_ownership();
    assert_eq!(by_fill.get(), by_write.get());
    assert_eq!(by_fill.get().unwrap().to_ne_bytes(), [0u8; 4]);

    type P = SliceLayoutProvider<PrimitiveLayoutProvider>;
    let recipe: WithLength<Repeat<i16>> = WithLength::from_init(4, repeat(0i16));
    let mut by_fill: Vec<Slot<i16>> = Slot::run(4);
    <P as LayoutProvider<[Slot<i16>], _>>::zero_fill(Uninit::from_raw(by_fill.as_mut_slice()), &recipe)
        .ok()
        .unwrap()
        .take_ownership();
    let mut by_write: Vec<Slot<i16>> = Slot::run(4);
    Uninit::from_raw(by_write.as_mut_slice()).init(recipe).take_ownership();
    for i in 0..4 {
        assert_eq!(by_fill[i].get(), by_write[i].get());
        assert_eq!(by_fill[i].get().unwrap().to_ne_bytes(), [0u8; 2]);
    }
}

#[test]
fn zero_fill_hands_the_region_back_where_it_is_not_claimed() {
    let mut slot: Slot<u32> = Slot::new();
    let r = <PrimitiveLayoutProvider as LayoutProvider<Slot<u32>, u32>>::zero_fill(
        Uninit::from_raw(&mut slot),
        &7,
    );
    match r {
        Ok(_) => panic!("seven is not zero"),
        Err(back) => back.init(7u32).take_ownership(),
    }
    assert_eq!(slot.get(), Some(&7));
    let mut slot: Slot<u32> = Slot::new();
    let r = <SizedLayoutProvider as LayoutProvider<Slot<u32>, WithValue<u32>>>::zero_fill(
        Uninit::from_raw(&mut slot),
        &with_value(0),
    );
    assert!(r.is_err());
    assert!(!slot.is_init());
}

#[test]
fn boxed_builds_on_the_heap() {
    let one: Box<Slot<u32>> = boxed(7u32);
    assert_eq!(one.get(), Some(&7));
    let zero: Box<Slot<u32>> = boxed(0u32);
    assert_eq!(zero.get(), Some(&0));
    let unit: Box<Slot<i64>> = boxed(());
    assert_eq!(unit.get(), Some(&0));
    let text: Box<Slot<String>> =
        boxed_with::<_, _, SizedLayoutProvider>(with_value(String::from("x")));
    assert_eq!(text.get().map(|s| s.as_str()), Some("x"));
    let run: Box<[Slot<u8>]> = boxed_with::<_, _, SliceLayoutProvider<PrimitiveLayoutProvider>>(
        WithLength::from_init(3, repeat(9u8)),
    );
    let read: Vec<u8> = run.iter().map(|s| *s.get().unwrap()).collect();
    assert_eq!(read, vec![9, 9, 9]);
    let zeros: Box<[Slot<u8>]> = boxed_with::<_, _, SliceLayoutProvider<PrimitiveLayoutProvider>>(
        WithLength::from_init(2, repeat(0u8)),
    );
    let read: Vec<u8> = zeros.iter().map(|s| *s.get().unwrap()).collect();
    assert_eq!(read, vec![0, 0]);
}

#[test]
fn boxed_picks_the_default_provider() {
    let text: Box<Slot<String>> = boxed(with_value(String::from("y")));
    assert_eq!(text.get().map(|s| s.as_str()), Some("y"));
    let run: Box<[Slot<u8>]> = boxed(WithLength::from_init(2, repeat(4u8)));
    let read: Vec<u8> = run.iter().map(|s| *s.get().unwrap()).collect();
    assert_eq!(read, vec![4, 4]);
    let zeros: Box<[Slot<u32>]> = boxed(WithLength::from_init(3, ()));
    let read: Vec<u32> = zeros.iter().map(|s| *s.get().unwrap()).collect();
    assert_eq!(read, vec![0, 0, 0]);
    let pulled: Result<Box<[Slot<u8>]>, _> =
        try_boxed(WithLength::init_from_iter(vec![1u8, 2].into_iter()));
    let read: Vec<u8> = pulled.ok().unwrap().iter().map(|s| *s.get().unwrap()).collect();
    assert_eq!(read, vec![1, 2]);
    let bad: Result<u8, &str> = Err("no");
    let r: Result<Box<Slot<u8>>, &str> = try_boxed(bad);
    assert_eq!(r.err(), Some("no"));
}

#[test]
fn try_boxed_reports_the_recipe_error() {
    let bad: Result<u32, &str> = Err("nope");
    let r: Result<Box<Slot<u32>>, &str> = try_boxed_with::<_, _, SizedLayoutProvider>(bad);
    assert_eq!(r.err(), Some("nope"));
    let good: Result<u32, &str> = Ok(4);
    let r: Result<Box<Slot<u32>>, &str> = try_boxed_with::<_, _, SizedLayoutProvider>(good);
    assert_eq!(r.ok().unwrap().get(), Some(&4));
    let r: Result<Box<Slot<u8>>, Infallible> = try_boxed(5u8);
    assert_eq!(r.ok().unwrap().get(), Some(&5));
}

#[test]
fn obtain_respects_the_shape() {
    assert!(<Slot<u8> as Boxable>::obtain(1).is_some());
    assert!(<Slot<u8> as Boxable>::obtain(0).is_none());
    assert!(<Slot<u8> as Boxable>::obtain(2).is_none());
    let run = <[Slot<u8>] as Boxable>::obtain(3).unwrap();
    assert_eq!(run.len(), 3);
    assert!(run.iter().all(|s| !s.is_init()));
}

#[test]
fn function_recipes_run_the_function() {
    let mut slot: Slot<u32> = Slot::new();
    let recipe = from_fn(|u: Uninit<Slot<u32>>| u.write(11));
    let init = recipe.try_init_into(Uninit::from_raw(&mut slot)).unwrap_or_else(|e| match e {});
    assert_eq!(*init.as_ref(), 11);
    init.take_ownership();
    let mut slot: Slot<u32> = Slot::new();
    let recipe = try_from_fn(|u: Uninit<Slot<u32>>| -> Result<Init<Slot<u32>>, &str> {
        u.release();
        Err("refused")
    });
    assert_eq!(recipe.try_init_into(Uninit::from_raw(&mut slot)).err(), Some("refused"));
    assert!(!slot.is_init());
    let mut slot: Slot<u32> = Slot::new();
    let recipe = try_from_fn(|u: Uninit<Slot<u32>>| -> Result<Init<Slot<u32>>, &str> { Ok(u.write(2)) });
    assert!(recipe.try_init_into(Uninit::from_raw(&mut slot)).is_ok());
    assert_eq!(slot.get(), Some(&2));
}

#[test]
fn thin_round_trips_the_pointer() {
    let value = 5u32;
    let thin = ThinCopy::erase(&value);
    assert_eq!(thin.as_erased_ptr(), (&value).into_erased());
    assert_eq!(thin.as_erased_ptr(), value.erase());
    assert_eq!(**thin.as_ptr(), 5);
    assert_eq!(*ThinCopy::to_inner(thin), 5);
    let other = 5u32;
    assert!(ThinCopy::ptr_eq(&ThinCopy::erase(&value), &ThinCopy::erase(&value)));
    assert!(!ThinCopy::ptr_eq(&ThinCopy::erase(&value), &ThinCopy::erase(&other)));

    let mut thin = Thin::erase(Box::new(String::from("a")));
    let addr = thin.as_erased_ptr();
    assert_eq!(thin.with(|b| b.len()), 1);
    assert_eq!(thin.as_ptr().as_str(), "a");
    assert_eq!(thin.as_mut_ptr().as_str(), "a");
    assert!(Thin::ptr_eq(&thin, &thin));
    let kept = Box::new(String::from("bc"));
    let kept_addr = kept.into_erased();
    let old = thin.with_mut(|b| std::mem::replace(b, kept));
    assert_eq!(*old, "a");
    assert_eq!(thin.as_erased_ptr(), kept_addr);
    assert_ne!(thin.as_erased_ptr(), addr);
    assert_eq!(*Thin::into_inner(thin), "bc");
}

#[test]
fn converters_convert() {
    let wrapped = Wrapper(&7u8);
    let converter: TagFrom<u8, u32> = wrapped.get_converter();
    assert_eq!(converter.convert(7u8), 7u32);
    let r: Result<u8, Infallible> = Ok(1);
    let v: u8 = match r {
        Ok(v) => v,
        Err(never) => TagInf.convert(never),
    };
    assert_eq!(v, 1);
    let r: Result<u8, Infallible> = Ok(3);
    let v: u8 = match r {
        Ok(v) => v,
        Err(never) => {
            let wrapped = Wrapper(&never);
            let converter: TagInf = GetConverter::<Infallible, ()>::get_converter(&&wrapped);
            converter.convert(never)
        }
    };
    assert_eq!(v, 3);
    let r: Result<u8, Infallible> = Ok(2);
    let v: u8 = match r {
        Ok(v) => v,
        Err(never) => never.empty(),
    };
    assert_eq!(v, 2);
}
